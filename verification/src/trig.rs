//! Sines and cosines of angles given in millionths of a degree.
//!
//! The values come from a table of the sines of the whole degrees of the
//! first quarter turn, with linear interpolation between neighbouring
//! entries.

use vstd::prelude::*;
use vstd::arithmetic::div_mod::{
    lemma_add_mod_noop, lemma_add_mod_noop_right, lemma_mod_twice, lemma_sub_mod_noop,
    lemma_sub_mod_noop_right,
};
use crate::fixed::ONE;

verus! {

/// A full turn, 360 degrees.
pub const FULL_TURN: i64 = 360_000_000;

/// Half a turn, 180 degrees.
pub const HALF_TURN: i64 = 180_000_000;

/// A quarter turn, 90 degrees.
pub const QUARTER_TURN: i64 = 90_000_000;

/// The sines of 0, 1, ..., 90 degrees in millionths, each rounded to the
/// nearest integer.
pub const SINE_TABLE: [i64; 91] = [
    0, 17452, 34899, 52336, 69756, 87156, 104528,
    121869, 139173, 156434, 173648, 190809, 207912, 224951,
    241922, 258819, 275637, 292372, 309017, 325568, 342020,
    358368, 374607, 390731, 406737, 422618, 438371, 453990,
    469472, 484810, 500000, 515038, 529919, 544639, 559193,
    573576, 587785, 601815, 615661, 629320, 642788, 656059,
    669131, 681998, 694658, 707107, 719340, 731354, 743145,
    754710, 766044, 777146, 788011, 798636, 809017, 819152,
    829038, 838671, 848048, 857167, 866025, 874620, 882948,
    891007, 898794, 906308, 913545, 920505, 927184, 933580,
    939693, 945519, 951057, 956305, 961262, 965926, 970296,
    974370, 978148, 981627, 984808, 987688, 990268, 992546,
    994522, 996195, 997564, 998630, 999391, 999848, 1000000,
];

/// The sine of an angle of the first quarter turn: the table's entry at a
/// whole degree, and between two whole degrees the point on the straight
/// line through their entries, rounded down.
pub open spec fn quarter_sine(angle: int) -> int
    recommends
        0 <= angle <= QUARTER_TURN,
{
    let degree = angle / (ONE as int);
    let fraction = angle % (ONE as int);
    if degree >= 90 {
        ONE as int
    } else {
        SINE_TABLE[degree] + ((SINE_TABLE[degree + 1] - SINE_TABLE[degree]) * fraction) / (ONE
            as int)
    }
}

/// The representative of an angle within one full turn, from zero up to
/// but not including 360 degrees.
pub open spec fn normalized(angle: int) -> int {
    angle % (FULL_TURN as int)
}

/// The sine of any angle, reduced to the first quarter turn by the
/// symmetries of the sine.
#[verifier::opaque]
pub open spec fn sine(angle: int) -> int {
    let turn = normalized(angle);
    if turn <= QUARTER_TURN {
        quarter_sine(turn)
    } else if turn <= HALF_TURN {
        quarter_sine(HALF_TURN - turn)
    } else if turn <= HALF_TURN + QUARTER_TURN {
        -quarter_sine(turn - HALF_TURN)
    } else {
        -quarter_sine(FULL_TURN - turn)
    }
}

/// The cosine of any angle: the sine of the angle a quarter turn further.
pub open spec fn cosine(angle: int) -> int {
    sine(angle + QUARTER_TURN)
}

/// The table starts at zero, ends at one and never decreases.
pub proof fn lemma_sine_table_monotonic()
    ensures
        SINE_TABLE[0] == 0,
        SINE_TABLE[90] == ONE,
        forall|degree: int|
            0 <= degree < 90 ==> SINE_TABLE[degree] <= #[trigger] SINE_TABLE[degree + 1],
        forall|degree: int| 0 <= degree <= 90 ==> 0 <= #[trigger] SINE_TABLE[degree] <= ONE,
{
}

/// Within the first quarter turn the sine lies between zero and one.
pub proof fn lemma_quarter_sine_bounds(angle: int)
    requires
        0 <= angle <= QUARTER_TURN,
    ensures
        0 <= quarter_sine(angle) <= ONE,
{
    lemma_sine_table_monotonic();
    let degree = angle / (ONE as int);
    let fraction = angle % (ONE as int);
    if degree < 90 {
        let rise = SINE_TABLE[degree + 1] - SINE_TABLE[degree];
        assert(0 <= (rise * fraction) / 1_000_000 <= rise) by (nonlinear_arith)
            requires
                0 <= rise,
                0 <= fraction < 1_000_000,
        ;
    }
}

/// Sine and cosine never leave the range from minus one to one.
pub proof fn lemma_sine_bounds(angle: int)
    ensures
        -ONE <= sine(angle) <= ONE,
        -ONE <= cosine(angle) <= ONE,
{
    lemma_sine_range(angle);
    lemma_sine_range(angle + QUARTER_TURN);
}

proof fn lemma_sine_range(angle: int)
    ensures
        -ONE <= sine(angle) <= ONE,
{
    reveal(sine);
    let turn = normalized(angle);
    if turn <= QUARTER_TURN {
        lemma_quarter_sine_bounds(turn);
    } else if turn <= HALF_TURN {
        lemma_quarter_sine_bounds(HALF_TURN - turn);
    } else if turn <= HALF_TURN + QUARTER_TURN {
        lemma_quarter_sine_bounds(turn - HALF_TURN);
    } else {
        lemma_quarter_sine_bounds(FULL_TURN - turn);
    }
}

/// Angles that differ by whole turns have the same sine and cosine.
pub proof fn lemma_sine_congruent(a: int, b: int)
    requires
        normalized(a) == normalized(b),
    ensures
        sine(a) == sine(b),
        cosine(a) == cosine(b),
{
    reveal(sine);
    lemma_normalized_shift(a, b, QUARTER_TURN as int);
}

/// Turning two headings that differ by whole turns by the same angle leaves
/// them differing by whole turns.
pub proof fn lemma_normalized_shift(a: int, b: int, by: int)
    requires
        normalized(a) == normalized(b),
    ensures
        normalized(a + by) == normalized(b + by),
        normalized(a - by) == normalized(b - by),
{
    lemma_add_mod_noop(a, by, FULL_TURN as int);
    lemma_add_mod_noop(b, by, FULL_TURN as int);
    lemma_sub_mod_noop(a, by, FULL_TURN as int);
    lemma_sub_mod_noop(b, by, FULL_TURN as int);
}

/// Normalizing an angle leaves its normalized form, and the normalized
/// forms of its sum with and its difference from any other angle, as they
/// are.
pub proof fn lemma_normalized_absorbs(a: int, b: int)
    ensures
        normalized(normalized(a)) == normalized(a),
        normalized(a + normalized(b)) == normalized(a + b),
        normalized(a - normalized(b)) == normalized(a - b),
{
    lemma_mod_twice(a, FULL_TURN as int);
    lemma_add_mod_noop_right(a, b, FULL_TURN as int);
    lemma_sub_mod_noop_right(a, b, FULL_TURN as int);
}

/// Straight ahead: the sine of zero is zero and its cosine is one.
pub proof fn lemma_sine_of_zero()
    ensures
        sine(0) == 0,
        cosine(0) == ONE,
{
    reveal(sine);
}

/// Brings an angle into the range of one full turn.
pub fn normalize(angle: i64) -> (turn: i64)
    ensures
        turn == normalized(angle as int),
        0 <= turn < FULL_TURN,
{
    if angle >= 0 {
        angle % FULL_TURN
    } else {
        let below: i64 = (-(angle + 1)) % FULL_TURN;
        FULL_TURN - 1 - below
    }
}

/// Computes [`quarter_sine`].
fn quarter_sine_of(angle: i64) -> (r: i64)
    requires
        0 <= angle <= QUARTER_TURN,
    ensures
        r == quarter_sine(angle as int),
        0 <= r <= ONE,
{
    proof {
        lemma_quarter_sine_bounds(angle as int);
        lemma_sine_table_monotonic();
    }
    let degree: i64 = angle / ONE;
    let fraction: i64 = angle % ONE;
    if degree >= 90 {
        ONE
    } else {
        let index: usize = degree as usize;
        let low: i64 = SINE_TABLE[index];
        let high: i64 = SINE_TABLE[index + 1];
        let rise: i64 = high - low;
        low + (rise * fraction) / ONE
    }
}

/// Computes the [`sine`] of any angle.
pub fn sine_of(angle: i64) -> (r: i64)
    ensures
        r == sine(angle as int),
        -ONE <= r <= ONE,
{
    reveal(sine);
    let turn: i64 = normalize(angle);
    if turn <= QUARTER_TURN {
        quarter_sine_of(turn)
    } else if turn <= HALF_TURN {
        quarter_sine_of(HALF_TURN - turn)
    } else if turn <= HALF_TURN + QUARTER_TURN {
        -quarter_sine_of(turn - HALF_TURN)
    } else {
        -quarter_sine_of(FULL_TURN - turn)
    }
}

/// Computes the [`cosine`] of any angle.
pub fn cosine_of(angle: i64) -> (r: i64)
    ensures
        r == cosine(angle as int),
        -ONE <= r <= ONE,
{
    let turn: i64 = normalize(angle);
    proof {
        lemma_sine_congruent(turn as int, angle as int);
    }
    sine_of(turn + QUARTER_TURN)
}

} // verus!
