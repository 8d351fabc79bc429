//! Fixed-point numbers.
//!
//! Every length, coordinate, factor and angle of this library is an integer
//! count of millionths: `1_500_000` stands for one and a half.

use vstd::prelude::*;

verus! {

/// The fixed-point representation of the number one.
pub const ONE: i64 = 1_000_000;

/// The product of a magnitude and a factor, both counted in millionths,
/// rounded toward zero.
///
/// Rounding toward zero makes the product odd in each argument: scaling by
/// `-f` gives exactly the negation of scaling by `f`, so that the two
/// branches that leave a fork at opposite angles mirror each other.
pub open spec fn scaled(magnitude: int, factor: int) -> int {
    let product = magnitude * factor;
    if product >= 0 {
        product / (ONE as int)
    } else {
        -((-product) / (ONE as int))
    }
}

/// A factor of at most one in absolute value never moves a magnitude away
/// from zero, and the sign of the result is the product of the signs.
pub proof fn lemma_scaled_bounds(magnitude: int, factor: int)
    requires
        -ONE <= factor <= ONE,
    ensures
        magnitude >= 0 ==> -magnitude <= scaled(magnitude, factor) <= magnitude,
        magnitude <= 0 ==> magnitude <= scaled(magnitude, factor) <= -magnitude,
        magnitude >= 0 && factor >= 0 ==> scaled(magnitude, factor) >= 0,
        magnitude >= 0 && factor <= 0 ==> scaled(magnitude, factor) <= 0,
        magnitude <= 0 && factor >= 0 ==> scaled(magnitude, factor) <= 0,
        magnitude <= 0 && factor <= 0 ==> scaled(magnitude, factor) >= 0,
{
    let m = if magnitude >= 0 { magnitude } else { -magnitude };
    let f = if factor >= 0 { factor } else { -factor };
    let product = magnitude * factor;
    assert(0 <= (m * f) / 1_000_000 <= m) by (nonlinear_arith)
        requires
            0 <= m,
            0 <= f <= 1_000_000,
    ;
    assert((magnitude >= 0) == (factor >= 0) ==> product == m * f) by (nonlinear_arith)
        requires
            product == magnitude * factor,
            m == if magnitude >= 0 { magnitude } else { -magnitude },
            f == if factor >= 0 { factor } else { -factor },
    ;
    assert((magnitude >= 0) != (factor >= 0) ==> product == -(m * f)) by (nonlinear_arith)
        requires
            product == magnitude * factor,
            m == if magnitude >= 0 { magnitude } else { -magnitude },
            f == if factor >= 0 { factor } else { -factor },
    ;
}

/// Scaling by one changes nothing, and scaling by zero gives zero.
pub proof fn lemma_scaled_unit(magnitude: int)
    ensures
        scaled(magnitude, ONE as int) == magnitude,
        scaled(magnitude, 0) == 0,
{
}

/// Computes [`scaled`] for a factor between minus one and one. The least
/// magnitude of the machine is left out, because its opposite does not exist.
pub fn scale(magnitude: i64, factor: i64) -> (r: i64)
    requires
        i64::MIN < magnitude,
        -ONE <= factor <= ONE,
    ensures
        r == scaled(magnitude as int, factor as int),
{
    proof {
        lemma_scaled_bounds(magnitude as int, factor as int);
    }
    let wide: i128 = magnitude as i128;
    let f: i128 = factor as i128;
    let product: i128 = wide * f;
    if product >= 0 {
        let q: i128 = product / 1_000_000;
        q as i64
    } else {
        let q: i128 = (-product) / 1_000_000;
        (-q) as i64
    }
}

} // verus!
