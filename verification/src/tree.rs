//! The tree generator.
//!
//! A tree is the sequence of its segments in pre-order: the trunk first,
//! then everything that grows from its left fork, then everything that grows
//! from its right fork.

use vstd::prelude::*;
use crate::fixed::scale;
use crate::geometry::{
    lemma_tip_within_reach, segment_from, segments_of, Branch, Point, Position, Segment,
};
use crate::settings::{Settings, MAX_LENGTH};
use crate::trig::{
    lemma_normalized_absorbs, lemma_normalized_shift, lemma_sine_congruent, normalize, normalized,
    FULL_TURN,
};

verus! {

/// Where the trunk of a tree starts unless the caller says otherwise:
/// 60 units along the `x` axis.
pub const BRANCHING_BASE: (i64, i64) = (60_000_000, 0);

/// The greatest distance from the origin, along either axis, at which a
/// tree may be planted: a million million units.
pub const MAX_COORDINATE: i64 = 1_000_000_000_000_000_000;

/// The part of a tree that grows from `start`: a segment of the length of
/// its level at the given heading, followed by what grows from its end
/// turned left by the branching angle and by what grows from its end turned
/// right by it, both one level up.
///
/// Nothing grows above the depth of the settings, and nothing grows at a
/// level whose length is not positive.
pub open spec fn subtree(settings: Settings, start: Position, heading: int, level: nat) -> Seq<
    Segment,
>
    decreases settings.depth + 1 - level,
{
    let length = settings.level_length(level);
    if level > settings.depth || length <= 0 {
        Seq::empty()
    } else {
        let trunk = segment_from(start, heading, length);
        seq![trunk] + subtree(settings, trunk.end, heading + settings.angle, level + 1) + subtree(
            settings,
            trunk.end,
            heading - settings.angle,
            level + 1,
        )
    }
}

/// The tree of the settings whose trunk starts at `base` and points
/// straight up.
pub open spec fn tree(settings: Settings, base: Position) -> Seq<Segment> {
    subtree(settings, base, 0, 0)
}

/// The base that was asked for, or else [`BRANCHING_BASE`].
pub open spec fn base_or_default(base: Option<Point>) -> Point {
    match base {
        Some(point) => point,
        None => Point { x: BRANCHING_BASE.0, y: BRANCHING_BASE.1 },
    }
}

/// Whether a point lies within [`MAX_COORDINATE`] of the origin along both
/// axes.
pub open spec fn plantable(point: Point) -> bool {
    &&& -MAX_COORDINATE <= point.x <= MAX_COORDINATE
    &&& -MAX_COORDINATE <= point.y <= MAX_COORDINATE
}

/// Headings that differ by whole turns grow the same subtree.
pub proof fn lemma_subtree_heading_congruent(
    settings: Settings,
    start: Position,
    heading: int,
    other: int,
    level: nat,
)
    requires
        normalized(heading) == normalized(other),
    ensures
        subtree(settings, start, heading, level) == subtree(settings, start, other, level),
    decreases settings.depth + 1 - level,
{
    let length = settings.level_length(level);
    if level <= settings.depth && length > 0 {
        lemma_sine_congruent(heading, other);
        lemma_normalized_shift(heading, other, settings.angle as int);
        let trunk = segment_from(start, heading, length);
        lemma_subtree_heading_congruent(
            settings,
            trunk.end,
            heading + settings.angle,
            other + settings.angle,
            level + 1,
        );
        lemma_subtree_heading_congruent(
            settings,
            trunk.end,
            heading - settings.angle,
            other - settings.angle,
            level + 1,
        );
    }
}

/// Generates the tree of the settings from the default base.
pub fn generate_tree(settings: &Settings) -> (branches: Vec<Branch>)
    requires
        settings.valid(),
    ensures
        segments_of(branches@) == tree(*settings, base_or_default(None)@),
{
    generate_tree_helper(settings, 0, None)
}

/// Generates what grows straight up from `base`, or from the default base
/// where none is given, when the trunk is taken to stand at level `levels`
/// of the settings: with `levels` zero the whole tree, with a greater number
/// a smaller tree of the branches of that level and above.
pub fn generate_tree_helper(settings: &Settings, levels: u32, base: Option<Point>) -> (branches:
    Vec<Branch>)
    requires
        settings.valid(),
        base matches Some(point) ==> plantable(point),
    ensures
        segments_of(branches@) == subtree(*settings, base_or_default(base)@, 0, levels as nat),
{
    let start: Point = match base {
        Some(point) => point,
        None => Point { x: BRANCHING_BASE.0, y: BRANCHING_BASE.1 },
    };
    let mut branches: Vec<Branch> = Vec::new();
    if levels <= settings.depth {
        let length: i64 = settings.length_at(levels);
        grow(settings, levels, start, 0, length, &mut branches);
    }
    branches
}

/// Appends to `branches` what grows from `start` at the given heading and
/// level, where `length` is the length of that level.
fn grow(
    settings: &Settings,
    level: u32,
    start: Point,
    heading: i64,
    length: i64,
    branches: &mut Vec<Branch>,
)
    requires
        settings.valid(),
        level <= settings.depth,
        0 <= heading < FULL_TURN,
        length == settings.level_length(level as nat),
        -MAX_COORDINATE - level * MAX_LENGTH <= start.x <= MAX_COORDINATE + level * MAX_LENGTH,
        -MAX_COORDINATE - level * MAX_LENGTH <= start.y <= MAX_COORDINATE + level * MAX_LENGTH,
    ensures
        segments_of(final(branches)@) == segments_of(old(branches)@) + subtree(
            *settings,
            start@,
            heading as int,
            level as nat,
        ),
    decreases settings.depth - level,
{
    if length <= 0 {
        return ;
    }
    proof {
        settings.lemma_level_length_bounds(level as nat);
        lemma_tip_within_reach(start@, heading as int, length as int);
    }
    let trunk = Branch::new(start, heading, length);
    branches.push(trunk);
    if level < settings.depth {
        let shorter: i64 = scale(length, settings.shrink_factor);
        let turn: i64 = normalize(settings.angle);
        let left: i64 = normalize(heading + turn);
        let right: i64 = normalize(heading - turn);
        proof {
            lemma_normalized_absorbs(heading as int, settings.angle as int);
            lemma_normalized_absorbs(heading + turn, 0);
            lemma_normalized_absorbs(heading - turn, 0);
            lemma_subtree_heading_congruent(
                *settings,
                trunk.end@,
                heading + settings.angle,
                left as int,
                (level + 1) as nat,
            );
            lemma_subtree_heading_congruent(
                *settings,
                trunk.end@,
                heading - settings.angle,
                right as int,
                (level + 1) as nat,
            );
        }
        grow(settings, level + 1, trunk.end, left, shorter, branches);
        grow(settings, level + 1, trunk.end, right, shorter, branches);
    } else {
        assert(subtree(*settings, trunk.end@, heading + settings.angle, (level + 1) as nat)
            =~= Seq::<Segment>::empty());
        assert(subtree(*settings, trunk.end@, heading - settings.angle, (level + 1) as nat)
            =~= Seq::<Segment>::empty());
    }
}

} // verus!
