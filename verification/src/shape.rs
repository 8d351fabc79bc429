//! What holds of every tree: how many segments it has, and how they hang
//! together.

use vstd::prelude::*;
use vstd::arithmetic::power2::{lemma2_to64, lemma_pow2_strictly_increases, lemma_pow2_unfold, pow2};
use crate::fixed::lemma_scaled_unit;
use crate::geometry::{
    lemma_segments_of_injective, segment_from, segments_of, Branch, Position, Segment,
};
use crate::settings::Settings;
use crate::trig::lemma_sine_of_zero;
use crate::tree::{subtree, tree};

verus! {

/// The number of levels, counted from `level` upward, at which a tree of
/// the settings has branches: the levels up to the depth of the settings,
/// as far as their lengths are positive.
pub open spec fn levels_grown(settings: Settings, level: nat) -> nat
    decreases settings.depth + 1 - level,
{
    if level > settings.depth || settings.level_length(level) <= 0 {
        0
    } else {
        1 + levels_grown(settings, level + 1)
    }
}

/// Whether the segment at `index` starts where a segment before it ends.
pub open spec fn attached(segments: Seq<Segment>, index: int) -> bool {
    exists|earlier: int|
        0 <= earlier < index && (#[trigger] segments[earlier]).end == segments[index].start
}

/// Whether every segment but the first starts where a segment before it
/// ends.
pub open spec fn connected(segments: Seq<Segment>) -> bool {
    forall|index: int| 0 < index < segments.len() ==> #[trigger] attached(segments, index)
}

/// The tree is a function of the settings and the base: whenever the
/// generator is run twice on settings with the same four fields and the
/// same base, the two vectors hold the same branches in the same order.
pub proof fn lemma_generate_tree_deterministic(
    first: Settings,
    second: Settings,
    base: Position,
    first_branches: Seq<Branch>,
    second_branches: Seq<Branch>,
)
    requires
        first.angle == second.angle,
        first.length == second.length,
        first.depth == second.depth,
        first.shrink_factor == second.shrink_factor,
        segments_of(first_branches) == tree(first, base),
        segments_of(second_branches) == tree(second, base),
    ensures
        first_branches == second_branches,
{
    lemma_segments_of_injective(first_branches, second_branches);
}

/// A tree of depth zero with a trunk of positive length is that trunk
/// alone: it starts at the base and ends straight above it, as far as the
/// trunk is long.
pub proof fn lemma_tree_of_depth_zero(settings: Settings, base: Position)
    requires
        settings.depth == 0,
        settings.length > 0,
    ensures
        tree(settings, base) == seq![
            Segment { start: base, end: Position { x: base.x, y: base.y + settings.length } },
        ],
{
    lemma_sine_of_zero();
    lemma_scaled_unit(settings.length as int);
    let trunk = segment_from(base, 0, settings.length as int);
    assert(subtree(settings, trunk.end, 0 + settings.angle, 1) =~= Seq::<Segment>::empty());
    assert(subtree(settings, trunk.end, 0 - settings.angle, 1) =~= Seq::<Segment>::empty());
}

/// A tree whose trunk has no length, or less, is empty, whatever its depth
/// and angle are.
pub proof fn lemma_tree_of_no_length(settings: Settings, base: Position)
    requires
        settings.length <= 0,
    ensures
        tree(settings, base) == Seq::<Segment>::empty(),
{
}

/// A power of two exceeds its exponent.
proof fn lemma_pow2_exceeds(exponent: nat)
    ensures
        pow2(exponent) > exponent,
    decreases exponent,
{
    if exponent == 0 {
        lemma2_to64();
    } else {
        lemma_pow2_exceeds((exponent - 1) as nat);
        lemma_pow2_unfold(exponent);
    }
}

/// What grows from a point has one segment less than two to the power of
/// the number of levels that grow there.
pub proof fn lemma_subtree_size(settings: Settings, start: Position, heading: int, level: nat)
    ensures
        subtree(settings, start, heading, level).len() == pow2(levels_grown(settings, level)) - 1,
    decreases settings.depth + 1 - level,
{
    let length = settings.level_length(level);
    if level > settings.depth || length <= 0 {
        lemma2_to64();
    } else {
        let trunk = segment_from(start, heading, length);
        lemma_subtree_size(settings, trunk.end, heading + settings.angle, level + 1);
        lemma_subtree_size(settings, trunk.end, heading - settings.angle, level + 1);
        lemma_pow2_unfold(levels_grown(settings, level));
    }
}

/// No more levels grow than lie between a level and the depth, and all of
/// them grow where the branches of the last level still have a positive
/// length.
pub proof fn lemma_levels_grown_bounds(settings: Settings, level: nat)
    requires
        settings.valid(),
        level <= settings.depth + 1,
    ensures
        levels_grown(settings, level) <= settings.depth + 1 - level,
        settings.level_length(settings.depth as nat) > 0 ==> levels_grown(settings, level)
            == settings.depth + 1 - level,
    decreases settings.depth + 1 - level,
{
    if level <= settings.depth {
        lemma_levels_grown_bounds(settings, level + 1);
        if settings.level_length(settings.depth as nat) > 0 {
            settings.lemma_level_length_positive_below(level, settings.depth as nat);
        }
    }
}

/// A tree of depth `d` has at most `2^(d+1) - 1` segments. Where the
/// branches of its last level still have a positive length it has exactly
/// that many, which is at least `d + 1`; in general it has `2^n - 1`
/// segments, where `n` is the number of levels that grow.
pub proof fn lemma_tree_size(settings: Settings, base: Position)
    requires
        settings.valid(),
    ensures
        tree(settings, base).len() == pow2(levels_grown(settings, 0)) - 1,
        tree(settings, base).len() <= pow2((settings.depth + 1) as nat) - 1,
        settings.level_length(settings.depth as nat) > 0 ==> {
            &&& tree(settings, base).len() == pow2((settings.depth + 1) as nat) - 1
            &&& tree(settings, base).len() >= settings.depth + 1
        },
{
    lemma_subtree_size(settings, base, 0, 0);
    lemma_levels_grown_bounds(settings, 0);
    let grown = levels_grown(settings, 0);
    let most = (settings.depth + 1) as nat;
    if grown < most {
        lemma_pow2_strictly_increases(grown, most);
    }
    lemma_pow2_exceeds(most);
}

/// What grows from a point starts there, and each of its further segments
/// starts where a segment before it ends.
pub proof fn lemma_subtree_connected(settings: Settings, start: Position, heading: int, level: nat)
    ensures
        subtree(settings, start, heading, level).len() > 0 ==> subtree(
            settings,
            start,
            heading,
            level,
        )[0] == segment_from(start, heading, settings.level_length(level)),
        connected(subtree(settings, start, heading, level)),
    decreases settings.depth + 1 - level,
{
    let length = settings.level_length(level);
    let whole = subtree(settings, start, heading, level);
    if level <= settings.depth && length > 0 {
        let trunk = segment_from(start, heading, length);
        let left = subtree(settings, trunk.end, heading + settings.angle, level + 1);
        let right = subtree(settings, trunk.end, heading - settings.angle, level + 1);
        lemma_subtree_connected(settings, trunk.end, heading + settings.angle, level + 1);
        lemma_subtree_connected(settings, trunk.end, heading - settings.angle, level + 1);
        assert forall|index: int| 0 < index < whole.len() implies #[trigger] attached(
            whole,
            index,
        ) by {
            if index <= left.len() {
                let inner = index - 1;
                assert(whole[index] == left[inner]);
                if inner == 0 {
                    assert(whole[0].end == whole[index].start);
                } else {
                    assert(attached(left, inner));
                    let earlier = choose|earlier: int|
                        0 <= earlier < inner && (#[trigger] left[earlier]).end
                            == left[inner].start;
                    assert(whole[earlier + 1] == left[earlier]);
                    assert(whole[earlier + 1].end == whole[index].start);
                }
            } else {
                let inner = index - 1 - left.len();
                assert(whole[index] == right[inner]);
                if inner == 0 {
                    assert(whole[0].end == whole[index].start);
                } else {
                    assert(attached(right, inner));
                    let earlier = choose|earlier: int|
                        0 <= earlier < inner && (#[trigger] right[earlier]).end
                            == right[inner].start;
                    assert(whole[earlier + 1 + left.len()] == right[earlier]);
                    assert(whole[earlier + 1 + left.len()].end == whole[index].start);
                }
            }
        }
    }
}

/// The trunk of a tree starts at the base, and every other segment starts
/// exactly where a segment that comes before it in the tree ends.
pub proof fn lemma_tree_connected(settings: Settings, base: Position)
    ensures
        tree(settings, base).len() > 0 ==> tree(settings, base)[0].start == base,
        connected(tree(settings, base)),
{
    lemma_subtree_connected(settings, base, 0, 0);
}

} // verus!
