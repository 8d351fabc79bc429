//! Points and branches, and the mathematical plane they stand for.

use vstd::prelude::*;
use crate::fixed::{lemma_scaled_bounds, scale, scaled};
use crate::trig::{cosine, cosine_of, lemma_sine_bounds, sine, sine_of};

verus! {

/// A point of the plane with unbounded coordinates, in millionths.
pub struct Position {
    pub x: int,
    pub y: int,
}

/// A straight line from one position to another: the trunk of a tree or one
/// of its branches.
pub struct Segment {
    pub start: Position,
    pub end: Position,
}

/// A point of the plane with machine coordinates, in millionths.
#[derive(Clone, Copy, Debug, PartialEq, Eq, Structural)]
pub struct Point {
    pub x: i64,
    pub y: i64,
}

/// One drawn line of a tree, from `start` to `end`.
#[derive(Clone, Copy, Debug, PartialEq, Eq, Structural)]
pub struct Branch {
    pub start: Point,
    pub end: Point,
}

impl View for Point {
    type V = Position;

    open spec fn view(&self) -> Position {
        Position { x: self.x as int, y: self.y as int }
    }
}

impl View for Branch {
    type V = Segment;

    open spec fn view(&self) -> Segment {
        Segment { start: self.start@, end: self.end@ }
    }
}

/// The segments that a sequence of branches stands for, in the same order.
pub open spec fn segments_of(branches: Seq<Branch>) -> Seq<Segment> {
    branches.map_values(|branch: Branch| branch@)
}

/// The position reached from `start` by going `length` in the direction
/// that is turned by `heading` from straight up. A positive heading turns
/// counter-clockwise, toward negative `x`.
pub open spec fn tip(start: Position, heading: int, length: int) -> Position {
    Position {
        x: start.x - scaled(length, sine(heading)),
        y: start.y + scaled(length, cosine(heading)),
    }
}

/// The segment of the given length that leaves `start` at the given heading.
pub open spec fn segment_from(start: Position, heading: int, length: int) -> Segment {
    Segment { start, end: tip(start, heading, length) }
}

/// A segment ends no further from its start, along either axis, than it is
/// long.
pub proof fn lemma_tip_within_reach(start: Position, heading: int, length: int)
    requires
        0 <= length,
    ensures
        start.x - length <= tip(start, heading, length).x <= start.x + length,
        start.y - length <= tip(start, heading, length).y <= start.y + length,
{
    lemma_sine_bounds(heading);
    lemma_scaled_bounds(length, sine(heading));
    lemma_scaled_bounds(length, cosine(heading));
}

/// Two sequences of branches that stand for the same segments are equal.
pub proof fn lemma_segments_of_injective(a: Seq<Branch>, b: Seq<Branch>)
    requires
        segments_of(a) == segments_of(b),
    ensures
        a == b,
{
    assert(b.len() == segments_of(b).len());
    assert forall|i: int| 0 <= i < a.len() implies a[i] == b[i] by {
        assert(segments_of(a)[i] == a[i]@);
        assert(segments_of(b)[i] == b[i]@);
    }
}

impl Branch {
    /// The branch of the given length that leaves `start` at the given
    /// heading.
    pub fn new(start: Point, heading: i64, length: i64) -> (branch: Branch)
        requires
            0 <= length,
            i64::MIN <= start.x - length,
            start.x + length <= i64::MAX,
            i64::MIN <= start.y - length,
            start.y + length <= i64::MAX,
        ensures
            branch@ == segment_from(start@, heading as int, length as int),
    {
        proof {
            lemma_tip_within_reach(start@, heading as int, length as int);
        }
        let across: i64 = scale(length, sine_of(heading));
        let along: i64 = scale(length, cosine_of(heading));
        Branch { start, end: Point { x: start.x - across, y: start.y + along } }
    }
}

} // verus!
