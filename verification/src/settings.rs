//! The parameters of a tree.

use vstd::prelude::*;
use crate::fixed::{lemma_scaled_bounds, scale, scaled, ONE};

verus! {

/// The trunk length of the default settings: 20 units.
pub const BRANCH_LENGTH: i64 = 20_000_000;

/// The branching angle of the default settings: 60 degrees.
pub const DEFAULT_ANGLE: i64 = 60_000_000;

/// The depth of the default settings.
pub const DEFAULT_DEPTH: u32 = 8;

/// The shrink factor of the default settings: 0.67.
pub const DEFAULT_SHRINK_FACTOR: i64 = 670_000;

/// The least angle that a control panel offers unless it is told otherwise:
/// 0 degrees.
pub const MIN_ANGLE: i64 = 0;

/// The greatest angle that a control panel offers unless it is told
/// otherwise: 20 degrees.
pub const MAX_ANGLE: i64 = 20_000_000;

/// The longest trunk that valid settings may ask for: a million units.
pub const MAX_LENGTH: i64 = 1_000_000_000_000;

/// The greatest depth that valid settings may ask for. A tree of this depth
/// has `2^32 - 1` branches, the most that a vector can count on every
/// machine.
pub const MAX_DEPTH: u32 = 31;

/// What a tree is generated from.
#[derive(Clone, Copy, Debug, PartialEq, Eq, Structural)]
pub struct Settings {
    /// The angle, in millionths of a degree, by which each of the two
    /// branches of a fork is turned away from the direction of their parent.
    pub angle: i64,
    /// The length of the trunk, in millionths.
    pub length: i64,
    /// The number of times the tree forks above its trunk.
    pub depth: u32,
    /// The ratio, in millionths, of a branch's length to its parent's.
    pub shrink_factor: i64,
}

/// The value between `lowest` and `highest` that is nearest to `value`:
/// `value` itself where it lies between them, and else the bound that it
/// lies beyond. Where the bounds are the wrong way round, a value between
/// them is left as it is.
pub open spec fn constrained(value: int, lowest: int, highest: int) -> int {
    if value < lowest {
        lowest
    } else if value > highest {
        highest
    } else {
        value
    }
}

impl Settings {
    /// Whether a tree can be generated from these settings: the trunk is at
    /// most [`MAX_LENGTH`] long, the shrink factor lies between zero and
    /// one, and the depth is at most [`MAX_DEPTH`]. Any angle will do.
    pub open spec fn valid(&self) -> bool {
        &&& -MAX_LENGTH <= self.length <= MAX_LENGTH
        &&& 0 <= self.shrink_factor <= ONE
        &&& self.depth <= MAX_DEPTH
    }

    /// The length of the branches of a level: the trunk's length at level
    /// zero, and at each further level the length of the level before,
    /// scaled by the shrink factor.
    pub open spec fn level_length(&self, level: nat) -> int
        decreases level,
    {
        if level == 0 {
            self.length as int
        } else {
            scaled(self.level_length((level - 1) as nat), self.shrink_factor as int)
        }
    }

    /// The settings that a model starts with.
    pub open spec fn initial() -> Settings {
        Settings {
            angle: DEFAULT_ANGLE,
            length: BRANCH_LENGTH,
            depth: DEFAULT_DEPTH,
            shrink_factor: DEFAULT_SHRINK_FACTOR,
        }
    }

    /// From a positive trunk on, the lengths of the levels never grow and
    /// never become negative; from a trunk that is not positive, no level
    /// has a positive length.
    pub proof fn lemma_level_length_bounds(&self, level: nat)
        requires
            self.valid(),
        ensures
            self.length > 0 ==> 0 <= self.level_length(level + 1) <= self.level_length(level)
                <= self.length,
            self.length <= 0 ==> self.length <= self.level_length(level) <= 0,
        decreases level,
    {
        if level > 0 {
            self.lemma_level_length_bounds((level - 1) as nat);
            lemma_scaled_bounds(
                self.level_length((level - 1) as nat),
                self.shrink_factor as int,
            );
        }
        lemma_scaled_bounds(self.level_length(level), self.shrink_factor as int);
    }

    /// A level with branches of positive length stands on levels with
    /// branches of positive length.
    pub proof fn lemma_level_length_positive_below(&self, lower: nat, upper: nat)
        requires
            self.valid(),
            lower <= upper,
            self.level_length(upper) > 0,
        ensures
            self.level_length(lower) > 0,
        decreases upper - lower,
    {
        if lower < upper {
            self.lemma_level_length_bounds(lower);
            self.lemma_level_length_bounds(upper);
            if self.length > 0 {
                self.lemma_level_length_positive_below(lower + 1, upper);
            }
        }
    }

    /// These settings with another angle: the angle asked for where it lies
    /// in the range from `lowest` to `highest` that the control panel
    /// offers, and else the end of the range that is nearest to it.
    pub fn with_angle(self, angle: i64, lowest: i64, highest: i64) -> (edited: Settings)
        ensures
            edited.angle == constrained(angle as int, lowest as int, highest as int),
            edited.length == self.length,
            edited.depth == self.depth,
            edited.shrink_factor == self.shrink_factor,
    {
        let within: i64 = if angle < lowest {
            lowest
        } else if angle > highest {
            highest
        } else {
            angle
        };
        Settings {
            angle: within,
            length: self.length,
            depth: self.depth,
            shrink_factor: self.shrink_factor,
        }
    }

    /// Tells whether the settings are [`valid`](Settings::valid).
    pub fn is_valid(&self) -> (ok: bool)
        ensures
            ok == self.valid(),
    {
        -MAX_LENGTH <= self.length && self.length <= MAX_LENGTH && 0 <= self.shrink_factor
            && self.shrink_factor <= ONE && self.depth <= MAX_DEPTH
    }

    /// Computes the [`level_length`](Settings::level_length) of a level.
    pub fn length_at(&self, level: u32) -> (length: i64)
        requires
            self.valid(),
        ensures
            length == self.level_length(level as nat),
    {
        let mut length: i64 = self.length;
        let mut done: u32 = 0;
        while done < level
            invariant
                self.valid(),
                done <= level,
                length == self.level_length(done as nat),
            decreases level - done,
        {
            proof {
                self.lemma_level_length_bounds(done as nat);
            }
            length = scale(length, self.shrink_factor);
            done = done + 1;
        }
        length
    }
}

impl Default for Settings {
    /// The settings that a model starts with.
    fn default() -> (settings: Settings)
        ensures
            settings == Settings::initial(),
            settings.valid(),
    {
        Settings {
            angle: DEFAULT_ANGLE,
            length: BRANCH_LENGTH,
            depth: DEFAULT_DEPTH,
            shrink_factor: DEFAULT_SHRINK_FACTOR,
        }
    }
}

} // verus!
