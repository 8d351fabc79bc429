//! A fractal tree: a trunk that forks, level after level, into two shorter
//! branches turned left and right by a fixed angle.
//!
//! The tree is computed in exact fixed-point arithmetic from the
//! [`settings::Settings`], and a [`model::Model`] keeps the tree that was
//! generated last together with the settings as they stand.

pub mod fixed;
pub mod trig;
pub mod geometry;
pub mod settings;
pub mod tree;
pub mod shape;
pub mod model;
