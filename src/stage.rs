//! Plain values describing what a stage displays.
use vstd::prelude::*;

verus! {

/// Represents the interpolation ratio of a morph shape.
///
/// A value of `0` indicates that the shape is in its start state.
/// A value of `u16::MAX` indicates that the shape is its end state.
/// Intermediate values correspond to a linear interpolation between these two states.
#[derive(Debug, Clone, Copy, PartialEq, Eq, Structural)]
pub struct MorphRatio(pub u16);

} // verus!
