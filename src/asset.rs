//! Identifiers of registered assets.
use vstd::prelude::*;

verus! {

/// The identifier of a registered shape.
#[derive(Debug, Clone, Copy, PartialEq, Eq, Structural)]
pub struct ShapeId(pub usize);

/// The identifier of a registered morph shape.
#[derive(Debug, Clone, Copy, PartialEq, Eq, Structural)]
pub struct MorphShapeId(pub usize);

} // verus!
