//! The input of the decoder: a style table and a stream of shape records.
use vstd::prelude::*;

use swf_tree::{FillStyle, LineStyle};

use crate::geometry::{sub_vec2, vec_add, vec_sub, Vector2D};

verus! {

/// The fill and line styles that style indices refer to, 1-based.
#[derive(Debug)]
pub struct ShapeStyles {
    pub fill: Vec<FillStyle>,
    pub line: Vec<LineStyle>,
}

/// A straight edge from the pen position, by a displacement.
#[derive(Clone, Copy, Debug, PartialEq, Eq, Structural)]
pub struct StraightEdge {
    pub delta: Vector2D,
}

/// A quadratic curve from the pen position: the control point is at
/// `pen + control_delta`, the end point at `control + anchor_delta`.
#[derive(Clone, Copy, Debug, PartialEq, Eq, Structural)]
pub struct CurvedEdge {
    pub control_delta: Vector2D,
    pub anchor_delta: Vector2D,
}

impl CurvedEdge {
    /// The curve of an edge whose control point and end point are both given
    /// relative to its start.
    pub fn from_edge(control_delta: Vector2D, delta: Vector2D) -> (r: CurvedEdge)
        ensures
            r.control_delta == control_delta,
            r.anchor_delta == vec_sub(delta, control_delta),
    {
        CurvedEdge { control_delta, anchor_delta: sub_vec2(delta, control_delta) }
    }
}

/// A curve built from an edge's control and end points ends where that edge
/// ends, from any start point.
pub proof fn lemma_curve_from_edge_ends_at_edge_end(pen: Vector2D, control_delta: Vector2D, delta: Vector2D)
    ensures
        vec_add(vec_add(pen, control_delta), vec_sub(delta, control_delta)) == vec_add(pen, delta),
{
}

/// A change of the current styles or of the pen position. Each field that
/// is present applies; a new style table applies before the selectors.
#[derive(Debug)]
pub struct StyleChange {
    pub move_to: Option<Vector2D>,
    pub left_fill: Option<usize>,
    pub right_fill: Option<usize>,
    pub line_style: Option<usize>,
    pub new_styles: Option<ShapeStyles>,
}

#[derive(Debug)]
pub enum ShapeRecord {
    StraightEdge(StraightEdge),
    CurvedEdge(CurvedEdge),
    StyleChange(StyleChange),
}

/// A shape definition: the initial styles and the records, in drawing order.
#[derive(Debug)]
pub struct SwfShape {
    pub initial_styles: ShapeStyles,
    pub records: Vec<ShapeRecord>,
}

} // verus!
