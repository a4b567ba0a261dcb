//! Points, directed segments and path commands, in fixed-point units.
use vstd::prelude::*;

verus! {

/// A point or a displacement, in twips.
#[derive(Clone, Copy, Debug, PartialEq, Eq, Structural)]
pub struct Vector2D {
    pub x: i32,
    pub y: i32,
}

/// Component-wise sum, wrapping on overflow as two's-complement arithmetic does.
pub open spec fn vec_add(left: Vector2D, right: Vector2D) -> Vector2D {
    Vector2D {
        x: vstd::wrapping::i32_specs::wrapping_add(left.x, right.x),
        y: vstd::wrapping::i32_specs::wrapping_add(left.y, right.y),
    }
}

pub fn add_vec2(left: Vector2D, right: Vector2D) -> (r: Vector2D)
    ensures
        r == vec_add(left, right),
{
    Vector2D { x: left.x.wrapping_add(right.x), y: left.y.wrapping_add(right.y) }
}

/// Component-wise difference, wrapping on overflow.
pub open spec fn vec_sub(left: Vector2D, right: Vector2D) -> Vector2D {
    Vector2D {
        x: vstd::wrapping::i32_specs::wrapping_sub(left.x, right.x),
        y: vstd::wrapping::i32_specs::wrapping_sub(left.y, right.y),
    }
}

pub fn sub_vec2(left: Vector2D, right: Vector2D) -> (r: Vector2D)
    ensures
        r == vec_sub(left, right),
{
    Vector2D { x: left.x.wrapping_sub(right.x), y: left.y.wrapping_sub(right.y) }
}

/// Exact equality of two points, without going through a trait.
pub fn same_point(a: Vector2D, b: Vector2D) -> (r: bool)
    ensures
        r == (a == b),
{
    a.x == b.x && a.y == b.y
}

/// A directed edge: straight when `control` is `None`, a quadratic curve otherwise.
#[derive(Clone, Copy, Debug, PartialEq, Eq, Structural)]
pub struct Segment {
    pub start: Vector2D,
    pub end: Vector2D,
    pub control: Option<Vector2D>,
}

impl Segment {
    /// The same edge traversed in the other direction.
    pub open spec fn reversed(self) -> Segment {
        Segment { start: self.end, end: self.start, control: self.control }
    }

    pub fn new(start: Vector2D, end: Vector2D, control: Option<Vector2D>) -> (r: Segment)
        ensures
            r == (Segment { start, end, control }),
    {
        Segment { start, end, control }
    }

    pub fn reverse(&self) -> (r: Segment)
        ensures
            r == self.reversed(),
    {
        Segment { start: self.end, end: self.start, control: self.control }
    }
}

/// Reversing a segment twice gives back the segment.
pub proof fn lemma_reverse_involution(s: Segment)
    ensures
        s.reversed().reversed() == s,
{
}

/// One drawing command of a path.
#[derive(Clone, Copy, Debug, PartialEq, Eq, Structural)]
pub enum PathCommand {
    /// Starts a new subpath at the point.
    MoveTo(Vector2D),
    /// A straight line from the current point to the point.
    LineTo(Vector2D),
    /// A quadratic curve from the current point, with a control point and an end point.
    QuadraticBezierTo(Vector2D, Vector2D),
}

/// The command that draws `s` from its start point.
pub open spec fn command_of(s: Segment) -> PathCommand {
    match s.control {
        Some(c) => PathCommand::QuadraticBezierTo(c, s.end),
        None => PathCommand::LineTo(s.end),
    }
}

pub fn segment_command(s: &Segment) -> (r: PathCommand)
    ensures
        r == command_of(*s),
{
    match s.control {
        Some(c) => PathCommand::QuadraticBezierTo(c, s.end),
        None => PathCommand::LineTo(s.end),
    }
}

} // verus!
