//! Decoding of SWF vector shapes into style-tagged paths.
//!
//! A shape is a style table and a stream of edge records. The decoder walks
//! the stream, routes every edge into per-style segment bags, and joins each
//! bag into continuous subpaths.
pub mod asset;
pub mod geometry;
pub mod joiner;
pub mod layer;
pub mod pam;
pub mod records;
pub mod renderer;
pub mod shape_decoder;
pub mod stage;
pub mod styles;

pub use geometry::{PathCommand, Segment, Vector2D};
pub use records::{CurvedEdge, ShapeRecord, ShapeStyles, StraightEdge, StyleChange, SwfShape};
pub use shape_decoder::{decode_shape, DecodeError, Shape, ShapeDecoder, StyledPath};
