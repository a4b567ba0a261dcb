//! The style values of the SWF format, carried through decoding unchanged.
use vstd::prelude::*;

verus! {

/// `swf_tree::FillStyle`: a solid color, gradient or bitmap fill. The decoder
/// only moves such values from the style table to the paths that use them.
#[verifier::external_type_specification]
#[verifier::external_body]
pub struct ExFillStyle(swf_tree::FillStyle);

/// `swf_tree::LineStyle`: a stroke's width, caps, joins and fill. The decoder
/// only moves such values from the style table to the paths that use them.
#[verifier::external_type_specification]
#[verifier::external_body]
pub struct ExLineStyle(swf_tree::LineStyle);

} // verus!
