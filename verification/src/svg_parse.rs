//! Parsing the bytes of an SVG file into `usvg`'s resolved tree. What the
//! tree holds is `f32` geometry, which the caller converts.

use vstd::prelude::*;
use crate::io::IoError;

verus! {

#[verifier::external_type_specification]
#[verifier::external_body]
pub struct ExSvgTree(usvg::Tree);

/// `bytes` begins with the gzip signature, the mark of a compressed `.svgz`.
pub open spec fn gzip_signature(bytes: Seq<u8>) -> bool {
    2 <= bytes.len() && bytes[0] == 0x1f && bytes[1] == 0x8b
}

/// Calls `usvg::Tree::from_data` with the default options and turns its
/// error into its message. It claims only that bytes which are neither
/// gzip-compressed nor valid UTF-8 are refused, which `from_data` checks
/// before parsing. Otherwise nothing is claimed of the outcome: with the
/// default options the parse may read files that the SVG links to and the
/// fonts installed on the machine, so it does not depend on the bytes alone.
#[verifier::external_body]
fn parse_svg(data: &[u8]) -> (r: Result<usvg::Tree, String>)
    ensures
        !gzip_signature(data@) && !vstd::utf8::valid_utf8(data@) ==> r is Err,
{
    match usvg::Tree::from_data(data, &usvg::Options::default()) {
        Ok(tree) => Ok(tree),
        Err(e) => Err(e.to_string()),
    }
}

/// Parse the bytes of an SVG file. The bytes go to the parser as given;
/// a parse error becomes [`IoError::Svg`] with the parser's message.
pub fn import_svg_bytes(data: &[u8]) -> (r: Result<usvg::Tree, IoError>)
    ensures
        r matches Err(e) ==> e is Svg,
        !gzip_signature(data@) && !vstd::utf8::valid_utf8(data@) ==> r is Err,
{
    match parse_svg(data) {
        Ok(tree) => Ok(tree),
        Err(message) => Err(IoError::Svg(message)),
    }
}

} // verus!
