//! Parsed font data for geometric text rendering.

use vstd::prelude::*;

use ab_glyph::{FontRef, InvalidFont};
use ttf_parser::{Face, FaceParsingError};

verus! {

/// Declares the font handle of the `ab_glyph` crate.
#[verifier::external_type_specification]
#[verifier::external_body]
pub struct ExFontRef<'a>(ab_glyph::FontRef<'a>);

/// Declares the parse error of the `ab_glyph` crate.
#[verifier::external_type_specification]
#[verifier::external_body]
pub struct ExInvalidFont(ab_glyph::InvalidFont);

/// Declares the font face of the `ttf_parser` crate.
#[verifier::external_type_specification]
#[verifier::external_body]
pub struct ExFace<'a>(ttf_parser::Face<'a>);

/// Declares the parse error of the `ttf_parser` crate.
#[verifier::external_type_specification]
#[verifier::external_body]
pub struct ExFaceParsingError(ttf_parser::FaceParsingError);

/// Whether `ab_glyph` accepts the bytes as a font (the first face of a collection).
pub uninterp spec fn layout_parses(data: Seq<u8>) -> bool;

/// Whether `ttf_parser` accepts the bytes as a font face at the given index of a
/// collection.
pub uninterp spec fn geometry_parses(data: Seq<u8>, index: u32) -> bool;

/// `ab_glyph::FontRef::try_from_slice`: parses the layout tables of a font.
/// Success depends on the bytes alone.
#[verifier::external_body]
fn parse_layout<'a>(data: &'a [u8]) -> (r: Result<FontRef<'a>, InvalidFont>)
    ensures
        r is Ok <==> layout_parses(data@),
{
    FontRef::try_from_slice(data)
}

/// `ttf_parser::Face::parse`: parses the face at `index` of a font file.
/// Success depends on the bytes and the index alone.
#[verifier::external_body]
fn parse_geometry<'a>(data: &'a [u8], index: u32) -> (r: Result<Face<'a>, FaceParsingError>)
    ensures
        r is Ok <==> geometry_parses(data@, index),
{
    Face::parse(data, index)
}

/// A container for parsed font data, optimized for geometric rendering: the
/// layout interface (advances, kerning) and the geometry interface (outlines).
///
/// Create it once and keep it, rather than parsing the font every frame.
pub struct GeometricFont<'a> {
    pub layout: FontRef<'a>,
    pub geometry: Face<'a>,
}

impl<'a> GeometricFont<'a> {
    /// Parses raw font bytes (TTF/OTF) into a `GeometricFont`; the first face of
    /// a collection is used. Returns `None` when either parser rejects the data.
    pub fn new(data: &'a [u8]) -> (r: Option<Self>)
        ensures
            r is Some <==> (layout_parses(data@) && geometry_parses(data@, 0)),
    {
        let layout = match parse_layout(data) {
            Ok(layout) => layout,
            Err(_) => {
                return None;
            },
        };
        let geometry = match parse_geometry(data, 0) {
            Ok(geometry) => geometry,
            Err(_) => {
                return None;
            },
        };
        Some(GeometricFont { layout, geometry })
    }
}

} // verus!
