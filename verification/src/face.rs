//! The font face parser: the calls this library makes into `ttf_parser`,
//! and the reasons a face can fail to parse.
use vstd::prelude::*;
use ttf_parser::{Face, FaceParsingError, GlyphId};
use crate::kerning::KernSubtable;
use crate::names::{NameRecord, records_view};

verus! {

/// A parsed font face of `ttf_parser`; opaque here.
#[verifier::external_type_specification]
#[verifier::external_body]
pub struct ExFace<'a>(Face<'a>);

/// Why font data could not be parsed as a face.
#[derive(Clone, Copy, PartialEq, Eq, Debug, Structural)]
pub enum FaceError {
    /// An attempt to read out of bounds detected.
    MalformedFont,
    /// The data does not start with a known font magic number.
    UnknownMagic,
    /// The face index is larger than the number of faces in the font.
    FaceIndexOutOfBounds,
    /// The head table is missing or malformed.
    NoHeadTable,
    /// The hhea table is missing or malformed.
    NoHheaTable,
    /// The maxp table is missing or malformed.
    NoMaxpTable,
}

/// What `ttf_parser::Face::parse` gives for `data` and face index `index`:
/// the parsed face, or why it refuses them.
pub uninterp spec fn parse_result_of(data: Seq<u8>, index: u32) -> Result<Face<'static>, FaceError>;

/// Calls `ttf_parser::Face::parse(data, index)` and tells the variants of
/// its `FaceParsingError` apart. The outcome, face or error, is a function of
/// the data and the index alone, named `parse_result_of`.
#[verifier::external_body]
pub(crate) fn parse_face_data<'a>(data: &'a [u8], index: u32) -> (r: Result<Face<'a>, FaceError>)
    ensures
        r is Ok <==> parse_result_of(data@, index) is Ok,
        r matches Ok(f) ==> (parse_result_of(data@, index) matches Ok(g) && g == f),
        r matches Err(e) ==> (parse_result_of(data@, index) matches Err(g) && g == e),
{
    match Face::parse(data, index) {
        Ok(face) => Ok(face),
        Err(FaceParsingError::MalformedFont) => Err(FaceError::MalformedFont),
        Err(FaceParsingError::UnknownMagic) => Err(FaceError::UnknownMagic),
        Err(FaceParsingError::FaceIndexOutOfBounds) => Err(FaceError::FaceIndexOutOfBounds),
        Err(FaceParsingError::NoHeadTable) => Err(FaceError::NoHeadTable),
        Err(FaceParsingError::NoHheaTable) => Err(FaceError::NoHheaTable),
        Err(FaceParsingError::NoMaxpTable) => Err(FaceError::NoMaxpTable),
    }
}

/// The number of glyphs `Face::number_of_glyphs` gives for a face.
pub uninterp spec fn number_of_glyphs_of(face: Face) -> u16;

/// The units per em `Face::units_per_em` gives for a face.
pub uninterp spec fn units_per_em_of(face: Face) -> u16;

/// The glyph id number `Face::glyph_index` gives for a face and a character.
pub uninterp spec fn glyph_index_of(face: Face, c: char) -> Option<u16>;

/// The ascender `Face::ascender` gives for a face.
pub uninterp spec fn ascender_of(face: Face) -> i16;

/// The descender `Face::descender` gives for a face.
pub uninterp spec fn descender_of(face: Face) -> i16;

/// The line gap `Face::line_gap` gives for a face.
pub uninterp spec fn line_gap_of(face: Face) -> i16;

/// The vertical ascender `Face::vertical_ascender` gives for a face.
pub uninterp spec fn vertical_ascender_of(face: Face) -> Option<i16>;

/// The vertical descender `Face::vertical_descender` gives for a face.
pub uninterp spec fn vertical_descender_of(face: Face) -> Option<i16>;

/// The vertical line gap `Face::vertical_line_gap` gives for a face.
pub uninterp spec fn vertical_line_gap_of(face: Face) -> Option<i16>;

/// The records of a face's `name` table, in order, as `Names::get` gives
/// them for each index below `Names::len`: name ID and encoded bytes of each,
/// `None` for a record whose string lies outside the table.
pub uninterp spec fn name_records_of(face: Face) -> Seq<Option<(u16, Seq<u8>)>>;

/// The subtables of a face's `kern` table, as they stand for the glyph pair
/// (`left`, `right`); `None` when the face has no `kern` table.
pub uninterp spec fn kern_subtables_of(face: Face, left: u16, right: u16) -> Option<Seq<KernSubtable>>;

/// Calls `Face::number_of_glyphs`, a function of the face named
/// `number_of_glyphs_of`, which the crate documents as never zero (the
/// `maxp` table holds it as a non-zero integer).
#[verifier::external_body]
pub(crate) fn face_number_of_glyphs(face: &Face) -> (r: u16)
    ensures
        r == number_of_glyphs_of(*face),
        r > 0,
{
    face.number_of_glyphs()
}

/// Calls `Face::units_per_em`, a function of the face named
/// `units_per_em_of`, which the crate documents to lie in `16..=16384` (the
/// `head` table is refused otherwise).
#[verifier::external_body]
pub(crate) fn face_units_per_em(face: &Face) -> (r: u16)
    ensures
        r == units_per_em_of(*face),
        16 <= r <= 16384,
{
    face.units_per_em()
}

/// Calls `Face::glyph_index` and takes the number of the glyph id; a
/// function of the face and the character, named `glyph_index_of`.
#[verifier::external_body]
pub(crate) fn face_glyph_index(face: &Face, c: char) -> (r: Option<u16>)
    ensures
        r == glyph_index_of(*face, c),
{
    face.glyph_index(c).map(|id| id.0)
}

/// Calls `Face::ascender`, a function of the face named `ascender_of`.
#[verifier::external_body]
pub(crate) fn face_ascender(face: &Face) -> (r: i16)
    ensures
        r == ascender_of(*face),
{
    face.ascender()
}

/// Calls `Face::descender`, a function of the face named `descender_of`.
#[verifier::external_body]
pub(crate) fn face_descender(face: &Face) -> (r: i16)
    ensures
        r == descender_of(*face),
{
    face.descender()
}

/// Calls `Face::line_gap`, a function of the face named `line_gap_of`.
#[verifier::external_body]
pub(crate) fn face_line_gap(face: &Face) -> (r: i16)
    ensures
        r == line_gap_of(*face),
{
    face.line_gap()
}

/// Calls `Face::vertical_ascender`, a function of the face named
/// `vertical_ascender_of`.
#[verifier::external_body]
pub(crate) fn face_vertical_ascender(face: &Face) -> (r: Option<i16>)
    ensures
        r == vertical_ascender_of(*face),
{
    face.vertical_ascender()
}

/// Calls `Face::vertical_descender`, a function of the face named
/// `vertical_descender_of`.
#[verifier::external_body]
pub(crate) fn face_vertical_descender(face: &Face) -> (r: Option<i16>)
    ensures
        r == vertical_descender_of(*face),
{
    face.vertical_descender()
}

/// Calls `Face::vertical_line_gap`, a function of the face named
/// `vertical_line_gap_of`.
#[verifier::external_body]
pub(crate) fn face_vertical_line_gap(face: &Face) -> (r: Option<i16>)
    ensures
        r == vertical_line_gap_of(*face),
{
    face.vertical_line_gap()
}

/// Reads every record of the face's `name` table (`Face::names()`, then
/// `Names::get` for each index below `Names::len`), each converted to its
/// name ID and a copy of its encoded bytes, or `None` where `get` gives none;
/// a function of the face named `name_records_of`.
#[verifier::external_body]
pub(crate) fn face_name_records(face: &Face) -> (r: Vec<Option<NameRecord>>)
    ensures
        records_view(r@) == name_records_of(*face),
{
    let names = face.names();
    (0..names.len()).map(|i| names.get(i).map(|n| NameRecord { name_id: n.name_id, bytes: n.name.to_vec() })).collect()
}

/// Reads the face's `kern` table (`Face::tables().kern`): `None` when the
/// face has none, otherwise each of its subtables in order, converted to its
/// flags and what `Subtable::glyphs_kerning` gives for the pair; a function of
/// the face and the pair named `kern_subtables_of`.
#[verifier::external_body]
pub(crate) fn face_kern_subtables(face: &Face, left: u16, right: u16) -> (r: Option<Vec<KernSubtable>>)
    ensures
        r is None ==> kern_subtables_of(*face, left, right) is None,
        r matches Some(v) ==> kern_subtables_of(*face, left, right) == Some(v@),
{
    let kern = face.tables().kern?;
    Some(kern.subtables.into_iter().map(|s| KernSubtable {
        horizontal: s.horizontal,
        has_cross_stream: s.has_cross_stream,
        has_state_machine: s.has_state_machine,
        kerning: s.glyphs_kerning(GlyphId(left), GlyphId(right)),
    }).collect())
}

} // verus!
