//! A font: a parsed face with its vertical line metrics and a cache of the
//! glyphs generated from it.
use vstd::prelude::*;
use std::sync::Arc;
use ttf_parser::Face;
use crate::cache::{
    GlyphCache, CacheEntry, keys_distinct, lookup, touched, inserted, lemma_touch_keeps_keys,
    law_insert_keeps_keys_distinct, law_lookup_after_insert, law_touch_keeps_lookups, lemma_first_slot,
    lemma_eviction_slot, lookup_slot,
};
use crate::face::{
    FaceError, parse_result_of, parse_face_data, face_number_of_glyphs, face_units_per_em,
    face_glyph_index, face_ascender, face_descender, face_line_gap, face_vertical_ascender,
    face_vertical_descender, face_vertical_line_gap, face_kern_subtables, face_name_records,
    number_of_glyphs_of, units_per_em_of, glyph_index_of, ascender_of, descender_of, line_gap_of,
    vertical_ascender_of, vertical_descender_of, vertical_line_gap_of, name_records_of,
    kern_subtables_of,
};
use crate::kerning::{KernSubtable, combine_kerning, kern_total};
use crate::names::{
    FULL_NAME_ID, find_name_record, first_with_id, name_lookup, records_view, has_id,
    lemma_first_with_id_unique,
};
use crate::unicode::{decode_utf16, decode_units, units_of};
use crate::metrics::{
    UnscaledLineMetrics, vertical_line_metrics_from, line_metrics_of, vertical_metrics_of,
};

verus! {

/// The message that goes with each reason a face fails to parse.
pub open spec fn error_message(e: FaceError) -> Seq<char> {
    match e {
        FaceError::MalformedFont => "An attempt to read out of bounds detected."@,
        FaceError::UnknownMagic => "Face data must start with 0x00010000, 0x74727565, 0x4F54544F or 0x74746366."@,
        FaceError::FaceIndexOutOfBounds => "The face index is larger than the number of faces in the font."@,
        FaceError::NoHeadTable => "The head table is missing or malformed."@,
        FaceError::NoHheaTable => "The hhea table is missing or malformed."@,
        FaceError::NoMaxpTable => "The maxp table is missing or malformed."@,
    }
}

/// The message of a glyph index past the face's last glyph.
pub open spec fn out_of_bounds_message() -> Seq<char> {
    "Attempted to map a codepoint out of bounds."@
}

/// Converts a face parsing error into its message.
pub fn convert_error(error: FaceError) -> (r: &'static str)
    ensures
        r@ == error_message(error),
{
    match error {
        FaceError::MalformedFont => "An attempt to read out of bounds detected.",
        FaceError::UnknownMagic => "Face data must start with 0x00010000, 0x74727565, 0x4F54544F or 0x74746366.",
        FaceError::FaceIndexOutOfBounds => "The face index is larger than the number of faces in the font.",
        FaceError::NoHeadTable => "The head table is missing or malformed.",
        FaceError::NoHheaTable => "The hhea table is missing or malformed.",
        FaceError::NoMaxpTable => "The maxp table is missing or malformed.",
    }
}

/// Parses the face at `collection_index` of `data`, turning a refusal into
/// its message.
pub fn face_from_bytes<'a>(data: &'a [u8], collection_index: u32) -> (r: Result<Face<'a>, &'static str>)
    ensures
        r is Ok <==> parse_result_of(data@, collection_index) is Ok,
        r matches Ok(f) ==> (parse_result_of(data@, collection_index) matches Ok(g) && g == f),
        r matches Err(m) ==> m@ == error_message(parse_result_of(data@, collection_index)->Err_0),
{
    match parse_face_data(data, collection_index) {
        Ok(face) => Ok(face),
        Err(e) => Err(convert_error(e)),
    }
}

/// A glyph index is usable when it is below the face's number of glyphs.
pub fn glyph_in_bounds(index: u16, number_of_glyphs: u16) -> (r: Result<u16, &'static str>)
    ensures
        index < number_of_glyphs ==> r == Ok::<u16, &'static str>(index),
        index >= number_of_glyphs ==> (r matches Err(m) && m@ == out_of_bounds_message()),
{
    if index >= number_of_glyphs {
        Err("Attempted to map a codepoint out of bounds.")
    } else {
        Ok(index)
    }
}

/// The glyph index a lookup that found `found` gives: the one found, or 0
/// (the missing-glyph index).
pub open spec fn resolved_index(found: Option<u16>) -> u16 {
    match found {
        Some(i) => i,
        None => 0u16,
    }
}

/// A lookup gives back the glyph index the character map found, unchanged,
/// and 0 only when it found none (or found glyph 0): the character has a
/// glyph exactly when the map gives a non-zero index.
pub proof fn law_lookup_keeps_found_index(found: Option<u16>)
    ensures
        found matches Some(i) ==> resolved_index(found) == i,
        found is None ==> resolved_index(found) == 0,
        (resolved_index(found) != 0) <==> (found matches Some(i) && i != 0),
{
}

/// The decoded string of a name given the encoded bytes found for it.
pub open spec fn decoded_name(found: Option<Seq<u8>>) -> Option<Seq<char>> {
    match found {
        Some(b) => Some(decode_units(units_of(b))),
        None => None,
    }
}

/// A string result as plain values.
pub open spec fn string_view(r: Option<String>) -> Option<Seq<char>> {
    match r {
        Some(s) => Some(s@),
        None => None,
    }
}

/// The kerning of a glyph pair given the subtables of a face's `kern` table
/// for it: `None` without a table.
pub open spec fn kern_value_of(subtables: Option<Seq<KernSubtable>>) -> Option<i16> {
    match subtables {
        Some(s) => kern_total(s),
        None => None,
    }
}

/// The number of slots a cache setting asks for; no slots when caching is
/// off.
pub open spec fn slots_of(cachesize: Option<usize>) -> usize {
    match cachesize {
        Some(n) => n,
        None => 0usize,
    }
}

/// Every glyph in the entries is one that `build` makes for the entry's
/// glyph index.
pub open spec fn made_by<G, F: Fn(u16) -> Result<G, &'static str>>(build: F, s: Seq<CacheEntry<G>>) -> bool {
    forall|i: int| 0 <= i < s.len() ==> call_ensures(build, (#[trigger] s[i].0,), Ok(s[i].1))
}

/// `r` is what generating glyph `index` of a face with `glyph_count` glyphs
/// gives: the out-of-bounds error past the last glyph, otherwise what `build`
/// makes of the index.
pub open spec fn generated<G, F: Fn(u16) -> Result<G, &'static str>>(
    glyph_count: u16,
    build: F,
    index: u16,
    r: Result<G, &'static str>,
) -> bool {
    if index < glyph_count {
        call_ensures(build, (index,), r)
    } else {
        r matches Err(m) && m@ == out_of_bounds_message()
    }
}

/// Cloning a `G` gives an equal value.
pub open spec fn clone_is_exact<G: Clone>() -> bool {
    forall|a: G, b: G| #[trigger] cloned(a, b) ==> a == b
}

/// The glyph index a character lookup gives: the one found, or 0 (the
/// missing-glyph index) when none was.
pub fn resolve_glyph_index(found: Option<u16>) -> (r: u16)
    ensures
        r == resolved_index(found),
        found matches Some(i) ==> r == i,
        found is None ==> r == 0,
{
    match found {
        Some(i) => i,
        None => 0,
    }
}

/// A font: a parsed face, its vertical line metrics in font units, whether
/// glyphs are cached, and the cache of glyphs of type `G`.
#[derive(Clone)]
pub struct Font<'a, G> {
    /// The parsed face.
    pub face: Arc<Face<'a>>,
    vertical_line_metrics: Option<UnscaledLineMetrics>,
    cachesize: Option<usize>,
    cache: GlyphCache<G>,
}

impl<'a, G> Font<'a, G> {
    /// The face.
    pub closed spec fn parsed_face(&self) -> Arc<Face<'a>> {
        self.face
    }

    /// The glyph cache.
    pub closed spec fn cache(&self) -> GlyphCache<G> {
        self.cache
    }

    /// The cache setting the font was made with; `None` turns caching off.
    pub closed spec fn cachesize(&self) -> Option<usize> {
        self.cachesize
    }

    /// The vertical line metrics found when the font was made.
    pub closed spec fn vertical_metrics(&self) -> Option<UnscaledLineMetrics> {
        self.vertical_line_metrics
    }

    /// The cache is well formed, has as many slots as the cache setting
    /// asks for, and holds each glyph index at most once.
    pub open spec fn wf(&self) -> bool {
        &&& self.cache().wf()
        &&& self.cache().cap() == slots_of(self.cachesize())
        &&& keys_distinct(self.cache().entries())
    }

    /// Constructs a font from a face. `cachesize` is the number of glyphs
    /// the cache holds; `None` turns caching off.
    pub fn from_face(face: Arc<Face<'a>>, cachesize: Option<usize>) -> (r: Result<Self, &'static str>)
        ensures
            r matches Ok(font) && {
                &&& font.wf()
                &&& font.parsed_face() == face
                &&& font.cachesize() == cachesize
                &&& font.cache().entries().len() == 0
                &&& font.cache().age() == 0
                &&& font.cache().cap() == slots_of(cachesize)
                &&& font.vertical_metrics() == vertical_metrics_of(
                    vertical_ascender_of(*face),
                    vertical_descender_of(*face),
                    vertical_line_gap_of(*face),
                )
            },
    {
        let ascender = face_vertical_ascender(&face);
        let descender = face_vertical_descender(&face);
        let line_gap = face_vertical_line_gap(&face);
        let vertical_line_metrics = vertical_line_metrics_from(ascender, descender, line_gap);
        let slots = match cachesize {
            Some(n) => n,
            None => 0,
        };
        Ok(Font { face, vertical_line_metrics, cachesize, cache: GlyphCache::new(slots) })
    }

    /// The vertical line metrics in font units, if the face has them.
    pub fn vertical_line_metrics(&self) -> (r: Option<UnscaledLineMetrics>)
        ensures
            r == self.vertical_metrics(),
    {
        self.vertical_line_metrics
    }

    /// The horizontal line metrics in font units.
    pub fn horizontal_line_metrics(&self) -> (r: UnscaledLineMetrics)
        ensures
            r == line_metrics_of(
                ascender_of(*self.parsed_face()),
                descender_of(*self.parsed_face()),
                line_gap_of(*self.parsed_face()),
            ),
            r.new_line_size == r.ascent - r.descent + r.line_gap,
            i16::MIN <= r.ascent <= i16::MAX,
            i16::MIN <= r.descent <= i16::MAX,
            i16::MIN <= r.line_gap <= i16::MAX,
    {
        let ascender = face_ascender(&self.face);
        let descender = face_descender(&self.face);
        let line_gap = face_line_gap(&self.face);
        UnscaledLineMetrics::new(ascender, descender, line_gap)
    }

    /// The face's units per em.
    pub fn units_per_em(&self) -> (r: u16)
        ensures
            r == units_per_em_of(*self.parsed_face()),
            16 <= r <= 16384,
    {
        face_units_per_em(&self.face)
    }

    /// The glyph index of `character`, or 0 (the missing-glyph index) when
    /// the face has no glyph for it.
    pub fn lookup_glyph_index(&self, character: char) -> (r: u16)
        ensures
            r == resolved_index(glyph_index_of(*self.parsed_face(), character)),
            glyph_index_of(*self.parsed_face(), character) matches Some(i) ==> r == i,
            glyph_index_of(*self.parsed_face(), character) is None ==> r == 0,
    {
        resolve_glyph_index(face_glyph_index(&self.face, character))
    }

    /// The string of the first readable record of the face's `name` table
    /// with name ID `id`, decoded from big-endian UTF-16, if there is one. See
    /// https://learn.microsoft.com/en-us/typography/opentype/spec/name#name-ids
    pub fn name_with_id(&self, id: u16) -> (r: Option<String>)
        ensures
            string_view(r) == decoded_name(name_lookup(name_records_of(*self.parsed_face()), id)),
    {
        let records = face_name_records(&self.face);
        let ghost view = records_view(records@);
        match find_name_record(&records, id) {
            Some(i) => {
                let name = match &records[i] {
                    Some(rec) => decode_utf16(rec.bytes.as_slice()),
                    None => String::new(),
                };
                proof {
                    let j = choose|j: int| first_with_id(view, id, j);
                    lemma_first_with_id_unique(view, id, i as int, j);
                }
                Some(name)
            },
            None => {
                proof {
                    assert(!exists|j: int| first_with_id(view, id, j)) by {
                        if exists|j: int| first_with_id(view, id, j) {
                            let j = choose|j: int| first_with_id(view, id, j);
                            assert(has_id(view[j], id));
                        }
                    }
                }
                None
            },
        }
    }

    /// The full name (name ID 4) of the face, if it has one.
    pub fn name(&self) -> (r: Option<String>)
        ensures
            string_view(r) == decoded_name(name_lookup(name_records_of(*self.parsed_face()), FULL_NAME_ID)),
    {
        self.name_with_id(FULL_NAME_ID)
    }

    /// Whether the face has a glyph for `character`.
    pub fn has_glyph(&self, character: char) -> (r: bool)
        ensures
            r == (resolved_index(glyph_index_of(*self.parsed_face(), character)) != 0),
            r <==> (glyph_index_of(*self.parsed_face(), character) matches Some(i) && i != 0),
    {
        self.lookup_glyph_index(character) != 0
    }

    /// The face's kerning of the glyph pair, summed over the horizontal
    /// subtables of its `kern` table; `None` when it has no such table, when
    /// none of those subtables has a value for the pair, or when the sum
    /// leaves the range of `i16`.
    pub fn get_kern_value(&self, left_glyph: u16, right_glyph: u16) -> (r: Option<i16>)
        ensures
            r == kern_value_of(kern_subtables_of(*self.parsed_face(), left_glyph, right_glyph)),
    {
        match face_kern_subtables(&self.face, left_glyph, right_glyph) {
            Some(subtables) => combine_kerning(&subtables),
            None => None,
        }
    }

    /// Checks that `index` names a glyph of the face. Glyph 0 always
    /// exists, and a face holds fewer than `u16::MAX + 1` glyphs, so index
    /// `u16::MAX` never does.
    pub fn glyph_index_in_bounds(&self, index: u16) -> (r: Result<u16, &'static str>)
        ensures
            r is Ok <==> index < number_of_glyphs_of(*self.parsed_face()),
            r is Ok ==> r == Ok::<u16, &'static str>(index),
            r matches Err(m) ==> m@ == out_of_bounds_message(),
            index == 0 ==> r is Ok,
            index == u16::MAX ==> (r matches Err(m) && m@ == out_of_bounds_message()),
    {
        glyph_in_bounds(index, face_number_of_glyphs(&self.face))
    }

    /// Makes the glyph at `index`: an index past the face's last glyph is
    /// refused, and `build` makes the glyph of any other.
    pub fn generate_new_glyph<F>(&self, index: u16, build: F) -> (r: Result<G, &'static str>)
        where F: Fn(u16) -> Result<G, &'static str>,
        requires
            build.requires((index,)),
        ensures
            generated(number_of_glyphs_of(*self.parsed_face()), build, index, r),
    {
        match self.glyph_index_in_bounds(index) {
            Ok(i) => build(i),
            Err(e) => Err(e),
        }
    }

    /// Returns the glyph at `idx`, from the cache when caching is on.
    ///
    /// With caching off, the glyph is generated (`generate_new_glyph`, with
    /// `build` making the glyph of an index in bounds) and the cache is left
    /// alone. With caching on, the lookup is recorded; on a hit a clone of the
    /// cached glyph is returned, and on a miss the glyph is generated,
    /// a clone of which is inserted when it succeeds and the cache has slots.
    pub fn get_glyph_mut_cache<F>(&mut self, idx: u16, build: F) -> (r: Result<G, &'static str>)
        where G: Clone, F: Fn(u16) -> Result<G, &'static str>,
        requires
            old(self).wf(),
            old(self).cache().age() < usize::MAX,
            build.requires((idx,)),
        ensures
            final(self).wf(),
            final(self).parsed_face() == old(self).parsed_face(),
            final(self).cachesize() == old(self).cachesize(),
            final(self).vertical_metrics() == old(self).vertical_metrics(),
            final(self).cache().cap() == old(self).cache().cap(),
            clone_is_exact::<G>() && made_by(build, old(self).cache().entries()) ==> {
                &&& made_by(build, final(self).cache().entries())
                &&& (r matches Ok(g) ==> call_ensures(build, (idx,), Ok(g)))
            },
            old(self).cachesize() is Some && old(self).cache().cap() > 0 && idx < number_of_glyphs_of(
                *old(self).parsed_face(),
            ) && (forall|x: Result<G, &'static str>| call_ensures(build, (idx,), x) ==> x is Ok)
                ==> r is Ok && lookup(final(self).cache().entries(), idx) is Some,
            old(self).cachesize() is None ==> {
                &&& final(self).cache() == old(self).cache()
                &&& generated(number_of_glyphs_of(*old(self).parsed_face()), build, idx, r)
            },
            old(self).cachesize() is Some ==> {
                &&& final(self).cache().age() == old(self).cache().age() + 1
                &&& lookup(old(self).cache().entries(), idx) matches Some(cached) ==> {
                    &&& final(self).cache().entries() == touched(
                        old(self).cache().entries(),
                        idx,
                        final(self).cache().age(),
                    )
                    &&& (r matches Ok(g) && cloned(cached, g))
                }
                &&& lookup(old(self).cache().entries(), idx) is None ==> {
                    &&& generated(number_of_glyphs_of(*old(self).parsed_face()), build, idx, r)
                    &&& (r is Err || old(self).cache().cap() == 0) ==> final(self).cache().entries()
                        == old(self).cache().entries()
                    &&& (r is Ok && old(self).cache().cap() > 0) ==> exists|c: G|
                        cloned(r->Ok_0, c) && #[trigger] final(self).cache().entries() == inserted(
                            old(self).cache().entries(),
                            old(self).cache().cap(),
                            idx,
                            c,
                            final(self).cache().age(),
                        )
                }
                &&& (r is Ok && old(self).cache().cap() > 0) ==> lookup(
                    final(self).cache().entries(),
                    idx,
                ) is Some
            },
    {
        if self.cachesize.is_none() {
            return self.generate_new_glyph(idx, build);
        }
        let ghost before = self.cache.entries();
        match self.cache.try_mut(idx) {
            Some(g) => {
                proof {
                    lemma_touch_keeps_keys(before, idx, self.cache.age());
                    law_touch_keeps_lookups(before, idx, self.cache.age(), idx);
                    lemma_first_slot(before, idx);
                    if clone_is_exact::<G>() && made_by(build, before) {
                        let t = self.cache.entries();
                        assert forall|i: int| 0 <= i < t.len() implies call_ensures(
                            build,
                            (#[trigger] t[i].0,),
                            Ok(t[i].1),
                        ) by {
                            assert(t[i].0 == before[i].0 && t[i].1 == before[i].1);
                        }
                        let k = lookup_slot(before, idx);
                        assert(before[k].0 == idx);
                        assert(cloned(before[k].1, g));
                    }
                }
                Ok(g)
            },
            None => {
                let made = self.generate_new_glyph(idx, build);
                match made {
                    Ok(g) => {
                        let has_slots = match self.cachesize {
                            Some(n) => n > 0,
                            None => false,
                        };
                        if !has_slots {
                            return Ok(g);
                        }
                        let c = g.clone();
                        proof {
                            law_insert_keeps_keys_distinct(before, self.cache.cap(), idx, c, self.cache.age());
                        }
                        self.cache.insert(idx, c);
                        assert(cloned(g, c));
                        proof {
                            law_lookup_after_insert(before, old(self).cache().cap(), idx, c, self.cache.age());
                        }
                        assert(self.cache.entries() == inserted(before, old(self).cache().cap(), idx, c, self.cache.age()));
                        proof {
                            if clone_is_exact::<G>() && made_by(build, before) {
                                assert(c == g);
                                let t = self.cache.entries();
                                if before.len() >= old(self).cache().cap() {
                                    lemma_eviction_slot(before);
                                }
                                assert forall|i: int| 0 <= i < t.len() implies call_ensures(
                                    build,
                                    (#[trigger] t[i].0,),
                                    Ok(t[i].1),
                                ) by {
                                    if t[i] != before[i] {
                                        assert(t[i] == (idx, c, self.cache.age()));
                                    }
                                }
                            }
                        }
                        Ok(g)
                    },
                    Err(e) => Err(e),
                }
            },
        }
    }
}

} // verus!
