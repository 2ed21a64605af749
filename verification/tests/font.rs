use std::cell::Cell;
use std::sync::Arc;
use femtofont::face::FaceError;
use femtofont::font::{convert_error, face_from_bytes, glyph_in_bounds, Font};
use femtofont::metrics::UnscaledLineMetrics;

fn push16(v: &mut Vec<u8>, x: u16) {
    v.extend_from_slice(&x.to_be_bytes());
}

fn push32(v: &mut Vec<u8>, x: u32) {
    v.extend_from_slice(&x.to_be_bytes());
}

fn head_table(units_per_em: u16) -> Vec<u8> {
    let mut t = Vec::new();
    push32(&mut t, 0x0001_0000);
    push32(&mut t, 0);
    push32(&mut t, 0);
    push32(&mut t, 0x5F0F_3CF5);
    push16(&mut t, 0);
    push16(&mut t, units_per_em);
    t.extend_from_slice(&[0u8; 16]);
    t.extend_from_slice(&[0u8; 8]);
    push16(&mut t, 0);
    push16(&mut t, 8);
    push16(&mut t, 2);
    push16(&mut t, 0);
    push16(&mut t, 0);
    assert_eq!(t.len(), 54);
    t
}

fn metrics_table(ascender: i16, descender: i16, line_gap: i16) -> Vec<u8> {
    let mut t = Vec::new();
    push32(&mut t, 0x0001_0000);
    push16(&mut t, ascender as u16);
    push16(&mut t, descender as u16);
    push16(&mut t, line_gap as u16);
    t.extend_from_slice(&[0u8; 24]);
    push16(&mut t, 0);
    assert_eq!(t.len(), 36);
    t
}

fn maxp_table(glyphs: u16) -> Vec<u8> {
    let mut t = Vec::new();
    push32(&mut t, 0x0000_5000);
    push16(&mut t, glyphs);
    t
}

fn kern_table(subtables: &[(u8, u16, u16, i16)]) -> Vec<u8> {
    let mut t = Vec::new();
    push16(&mut t, 0);
    push16(&mut t, subtables.len() as u16);
    for (coverage, left, right, value) in subtables.iter() {
        push16(&mut t, 0);
        push16(&mut t, 20);
        t.push(0);
        t.push(*coverage);
        push16(&mut t, 1);
        push16(&mut t, 6);
        push16(&mut t, 0);
        push16(&mut t, 0);
        push16(&mut t, *left);
        push16(&mut t, *right);
        push16(&mut t, *value as u16);
    }
    t
}

fn name_table(records: &[(u16, &str)]) -> Vec<u8> {
    let mut t = Vec::new();
    push16(&mut t, 0);
    push16(&mut t, records.len() as u16);
    push16(&mut t, 6 + 12 * records.len() as u16);
    let mut storage = Vec::new();
    for (id, text) in records.iter() {
        let encoded: Vec<u8> = text.encode_utf16().flat_map(|u| u.to_be_bytes()).collect();
        push16(&mut t, 3);
        push16(&mut t, 1);
        push16(&mut t, 0x409);
        push16(&mut t, *id);
        push16(&mut t, encoded.len() as u16);
        push16(&mut t, storage.len() as u16);
        storage.extend_from_slice(&encoded);
    }
    t.extend_from_slice(&storage);
    t
}

fn font_file(tables: Vec<([u8; 4], Vec<u8>)>) -> Vec<u8> {
    font_file_at(tables, 0)
}

fn font_file_at(mut tables: Vec<([u8; 4], Vec<u8>)>, base: usize) -> Vec<u8> {
    tables.sort_by(|a, b| a.0.cmp(&b.0));
    let mut out = Vec::new();
    push32(&mut out, 0x0001_0000);
    push16(&mut out, tables.len() as u16);
    push16(&mut out, 0);
    push16(&mut out, 0);
    push16(&mut out, 0);
    let mut offset = base + 12 + 16 * tables.len();
    for (tag, data) in tables.iter() {
        out.extend_from_slice(tag);
        push32(&mut out, 0);
        push32(&mut out, offset as u32);
        push32(&mut out, data.len() as u32);
        offset += data.len();
    }
    for (_, data) in tables.iter() {
        out.extend_from_slice(data);
    }
    out
}

fn basic_font(extra: Vec<([u8; 4], Vec<u8>)>) -> Vec<u8> {
    let mut tables = vec![
        (*b"head", head_table(1000)),
        (*b"hhea", metrics_table(800, -200, 90)),
        (*b"maxp", maxp_table(60)),
    ];
    tables.extend(extra);
    font_file(tables)
}

#[test]
fn convert_error_messages() {
    assert_eq!(convert_error(FaceError::MalformedFont), "An attempt to read out of bounds detected.");
    assert_eq!(
        convert_error(FaceError::UnknownMagic),
        "Face data must start with 0x00010000, 0x74727565, 0x4F54544F or 0x74746366."
    );
    assert_eq!(
        convert_error(FaceError::FaceIndexOutOfBounds),
        "The face index is larger than the number of faces in the font."
    );
    assert_eq!(convert_error(FaceError::NoHeadTable), "The head table is missing or malformed.");
    assert_eq!(convert_error(FaceError::NoHheaTable), "The hhea table is missing or malformed.");
    assert_eq!(convert_error(FaceError::NoMaxpTable), "The maxp table is missing or malformed.");
}

#[test]
fn parse_errors_become_messages() {
    assert_eq!(face_from_bytes(b"abcd", 0).err(), Some(convert_error(FaceError::UnknownMagic)));
    assert_eq!(face_from_bytes(b"ab", 0).err(), Some(convert_error(FaceError::UnknownMagic)));
    assert_eq!(face_from_bytes(&[0, 1, 0, 0], 0).err(), Some(convert_error(FaceError::MalformedFont)));
    assert_eq!(
        face_from_bytes(&[0, 1, 0, 0, 0, 0, 0, 0, 0, 0, 0, 0], 1).err(),
        Some(convert_error(FaceError::FaceIndexOutOfBounds))
    );
    assert_eq!(
        face_from_bytes(&[0, 1, 0, 0, 0, 0, 0, 0, 0, 0, 0, 0], 0).err(),
        Some(convert_error(FaceError::NoHeadTable))
    );
    let no_hhea = font_file(vec![(*b"head", head_table(1000)), (*b"maxp", maxp_table(5))]);
    assert_eq!(face_from_bytes(&no_hhea, 0).err(), Some(convert_error(FaceError::NoHheaTable)));
    let no_maxp = font_file(vec![(*b"head", head_table(1000)), (*b"hhea", metrics_table(1, -1, 0))]);
    assert_eq!(face_from_bytes(&no_maxp, 0).err(), Some(convert_error(FaceError::NoMaxpTable)));
    assert!(face_from_bytes(&basic_font(vec![]), 0).is_ok());
}

#[test]
fn glyph_bounds_check() {
    assert_eq!(glyph_in_bounds(4, 5), Ok(4));
    assert_eq!(glyph_in_bounds(5, 5), Err("Attempted to map a codepoint out of bounds."));
    assert_eq!(glyph_in_bounds(0, 1), Ok(0));
}

#[test]
fn font_reads_face_metrics() {
    let data = basic_font(vec![]);
    let face = face_from_bytes(&data, 0).unwrap();
    let font: Font<u32> = Font::from_face(Arc::new(face), Some(40)).unwrap();
    assert_eq!(font.units_per_em(), 1000);
    assert_eq!(
        font.horizontal_line_metrics(),
        UnscaledLineMetrics { ascent: 800, descent: -200, line_gap: 90, new_line_size: 1090 }
    );
    assert_eq!(font.vertical_line_metrics(), None);
    assert_eq!(font.glyph_index_in_bounds(59), Ok(59));
    assert_eq!(font.glyph_index_in_bounds(60), Err("Attempted to map a codepoint out of bounds."));
    assert_eq!(font.glyph_index_in_bounds(0), Ok(0));
    assert_eq!(font.glyph_index_in_bounds(u16::MAX), Err("Attempted to map a codepoint out of bounds."));
    assert_eq!(font.lookup_glyph_index('a'), 0);
    assert!(!font.has_glyph('a'));
    assert_eq!(font.get_kern_value(1, 2), None);
}

#[test]
fn font_reads_vertical_metrics() {
    let data = basic_font(vec![(*b"vhea", metrics_table(500, -500, 20))]);
    let face = face_from_bytes(&data, 0).unwrap();
    let font: Font<u32> = Font::from_face(Arc::new(face), None).unwrap();
    assert_eq!(
        font.vertical_line_metrics(),
        Some(UnscaledLineMetrics { ascent: 500, descent: -500, line_gap: 20, new_line_size: 1020 })
    );
}

#[test]
fn font_sums_kerning_of_horizontal_subtables() {
    let data = basic_font(vec![(*b"kern", kern_table(&[(1, 1, 2, -50), (0, 1, 2, 30), (1, 1, 2, 20)]))]);
    let face = face_from_bytes(&data, 0).unwrap();
    let font: Font<u32> = Font::from_face(Arc::new(face), None).unwrap();
    assert_eq!(font.get_kern_value(1, 2), Some(-30));
    // No subtable has a value for this pair.
    assert_eq!(font.get_kern_value(2, 1), None);
}

#[test]
fn cached_glyph_is_generated_once() {
    let data = basic_font(vec![]);
    let face = face_from_bytes(&data, 0).unwrap();
    let mut font: Font<u32> = Font::from_face(Arc::new(face), Some(40)).unwrap();
    let calls = Cell::new(0u32);
    let generate = |i: u16| -> Result<u32, &'static str> {
        calls.set(calls.get() + 1);
        Ok(i as u32 * 10)
    };
    assert_eq!(font.get_glyph_mut_cache(3, &generate), Ok(30));
    assert_eq!(font.get_glyph_mut_cache(3, &generate), Ok(30));
    assert_eq!(calls.get(), 1);
    assert_eq!(font.get_glyph_mut_cache(4, &generate), Ok(40));
    assert_eq!(calls.get(), 2);
}

#[test]
fn uncached_font_generates_every_time() {
    let data = basic_font(vec![]);
    let face = face_from_bytes(&data, 0).unwrap();
    let mut font: Font<u32> = Font::from_face(Arc::new(face), None).unwrap();
    let calls = Cell::new(0u32);
    let generate = |i: u16| -> Result<u32, &'static str> {
        calls.set(calls.get() + 1);
        Ok(i as u32)
    };
    assert_eq!(font.get_glyph_mut_cache(3, &generate), Ok(3));
    assert_eq!(font.get_glyph_mut_cache(3, &generate), Ok(3));
    assert_eq!(calls.get(), 2);
}

#[test]
fn failed_generation_is_not_cached() {
    let data = basic_font(vec![]);
    let face = face_from_bytes(&data, 0).unwrap();
    let mut font: Font<u32> = Font::from_face(Arc::new(face), Some(40)).unwrap();
    let fail = |_: u16| -> Result<u32, &'static str> { Err("no glyph") };
    assert_eq!(font.get_glyph_mut_cache(9, &fail), Err("no glyph"));
    let ok = |i: u16| -> Result<u32, &'static str> { Ok(i as u32 + 1) };
    assert_eq!(font.get_glyph_mut_cache(9, &ok), Ok(10));
}

#[test]
fn font_finds_names_by_name_id() {
    let data = basic_font(vec![(*b"name", name_table(&[(1, "Fam"), (4, "Full Name"), (4, "Second")]))]);
    let face = face_from_bytes(&data, 0).unwrap();
    let font: Font<u32> = Font::from_face(Arc::new(face), None).unwrap();
    assert_eq!(font.name(), Some("Full Name".to_string()));
    assert_eq!(font.name_with_id(1), Some("Fam".to_string()));
    assert_eq!(font.name_with_id(2), None);
}

#[test]
fn font_without_name_table_has_no_name() {
    let data = basic_font(vec![]);
    let face = face_from_bytes(&data, 0).unwrap();
    let font: Font<u32> = Font::from_face(Arc::new(face), None).unwrap();
    assert_eq!(font.name(), None);
}

#[test]
fn cache_keeps_each_glyph_once() {
    let data = basic_font(vec![]);
    let face = face_from_bytes(&data, 0).unwrap();
    let mut font: Font<u32> = Font::from_face(Arc::new(face), Some(40)).unwrap();
    let calls = Cell::new(0u32);
    let generate = |i: u16| -> Result<u32, &'static str> {
        calls.set(calls.get() + 1);
        Ok(i as u32)
    };
    for round in 0..3u32 {
        for i in 0..50u16 {
            assert_eq!(font.get_glyph_mut_cache(i, &generate), Ok(i as u32));
        }
        // Cycling through more glyphs than the 40 slots always misses.
        assert_eq!(calls.get(), 50 * (round + 1));
    }
    for _ in 0..3 {
        // The 40 most recent glyphs (10..50) are all cached.
        for i in 10..50u16 {
            assert_eq!(font.get_glyph_mut_cache(i, &generate), Ok(i as u32));
        }
        assert_eq!(calls.get(), 150);
    }
}

#[test]
fn cache_size_setting_bounds_the_cache() {
    let data = basic_font(vec![]);
    let face = face_from_bytes(&data, 0).unwrap();
    let mut font: Font<u32> = Font::from_face(Arc::new(face), Some(2)).unwrap();
    let calls = Cell::new(0u32);
    let generate = |i: u16| -> Result<u32, &'static str> {
        calls.set(calls.get() + 1);
        Ok(i as u32)
    };
    assert_eq!(font.get_glyph_mut_cache(1, &generate), Ok(1));
    assert_eq!(font.get_glyph_mut_cache(2, &generate), Ok(2));
    assert_eq!(font.get_glyph_mut_cache(1, &generate), Ok(1));
    assert_eq!(font.get_glyph_mut_cache(2, &generate), Ok(2));
    assert_eq!(calls.get(), 2);
    // A third glyph replaces the least recently used one (1).
    assert_eq!(font.get_glyph_mut_cache(3, &generate), Ok(3));
    assert_eq!(font.get_glyph_mut_cache(2, &generate), Ok(2));
    assert_eq!(calls.get(), 3);
    assert_eq!(font.get_glyph_mut_cache(1, &generate), Ok(1));
    assert_eq!(calls.get(), 4);
}

#[test]
fn zero_cache_size_caches_nothing() {
    let data = basic_font(vec![]);
    let face = face_from_bytes(&data, 0).unwrap();
    let mut font: Font<u32> = Font::from_face(Arc::new(face), Some(0)).unwrap();
    let calls = Cell::new(0u32);
    let generate = |i: u16| -> Result<u32, &'static str> {
        calls.set(calls.get() + 1);
        Ok(i as u32)
    };
    assert_eq!(font.get_glyph_mut_cache(1, &generate), Ok(1));
    assert_eq!(font.get_glyph_mut_cache(1, &generate), Ok(1));
    assert_eq!(calls.get(), 2);
}

#[test]
fn out_of_bounds_glyph_is_refused_before_building() {
    let data = basic_font(vec![]);
    let face = face_from_bytes(&data, 0).unwrap();
    let mut font: Font<u32> = Font::from_face(Arc::new(face), Some(4)).unwrap();
    let calls = Cell::new(0u32);
    let build = |i: u16| -> Result<u32, &'static str> {
        calls.set(calls.get() + 1);
        Ok(i as u32)
    };
    assert_eq!(font.get_glyph_mut_cache(60, &build), Err("Attempted to map a codepoint out of bounds."));
    assert_eq!(font.generate_new_glyph(60, &build), Err("Attempted to map a codepoint out of bounds."));
    assert_eq!(font.generate_new_glyph(59, &build), Ok(59));
    assert_eq!(calls.get(), 1);
}

#[test]
fn large_cache_size_is_accepted() {
    let data = basic_font(vec![]);
    let face = face_from_bytes(&data, 0).unwrap();
    let mut font: Font<u32> = Font::from_face(Arc::new(face), Some(usize::MAX)).unwrap();
    let build = |i: u16| -> Result<u32, &'static str> { Ok(i as u32) };
    assert_eq!(font.get_glyph_mut_cache(7, &build), Ok(7));
}

#[test]
fn names_after_an_unreadable_record_are_found() {
    // The first record's string lies outside the table.
    let mut t = Vec::new();
    push16(&mut t, 0);
    push16(&mut t, 2);
    push16(&mut t, 30);
    for (id, length, offset) in [(1u16, 200u16, 0u16), (4, 4, 0)].iter() {
        push16(&mut t, 3);
        push16(&mut t, 1);
        push16(&mut t, 0x409);
        push16(&mut t, *id);
        push16(&mut t, *length);
        push16(&mut t, *offset);
    }
    t.extend_from_slice(&[0, 0x48, 0, 0x69]);
    let data = basic_font(vec![(*b"name", t)]);
    let face = face_from_bytes(&data, 0).unwrap();
    let font: Font<u32> = Font::from_face(Arc::new(face), None).unwrap();
    assert_eq!(font.name(), Some("Hi".to_string()));
    assert_eq!(font.name_with_id(1), None);
}

#[test]
fn each_collection_member_parses_from_its_index() {
    let data = basic_font(vec![]);
    assert!(face_from_bytes(&data, 0).is_ok());
    assert_eq!(
        face_from_bytes(&data, 1).err(),
        Some("The face index is larger than the number of faces in the font.")
    );
}

#[test]
fn collection_member_is_the_one_asked_for() {
    let member = |units: u16, base: usize| {
        font_file_at(
            vec![
                (*b"head", head_table(units)),
                (*b"hhea", metrics_table(800, -200, 90)),
                (*b"maxp", maxp_table(3)),
            ],
            base,
        )
    };
    let header_len = 12 + 8;
    let first = member(1000, header_len);
    let second = member(2048, header_len + first.len());
    let mut data = Vec::new();
    data.extend_from_slice(b"ttcf");
    push32(&mut data, 0x0001_0000);
    push32(&mut data, 2);
    push32(&mut data, header_len as u32);
    push32(&mut data, (header_len + first.len()) as u32);
    data.extend_from_slice(&first);
    data.extend_from_slice(&second);
    let f0: Font<u32> = Font::from_face(Arc::new(face_from_bytes(&data, 0).unwrap()), None).unwrap();
    let f1: Font<u32> = Font::from_face(Arc::new(face_from_bytes(&data, 1).unwrap()), None).unwrap();
    assert_eq!(f0.units_per_em(), 1000);
    assert_eq!(f1.units_per_em(), 2048);
    assert_eq!(
        face_from_bytes(&data, 2).err(),
        Some("The face index is larger than the number of faces in the font.")
    );
}
