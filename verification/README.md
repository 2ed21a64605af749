# femtofont

The verified core of a small scalable-font rasterizer, written in Verus, and a
thin floating-point layer around it.

- `src/` is the library that Verus checks:
  - `cache.rs`: the glyph cache (lookup, recorded lookup, insertion with
    least-recently-used replacement) and the laws that relate its operations;
  - `raster.rs`: the lane operations of the raster on `f32` bit patterns
    (stepping down by representable values, rounding toward zero);
  - `metrics.rs`, `kerning.rs`, `names.rs`, `unicode.rs`: line metrics in font
    units, kerning sums, `name` record lookup, and decoding of UTF-16 names;
  - `face.rs`: the calls into `ttf_parser`, with the contracts they are trusted
    to meet, with names for what the face getters return;
  - `font.rs`: a font built on a parsed face, with its cached glyph path.
- `app/` holds what works on floating point: scaled line metrics, kerning and
  units per em, the coverage raster, and the `Font` front end for them. Glyph
  outlines are not compiled into raster lines here, so no glyph is rendered.
- `tests/` exercises both, including small fonts assembled byte by byte.
