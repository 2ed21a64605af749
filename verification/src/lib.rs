//! The verified core of a TrueType/OpenType rasterizer: a bounded glyph cache
//! with least-recently-used replacement, line metrics in font units, kerning
//! sums over `kern` subtables, `name` record lookup and UTF-16 decoding, face
//! parsing with its error messages, and the exact bit-level lane operations of
//! the raster.
pub mod cache;
pub mod raster;
pub mod metrics;
pub mod kerning;
pub mod names;
pub mod face;
pub mod font;
pub mod unicode;
