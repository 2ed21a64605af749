//! Line metrics in font units, before they are scaled to a pixel size.
use vstd::prelude::*;

verus! {

/// Metrics associated with line positioning, in font units.
#[derive(Clone, Copy, PartialEq, Eq, Debug, Structural)]
pub struct UnscaledLineMetrics {
    /// The highest point that any glyph in the font extends to above the
    /// baseline. Typically positive.
    pub ascent: i32,
    /// The lowest point that any glyph in the font extends to below the
    /// baseline. Typically negative.
    pub descent: i32,
    /// The gap to leave between the descent of one line and the ascent of the
    /// next.
    pub line_gap: i32,
    /// The height or width of a line: `ascent - descent + line_gap`.
    pub new_line_size: i32,
}

/// The line metrics of a face with the given ascender, descender and line
/// gap.
pub open spec fn line_metrics_of(ascent: i16, descent: i16, line_gap: i16) -> UnscaledLineMetrics {
    UnscaledLineMetrics {
        ascent: ascent as i32,
        descent: descent as i32,
        line_gap: line_gap as i32,
        new_line_size: (ascent - descent + line_gap) as i32,
    }
}

/// The vertical line metrics of a face: present exactly when the face has a
/// vertical ascender, with a missing descender or line gap counted as zero.
pub open spec fn vertical_metrics_of(
    ascender: Option<i16>,
    descender: Option<i16>,
    line_gap: Option<i16>,
) -> Option<UnscaledLineMetrics> {
    match ascender {
        Some(a) => Some(line_metrics_of(a, descender.unwrap_or(0), line_gap.unwrap_or(0))),
        None => None,
    }
}

impl UnscaledLineMetrics {
    /// Creates line metrics and computes the new line size. The sum is taken
    /// in 32 bits, where it cannot overflow.
    pub fn new(ascent: i16, descent: i16, line_gap: i16) -> (r: UnscaledLineMetrics)
        ensures
            r == line_metrics_of(ascent, descent, line_gap),
            r.new_line_size == r.ascent - r.descent + r.line_gap,
    {
        let (ascent, descent, line_gap) = (ascent as i32, descent as i32, line_gap as i32);
        UnscaledLineMetrics { ascent, descent, line_gap, new_line_size: ascent - descent + line_gap }
    }
}

/// Builds the vertical line metrics from a face's vertical ascender,
/// descender and line gap.
pub fn vertical_line_metrics_from(
    ascender: Option<i16>,
    descender: Option<i16>,
    line_gap: Option<i16>,
) -> (r: Option<UnscaledLineMetrics>)
    ensures
        r == vertical_metrics_of(ascender, descender, line_gap),
{
    match ascender {
        Some(a) => {
            let d = match descender {
                Some(d) => d,
                None => 0,
            };
            let g = match line_gap {
                Some(g) => g,
                None => 0,
            };
            Some(UnscaledLineMetrics::new(a, d, g))
        },
        None => None,
    }
}

} // verus!
