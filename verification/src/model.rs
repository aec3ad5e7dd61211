//! The in-memory generated font model: per-size glyph tables and packed
//! bitmaps, plus the display units that could not be rendered.

use vstd::prelude::*;

use crate::chars::{display_unit_text, format_display_unit};
use crate::text::{concat, decimal, lemma_concat_all, lemma_concat_take, line, push_char, push_str, push_u32, push_usize};

verus! {

/// A rasterized font: one entry per configured pixel size, and the display
/// units reported as missing.
#[derive(Debug, Clone, PartialEq, Eq)]
pub struct GeneratedFont {
    pub name: String,
    pub sizes: Vec<GeneratedFontSize>,
    pub missing_glyphs: Vec<MissingGlyph>,
}

/// The glyphs of one pixel size and the packed 4-bit alpha bytes they index.
#[derive(Debug, Clone, PartialEq, Eq)]
pub struct GeneratedFontSize {
    pub pixel_size: u32,
    pub glyphs: Vec<Glyph>,
    pub bitmap_data: Vec<u8>,
}

/// Metadata of one glyph: its key, the byte range of its packed bitmap within
/// the size's bitmap data, its bitmap dimensions and its metrics.
#[derive(Debug, Clone, PartialEq, Eq)]
pub struct Glyph {
    pub key: String,
    pub bitmap_offset: usize,
    pub bitmap_len: usize,
    pub width: u32,
    pub height: u32,
    pub advance_x: i32,
    pub bearing_x: i32,
    pub bearing_y: i32,
}

/// A display unit that was not rendered, and why.
#[derive(Debug, Clone, PartialEq, Eq)]
pub struct MissingGlyph {
    pub display_unit: String,
    pub reason: MissingGlyphReason,
}

/// Why a display unit has no glyph.
#[derive(Debug, Clone, Copy, PartialEq, Eq)]
pub enum MissingGlyphReason {
    NoFontGlyph,
    UnsupportedCluster,
}

/// The text that names a missing-glyph reason.
pub open spec fn reason_text(reason: MissingGlyphReason) -> Seq<char> {
    match reason {
        MissingGlyphReason::NoFontGlyph => "no font glyph"@,
        MissingGlyphReason::UnsupportedCluster => "unsupported grapheme cluster"@,
    }
}

impl MissingGlyphReason {
    /// The text that names the reason, as the summaries show it.
    pub fn as_text(self) -> (text: &'static str)
        ensures
            text@ == reason_text(self),
    {
        match self {
            MissingGlyphReason::NoFontGlyph => "no font glyph",
            MissingGlyphReason::UnsupportedCluster => "unsupported grapheme cluster",
        }
    }
}

/// Sum of the glyph counts of the sizes.
pub open spec fn total_glyphs(sizes: Seq<GeneratedFontSize>) -> nat
    decreases sizes.len(),
{
    if sizes.len() == 0 {
        0
    } else {
        total_glyphs(sizes.drop_last()) + sizes.last().glyphs@.len()
    }
}

/// Sum of the bitmap byte counts of the sizes.
pub open spec fn total_bitmap_bytes(sizes: Seq<GeneratedFontSize>) -> nat
    decreases sizes.len(),
{
    if sizes.len() == 0 {
        0
    } else {
        total_bitmap_bytes(sizes.drop_last()) + sizes.last().bitmap_data@.len()
    }
}

/// The summary line of one size.
pub open spec fn size_summary_line(size: GeneratedFontSize) -> Seq<char> {
    line(
        "  - size "@ + decimal(size.pixel_size as nat) + ": glyphs = "@ + decimal(
            size.glyphs@.len(),
        ) + ", bitmap_bytes = "@ + decimal(size.bitmap_data@.len()),
    )
}

/// The summary line of one missing display unit.
pub open spec fn missing_summary_line(missing: MissingGlyph) -> Seq<char> {
    line(
        "  - "@ + display_unit_text(missing.display_unit@) + " ("@ + reason_text(missing.reason)
            + ")"@,
    )
}

/// The model summary: the name, one line per size with its glyph and bitmap
/// byte counts, the number of missing display units, and one line per missing
/// display unit with its reason.
pub open spec fn font_summary(font: GeneratedFont) -> Seq<char> {
    line("font_model = "@ + font.name@) + concat(
        font.sizes@.map_values(|s: GeneratedFontSize| size_summary_line(s)),
    ) + line("missing_glyphs = "@ + decimal(font.missing_glyphs@.len())) + concat(
        font.missing_glyphs@.map_values(|m: MissingGlyph| missing_summary_line(m)),
    )
}

impl GeneratedFont {
    /// Number of glyphs over all sizes.
    pub fn glyph_count(&self) -> (count: usize)
        requires
            total_glyphs(self.sizes@) <= usize::MAX,
        ensures
            count == total_glyphs(self.sizes@),
    {
        let mut count: usize = 0;
        let mut i: usize = 0;
        while i < self.sizes.len()
            invariant
                i <= self.sizes@.len(),
                total_glyphs(self.sizes@) <= usize::MAX,
                count == total_glyphs(self.sizes@.take(i as int)),
            decreases self.sizes.len() - i,
        {
            proof {
                assert(self.sizes@.take(i + 1).drop_last() == self.sizes@.take(i as int));
                lemma_total_glyphs_prefix(self.sizes@, i + 1);
            }
            count = count + self.sizes[i].glyphs.len();
            i += 1;
        }
        assert(self.sizes@.take(i as int) == self.sizes@);
        count
    }

    /// Number of packed bitmap bytes over all sizes.
    pub fn bitmap_bytes(&self) -> (count: usize)
        requires
            total_bitmap_bytes(self.sizes@) <= usize::MAX,
        ensures
            count == total_bitmap_bytes(self.sizes@),
    {
        let mut count: usize = 0;
        let mut i: usize = 0;
        while i < self.sizes.len()
            invariant
                i <= self.sizes@.len(),
                total_bitmap_bytes(self.sizes@) <= usize::MAX,
                count == total_bitmap_bytes(self.sizes@.take(i as int)),
            decreases self.sizes.len() - i,
        {
            proof {
                assert(self.sizes@.take(i + 1).drop_last() == self.sizes@.take(i as int));
                lemma_total_bitmap_bytes_prefix(self.sizes@, i + 1);
            }
            count = count + self.sizes[i].bitmap_data.len();
            i += 1;
        }
        assert(self.sizes@.take(i as int) == self.sizes@);
        count
    }

    /// The model summary printed after rasterization.
    pub fn format_summary(&self) -> (text: String)
        ensures
            text@ == font_summary(*self),
    {
        let mut text = String::new();
        push_str(&mut text, "font_model = ");
        push_str(&mut text, self.name.as_str());
        push_char(&mut text, '\n');
        let ghost head = text@;
        let ghost size_lines = self.sizes@.map_values(|s: GeneratedFontSize| size_summary_line(s));
        let mut i: usize = 0;
        while i < self.sizes.len()
            invariant
                i <= self.sizes@.len(),
                size_lines == self.sizes@.map_values(|s: GeneratedFontSize| size_summary_line(s)),
                text@ == head + concat(size_lines.take(i as int)),
            decreases self.sizes.len() - i,
        {
            let size = &self.sizes[i];
            let ghost before = text@;
            push_str(&mut text, "  - size ");
            push_u32(&mut text, size.pixel_size);
            push_str(&mut text, ": glyphs = ");
            push_usize(&mut text, size.glyphs.len());
            push_str(&mut text, ", bitmap_bytes = ");
            push_usize(&mut text, size.bitmap_data.len());
            push_char(&mut text, '\n');
            proof {
                assert(text@ == before + size_lines[i as int]);
                lemma_concat_take(size_lines, i as int);
            }
            i += 1;
        }
        proof {
            lemma_concat_all(size_lines);
        }
        push_str(&mut text, "missing_glyphs = ");
        push_usize(&mut text, self.missing_glyphs.len());
        push_char(&mut text, '\n');
        let ghost mid = text@;
        let ghost missing_lines = self.missing_glyphs@.map_values(
            |m: MissingGlyph| missing_summary_line(m),
        );
        let mut j: usize = 0;
        while j < self.missing_glyphs.len()
            invariant
                j <= self.missing_glyphs@.len(),
                missing_lines == self.missing_glyphs@.map_values(
                    |m: MissingGlyph| missing_summary_line(m),
                ),
                text@ == mid + concat(missing_lines.take(j as int)),
            decreases self.missing_glyphs.len() - j,
        {
            let missing = &self.missing_glyphs[j];
            let ghost before = text@;
            push_str(&mut text, "  - ");
            let unit = format_display_unit(missing.display_unit.as_str());
            push_str(&mut text, unit.as_str());
            push_str(&mut text, " (");
            push_str(&mut text, missing.reason.as_text());
            push_str(&mut text, ")");
            push_char(&mut text, '\n');
            proof {
                assert(text@ == before + missing_lines[j as int]);
                lemma_concat_take(missing_lines, j as int);
            }
            j += 1;
        }
        proof {
            lemma_concat_all(missing_lines);
        }
        text
    }
}

proof fn lemma_total_glyphs_prefix(sizes: Seq<GeneratedFontSize>, i: int)
    requires
        0 <= i <= sizes.len(),
    ensures
        total_glyphs(sizes.take(i)) <= total_glyphs(sizes),
    decreases sizes.len(),
{
    if i < sizes.len() {
        assert(sizes.drop_last().take(i) == sizes.take(i));
        lemma_total_glyphs_prefix(sizes.drop_last(), i);
    } else {
        assert(sizes.take(i) == sizes);
    }
}

proof fn lemma_total_bitmap_bytes_prefix(sizes: Seq<GeneratedFontSize>, i: int)
    requires
        0 <= i <= sizes.len(),
    ensures
        total_bitmap_bytes(sizes.take(i)) <= total_bitmap_bytes(sizes),
    decreases sizes.len(),
{
    if i < sizes.len() {
        assert(sizes.drop_last().take(i) == sizes.take(i));
        lemma_total_bitmap_bytes_prefix(sizes.drop_last(), i);
    } else {
        assert(sizes.take(i) == sizes);
    }
}

} // verus!
