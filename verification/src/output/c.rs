//! C output: a metrics header and source pair, or a header-only fixed-cell
//! bitmap font for firmware without a font renderer.

use vstd::prelude::*;

use crate::alpha::{
    all_nibbles, lemma_packed_padding, lemma_unpack_pack, lemma_unpacked_nibbles, pack_4bit_alpha,
    packed, packed_len, unpacked, unpacked_pixel,
};
use crate::chars::{single_scalar, is_single_scalar};
use crate::error::{invalid_setting, AppError, ErrorView};
use crate::config::{check_outcome, FixedCellSettings, GenerationSettings};
use crate::model::{GeneratedFont, GeneratedFontSize, Glyph};
use crate::output::{byte_array_literal, byte_rows, c_string_literal};
use crate::text::{
    c_string, concat, contains_text, decimal, lemma_concat_all, lemma_concat_contains,
    lemma_concat_take, lemma_contains_append, lemma_contains_middle, lemma_contains_prepend,
    lemma_contains_start, lemma_contains_within, line, push_char, push_i32,
    push_line, push_str, push_u32, push_usize, signed_decimal,
};

verus! {

/// `size_{pixel_size}`: the infix of a size's C symbols.
pub open spec fn size_suffix(pixel_size: u32) -> Seq<char> {
    "size_"@ + decimal(pixel_size as nat)
}

fn push_size_suffix(text: &mut String, pixel_size: u32)
    ensures
        final(text)@ == old(text)@ + size_suffix(pixel_size),
{
    push_str(text, "size_");
    push_u32(text, pixel_size);
}

/// The metrics header: glyph and font-size struct types named after `name`,
/// and declarations of the size table and its length.
pub open spec fn metrics_header(name: Seq<char>) -> Seq<char> {
    "#pragma once\n\n#include <stddef.h>\n#include <stdint.h>\n\ntypedef struct {\n    const char *key;\n    uint32_t bitmap_offset;\n    uint32_t bitmap_len;\n    uint32_t width;\n    uint32_t height;\n    int32_t advance_x;\n    int32_t bearing_x;\n    int32_t bearing_y;\n} "@
        + name + "_glyph_t;\n\ntypedef struct {\n    uint32_t pixel_size;\n    const "@ + name
        + "_glyph_t *glyphs;\n    size_t glyph_count;\n    const uint8_t *bitmap_data;\n    size_t bitmap_len;\n} "@
        + name + "_font_size_t;\n\nextern const "@ + name + "_font_size_t "@ + name
        + "_sizes[];\nextern const size_t "@ + name + "_size_count;\n"@
}

/// Renders the metrics header.
pub fn render_header(name: &str) -> (text: String)
    ensures
        text@ == metrics_header(name@),
{
    let mut text = String::new();
    push_str(
        &mut text,
        "#pragma once\n\n#include <stddef.h>\n#include <stdint.h>\n\ntypedef struct {\n    const char *key;\n    uint32_t bitmap_offset;\n    uint32_t bitmap_len;\n    uint32_t width;\n    uint32_t height;\n    int32_t advance_x;\n    int32_t bearing_x;\n    int32_t bearing_y;\n} ",
    );
    push_str(&mut text, name);
    push_str(
        &mut text,
        "_glyph_t;\n\ntypedef struct {\n    uint32_t pixel_size;\n    const ",
    );
    push_str(&mut text, name);
    push_str(
        &mut text,
        "_glyph_t *glyphs;\n    size_t glyph_count;\n    const uint8_t *bitmap_data;\n    size_t bitmap_len;\n} ",
    );
    push_str(&mut text, name);
    push_str(&mut text, "_font_size_t;\n\nextern const ");
    push_str(&mut text, name);
    push_str(&mut text, "_font_size_t ");
    push_str(&mut text, name);
    push_str(&mut text, "_sizes[];\nextern const size_t ");
    push_str(&mut text, name);
    push_str(&mut text, "_size_count;\n");
    text
}

/// One entry of a size's glyph table:
/// `{ "key", offset u, len u, width u, height u, advance, bearing_x, bearing_y }`.
pub open spec fn metrics_glyph_line(glyph: Glyph) -> Seq<char> {
    "    { "@ + c_string(glyph.key@) + ", "@ + decimal(glyph.bitmap_offset as nat) + "u, "@
        + decimal(glyph.bitmap_len as nat) + "u, "@ + decimal(glyph.width as nat) + "u, "@
        + decimal(glyph.height as nat) + "u, "@ + signed_decimal(glyph.advance_x as int) + ", "@
        + signed_decimal(glyph.bearing_x as int) + ", "@ + signed_decimal(glyph.bearing_y as int)
        + " },\n"@
}

/// The bitmap array of one size in the metrics source and the opening of its
/// glyph table. An empty bitmap gets a single zero byte, so that the array is
/// not empty.
pub open spec fn metrics_size_head(name: Seq<char>, size: GeneratedFontSize) -> Seq<char> {
    let suffix = size_suffix(size.pixel_size);
    "static const uint8_t "@ + name + "_"@ + suffix + "_bitmap_data[] = {\n"@ + (
    if size.bitmap_data@.len() == 0 {
        "    0x00,\n"@
    } else {
        byte_rows(size.bitmap_data@, "    "@)
    }) + "};\n\n"@ + "static const "@ + name + "_glyph_t "@ + name + "_"@ + suffix
        + "_glyphs[] = {\n"@
}

/// The entries of one size's glyph table; an empty glyph table gets a single
/// empty entry, so that the array is not empty.
pub open spec fn metrics_glyph_entries(size: GeneratedFontSize) -> Seq<char> {
    if size.glyphs@.len() == 0 {
        "    { \"\", 0u, 0u, 0u, 0u, 0, 0, 0 },\n"@
    } else {
        concat(size.glyphs@.map_values(|g: Glyph| metrics_glyph_line(g)))
    }
}

/// The bitmap array and glyph table of one size in the metrics source.
pub open spec fn metrics_size(name: Seq<char>, size: GeneratedFontSize) -> Seq<char> {
    metrics_size_head(name, size) + metrics_glyph_entries(size) + "};\n"@
}

fn render_glyph_line(glyph: &Glyph) -> (text: String)
    ensures
        text@ == metrics_glyph_line(*glyph),
{
    let mut text = String::new();
    push_str(&mut text, "    { ");
    let key = c_string_literal(glyph.key.as_str());
    push_str(&mut text, key.as_str());
    push_str(&mut text, ", ");
    push_usize(&mut text, glyph.bitmap_offset);
    push_str(&mut text, "u, ");
    push_usize(&mut text, glyph.bitmap_len);
    push_str(&mut text, "u, ");
    push_u32(&mut text, glyph.width);
    push_str(&mut text, "u, ");
    push_u32(&mut text, glyph.height);
    push_str(&mut text, "u, ");
    push_i32(&mut text, glyph.advance_x);
    push_str(&mut text, ", ");
    push_i32(&mut text, glyph.bearing_x);
    push_str(&mut text, ", ");
    push_i32(&mut text, glyph.bearing_y);
    push_str(&mut text, " },\n");
    text
}

/// Renders the bitmap array and glyph table of one size.
pub fn render_size(name: &str, size: &GeneratedFontSize) -> (text: String)
    ensures
        text@ == metrics_size(name@, *size),
{
    let mut text = String::new();
    push_str(&mut text, "static const uint8_t ");
    push_str(&mut text, name);
    push_str(&mut text, "_");
    push_size_suffix(&mut text, size.pixel_size);
    push_str(&mut text, "_bitmap_data[] = {\n");
    if size.bitmap_data.len() == 0 {
        push_str(&mut text, "    0x00,\n");
    } else {
        let rows = byte_array_literal(size.bitmap_data.as_slice(), "    ");
        push_str(&mut text, rows.as_str());
    }
    push_str(&mut text, "};\n\n");
    push_str(&mut text, "static const ");
    push_str(&mut text, name);
    push_str(&mut text, "_glyph_t ");
    push_str(&mut text, name);
    push_str(&mut text, "_");
    push_size_suffix(&mut text, size.pixel_size);
    push_str(&mut text, "_glyphs[] = {\n");
    let ghost head = text@;
    if size.glyphs.len() == 0 {
        push_str(&mut text, "    { \"\", 0u, 0u, 0u, 0u, 0, 0, 0 },\n");
    } else {
        let ghost lines = size.glyphs@.map_values(|g: Glyph| metrics_glyph_line(g));
        let mut i: usize = 0;
        while i < size.glyphs.len()
            invariant
                i <= size.glyphs@.len(),
                lines == size.glyphs@.map_values(|g: Glyph| metrics_glyph_line(g)),
                text@ == head + concat(lines.take(i as int)),
            decreases size.glyphs.len() - i,
        {
            let glyph_line = render_glyph_line(&size.glyphs[i]);
            push_str(&mut text, glyph_line.as_str());
            proof {
                lemma_concat_take(lines, i as int);
            }
            i += 1;
        }
        proof {
            lemma_concat_all(lines);
        }
    }
    push_str(&mut text, "};\n");
    text
}

/// One entry of the size table:
/// `{ px u, name_size_px_glyphs, count u, name_size_px_bitmap_data, bytes u }`.
pub open spec fn size_table_line(name: Seq<char>, size: GeneratedFontSize) -> Seq<char> {
    let suffix = size_suffix(size.pixel_size);
    "    { "@ + decimal(size.pixel_size as nat) + "u, "@ + name + "_"@ + suffix + "_glyphs, "@
        + decimal(size.glyphs@.len()) + "u, "@ + name + "_"@ + suffix + "_bitmap_data, "@ + decimal(
        size.bitmap_data@.len(),
    ) + "u },\n"@
}

/// The include line that opens the metrics source.
pub open spec fn metrics_source_head(name: Seq<char>) -> Seq<char> {
    "#include \""@ + name + ".h\"\n\n"@
}

/// The size table of the metrics source and its length.
pub open spec fn metrics_size_table(name: Seq<char>, font: GeneratedFont) -> Seq<char> {
    "const "@ + name + "_font_size_t "@ + name + "_sizes[] = {\n"@ + concat(
        font.sizes@.map_values(|s: GeneratedFontSize| size_table_line(name, s)),
    ) + "};\n"@ + "const size_t "@ + name + "_size_count = "@ + decimal(font.sizes@.len()) + "u;\n"@
}

/// The metrics source: it includes the header, holds each size's arrays
/// followed by a blank line, then the size table and its length.
pub open spec fn metrics_source(name: Seq<char>, font: GeneratedFont) -> Seq<char> {
    metrics_source_head(name) + concat(
        font.sizes@.map_values(|s: GeneratedFontSize| metrics_size(name, s) + "\n"@),
    ) + metrics_size_table(name, font)
}

fn render_size_table_line(name: &str, size: &GeneratedFontSize) -> (text: String)
    ensures
        text@ == size_table_line(name@, *size),
{
    let mut text = String::new();
    push_str(&mut text, "    { ");
    push_u32(&mut text, size.pixel_size);
    push_str(&mut text, "u, ");
    push_str(&mut text, name);
    push_str(&mut text, "_");
    push_size_suffix(&mut text, size.pixel_size);
    push_str(&mut text, "_glyphs, ");
    push_usize(&mut text, size.glyphs.len());
    push_str(&mut text, "u, ");
    push_str(&mut text, name);
    push_str(&mut text, "_");
    push_size_suffix(&mut text, size.pixel_size);
    push_str(&mut text, "_bitmap_data, ");
    push_usize(&mut text, size.bitmap_data.len());
    push_str(&mut text, "u },\n");
    text
}

/// Renders the metrics source.
#[verifier::spinoff_prover]
#[verifier::rlimit(40)]
pub fn render_source(name: &str, font: &GeneratedFont) -> (text: String)
    ensures
        text@ == metrics_source(name@, *font),
{
    let mut text = String::new();
    push_str(&mut text, "#include \"");
    push_str(&mut text, name);
    push_str(&mut text, ".h\"\n\n");
    let ghost head = text@;
    let ghost blocks = font.sizes@.map_values(
        |s: GeneratedFontSize| metrics_size(name@, s) + "\n"@,
    );
    let mut i: usize = 0;
    while i < font.sizes.len()
        invariant
            i <= font.sizes@.len(),
            blocks == font.sizes@.map_values(|s: GeneratedFontSize| metrics_size(name@, s) + "\n"@),
            text@ == head + concat(blocks.take(i as int)),
        decreases font.sizes.len() - i,
    {
        let block = render_size(name, &font.sizes[i]);
        let ghost before = text@;
        push_str(&mut text, block.as_str());
        push_str(&mut text, "\n");
        proof {
            assert(text@ == before + blocks[i as int]);
            lemma_concat_take(blocks, i as int);
        }
        i += 1;
    }
    proof {
        lemma_concat_all(blocks);
    }
    push_str(&mut text, "const ");
    push_str(&mut text, name);
    push_str(&mut text, "_font_size_t ");
    push_str(&mut text, name);
    push_str(&mut text, "_sizes[] = {\n");
    let ghost mid = text@;
    let ghost entries = font.sizes@.map_values(|s: GeneratedFontSize| size_table_line(name@, s));
    let mut j: usize = 0;
    while j < font.sizes.len()
        invariant
            j <= font.sizes@.len(),
            entries == font.sizes@.map_values(|s: GeneratedFontSize| size_table_line(name@, s)),
            text@ == mid + concat(entries.take(j as int)),
        decreases font.sizes.len() - j,
    {
        let entry = render_size_table_line(name, &font.sizes[j]);
        push_str(&mut text, entry.as_str());
        proof {
            lemma_concat_take(entries, j as int);
        }
        j += 1;
    }
    proof {
        lemma_concat_all(entries);
    }
    push_str(&mut text, "};\n");
    push_str(&mut text, "const size_t ");
    push_str(&mut text, name);
    push_str(&mut text, "_size_count = ");
    push_usize(&mut text, font.sizes.len());
    push_str(&mut text, "u;\n");
    text
}


// ---------------------------------------------------------------------------
// Fixed-cell output
// ---------------------------------------------------------------------------

/// The generated record dimensions of a fixed cell: one pixel of spacing is
/// reserved on each axis, and half-width records are half the cell wide.
#[derive(Debug, Clone, Copy, PartialEq, Eq)]
pub struct FixedCellDimensions {
    pub full_width: u32,
    pub half_width: u32,
    pub height: u32,
}

/// The record dimensions of a configured `width` by `height` cell.
pub open spec fn fixed_dimensions(width: u32, height: u32) -> FixedCellDimensions {
    FixedCellDimensions {
        full_width: (width - 1) as u32,
        half_width: (width / 2 - 1) as u32,
        height: (height - 1) as u32,
    }
}

/// A display unit drawn half-width: one ASCII graphic character or a space.
pub open spec fn half_width_unit(key: Seq<char>) -> bool {
    is_single_scalar(key) && (key[0] == ' ' || (0x21 <= (key[0] as u32) && (key[0] as u32) <= 0x7e))
}

impl FixedCellDimensions {
    /// The record dimensions of a configured cell. A cell narrower than two
    /// pixels or without height has no records.
    pub fn from_config(width: u32, height: u32) -> (dimensions: Self)
        requires
            width >= 2,
            height >= 1,
        ensures
            dimensions == fixed_dimensions(width, height),
    {
        FixedCellDimensions { full_width: width - 1, half_width: (width / 2) - 1, height: height - 1 }
    }

    /// The record width of a display unit: half width for ASCII, full width
    /// otherwise.
    pub fn width_for(self, key: &str) -> (width: u32)
        ensures
            width == (if half_width_unit(key@) {
                self.half_width
            } else {
                self.full_width
            }),
    {
        if is_half_width_display_unit(key) {
            self.half_width
        } else {
            self.full_width
        }
    }
}

/// Whether a display unit is drawn half-width: a single ASCII graphic
/// character or a space.
pub fn is_half_width_display_unit(key: &str) -> (half: bool)
    ensures
        half == half_width_unit(key@),
{
    match single_scalar(key) {
        Some(character) => {
            let code = character as u32;
            character == ' ' || (0x21 <= code && code <= 0x7e)
        },
        None => false,
    }
}

/// Number of bytes that hold a `width` by `height` record of 4-bit pixels.
pub open spec fn record_bytes(width: u32, height: u32) -> nat {
    ((width as nat) * (height as nat) + 1) / 2
}

/// The byte count of a record, or the error when the host cannot hold it.
pub open spec fn record_bytes_result(width: u32, height: u32) -> Result<usize, ErrorView> {
    if record_bytes(width, height) > usize::MAX {
        Err(invalid_setting("fixed_cell.width"@, "fixed cell byte count is too large for this host"@))
    } else {
        Ok(record_bytes(width, height) as usize)
    }
}

/// The byte count of a `width` by `height` record.
pub fn fixed_bytes_per_char(width: u32, height: u32) -> (result: Result<usize, AppError>)
    ensures
        match record_bytes_result(width, height) {
            Ok(n) => result == Ok::<usize, AppError>(n),
            Err(e) => result matches Err(x) && x@ == e,
        },
{
    proof {
        assert((width as int) * (height as int) <= 0xffff_fffe_0000_0001) by (nonlinear_arith)
            requires
                width <= 0xffff_ffff,
                height <= 0xffff_ffff,
        ;
    }
    let pixels: u64 = (width as u64) * (height as u64);
    let bytes: u64 = pixels / 2 + pixels % 2;
    assert(bytes == record_bytes(width, height));
    if bytes > usize::MAX as u64 {
        Err(
            AppError::InvalidSetting {
                setting: "fixed_cell.width",
                message: String::from_str("fixed cell byte count is too large for this host"),
            },
        )
    } else {
        Ok(bytes as usize)
    }
}

/// The pixel count of a cell, or the error when the host cannot hold it.
pub open spec fn cell_pixels_result(width: u32, height: u32) -> Result<usize, ErrorView> {
    if (width as nat) * (height as nat) > usize::MAX {
        Err(invalid_setting("fixed_cell.width"@, "fixed cell pixel count is too large for this host"@))
    } else {
        Ok(((width as nat) * (height as nat)) as usize)
    }
}

/// The pixel count of a `width` by `height` cell.
pub fn cell_pixel_count(width: u32, height: u32) -> (result: Result<usize, AppError>)
    ensures
        match cell_pixels_result(width, height) {
            Ok(n) => result == Ok::<usize, AppError>(n),
            Err(e) => result matches Err(x) && x@ == e,
        },
{
    proof {
        assert((width as int) * (height as int) <= 0xffff_fffe_0000_0001) by (nonlinear_arith)
            requires
                width <= 0xffff_ffff,
                height <= 0xffff_ffff,
        ;
    }
    let pixels: u64 = (width as u64) * (height as u64);
    if pixels > usize::MAX as u64 {
        Err(
            AppError::InvalidSetting {
                setting: "fixed_cell.width",
                message: String::from_str("fixed cell pixel count is too large for this host"),
            },
        )
    } else {
        Ok(pixels as usize)
    }
}

/// The pixel count of a glyph bitmap, or the error when the host cannot hold it.
pub open spec fn glyph_pixels_result(glyph: Glyph) -> Result<usize, ErrorView> {
    if (glyph.width as nat) * (glyph.height as nat) > usize::MAX {
        Err(ErrorView::MetricOverflow { glyph: glyph.key@, metric: "width * height"@ })
    } else {
        Ok(((glyph.width as nat) * (glyph.height as nat)) as usize)
    }
}

/// The pixel count of a glyph bitmap.
pub fn glyph_pixel_count(glyph: &Glyph) -> (result: Result<usize, AppError>)
    ensures
        match glyph_pixels_result(*glyph) {
            Ok(n) => result == Ok::<usize, AppError>(n),
            Err(e) => result matches Err(x) && x@ == e,
        },
{
    let w = glyph.width;
    let h = glyph.height;
    proof {
        assert((w as int) * (h as int) <= 0xffff_fffe_0000_0001) by (nonlinear_arith)
            requires
                w <= 0xffff_ffff,
                h <= 0xffff_ffff,
        ;
    }
    let pixels: u64 = (w as u64) * (h as u64);
    if pixels > usize::MAX as u64 {
        Err(AppError::MetricOverflow { glyph: glyph.key.clone(), metric: "width * height" })
    } else {
        Ok(pixels as usize)
    }
}

/// The 4-bit alpha pixels of a glyph, taken from its byte range of the size's
/// bitmap data, or why they cannot be.
pub open spec fn glyph_alpha(size: GeneratedFontSize, glyph: Glyph) -> Result<Seq<u8>, ErrorView> {
    let start = glyph.bitmap_offset as int;
    let end = glyph.bitmap_offset + glyph.bitmap_len;
    match glyph_pixels_result(glyph) {
        Err(e) => Err(e),
        Ok(n) => if end > usize::MAX {
            Err(invalid_setting("generation.sizes"@, "glyph bitmap range overflow"@))
        } else if end > size.bitmap_data@.len() {
            Err(
                invalid_setting(
                    "generation.sizes"@,
                    "glyph bitmap range is outside generated bitmap data"@,
                ),
            )
        } else if 2 * glyph.bitmap_len < n {
            Err(
                invalid_setting(
                    "generation.sizes"@,
                    "glyph bitmap data is shorter than glyph dimensions"@,
                ),
            )
        } else {
            Ok(unpacked(size.bitmap_data@.subrange(start, end), n as nat))
        },
    }
}

/// Unpacks a glyph's 4-bit alpha pixels from the size's bitmap data.
pub fn unpack_glyph_alpha(size: &GeneratedFontSize, glyph: &Glyph) -> (result: Result<
    Vec<u8>,
    AppError,
>)
    ensures
        match glyph_alpha(*size, *glyph) {
            Ok(a) => result matches Ok(v) && v@ == a,
            Err(e) => result matches Err(x) && x@ == e,
        },
{
    let pixel_count = match glyph_pixel_count(glyph) {
        Ok(n) => n,
        Err(e) => {
            return Err(e);
        },
    };
    if glyph.bitmap_offset > usize::MAX - glyph.bitmap_len {
        return Err(
            AppError::InvalidSetting {
                setting: "generation.sizes",
                message: String::from_str("glyph bitmap range overflow"),
            },
        );
    }
    let end = glyph.bitmap_offset + glyph.bitmap_len;
    if end > size.bitmap_data.len() {
        return Err(
            AppError::InvalidSetting {
                setting: "generation.sizes",
                message: String::from_str("glyph bitmap range is outside generated bitmap data"),
            },
        );
    }
    let start = glyph.bitmap_offset;
    let ghost bytes = size.bitmap_data@.subrange(start as int, end as int);
    let mut alpha: Vec<u8> = Vec::new();
    let mut i: usize = start;
    while i < end
        invariant
            start <= i <= end <= size.bitmap_data@.len(),
            bytes == size.bitmap_data@.subrange(start as int, end as int),
            alpha@ == unpacked(bytes.subrange(0, i - start), pixel_count as nat),
            alpha@.len() <= pixel_count,
        decreases end - i,
    {
        let byte = size.bitmap_data[i];
        let ghost before = alpha@;
        let ghost k = i - start;
        proof {
            assert(bytes.subrange(0, k + 1).subrange(0, k) == bytes.subrange(0, k));
        }
        if alpha.len() < pixel_count {
            alpha.push(byte >> 4u8);
        }
        if alpha.len() < pixel_count {
            alpha.push(byte & 0x0f);
        }
        proof {
            let prefix = bytes.subrange(0, k + 1);
            assert(prefix[k] == byte);
            assert forall|j: int| 0 <= j < alpha@.len() implies alpha@[j] == crate::alpha::unpacked_pixel(
                prefix,
                j,
            ) by {
                if j < before.len() {
                    assert(before[j] == crate::alpha::unpacked_pixel(bytes.subrange(0, k), j));
                    assert(prefix[j / 2] == bytes.subrange(0, k)[j / 2]);
                }
            }
            assert(alpha@ =~= unpacked(prefix, pixel_count as nat));
        }
        i += 1;
    }
    assert(bytes.subrange(0, end - start) == bytes);
    if alpha.len() == pixel_count {
        Ok(alpha)
    } else {
        Err(
            AppError::InvalidSetting {
                setting: "generation.sizes",
                message: String::from_str("glyph bitmap data is shorter than glyph dimensions"),
            },
        )
    }
}


/// The ASCII uppercase form of a character.
pub open spec fn ascii_upper(c: char) -> char {
    if ('a' as u32) <= (c as u32) && (c as u32) <= ('z' as u32) {
        ((c as u32) - 32) as char
    } else {
        c
    }
}

/// The prefix of the generated macros: the output name in ASCII uppercase.
pub open spec fn macro_prefix(name: Seq<char>) -> Seq<char> {
    name.map_values(|c: char| ascii_upper(c))
}

/// The output name in ASCII uppercase, for macro names.
pub fn c_macro_prefix(name: &str) -> (prefix: String)
    ensures
        prefix@ == macro_prefix(name@),
{
    let n = name.unicode_len();
    let mut prefix = String::new();
    let mut i: usize = 0;
    while i < n
        invariant
            n == name@.len(),
            i <= n,
            prefix@ == name@.take(i as int).map_values(|c: char| ascii_upper(c)),
        decreases n - i,
    {
        let ch = name.get_char(i);
        let code = ch as u32;
        let upper = if 97 <= code && code <= 122 {
            ((code - 32) as u8) as char
        } else {
            ch
        };
        push_char(&mut prefix, upper);
        proof {
            assert(name@.take(i + 1) == name@.take(i as int).push(ch));
            assert(prefix@ =~= name@.take(i + 1).map_values(|c: char| ascii_upper(c)));
        }
        i += 1;
    }
    assert(name@.take(n as int) == name@);
    prefix
}

/// The chunking state after some keys: closed chunks, the open chunk, and
/// how many keys the open chunk holds.
pub open spec fn chunk_scan(keys: Seq<Seq<char>>, limit: nat) -> (Seq<Seq<char>>, Seq<char>, nat)
    decreases keys.len(),
{
    if keys.len() == 0 {
        (Seq::empty(), Seq::empty(), 0)
    } else {
        let (chunks, current, count) = chunk_scan(keys.drop_last(), limit);
        if count >= limit && current.len() > 0 {
            (chunks.push(current), keys.last(), 1)
        } else {
            (chunks, current + keys.last(), count + 1)
        }
    }
}

/// The mapping string split into chunks of at most `limit` keys each: a
/// chunk is closed when it holds `limit` keys and another key follows. There
/// is always at least one chunk.
pub open spec fn mapping_chunk_texts(keys: Seq<Seq<char>>, limit: nat) -> Seq<Seq<char>> {
    let (chunks, current, count) = chunk_scan(keys, limit);
    if current.len() > 0 || chunks.len() == 0 {
        chunks.push(current)
    } else {
        chunks
    }
}

/// The keys of a size's glyphs, in order.
pub open spec fn glyph_keys(glyphs: Seq<Glyph>) -> Seq<Seq<char>> {
    glyphs.map_values(|g: Glyph| g.key@)
}

/// Splits the concatenated display units of a size into string chunks of at
/// most `chunk_chars` units each, for readable C string literals.
pub fn mapping_chunks(size: &GeneratedFontSize, chunk_chars: usize) -> (chunks: Vec<String>)
    ensures
        chunks@.map_values(|c: String| c@) == mapping_chunk_texts(
            glyph_keys(size.glyphs@),
            chunk_chars as nat,
        ),
{
    let ghost keys = glyph_keys(size.glyphs@);
    let mut chunks: Vec<String> = Vec::new();
    let mut current = String::new();
    let mut count: usize = 0;
    let mut i: usize = 0;
    while i < size.glyphs.len()
        invariant
            i <= size.glyphs@.len(),
            keys == glyph_keys(size.glyphs@),
            count <= i,
            chunk_scan(keys.take(i as int), chunk_chars as nat) == (
                chunks@.map_values(|c: String| c@),
                current@,
                count as nat,
            ),
        decreases size.glyphs.len() - i,
    {
        proof {
            assert(keys.take(i + 1).drop_last() == keys.take(i as int));
            assert(keys.take(i + 1).last() == size.glyphs@[i as int].key@);
        }
        if count >= chunk_chars && current.unicode_len() != 0 {
            let closed = current;
            let ghost prev = chunks@;
            chunks.push(closed);
            assert(chunks@.map_values(|c: String| c@) =~= prev.map_values(|c: String| c@).push(
                closed@,
            ));
            current = String::new();
            count = 0;
        }
        push_str(&mut current, size.glyphs[i].key.as_str());
        count += 1;
        i += 1;
    }
    proof {
        assert(keys.take(i as int) == keys);
    }
    if current.unicode_len() != 0 || chunks.len() == 0 {
        let ghost prev = chunks@;
        chunks.push(current);
        assert(chunks@.map_values(|c: String| c@) =~= prev.map_values(|c: String| c@).push(
            current@,
        ));
    }
    chunks
}

/// The mapping chunks concatenate to the concatenated keys: the C mapping
/// string holds every generated display unit, in order.
pub proof fn lemma_mapping_chunks_concat(keys: Seq<Seq<char>>, limit: nat)
    ensures
        concat(mapping_chunk_texts(keys, limit)) == concat(keys),
{
    lemma_chunk_scan_concat(keys, limit);
    let (chunks, current, count) = chunk_scan(keys, limit);
    if current.len() > 0 || chunks.len() == 0 {
        assert(chunks.push(current).drop_last() == chunks);
    } else {
        assert(current == Seq::<char>::empty());
        assert(concat(chunks) + current == concat(chunks));
    }
}

proof fn lemma_chunk_scan_concat(keys: Seq<Seq<char>>, limit: nat)
    ensures
        ({
            let (chunks, current, count) = chunk_scan(keys, limit);
            concat(chunks) + current == concat(keys)
        }),
    decreases keys.len(),
{
    if keys.len() > 0 {
        lemma_chunk_scan_concat(keys.drop_last(), limit);
        let (chunks, current, count) = chunk_scan(keys.drop_last(), limit);
        if count >= limit && current.len() > 0 {
            assert(chunks.push(current).drop_last() == chunks);
            assert(concat(chunks.push(current)) + keys.last() == concat(chunks) + current
                + keys.last());
        } else {
            assert(concat(chunks) + (current + keys.last()) == concat(chunks) + current
                + keys.last());
        }
    }
}

/// The smaller of two integers.
pub open spec fn min_int(a: int, b: int) -> int {
    if a <= b {
        a
    } else {
        b
    }
}

/// `a - b`, or 0 when `b` is larger.
pub open spec fn sub_or_zero(a: int, b: int) -> int {
    if a > b {
        a - b
    } else {
        0
    }
}

/// Pixel (`row`, `column`) of a `tw` by `th` cell holding a `sw` by `sh`
/// glyph bitmap centered on it: where the bitmap is larger, its centered
/// part is kept; where it is smaller, it is surrounded by zero alpha.
pub open spec fn cell_pixel(
    source: Seq<u8>,
    sw: int,
    sh: int,
    tw: int,
    th: int,
    row: int,
    column: int,
) -> u8 {
    let copy_w = min_int(sw, tw);
    let copy_h = min_int(sh, th);
    let skipped_columns = sub_or_zero(sw, tw) / 2;
    let skipped_rows = sub_or_zero(sh, th) / 2;
    let column_offset = sub_or_zero(tw, sw) / 2;
    let row_offset = sub_or_zero(th, sh) / 2;
    if row_offset <= row < row_offset + copy_h && column_offset <= column < column_offset + copy_w {
        source[(skipped_rows + row - row_offset) * sw + skipped_columns + column - column_offset]
    } else {
        0
    }
}

/// The row-major pixels of the cell.
pub open spec fn cell_alpha(source: Seq<u8>, sw: int, sh: int, tw: int, th: int) -> Seq<u8> {
    Seq::new((tw * th) as nat, |k: int| cell_pixel(source, sw, sh, tw, th, k / tw, k % tw))
}

/// The packed record of a glyph in a `tw` by `th` cell, padded with zero
/// bytes to `row_bytes`, or why it cannot be made.
pub open spec fn fixed_record(
    size: GeneratedFontSize,
    glyph: Glyph,
    tw: u32,
    th: u32,
    row_bytes: usize,
) -> Result<Seq<u8>, ErrorView> {
    match cell_pixels_result(tw, th) {
        Err(e) => Err(e),
        Ok(_) => match glyph_alpha(size, glyph) {
            Err(e) => Err(e),
            Ok(source) => {
                let bytes = packed(
                    cell_alpha(source, glyph.width as int, glyph.height as int, tw as int, th as int),
                );
                if bytes.len() > row_bytes {
                    Err(
                        invalid_setting(
                            "fixed_cell.width"@,
                            "fixed cell packed byte count exceeds row size"@,
                        ),
                    )
                } else {
                    Ok(bytes + Seq::new((row_bytes - bytes.len()) as nat, |i: int| 0u8))
                }
            },
        },
    }
}

proof fn lemma_row_major_index(a: int, b: int, w: int, h: int)
    requires
        0 <= a < h,
        0 <= b < w,
    ensures
        0 <= a * w + b < w * h,
        a * w <= a * w + b,
        (a + 1) * w == a * w + w,
{
    assert(0 <= a * w + b < w * h) by (nonlinear_arith)
        requires
            0 <= a < h,
            0 <= b < w,
    ;
    assert((a + 1) * w == a * w + w) by (nonlinear_arith);
}

/// The fixed-cell record of a glyph: its bitmap centered on a `target_width`
/// by `target_height` cell (cropped where larger), packed, and padded with
/// zero bytes to `row_bytes`.
pub fn fixed_cell_bitmap(
    size: &GeneratedFontSize,
    glyph: &Glyph,
    target_width: u32,
    target_height: u32,
    row_bytes: usize,
) -> (result: Result<Vec<u8>, AppError>)
    ensures
        match fixed_record(*size, *glyph, target_width, target_height, row_bytes) {
            Ok(r) => result matches Ok(v) && v@ == r,
            Err(e) => result matches Err(x) && x@ == e,
        },
{
    let cell_pixels = match cell_pixel_count(target_width, target_height) {
        Ok(n) => n,
        Err(e) => {
            return Err(e);
        },
    };
    let source_alpha = match unpack_glyph_alpha(size, glyph) {
        Ok(a) => a,
        Err(e) => {
            return Err(e);
        },
    };
    let source_width = glyph.width as usize;
    let source_height = glyph.height as usize;
    let tw = target_width as usize;
    let th = target_height as usize;
    assert(source_alpha@.len() == source_width * source_height);
    let copy_width = if source_width <= tw {
        source_width
    } else {
        tw
    };
    let copy_height = if source_height <= th {
        source_height
    } else {
        th
    };
    let skipped_source_columns = if source_width > tw {
        source_width - tw
    } else {
        0
    } / 2;
    let skipped_source_rows = if source_height > th {
        source_height - th
    } else {
        0
    } / 2;
    let target_column_offset = if tw > source_width {
        tw - source_width
    } else {
        0
    } / 2;
    let target_row_offset = if th > source_height {
        th - source_height
    } else {
        0
    } / 2;
    let ghost sw = source_width as int;
    let ghost sh = source_height as int;
    let ghost expected = cell_alpha(source_alpha@, sw, sh, tw as int, th as int);

    let mut cell_alpha_values: Vec<u8> = Vec::new();
    let mut row: usize = 0;
    while row < th
        invariant
            row <= th,
            tw * th == cell_pixels,
            source_alpha@.len() == source_width * source_height,
            sw == source_width,
            sh == source_height,
            copy_width == min_int(sw, tw as int),
            copy_height == min_int(sh, th as int),
            skipped_source_columns == sub_or_zero(sw, tw as int) / 2,
            skipped_source_rows == sub_or_zero(sh, th as int) / 2,
            target_column_offset == sub_or_zero(tw as int, sw) / 2,
            target_row_offset == sub_or_zero(th as int, sh) / 2,
            expected == cell_alpha(source_alpha@, sw, sh, tw as int, th as int),
            cell_alpha_values@.len() == row * tw,
            forall|k: int|
                0 <= k < cell_alpha_values@.len() ==> #[trigger] cell_alpha_values@[k]
                    == expected[k],
        decreases th - row,
    {
        let mut column: usize = 0;
        while column < tw
            invariant
                row < th,
                column <= tw,
                tw * th == cell_pixels,
                source_alpha@.len() == source_width * source_height,
                sw == source_width,
                sh == source_height,
                copy_width == min_int(sw, tw as int),
                copy_height == min_int(sh, th as int),
                skipped_source_columns == sub_or_zero(sw, tw as int) / 2,
                skipped_source_rows == sub_or_zero(sh, th as int) / 2,
                target_column_offset == sub_or_zero(tw as int, sw) / 2,
                target_row_offset == sub_or_zero(th as int, sh) / 2,
                expected == cell_alpha(source_alpha@, sw, sh, tw as int, th as int),
                cell_alpha_values@.len() == row * tw + column,
                forall|k: int|
                    0 <= k < cell_alpha_values@.len() ==> #[trigger] cell_alpha_values@[k]
                        == expected[k],
            decreases tw - column,
        {
            let ghost k = row * tw + column;
            proof {
                lemma_row_major_index(row as int, column as int, tw as int, th as int);
                vstd::arithmetic::div_mod::lemma_fundamental_div_mod_converse(
                    k,
                    tw as int,
                    row as int,
                    column as int,
                );
            }
            let inside = target_row_offset <= row && row < target_row_offset + copy_height
                && target_column_offset <= column && column < target_column_offset + copy_width;
            let value = if inside {
                let source_row = skipped_source_rows + row - target_row_offset;
                let source_column = skipped_source_columns + column - target_column_offset;
                proof {
                    assert(source_row < source_height);
                    assert(source_column < source_width);
                    lemma_row_major_index(source_row as int, source_column as int, sw, sh);
                    assert(source_row * source_width + source_column < source_alpha@.len());
                    assert(source_alpha@.len() == source_alpha.len());
                }
                source_alpha[source_row * source_width + source_column]
            } else {
                0
            };
            cell_alpha_values.push(value);
            column += 1;
        }
        proof {
            assert((row + 1) * tw == row * tw + tw) by (nonlinear_arith);
        }
        row += 1;
    }
    proof {
        assert(cell_alpha_values@.len() == tw * th) by (nonlinear_arith)
            requires
                cell_alpha_values@.len() == row * tw,
                row == th,
        ;
        assert(cell_alpha_values@ =~= expected);
    }
    let mut packed_bytes = pack_4bit_alpha(cell_alpha_values.as_slice());
    if packed_bytes.len() > row_bytes {
        Err(
            AppError::InvalidSetting {
                setting: "fixed_cell.width",
                message: String::from_str("fixed cell packed byte count exceeds row size"),
            },
        )
    } else {
        let ghost before = packed_bytes@;
        packed_bytes.resize(row_bytes, 0u8);
        proof {
            let padded = before + Seq::new((row_bytes - before.len()) as nat, |i: int| 0u8);
            assert forall|i: int| 0 <= i < row_bytes implies packed_bytes@[i] == padded[i] by {
                if i < before.len() {
                    assert(packed_bytes@.subrange(0, before.len() as int)[i] == before[i]);
                }
            }
            assert(packed_bytes@ =~= padded);
        }
        Ok(packed_bytes)
    }
}


/// A fixed-cell record is exactly `row_bytes` long, and unpacking its first
/// `tw * th` pixels, two per byte with the high nibble first, gives back the
/// glyph's alpha centered on the cell: what firmware reads pixel by pixel.
pub proof fn fixed_record_unpacks(
    size: GeneratedFontSize,
    glyph: Glyph,
    tw: u32,
    th: u32,
    row_bytes: usize,
)
    requires
        fixed_record(size, glyph, tw, th, row_bytes) is Ok,
    ensures
        fixed_record(size, glyph, tw, th, row_bytes)->Ok_0.len() == row_bytes,
        unpacked(fixed_record(size, glyph, tw, th, row_bytes)->Ok_0, (tw * th) as nat)
            == cell_alpha(
            glyph_alpha(size, glyph)->Ok_0,
            glyph.width as int,
            glyph.height as int,
            tw as int,
            th as int,
        ),
{
    let source = glyph_alpha(size, glyph)->Ok_0;
    let sw = glyph.width as int;
    let sh = glyph.height as int;
    let cell = cell_alpha(source, sw, sh, tw as int, th as int);
    let bytes = packed(cell);
    let record = fixed_record(size, glyph, tw, th, row_bytes)->Ok_0;
    let start = glyph.bitmap_offset as int;
    let end = glyph.bitmap_offset + glyph.bitmap_len;
    lemma_unpacked_nibbles(size.bitmap_data@.subrange(start, end), (sw * sh) as nat);
    assert(source.len() == sw * sh);
    assert forall|k: int| 0 <= k < cell.len() implies #[trigger] cell[k] < 16 by {
        let row = k / (tw as int);
        let column = k % (tw as int);
        let copy_w = min_int(sw, tw as int);
        let copy_h = min_int(sh, th as int);
        let skipped_columns = sub_or_zero(sw, tw as int) / 2;
        let skipped_rows = sub_or_zero(sh, th as int) / 2;
        let column_offset = sub_or_zero(tw as int, sw) / 2;
        let row_offset = sub_or_zero(th as int, sh) / 2;
        if row_offset <= row < row_offset + copy_h && column_offset <= column < column_offset
            + copy_w {
            let source_row = skipped_rows + row - row_offset;
            let source_column = skipped_columns + column - column_offset;
            lemma_row_major_index(source_row, source_column, sw, sh);
            assert(source[source_row * sw + source_column] < 16);
        }
    }
    assert(all_nibbles(cell));
    lemma_unpack_pack(cell);
    assert forall|i: int| 0 <= i < cell.len() implies #[trigger] unpacked(record, cell.len())[i]
        == unpacked(bytes, cell.len())[i] by {
        assert(i / 2 < bytes.len());
        assert(record[i / 2] == bytes[i / 2]);
    }
    assert(unpacked(record, cell.len()) =~= unpacked(bytes, cell.len()));
}

/// When the glyph's alpha can be read, the cell's pixel count fits the host
/// and `row_bytes` holds the packed cell, a fixed-cell record is made: it is
/// exactly `row_bytes` long, its first `tw * th` nibbles (high nibble first)
/// are the glyph's alpha centered on the cell, and every nibble after them
/// is 0.
pub proof fn fixed_record_layout(
    size: GeneratedFontSize,
    glyph: Glyph,
    tw: u32,
    th: u32,
    row_bytes: usize,
)
    requires
        glyph_alpha(size, glyph) is Ok,
        (tw as nat) * (th as nat) <= usize::MAX,
        packed_len((tw as nat) * (th as nat)) <= row_bytes,
    ensures
        fixed_record(size, glyph, tw, th, row_bytes) is Ok,
        fixed_record(size, glyph, tw, th, row_bytes)->Ok_0.len() == row_bytes,
        unpacked(fixed_record(size, glyph, tw, th, row_bytes)->Ok_0, (tw * th) as nat)
            == cell_alpha(
            glyph_alpha(size, glyph)->Ok_0,
            glyph.width as int,
            glyph.height as int,
            tw as int,
            th as int,
        ),
        forall|i: int|
            (tw as nat) * (th as nat) <= i < 2 * row_bytes ==> #[trigger] unpacked_pixel(
                fixed_record(size, glyph, tw, th, row_bytes)->Ok_0,
                i,
            ) == 0,
{
    let source = glyph_alpha(size, glyph)->Ok_0;
    let cell = cell_alpha(source, glyph.width as int, glyph.height as int, tw as int, th as int);
    let bytes = packed(cell);
    assert(cell.len() == (tw as nat) * (th as nat));
    assert(bytes.len() <= row_bytes);
    fixed_record_unpacks(size, glyph, tw, th, row_bytes);
    let record = fixed_record(size, glyph, tw, th, row_bytes)->Ok_0;
    assert(record == bytes + Seq::new((row_bytes - bytes.len()) as nat, |k: int| 0u8));
    assert forall|i: int| cell.len() <= i < 2 * row_bytes implies #[trigger] unpacked_pixel(
        record,
        i,
    ) == 0 by {
        let j = i / 2;
        if j < bytes.len() {
            assert(record[j] == bytes[j]);
            lemma_packed_padding(cell, i);
        } else {
            let b = record[j];
            assert(b == 0u8);
            assert(b >> 4u8 == 0 && b & 0x0f == 0) by (bit_vector)
                requires
                    b == 0u8,
            ;
        }
    }
}

/// The record width of a display unit in a cell of the given dimensions.
pub open spec fn unit_width(dimensions: FixedCellDimensions, key: Seq<char>) -> u32 {
    if half_width_unit(key) {
        dimensions.half_width
    } else {
        dimensions.full_width
    }
}

/// The records of the glyphs, in order, or the error of the first glyph
/// whose record cannot be made.
pub open spec fn fixed_records(
    size: GeneratedFontSize,
    glyphs: Seq<Glyph>,
    dimensions: FixedCellDimensions,
    row_bytes: usize,
) -> Result<Seq<Seq<u8>>, ErrorView>
    decreases glyphs.len(),
{
    if glyphs.len() == 0 {
        Ok(Seq::empty())
    } else {
        match fixed_records(size, glyphs.drop_last(), dimensions, row_bytes) {
            Err(e) => Err(e),
            Ok(records) => match fixed_record(
                size,
                glyphs.last(),
                unit_width(dimensions, glyphs.last().key@),
                dimensions.height,
                row_bytes,
            ) {
                Err(e) => Err(e),
                Ok(r) => Ok(records.push(r)),
            },
        }
    }
}

proof fn lemma_records_error_persists(
    size: GeneratedFontSize,
    glyphs: Seq<Glyph>,
    dimensions: FixedCellDimensions,
    row_bytes: usize,
    i: int,
    k: int,
)
    requires
        0 <= i < k <= glyphs.len(),
        fixed_records(size, glyphs.take(i + 1), dimensions, row_bytes) is Err,
    ensures
        fixed_records(size, glyphs.take(k), dimensions, row_bytes) == fixed_records(
            size,
            glyphs.take(i + 1),
            dimensions,
            row_bytes,
        ),
    decreases k - i,
{
    if k > i + 1 {
        lemma_records_error_persists(size, glyphs, dimensions, row_bytes, i, k - 1);
        assert(glyphs.take(k).drop_last() == glyphs.take(k - 1));
    }
}

/// Makes the record of every glyph of the size.
fn render_fixed_records(
    size: &GeneratedFontSize,
    dimensions: FixedCellDimensions,
    row_bytes: usize,
) -> (result: Result<Vec<Vec<u8>>, AppError>)
    ensures
        match fixed_records(*size, size.glyphs@, dimensions, row_bytes) {
            Ok(records) => result matches Ok(v) && v@.map_values(|r: Vec<u8>| r@) == records,
            Err(e) => result matches Err(x) && x@ == e,
        },
{
    let mut records: Vec<Vec<u8>> = Vec::new();
    assert(size.glyphs@.take(0) =~= Seq::<Glyph>::empty());
    assert(records@.map_values(|r: Vec<u8>| r@) =~= Seq::<Seq<u8>>::empty());
    let mut i: usize = 0;
    while i < size.glyphs.len()
        invariant
            i <= size.glyphs@.len(),
            fixed_records(*size, size.glyphs@.take(i as int), dimensions, row_bytes) == Ok::<
                Seq<Seq<u8>>,
                ErrorView,
            >(records@.map_values(|r: Vec<u8>| r@)),
        decreases size.glyphs.len() - i,
    {
        let glyph = &size.glyphs[i];
        let width = dimensions.width_for(glyph.key.as_str());
        proof {
            assert(size.glyphs@.take(i + 1).drop_last() == size.glyphs@.take(i as int));
            assert(size.glyphs@.take(i + 1).last() == *glyph);
        }
        match fixed_cell_bitmap(size, glyph, width, dimensions.height, row_bytes) {
            Ok(record) => {
                let ghost prev = records@;
                records.push(record);
                assert(records@.map_values(|r: Vec<u8>| r@) =~= prev.map_values(
                    |r: Vec<u8>| r@,
                ).push(record@));
            },
            Err(e) => {
                proof {
                    lemma_records_error_persists(
                        *size,
                        size.glyphs@,
                        dimensions,
                        row_bytes,
                        i as int,
                        size.glyphs@.len() as int,
                    );
                    assert(size.glyphs@.take(size.glyphs@.len() as int) == size.glyphs@);
                }
                return Err(e);
            },
        }
        i += 1;
    }
    assert(size.glyphs@.take(i as int) == size.glyphs@);
    Ok(records)
}

/// A blank line.
pub open spec fn blank() -> Seq<char> {
    seq!['\n']
}

/// `#define {prefix}{suffix}{value}`.
pub open spec fn define_line(prefix: Seq<char>, suffix: Seq<char>, value: Seq<char>) -> Seq<char> {
    line("#define "@ + prefix + suffix + value)
}

/// The comment banner, include guard and include of the fixed-cell header.
pub open spec fn fixed_banner(
    prefix: Seq<char>,
    dimensions: FixedCellDimensions,
    pixel_size: u32,
) -> Seq<char> {
    line(
        "// Auto-generated 4-bit AA fixed-cell bitmap font: "@ + (decimal(
            dimensions.full_width as nat,
        ) + "x"@ + decimal(dimensions.height as nat) + " full-width pixels"@),
    ) + line("// Format: 4-bit grayscale alpha, nibble-packed, 2 pixels per byte"@) + line(
        "// Pixel size: "@ + decimal(pixel_size as nat),
    ) + blank() + line("#ifndef "@ + prefix + "_H"@) + line("#define "@ + prefix + "_H"@)
        + blank() + line("#include <stdint.h>"@) + blank()
}

/// The dimension, depth, record size and count constants of the fixed-cell
/// header, followed by a blank line.
pub open spec fn fixed_defines(
    prefix: Seq<char>,
    dimensions: FixedCellDimensions,
    full_bytes: usize,
    half_bytes: usize,
    count: nat,
) -> Seq<char> {
    define_line(prefix, "_WIDTH "@, decimal(dimensions.full_width as nat)) + define_line(
        prefix,
        "_HEIGHT "@,
        decimal(dimensions.height as nat),
    ) + define_line(prefix, "_FULL_WIDTH "@, decimal(dimensions.full_width as nat)) + define_line(
        prefix,
        "_HALF_WIDTH "@,
        decimal(dimensions.half_width as nat),
    ) + line("#define "@ + prefix + "_BPP 4"@) + define_line(
        prefix,
        "_FULL_BYTES_PER_CHAR "@,
        decimal(full_bytes as nat),
    ) + define_line(prefix, "_HALF_BYTES_PER_CHAR "@, decimal(half_bytes as nat)) + define_line(
        prefix,
        "_BYTES_PER_CHAR "@,
        decimal(full_bytes as nat),
    ) + define_line(prefix, "_CHAR_COUNT "@, decimal(count)) + blank()
}

/// The comment banner, include guard, include and constants of the
/// fixed-cell header.
pub open spec fn fixed_preamble(
    prefix: Seq<char>,
    dimensions: FixedCellDimensions,
    full_bytes: usize,
    half_bytes: usize,
    pixel_size: u32,
    count: nat,
) -> Seq<char> {
    fixed_banner(prefix, dimensions, pixel_size) + fixed_defines(
        prefix,
        dimensions,
        full_bytes,
        half_bytes,
        count,
    )
}

/// One line of the mapping string: a C string literal, the last one ending
/// the statement.
pub open spec fn chunk_line(chunk: Seq<char>, last: bool) -> Seq<char> {
    line(
        "    "@ + if last {
            c_string(chunk).push(';')
        } else {
            c_string(chunk)
        },
    )
}

/// The lines of the mapping string.
pub open spec fn chunk_lines(chunks: Seq<Seq<char>>) -> Seq<char> {
    concat(Seq::new(chunks.len(), |i: int| chunk_line(chunks[i], i + 1 == chunks.len())))
}

/// The width table entry of a glyph: its record width and, as a comment, its key.
pub open spec fn width_line(dimensions: FixedCellDimensions, glyph: Glyph) -> Seq<char> {
    line(
        "    "@ + decimal(unit_width(dimensions, glyph.key@) as nat) + "u, // '"@ + glyph.key@
            + "'"@,
    )
}

/// The data table entry of a glyph: its key as a comment, then its record bytes.
pub open spec fn data_block(key: Seq<char>, record: Seq<u8>) -> Seq<char> {
    line("    {// '"@ + key + "'"@) + byte_rows(record, "     "@) + line("    },"@)
}

/// The mapping string statement: every display unit concatenated, as C
/// string literals of at most 32 units each.
pub open spec fn mapping_section(name: Seq<char>, size: GeneratedFontSize) -> Seq<char> {
    line("static const char *"@ + name + "_chars ="@) + chunk_lines(
        mapping_chunk_texts(glyph_keys(size.glyphs@), 32),
    ) + blank()
}

/// The width table: one record width per display unit.
pub open spec fn widths_section(
    name: Seq<char>,
    dimensions: FixedCellDimensions,
    size: GeneratedFontSize,
) -> Seq<char> {
    line(
        "static const uint8_t "@ + (name + "_widths["@ + decimal(size.glyphs@.len()) + "] = {"@),
    ) + concat(size.glyphs@.map_values(|g: Glyph| width_line(dimensions, g))) + line("};"@)
        + blank()
}

/// The data table: one fixed-size record per display unit.
pub open spec fn data_section(
    name: Seq<char>,
    full_bytes: usize,
    size: GeneratedFontSize,
    records: Seq<Seq<u8>>,
) -> Seq<char> {
    line(
        "static const uint8_t "@ + (name + "_data["@ + decimal(size.glyphs@.len()) + "]["@
            + decimal(full_bytes as nat) + "] = {"@),
    ) + concat(Seq::new(size.glyphs@.len(), |i: int| data_block(size.glyphs@[i].key@, records[i])))
        + line("};"@) + blank()
}

/// The complete fixed-cell header.
pub open spec fn fixed_header_text(
    name: Seq<char>,
    dimensions: FixedCellDimensions,
    full_bytes: usize,
    half_bytes: usize,
    size: GeneratedFontSize,
    records: Seq<Seq<u8>>,
) -> Seq<char> {
    fixed_preamble(
        macro_prefix(name),
        dimensions,
        full_bytes,
        half_bytes,
        size.pixel_size,
        size.glyphs@.len(),
    ) + mapping_section(name, size) + widths_section(name, dimensions, size) + data_section(
        name,
        full_bytes,
        size,
        records,
    ) + line("#endif"@)
}

/// The fixed-cell records stay index-aligned with the glyphs: one record per
/// glyph, in glyph order, each the glyph's own record at its unit width and
/// each exactly `row_bytes` long.
pub proof fn fixed_records_aligned(
    size: GeneratedFontSize,
    glyphs: Seq<Glyph>,
    dimensions: FixedCellDimensions,
    row_bytes: usize,
)
    ensures
        fixed_records(size, glyphs, dimensions, row_bytes) matches Ok(r) ==> {
            &&& r.len() == glyphs.len()
            &&& forall|i: int|
                0 <= i < glyphs.len() ==> {
                    &&& fixed_record(
                        size,
                        #[trigger] glyphs[i],
                        unit_width(dimensions, glyphs[i].key@),
                        dimensions.height,
                        row_bytes,
                    ) == Ok::<Seq<u8>, ErrorView>(r[i])
                    &&& r[i].len() == row_bytes
                }
        },
    decreases glyphs.len(),
{
    if glyphs.len() > 0 {
        let init = glyphs.drop_last();
        fixed_records_aligned(size, init, dimensions, row_bytes);
        if fixed_records(size, glyphs, dimensions, row_bytes) is Ok {
            let r = fixed_records(size, glyphs, dimensions, row_bytes)->Ok_0;
            let prev = fixed_records(size, init, dimensions, row_bytes)->Ok_0;
            assert forall|i: int| 0 <= i < glyphs.len() implies {
                &&& fixed_record(
                    size,
                    #[trigger] glyphs[i],
                    unit_width(dimensions, glyphs[i].key@),
                    dimensions.height,
                    row_bytes,
                ) == Ok::<Seq<u8>, ErrorView>(r[i])
                &&& r[i].len() == row_bytes
            } by {
                if i < init.len() {
                    assert(init[i] == glyphs[i]);
                    assert(r[i] == prev[i]);
                }
                let rec = fixed_record(
                    size,
                    glyphs[i],
                    unit_width(dimensions, glyphs[i].key@),
                    dimensions.height,
                    row_bytes,
                );
                assert(rec is Ok);
                assert(rec->Ok_0.len() == row_bytes);
            }
        }
    }
}

/// A glyph bitmap wider or taller than the configured cell.
pub open spec fn glyph_too_large(glyph: Glyph, cell: FixedCellSettings) -> bool {
    glyph.width > cell.width || glyph.height > cell.height
}

/// The error that reports a glyph too large for the configured cell.
pub open spec fn too_large_error(glyph: Glyph, cell: FixedCellSettings) -> ErrorView {
    ErrorView::FixedCellGlyphTooLarge {
        glyph: glyph.key@,
        glyph_width: glyph.width,
        glyph_height: glyph.height,
        cell_width: cell.width,
        cell_height: cell.height,
    }
}

/// The error of the first glyph, in order, that is too large for the
/// configured cell, if any is.
pub open spec fn oversized_glyph_error(glyphs: Seq<Glyph>, cell: FixedCellSettings) -> Option<
    ErrorView,
>
    decreases glyphs.len(),
{
    if glyphs.len() == 0 {
        None
    } else {
        match oversized_glyph_error(glyphs.drop_last(), cell) {
            Some(e) => Some(e),
            None => if glyph_too_large(glyphs.last(), cell) {
                Some(too_large_error(glyphs.last(), cell))
            } else {
                None
            },
        }
    }
}

/// The first oversized glyph decides the error, and none of the glyphs is
/// oversized when there is no error.
proof fn lemma_oversized_first(glyphs: Seq<Glyph>, cell: FixedCellSettings, i: int)
    requires
        0 <= i <= glyphs.len(),
        forall|j: int| 0 <= j < i ==> !glyph_too_large(#[trigger] glyphs[j], cell),
    ensures
        oversized_glyph_error(glyphs.take(i), cell) is None,
        i < glyphs.len() && glyph_too_large(glyphs[i], cell) ==> oversized_glyph_error(
            glyphs,
            cell,
        ) == Some(too_large_error(glyphs[i], cell)),
{
    lemma_oversized_prefix_none(glyphs, cell, i);
    if i < glyphs.len() && glyph_too_large(glyphs[i], cell) {
        lemma_oversized_persists(glyphs, cell, i, glyphs.len() as int);
        assert(glyphs.take(glyphs.len() as int) == glyphs);
    }
}

proof fn lemma_oversized_prefix_none(glyphs: Seq<Glyph>, cell: FixedCellSettings, i: int)
    requires
        0 <= i <= glyphs.len(),
        forall|j: int| 0 <= j < i ==> !glyph_too_large(#[trigger] glyphs[j], cell),
    ensures
        oversized_glyph_error(glyphs.take(i), cell) is None,
    decreases i,
{
    if i > 0 {
        lemma_oversized_prefix_none(glyphs, cell, i - 1);
        assert(glyphs.take(i).drop_last() == glyphs.take(i - 1));
        assert(glyphs.take(i).last() == glyphs[i - 1]);
    }
}

proof fn lemma_oversized_persists(glyphs: Seq<Glyph>, cell: FixedCellSettings, i: int, k: int)
    requires
        0 <= i < k <= glyphs.len(),
        oversized_glyph_error(glyphs.take(i), cell) is None,
        glyph_too_large(glyphs[i], cell),
    ensures
        oversized_glyph_error(glyphs.take(k), cell) == Some(too_large_error(glyphs[i], cell)),
    decreases k - i,
{
    if k == i + 1 {
        assert(glyphs.take(k).drop_last() == glyphs.take(i));
        assert(glyphs.take(k).last() == glyphs[i]);
    } else {
        lemma_oversized_persists(glyphs, cell, i, k - 1);
        assert(glyphs.take(k).drop_last() == glyphs.take(k - 1));
    }
}

/// Checks that every glyph bitmap fits the configured cell; the first one
/// that does not is reported with its size and the cell's.
fn check_glyphs_fit(glyphs: &Vec<Glyph>, cell: FixedCellSettings) -> (result: Result<(), AppError>)
    ensures
        check_outcome(result, oversized_glyph_error(glyphs@, cell)),
{
    let mut i: usize = 0;
    while i < glyphs.len()
        invariant
            i <= glyphs@.len(),
            forall|j: int| 0 <= j < i ==> !glyph_too_large(#[trigger] glyphs@[j], cell),
        decreases glyphs.len() - i,
    {
        let glyph = &glyphs[i];
        if glyph.width > cell.width || glyph.height > cell.height {
            proof {
                lemma_oversized_first(glyphs@, cell, i as int);
            }
            return Err(
                AppError::FixedCellGlyphTooLarge {
                    glyph: glyph.key.clone(),
                    glyph_width: glyph.width,
                    glyph_height: glyph.height,
                    cell_width: cell.width,
                    cell_height: cell.height,
                },
            );
        }
        i += 1;
    }
    proof {
        lemma_oversized_first(glyphs@, cell, i as int);
        assert(glyphs@.take(i as int) == glyphs@);
    }
    Ok(())
}

/// The fixed-cell header for the settings and model, or the first reason it
/// cannot be made: no fixed cell, no generated size, a glyph bitmap larger
/// than the configured cell, a record size the host cannot hold, or a glyph
/// whose record cannot be made.
pub open spec fn fixed_header(settings: GenerationSettings, font: GeneratedFont) -> Result<
    Seq<char>,
    ErrorView,
> {
    match settings.fixed_cell {
        None => Err(ErrorView::MissingSetting("fixed_cell"@)),
        Some(cell) => if font.sizes@.len() == 0 {
            Err(
                invalid_setting(
                    "generation.sizes"@,
                    "'c-fixed' requires exactly one generated size"@,
                ),
            )
        } else if oversized_glyph_error(font.sizes@[0].glyphs@, cell) is Some {
            Err(oversized_glyph_error(font.sizes@[0].glyphs@, cell)->Some_0)
        } else {
            let size = font.sizes@[0];
            let dimensions = fixed_dimensions(cell.width, cell.height);
            match record_bytes_result(dimensions.full_width, dimensions.height) {
                Err(e) => Err(e),
                Ok(full_bytes) => match record_bytes_result(
                    dimensions.half_width,
                    dimensions.height,
                ) {
                    Err(e) => Err(e),
                    Ok(half_bytes) => match fixed_records(
                        size,
                        size.glyphs@,
                        dimensions,
                        full_bytes,
                    ) {
                        Err(e) => Err(e),
                        Ok(records) => Ok(
                            fixed_header_text(
                                settings.output_name@,
                                dimensions,
                                full_bytes,
                                half_bytes,
                                size,
                                records,
                            ),
                        ),
                    },
                },
            }
        },
    }
}

fn push_define(text: &mut String, prefix: &str, suffix: &str, value: u64)
    ensures
        final(text)@ == old(text)@ + define_line(prefix@, suffix@, decimal(value as nat)),
{
    push_str(text, "#define ");
    push_str(text, prefix);
    push_str(text, suffix);
    crate::text::push_decimal(text, value);
    push_char(text, '\n');
    assert(final(text)@ == old(text)@ + define_line(prefix@, suffix@, decimal(value as nat)));
}

fn push_directive(text: &mut String, directive: &str, prefix: &str, suffix: &str)
    ensures
        final(text)@ == old(text)@ + line(directive@ + prefix@ + suffix@),
{
    push_str(text, directive);
    push_str(text, prefix);
    push_str(text, suffix);
    push_char(text, '\n');
}

fn render_fixed_banner(prefix: &str, dimensions: FixedCellDimensions, pixel_size: u32) -> (text:
    String)
    ensures
        text@ == fixed_banner(prefix@, dimensions, pixel_size),
{
    let mut text = String::new();
    let mut banner = String::new();
    push_u32(&mut banner, dimensions.full_width);
    push_str(&mut banner, "x");
    push_u32(&mut banner, dimensions.height);
    push_str(&mut banner, " full-width pixels");
    push_line(&mut text, "// Auto-generated 4-bit AA fixed-cell bitmap font: ", banner.as_str());
    push_str(&mut text, "// Format: 4-bit grayscale alpha, nibble-packed, 2 pixels per byte");
    push_char(&mut text, '\n');
    let mut pixel = String::new();
    push_u32(&mut pixel, pixel_size);
    push_line(&mut text, "// Pixel size: ", pixel.as_str());
    push_char(&mut text, '\n');
    push_directive(&mut text, "#ifndef ", prefix, "_H");
    push_directive(&mut text, "#define ", prefix, "_H");
    push_char(&mut text, '\n');
    push_str(&mut text, "#include <stdint.h>");
    push_char(&mut text, '\n');
    push_char(&mut text, '\n');
    text
}

fn render_fixed_defines(
    prefix: &str,
    dimensions: FixedCellDimensions,
    full_bytes: usize,
    half_bytes: usize,
    count: usize,
) -> (text: String)
    ensures
        text@ == fixed_defines(prefix@, dimensions, full_bytes, half_bytes, count as nat),
{
    let mut text = String::new();
    push_define(&mut text, prefix, "_WIDTH ", dimensions.full_width as u64);
    push_define(&mut text, prefix, "_HEIGHT ", dimensions.height as u64);
    push_define(&mut text, prefix, "_FULL_WIDTH ", dimensions.full_width as u64);
    push_define(&mut text, prefix, "_HALF_WIDTH ", dimensions.half_width as u64);
    push_directive(&mut text, "#define ", prefix, "_BPP 4");
    push_define(&mut text, prefix, "_FULL_BYTES_PER_CHAR ", full_bytes as u64);
    push_define(&mut text, prefix, "_HALF_BYTES_PER_CHAR ", half_bytes as u64);
    push_define(&mut text, prefix, "_BYTES_PER_CHAR ", full_bytes as u64);
    push_define(&mut text, prefix, "_CHAR_COUNT ", count as u64);
    push_char(&mut text, '\n');
    text
}


fn render_chunk_lines(chunks: &Vec<String>) -> (text: String)
    ensures
        text@ == chunk_lines(chunks@.map_values(|c: String| c@)),
{
    let ghost views = chunks@.map_values(|c: String| c@);
    let ghost lines = Seq::new(views.len(), |i: int| chunk_line(views[i], i + 1 == views.len()));
    let mut text = String::new();
    let mut i: usize = 0;
    while i < chunks.len()
        invariant
            i <= chunks@.len(),
            views == chunks@.map_values(|c: String| c@),
            lines == Seq::new(views.len(), |i: int| chunk_line(views[i], i + 1 == views.len())),
            text@ == concat(lines.take(i as int)),
        decreases chunks.len() - i,
    {
        let literal = c_string_literal(chunks[i].as_str());
        let ghost before = text@;
        push_str(&mut text, "    ");
        push_str(&mut text, literal.as_str());
        if i + 1 == chunks.len() {
            push_char(&mut text, ';');
        }
        push_char(&mut text, '\n');
        proof {
            assert(text@ == before + lines[i as int]);
            lemma_concat_take(lines, i as int);
        }
        i += 1;
    }
    proof {
        lemma_concat_all(lines);
    }
    text
}

fn render_width_lines(dimensions: FixedCellDimensions, glyphs: &Vec<Glyph>) -> (text: String)
    ensures
        text@ == concat(glyphs@.map_values(|g: Glyph| width_line(dimensions, g))),
{
    let ghost lines = glyphs@.map_values(|g: Glyph| width_line(dimensions, g));
    let mut text = String::new();
    let mut i: usize = 0;
    while i < glyphs.len()
        invariant
            i <= glyphs@.len(),
            lines == glyphs@.map_values(|g: Glyph| width_line(dimensions, g)),
            text@ == concat(lines.take(i as int)),
        decreases glyphs.len() - i,
    {
        let glyph = &glyphs[i];
        let width = dimensions.width_for(glyph.key.as_str());
        let ghost before = text@;
        push_str(&mut text, "    ");
        push_u32(&mut text, width);
        push_str(&mut text, "u, // '");
        push_str(&mut text, glyph.key.as_str());
        push_str(&mut text, "'");
        push_char(&mut text, '\n');
        proof {
            assert(text@ == before + lines[i as int]);
            lemma_concat_take(lines, i as int);
        }
        i += 1;
    }
    proof {
        lemma_concat_all(lines);
    }
    text
}

fn render_data_blocks(glyphs: &Vec<Glyph>, records: &Vec<Vec<u8>>) -> (text: String)
    requires
        records@.len() == glyphs@.len(),
    ensures
        text@ == concat(
            Seq::new(
                glyphs@.len(),
                |i: int| data_block(glyphs@[i].key@, records@.map_values(|r: Vec<u8>| r@)[i]),
            ),
        ),
{
    let ghost views = records@.map_values(|r: Vec<u8>| r@);
    let ghost blocks = Seq::new(glyphs@.len(), |i: int| data_block(glyphs@[i].key@, views[i]));
    let mut text = String::new();
    let mut i: usize = 0;
    while i < glyphs.len()
        invariant
            i <= glyphs@.len(),
            records@.len() == glyphs@.len(),
            views == records@.map_values(|r: Vec<u8>| r@),
            blocks == Seq::new(glyphs@.len(), |i: int| data_block(glyphs@[i].key@, views[i])),
            text@ == concat(blocks.take(i as int)),
        decreases glyphs.len() - i,
    {
        let ghost before = text@;
        push_str(&mut text, "    {// '");
        push_str(&mut text, glyphs[i].key.as_str());
        push_str(&mut text, "'");
        push_char(&mut text, '\n');
        let rows = byte_array_literal(records[i].as_slice(), "     ");
        push_str(&mut text, rows.as_str());
        push_str(&mut text, "    },");
        push_char(&mut text, '\n');
        proof {
            assert(text@ == before + blocks[i as int]);
            lemma_concat_take(blocks, i as int);
        }
        i += 1;
    }
    proof {
        lemma_concat_all(blocks);
    }
    text
}

fn render_mapping_section(name: &str, size: &GeneratedFontSize) -> (text: String)
    ensures
        text@ == mapping_section(name@, *size),
{
    let mut text = String::new();
    push_directive(&mut text, "static const char *", name, "_chars =");
    let chunks = mapping_chunks(size, 32);
    let chunk_text = render_chunk_lines(&chunks);
    push_str(&mut text, chunk_text.as_str());
    push_char(&mut text, '\n');
    text
}

fn render_widths_section(name: &str, dimensions: FixedCellDimensions, size: &GeneratedFontSize) -> (text: String)
    ensures
        text@ == widths_section(name@, dimensions, *size),
{
    let mut text = String::new();
    let mut head = String::new();
    push_str(&mut head, name);
    push_str(&mut head, "_widths[");
    push_usize(&mut head, size.glyphs.len());
    push_str(&mut head, "] = {");
    push_line(&mut text, "static const uint8_t ", head.as_str());
    let widths = render_width_lines(dimensions, &size.glyphs);
    push_str(&mut text, widths.as_str());
    push_str(&mut text, "};");
    push_char(&mut text, '\n');
    push_char(&mut text, '\n');
    text
}

fn render_data_section(
    name: &str,
    full_bytes: usize,
    size: &GeneratedFontSize,
    records: &Vec<Vec<u8>>,
) -> (text: String)
    requires
        records@.len() == size.glyphs@.len(),
    ensures
        text@ == data_section(name@, full_bytes, *size, records@.map_values(|r: Vec<u8>| r@)),
{
    let mut text = String::new();
    let mut head = String::new();
    push_str(&mut head, name);
    push_str(&mut head, "_data[");
    push_usize(&mut head, size.glyphs.len());
    push_str(&mut head, "][");
    push_usize(&mut head, full_bytes);
    push_str(&mut head, "] = {");
    push_line(&mut text, "static const uint8_t ", head.as_str());
    let blocks = render_data_blocks(&size.glyphs, records);
    push_str(&mut text, blocks.as_str());
    push_str(&mut text, "};");
    push_char(&mut text, '\n');
    push_char(&mut text, '\n');
    text
}

fn assemble_fixed_header(
    name: &str,
    dimensions: FixedCellDimensions,
    full_bytes: usize,
    half_bytes: usize,
    size: &GeneratedFontSize,
    records: &Vec<Vec<u8>>,
) -> (text: String)
    requires
        records@.len() == size.glyphs@.len(),
    ensures
        text@ == fixed_header_text(
            name@,
            dimensions,
            full_bytes,
            half_bytes,
            *size,
            records@.map_values(|r: Vec<u8>| r@),
        ),
{
    let prefix = c_macro_prefix(name);
    let mut text = render_fixed_banner(prefix.as_str(), dimensions, size.pixel_size);
    let defines = render_fixed_defines(
        prefix.as_str(),
        dimensions,
        full_bytes,
        half_bytes,
        size.glyphs.len(),
    );
    push_str(&mut text, defines.as_str());
    let mapping = render_mapping_section(name, size);
    push_str(&mut text, mapping.as_str());
    let widths = render_widths_section(name, dimensions, size);
    push_str(&mut text, widths.as_str());
    let data = render_data_section(name, full_bytes, size, records);
    push_str(&mut text, data.as_str());
    push_str(&mut text, "#endif");
    push_char(&mut text, '\n');
    text
}

/// Renders the fixed-cell header: constants, the UTF-8 mapping string of all
/// display units, the per-unit record widths and the fixed-size records.
pub fn render_fixed_header(settings: &GenerationSettings, font: &GeneratedFont) -> (result: Result<
    String,
    AppError,
>)
    requires
        settings.fixed_cell is Some && font.sizes@.len() > 0 ==> settings.fixed_cell->Some_0.width
            >= 2 && settings.fixed_cell->Some_0.height >= 1,
    ensures
        match fixed_header(*settings, *font) {
            Ok(t) => result matches Ok(s) && s@ == t,
            Err(e) => result matches Err(x) && x@ == e,
        },
{
    let cell = match settings.fixed_cell {
        Some(c) => c,
        None => {
            return Err(AppError::MissingSetting("fixed_cell"));
        },
    };
    if font.sizes.len() == 0 {
        return Err(
            AppError::InvalidSetting {
                setting: "generation.sizes",
                message: String::from_str("'c-fixed' requires exactly one generated size"),
            },
        );
    }
    let size = &font.sizes[0];
    match check_glyphs_fit(&size.glyphs, cell) {
        Ok(()) => {},
        Err(e) => {
            return Err(e);
        },
    }
    let dimensions = FixedCellDimensions::from_config(cell.width, cell.height);
    let full_bytes = match fixed_bytes_per_char(dimensions.full_width, dimensions.height) {
        Ok(n) => n,
        Err(e) => {
            return Err(e);
        },
    };
    let half_bytes = match fixed_bytes_per_char(dimensions.half_width, dimensions.height) {
        Ok(n) => n,
        Err(e) => {
            return Err(e);
        },
    };
    let records = match render_fixed_records(size, dimensions, full_bytes) {
        Ok(r) => r,
        Err(e) => {
            return Err(e);
        },
    };
    proof {
        fixed_records_aligned(*size, size.glyphs@, dimensions, full_bytes);
    }
    let text = assemble_fixed_header(
        settings.output_name.as_str(),
        dimensions,
        full_bytes,
        half_bytes,
        size,
        &records,
    );
    Ok(text)
}


/// Without an oversized-glyph error every glyph fits the cell.
proof fn lemma_oversized_none_all(glyphs: Seq<Glyph>, cell: FixedCellSettings)
    requires
        oversized_glyph_error(glyphs, cell) is None,
    ensures
        forall|i: int| 0 <= i < glyphs.len() ==> !glyph_too_large(#[trigger] glyphs[i], cell),
    decreases glyphs.len(),
{
    if glyphs.len() > 0 {
        lemma_oversized_none_all(glyphs.drop_last(), cell);
        assert forall|i: int| 0 <= i < glyphs.len() implies !glyph_too_large(
            #[trigger] glyphs[i],
            cell,
        ) by {
            if i < glyphs.len() - 1 {
                assert(glyphs.drop_last()[i] == glyphs[i]);
            }
        }
    }
}

/// A glyph bitmap larger than the configured cell (the cell as configured,
/// before the spacing pixel is taken off) stops the fixed-cell header: the
/// first such glyph is reported with its key, its size and the cell's size.
pub proof fn oversized_glyph_is_reported(settings: GenerationSettings, font: GeneratedFont, i: int)
    requires
        settings.fixed_cell is Some,
        font.sizes@.len() > 0,
        0 <= i < font.sizes@[0].glyphs@.len(),
        glyph_too_large(font.sizes@[0].glyphs@[i], settings.fixed_cell->Some_0),
        forall|j: int|
            0 <= j < i ==> !glyph_too_large(
                #[trigger] font.sizes@[0].glyphs@[j],
                settings.fixed_cell->Some_0,
            ),
    ensures
        fixed_header(settings, font) == Err::<Seq<char>, ErrorView>(
            too_large_error(font.sizes@[0].glyphs@[i], settings.fixed_cell->Some_0),
        ),
{
    lemma_oversized_first(font.sizes@[0].glyphs@, settings.fixed_cell->Some_0, i);
}

/// The layout of a fixed-cell header: every glyph fits the configured cell;
/// the records are one per glyph, in glyph order, each the glyph's own record
/// at its unit width and exactly the full-width byte count
/// `(full_width * height + 1) / 2` long; the header text is made of these
/// records, and its mapping string chunks laid end to end are the glyph keys
/// in order.
pub proof fn fixed_header_layout(settings: GenerationSettings, font: GeneratedFont)
    requires
        fixed_header(settings, font) is Ok,
    ensures
        settings.fixed_cell is Some,
        font.sizes@.len() > 0,
        ({
            let cell = settings.fixed_cell->Some_0;
            let size = font.sizes@[0];
            let d = fixed_dimensions(cell.width, cell.height);
            let full_bytes = record_bytes(d.full_width, d.height) as usize;
            let half_bytes = record_bytes(d.half_width, d.height) as usize;
            let records = fixed_records(size, size.glyphs@, d, full_bytes)->Ok_0;
            &&& forall|i: int|
                0 <= i < size.glyphs@.len() ==> !glyph_too_large(#[trigger] size.glyphs@[i], cell)
            &&& full_bytes == record_bytes(d.full_width, d.height)
            &&& fixed_records(size, size.glyphs@, d, full_bytes) is Ok
            &&& records.len() == size.glyphs@.len()
            &&& forall|i: int|
                0 <= i < size.glyphs@.len() ==> {
                    &&& fixed_record(
                        size,
                        #[trigger] size.glyphs@[i],
                        unit_width(d, size.glyphs@[i].key@),
                        d.height,
                        full_bytes,
                    ) == Ok::<Seq<u8>, ErrorView>(records[i])
                    &&& records[i].len() == full_bytes
                }
            &&& fixed_header(settings, font)->Ok_0 == fixed_header_text(
                settings.output_name@,
                d,
                full_bytes,
                half_bytes,
                size,
                records,
            )
            &&& concat(mapping_chunk_texts(glyph_keys(size.glyphs@), 32)) == concat(
                glyph_keys(size.glyphs@),
            )
        }),
{
    let cell = settings.fixed_cell->Some_0;
    let size = font.sizes@[0];
    let d = fixed_dimensions(cell.width, cell.height);
    let full_bytes = record_bytes(d.full_width, d.height) as usize;
    lemma_oversized_none_all(size.glyphs@, cell);
    fixed_records_aligned(size, size.glyphs@, d, full_bytes);
    lemma_mapping_chunks_concat(glyph_keys(size.glyphs@), 32);
}


/// The dimension macros of the fixed-cell header: `{PREFIX}_WIDTH` is the
/// full-width record width, one less than the configured cell width, and
/// `{PREFIX}_HEIGHT`, on the next line, the record height, one less than the
/// configured cell height. That height is the one every data record is laid
/// out with, and each record's width is one less than the cell width, or half
/// the cell width less one for a half-width unit.
pub proof fn fixed_header_dimension_macros(settings: GenerationSettings, font: GeneratedFont)
    requires
        fixed_header(settings, font) is Ok,
        settings.fixed_cell matches Some(cell) && cell.width >= 2 && cell.height >= 1,
    ensures
        ({
            let cell = settings.fixed_cell->Some_0;
            let prefix = macro_prefix(settings.output_name@);
            contains_text(
                fixed_header(settings, font)->Ok_0,
                line("#define "@ + prefix + "_WIDTH "@ + decimal((cell.width - 1) as nat)) + line(
                    "#define "@ + prefix + "_HEIGHT "@ + decimal((cell.height - 1) as nat),
                ),
            )
        }),
        ({
            let cell = settings.fixed_cell->Some_0;
            let size = font.sizes@[0];
            let full_bytes = (((cell.width - 1) * (cell.height - 1) + 1) / 2) as usize;
            let records = fixed_records(
                size,
                size.glyphs@,
                fixed_dimensions(cell.width, cell.height),
                full_bytes,
            )->Ok_0;
            forall|i: int|
                0 <= i < size.glyphs@.len() ==> fixed_record(
                    size,
                    #[trigger] size.glyphs@[i],
                    if half_width_unit(size.glyphs@[i].key@) {
                        (cell.width / 2 - 1) as u32
                    } else {
                        (cell.width - 1) as u32
                    },
                    (cell.height - 1) as u32,
                    full_bytes,
                ) == Ok::<Seq<u8>, ErrorView>(records[i])
        }),
{
    let cell = settings.fixed_cell->Some_0;
    let size = font.sizes@[0];
    let d = fixed_dimensions(cell.width, cell.height);
    assert(d.full_width == cell.width - 1 && d.height == cell.height - 1 && d.half_width
        == cell.width / 2 - 1);
    let full_bytes = record_bytes(d.full_width, d.height) as usize;
    let half_bytes = record_bytes(d.half_width, d.height) as usize;
    fixed_header_layout(settings, font);
    let prefix = macro_prefix(settings.output_name@);
    let piece = line("#define "@ + prefix + "_WIDTH "@ + decimal((cell.width - 1) as nat)) + line(
        "#define "@ + prefix + "_HEIGHT "@ + decimal((cell.height - 1) as nat),
    );
    let defines = fixed_defines(prefix, d, full_bytes, half_bytes, size.glyphs@.len());
    assert(defines.subrange(0, piece.len() as int) =~= piece);
    lemma_contains_start(defines, piece);
    lemma_contains_prepend(fixed_banner(prefix, d, size.pixel_size), defines, piece);
    let records = fixed_records(size, size.glyphs@, d, full_bytes)->Ok_0;
    let pre = fixed_preamble(prefix, d, full_bytes, half_bytes, size.pixel_size, size.glyphs@.len());
    lemma_contains_append(pre, piece, mapping_section(settings.output_name@, size));
    lemma_contains_append(
        pre + mapping_section(settings.output_name@, size),
        piece,
        widths_section(settings.output_name@, d, size),
    );
    lemma_contains_append(
        pre + mapping_section(settings.output_name@, size) + widths_section(
            settings.output_name@,
            d,
            size,
        ),
        piece,
        data_section(settings.output_name@, full_bytes, size, records),
    );
    lemma_contains_append(
        pre + mapping_section(settings.output_name@, size) + widths_section(
            settings.output_name@,
            d,
            size,
        ) + data_section(settings.output_name@, full_bytes, size, records),
        piece,
        line("#endif"@),
    );
}


/// The glyph typedef of the metrics header declares width before height.
#[verifier::spinoff_prover]
proof fn lemma_header_field_order(name: Seq<char>)
    ensures
        contains_text(
            metrics_header(name),
            "    uint32_t width;\n    uint32_t height;\n"@,
        ),
{
    let header_text = metrics_header(name);
    let fields = "    uint32_t width;\n    uint32_t height;\n"@;
    reveal_strlit("    uint32_t width;\n    uint32_t height;\n");
    reveal_strlit("#pragma once\n\n#include <stddef.h>\n#include <stdint.h>\n\ntypedef struct {\n    const char *key;\n    uint32_t bitmap_offset;\n    uint32_t bitmap_len;\n    uint32_t width;\n    uint32_t height;\n    int32_t advance_x;\n    int32_t bearing_x;\n    int32_t bearing_y;\n} ");
    let k: int = 146;
    assert(header_text.subrange(k, k + fields.len()) =~= fields);
}

/// The metrics source lists every glyph of every size as a positional
/// initializer whose fields follow the metrics header's glyph typedef: key,
/// bitmap offset, bitmap length, width, then height, advance and bearings.
#[verifier::spinoff_prover]
#[verifier::rlimit(60)]
pub proof fn metrics_source_glyph_fields(name: Seq<char>, font: GeneratedFont, s: int, g: int)
    requires
        0 <= s < font.sizes@.len(),
        0 <= g < font.sizes@[s].glyphs@.len(),
    ensures
        ({
            let glyph = font.sizes@[s].glyphs@[g];
            contains_text(
                metrics_source(name, font),
                "    { "@ + c_string(glyph.key@) + ", "@ + decimal(glyph.bitmap_offset as nat)
                    + "u, "@ + decimal(glyph.bitmap_len as nat) + "u, "@ + decimal(
                    glyph.width as nat,
                ) + "u, "@ + decimal(glyph.height as nat) + "u, "@ + signed_decimal(
                    glyph.advance_x as int,
                ) + ", "@ + signed_decimal(glyph.bearing_x as int) + ", "@ + signed_decimal(
                    glyph.bearing_y as int,
                ) + " },\n"@,
            )
        }),
        contains_text(
            metrics_header(name),
            "    uint32_t width;\n    uint32_t height;\n"@,
        ),
{
    let size = font.sizes@[s];
    let glyph = size.glyphs@[g];
    let entry = metrics_glyph_line(glyph);
    assert(entry.subrange(0, entry.len() as int) =~= entry);
    lemma_contains_start(entry, entry);
    let lines = size.glyphs@.map_values(|x: Glyph| metrics_glyph_line(x));
    assert(lines[g] == entry);
    lemma_concat_contains(lines, g, entry);
    lemma_contains_prepend(metrics_size_head(name, size), metrics_glyph_entries(size), entry);
    lemma_contains_append(
        metrics_size_head(name, size) + metrics_glyph_entries(size),
        entry,
        "};\n"@,
    );
    lemma_contains_append(metrics_size(name, size), entry, "\n"@);
    let blocks = font.sizes@.map_values(|z: GeneratedFontSize| metrics_size(name, z) + "\n"@);
    assert(blocks[s] == metrics_size(name, size) + "\n"@);
    lemma_concat_contains(blocks, s, entry);
    lemma_contains_within(concat(blocks), entry, metrics_source_head(name), metrics_size_table(name, font));
    lemma_header_field_order(name);
}

} // verus!
