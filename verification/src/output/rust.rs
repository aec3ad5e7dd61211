//! Rust output: one module with glyph and font-size types, per-size bitmap
//! and glyph slices, and the table of sizes.

use vstd::prelude::*;

use crate::model::{GeneratedFont, GeneratedFontSize, Glyph};
use crate::output::{byte_array_literal, byte_rows, debug_string, rust_string_literal};
use crate::text::{
    concat, contains_text, decimal, lemma_concat_all, lemma_concat_contains, lemma_concat_take,
    lemma_contains_append, lemma_contains_prepend, lemma_contains_start, push_i32, push_str,
    push_u32, push_usize, signed_decimal,
};

verus! {

/// `SIZE_{pixel_size}`: the prefix of a size's Rust constants.
pub open spec fn size_suffix(pixel_size: u32) -> Seq<char> {
    "SIZE_"@ + decimal(pixel_size as nat)
}

fn push_size_suffix(text: &mut String, pixel_size: u32)
    ensures
        final(text)@ == old(text)@ + size_suffix(pixel_size),
{
    push_str(text, "SIZE_");
    push_u32(text, pixel_size);
}

/// One entry of a size's glyph slice.
pub open spec fn glyph_entry(glyph: Glyph) -> Seq<char> {
    glyph_entry_with_key(debug_string(glyph.key@), glyph)
}

/// One entry of a size's glyph slice, its key written as `key_literal`.
pub open spec fn glyph_entry_with_key(key_literal: Seq<char>, glyph: Glyph) -> Seq<char> {
    "    Glyph { key: "@ + key_literal + ", bitmap_offset: "@ + decimal(
        glyph.bitmap_offset as nat,
    ) + ", bitmap_len: "@ + decimal(glyph.bitmap_len as nat) + ", width: "@ + decimal(
        glyph.width as nat,
    ) + "u32, height: "@ + decimal(glyph.height as nat) + "u32, advance_x: "@ + signed_decimal(
        glyph.advance_x as int,
    ) + ", bearing_x: "@ + signed_decimal(glyph.bearing_x as int) + ", bearing_y: "@
        + signed_decimal(glyph.bearing_y as int) + " },\n"@
}

/// The bitmap slice and glyph slice constants of one size.
pub open spec fn module_size(size: GeneratedFontSize) -> Seq<char> {
    let suffix = size_suffix(size.pixel_size);
    "pub const "@ + suffix + "_BITMAP_DATA: &[u8] = &[\n"@ + byte_rows(size.bitmap_data@, "    "@)
        + "];\n\n"@ + "pub const "@ + suffix + "_GLYPHS: &[Glyph] = &[\n"@ + concat(
        size.glyphs@.map_values(|g: Glyph| glyph_entry(g)),
    ) + "];\n"@
}

fn render_glyph_entry(glyph: &Glyph) -> (text: String)
    ensures
        text@ == glyph_entry(*glyph),
{
    let key = rust_string_literal(glyph.key.as_str());
    glyph_entry_line(glyph, key.as_str())
}

/// One entry of a size's glyph slice, with the key's string literal given.
pub fn glyph_entry_line(glyph: &Glyph, key_literal: &str) -> (text: String)
    ensures
        text@ == glyph_entry_with_key(key_literal@, *glyph),
{
    let mut text = String::new();
    push_str(&mut text, "    Glyph { key: ");
    push_str(&mut text, key_literal);
    push_str(&mut text, ", bitmap_offset: ");
    push_usize(&mut text, glyph.bitmap_offset);
    push_str(&mut text, ", bitmap_len: ");
    push_usize(&mut text, glyph.bitmap_len);
    push_str(&mut text, ", width: ");
    push_u32(&mut text, glyph.width);
    push_str(&mut text, "u32, height: ");
    push_u32(&mut text, glyph.height);
    push_str(&mut text, "u32, advance_x: ");
    push_i32(&mut text, glyph.advance_x);
    push_str(&mut text, ", bearing_x: ");
    push_i32(&mut text, glyph.bearing_x);
    push_str(&mut text, ", bearing_y: ");
    push_i32(&mut text, glyph.bearing_y);
    push_str(&mut text, " },\n");
    text
}

/// Renders the constants of one size.
pub fn render_size(size: &GeneratedFontSize) -> (text: String)
    ensures
        text@ == module_size(*size),
{
    let mut text = String::new();
    push_str(&mut text, "pub const ");
    push_size_suffix(&mut text, size.pixel_size);
    push_str(&mut text, "_BITMAP_DATA: &[u8] = &[\n");
    let rows = byte_array_literal(size.bitmap_data.as_slice(), "    ");
    push_str(&mut text, rows.as_str());
    push_str(&mut text, "];\n\n");
    push_str(&mut text, "pub const ");
    push_size_suffix(&mut text, size.pixel_size);
    push_str(&mut text, "_GLYPHS: &[Glyph] = &[\n");
    let ghost head = text@;
    let ghost entries = size.glyphs@.map_values(|g: Glyph| glyph_entry(g));
    let mut i: usize = 0;
    while i < size.glyphs.len()
        invariant
            i <= size.glyphs@.len(),
            entries == size.glyphs@.map_values(|g: Glyph| glyph_entry(g)),
            text@ == head + concat(entries.take(i as int)),
        decreases size.glyphs.len() - i,
    {
        let entry = render_glyph_entry(&size.glyphs[i]);
        push_str(&mut text, entry.as_str());
        proof {
            lemma_concat_take(entries, i as int);
        }
        i += 1;
    }
    proof {
        lemma_concat_all(entries);
    }
    push_str(&mut text, "];\n");
    text
}

/// The type declarations that open every generated Rust module.
pub open spec fn module_types() -> Seq<char> {
    "#[derive(Debug, Clone, Copy, PartialEq, Eq)]\npub struct Glyph {\n    pub key: &'static str,\n    pub bitmap_offset: usize,\n    pub bitmap_len: usize,\n    pub width: u32,\n    pub height: u32,\n    pub advance_x: i32,\n    pub bearing_x: i32,\n    pub bearing_y: i32,\n}\n\n#[derive(Debug, Clone, Copy, PartialEq, Eq)]\npub struct FontSize {\n    pub pixel_size: u32,\n    pub glyphs: &'static [Glyph],\n    pub bitmap_data: &'static [u8],\n}\n\n"@
}

/// One entry of the table of sizes.
pub open spec fn size_table_entry(size: GeneratedFontSize) -> Seq<char> {
    let suffix = size_suffix(size.pixel_size);
    "    FontSize { pixel_size: "@ + decimal(size.pixel_size as nat) + "u32, glyphs: "@ + suffix
        + "_GLYPHS, bitmap_data: "@ + suffix + "_BITMAP_DATA },\n"@
}

/// The generated Rust module: the types, each size's constants followed by a
/// blank line, and the `FONT_SIZES` table.
pub open spec fn module_text(font: GeneratedFont) -> Seq<char> {
    module_types() + concat(font.sizes@.map_values(|s: GeneratedFontSize| module_size(s) + "\n"@))
        + "pub const FONT_SIZES: &[FontSize] = &[\n"@ + concat(
        font.sizes@.map_values(|s: GeneratedFontSize| size_table_entry(s)),
    ) + "];\n"@
}

fn render_size_table_entry(size: &GeneratedFontSize) -> (text: String)
    ensures
        text@ == size_table_entry(*size),
{
    let mut text = String::new();
    push_str(&mut text, "    FontSize { pixel_size: ");
    push_u32(&mut text, size.pixel_size);
    push_str(&mut text, "u32, glyphs: ");
    push_size_suffix(&mut text, size.pixel_size);
    push_str(&mut text, "_GLYPHS, bitmap_data: ");
    push_size_suffix(&mut text, size.pixel_size);
    push_str(&mut text, "_BITMAP_DATA },\n");
    text
}

/// Renders the Rust module of the font.
pub fn render_module(font: &GeneratedFont) -> (text: String)
    ensures
        text@ == module_text(*font),
{
    let mut text = String::new();
    push_str(
        &mut text,
        "#[derive(Debug, Clone, Copy, PartialEq, Eq)]\npub struct Glyph {\n    pub key: &'static str,\n    pub bitmap_offset: usize,\n    pub bitmap_len: usize,\n    pub width: u32,\n    pub height: u32,\n    pub advance_x: i32,\n    pub bearing_x: i32,\n    pub bearing_y: i32,\n}\n\n#[derive(Debug, Clone, Copy, PartialEq, Eq)]\npub struct FontSize {\n    pub pixel_size: u32,\n    pub glyphs: &'static [Glyph],\n    pub bitmap_data: &'static [u8],\n}\n\n",
    );
    let ghost head = text@;
    let ghost blocks = font.sizes@.map_values(|s: GeneratedFontSize| module_size(s) + "\n"@);
    let mut i: usize = 0;
    while i < font.sizes.len()
        invariant
            i <= font.sizes@.len(),
            blocks == font.sizes@.map_values(|s: GeneratedFontSize| module_size(s) + "\n"@),
            text@ == head + concat(blocks.take(i as int)),
        decreases font.sizes.len() - i,
    {
        let block = render_size(&font.sizes[i]);
        let ghost before = text@;
        push_str(&mut text, block.as_str());
        push_str(&mut text, "\n");
        proof {
            assert(text@ == before + blocks[i as int]);
            lemma_concat_take(blocks, i as int);
        }
        i += 1;
    }
    proof {
        lemma_concat_all(blocks);
    }
    push_str(&mut text, "pub const FONT_SIZES: &[FontSize] = &[\n");
    let ghost mid = text@;
    let ghost entries = font.sizes@.map_values(|s: GeneratedFontSize| size_table_entry(s));
    let mut j: usize = 0;
    while j < font.sizes.len()
        invariant
            j <= font.sizes@.len(),
            entries == font.sizes@.map_values(|s: GeneratedFontSize| size_table_entry(s)),
            text@ == mid + concat(entries.take(j as int)),
        decreases font.sizes.len() - j,
    {
        let entry = render_size_table_entry(&font.sizes[j]);
        push_str(&mut text, entry.as_str());
        proof {
            lemma_concat_take(entries, j as int);
        }
        j += 1;
    }
    proof {
        lemma_concat_all(entries);
    }
    push_str(&mut text, "];\n");
    text
}


/// A glyph entry, whatever its key literal, writes the glyph's width after
/// `width: ` and its height after `height: `, in that order.
pub proof fn glyph_entry_dimensions(key_literal: Seq<char>, glyph: Glyph)
    ensures
        contains_text(
            glyph_entry_with_key(key_literal, glyph),
            ", width: "@ + decimal(glyph.width as nat) + "u32, height: "@ + decimal(
                glyph.height as nat,
            ) + "u32"@,
        ),
{
    let entry = glyph_entry_with_key(key_literal, glyph);
    let head = "    Glyph { key: "@ + key_literal + ", bitmap_offset: "@ + decimal(
        glyph.bitmap_offset as nat,
    ) + ", bitmap_len: "@ + decimal(glyph.bitmap_len as nat);
    let piece = ", width: "@ + decimal(glyph.width as nat) + "u32, height: "@ + decimal(
        glyph.height as nat,
    ) + "u32"@;
    reveal_strlit("u32, height: ");
    reveal_strlit("u32, advance_x: ");
    reveal_strlit("u32");
    let k: int = head.len() as int;
    assert(entry.subrange(k, k + piece.len()) =~= piece);
}

/// The Rust module lists every glyph of every size with its key as a Rust
/// string literal and its fields by name: bitmap offset, bitmap length,
/// width, height, advance and bearings, each holding that glyph's value.
pub proof fn module_glyph_fields(font: GeneratedFont, s: int, g: int)
    requires
        0 <= s < font.sizes@.len(),
        0 <= g < font.sizes@[s].glyphs@.len(),
    ensures
        ({
            let glyph = font.sizes@[s].glyphs@[g];
            contains_text(
                module_text(font),
                "    Glyph { key: "@ + debug_string(glyph.key@) + ", bitmap_offset: "@ + decimal(
                    glyph.bitmap_offset as nat,
                ) + ", bitmap_len: "@ + decimal(glyph.bitmap_len as nat) + ", width: "@
                    + decimal(glyph.width as nat) + "u32, height: "@ + decimal(glyph.height as nat)
                    + "u32, advance_x: "@ + signed_decimal(glyph.advance_x as int)
                    + ", bearing_x: "@ + signed_decimal(glyph.bearing_x as int) + ", bearing_y: "@
                    + signed_decimal(glyph.bearing_y as int) + " },\n"@,
            )
        }),
{
    let size = font.sizes@[s];
    let glyph = size.glyphs@[g];
    let entry = glyph_entry(glyph);
    assert(entry.subrange(0, entry.len() as int) =~= entry);
    lemma_contains_start(entry, entry);
    let entries = size.glyphs@.map_values(|x: Glyph| glyph_entry(x));
    assert(entries[g] == entry);
    lemma_concat_contains(entries, g, entry);
    let suffix = size_suffix(size.pixel_size);
    let head = "pub const "@ + suffix + "_BITMAP_DATA: &[u8] = &[\n"@ + byte_rows(
        size.bitmap_data@,
        "    "@,
    ) + "];\n\n"@ + "pub const "@ + suffix + "_GLYPHS: &[Glyph] = &[\n"@;
    lemma_contains_prepend(head, concat(entries), entry);
    lemma_contains_append(head + concat(entries), entry, "];\n"@);
    assert(module_size(size) == head + concat(entries) + "];\n"@);
    lemma_contains_append(module_size(size), entry, "\n"@);
    let blocks = font.sizes@.map_values(|z: GeneratedFontSize| module_size(z) + "\n"@);
    assert(blocks[s] == module_size(size) + "\n"@);
    lemma_concat_contains(blocks, s, entry);
    lemma_contains_prepend(module_types(), concat(blocks), entry);
    let table = font.sizes@.map_values(|z: GeneratedFontSize| size_table_entry(z));
    lemma_contains_append(
        module_types() + concat(blocks),
        entry,
        "pub const FONT_SIZES: &[FontSize] = &[\n"@,
    );
    lemma_contains_append(
        module_types() + concat(blocks) + "pub const FONT_SIZES: &[FontSize] = &[\n"@,
        entry,
        concat(table),
    );
    lemma_contains_append(
        module_types() + concat(blocks) + "pub const FONT_SIZES: &[FontSize] = &[\n"@ + concat(
            table,
        ),
        entry,
        "];\n"@,
    );
}

} // verus!
