use font_generator::config::{
    FixedCellSettings, GenerationSettings, MissingGlyphPolicy, OutputFormat, OutputLanguage,
};
use font_generator::error::AppError;
use font_generator::model::{GeneratedFont, GeneratedFontSize, Glyph, MissingGlyph, MissingGlyphReason};
use font_generator::output::c::{
    c_macro_prefix, fixed_bytes_per_char, fixed_cell_bitmap, is_half_width_display_unit,
    mapping_chunks, render_fixed_header, render_header, render_source, unpack_glyph_alpha,
    FixedCellDimensions,
};
use font_generator::output::rust::{glyph_entry_line, render_module};
use font_generator::output::{
    byte_array_literal, c_string_literal, format_written_files, render_output,
};

fn glyph(key: &str, offset: usize, len: usize, width: u32, height: u32) -> Glyph {
    Glyph {
        key: key.to_string(),
        bitmap_offset: offset,
        bitmap_len: len,
        width,
        height,
        advance_x: 3,
        bearing_x: 0,
        bearing_y: -1,
    }
}

fn font_named(name: &str) -> GeneratedFont {
    GeneratedFont {
        name: name.to_string(),
        sizes: vec![GeneratedFontSize {
            pixel_size: 16,
            glyphs: vec![glyph("A", 0, 2, 2, 2)],
            bitmap_data: vec![0xf0, 0x81],
        }],
        missing_glyphs: Vec::new(),
    }
}

fn settings_for(language: OutputLanguage, output_directory: &str) -> GenerationSettings {
    GenerationSettings {
        config_path: None,
        font_path: "unused.ttf".to_string(),
        character_files: vec!["unused.txt".to_string()],
        preserve_space: false,
        language,
        output_format: None,
        output_name: "sample_font".to_string(),
        output_directory: output_directory.to_string(),
        sizes: vec![16],
        alpha_bits: 4,
        missing_glyphs: MissingGlyphPolicy::Error,
        fixed_cell: None,
    }
}

fn fixed_settings(output_directory: &str) -> GenerationSettings {
    GenerationSettings {
        output_format: Some(OutputFormat::CFixed),
        fixed_cell: Some(FixedCellSettings { width: 4, height: 4 }),
        ..settings_for(OutputLanguage::C, output_directory)
    }
}

#[test]
fn derives_tight_fixed_cell_dimensions() {
    let dimensions = FixedCellDimensions::from_config(26, 26);

    assert_eq!(dimensions, FixedCellDimensions { full_width: 25, half_width: 12, height: 25 });
}

#[test]
fn classifies_ascii_display_units_as_half_width() {
    assert!(is_half_width_display_unit("A"));
    assert!(is_half_width_display_unit("7"));
    assert!(is_half_width_display_unit("!"));
    assert!(is_half_width_display_unit(" "));
    assert!(!is_half_width_display_unit("あ"));
    assert!(!is_half_width_display_unit("AB"));
}

#[test]
fn renders_c_source_deterministically() {
    let font = font_named("app_font");

    let source = render_source("app_font", &font);

    assert!(
        source.contains("static const uint8_t app_font_size_16_bitmap_data[]")
            && source.contains("{ \"A\", 0u, 2u, 2u, 2u, 3, 0, -1 }")
            && source.contains("const size_t app_font_size_count = 1u;"),
        "{source}"
    );
}

#[test]
fn escapes_c_string_literals() {
    let escaped = c_string_literal("A\"\\\n");

    assert_eq!(escaped, "\"A\\\"\\\\\\n\"", "unexpected C escape: {escaped}");
}

#[test]
fn renders_rust_module_deterministically() {
    let font = font_named("app_font");

    let module = render_module(&font);

    assert!(
        module.contains("pub const SIZE_16_BITMAP_DATA: &[u8]")
            && module.contains("Glyph { key: \"A\", bitmap_offset: 0, bitmap_len: 2")
            && module.contains("pub const FONT_SIZES: &[FontSize]"),
        "{module}"
    );
}

#[test]
fn writes_deterministic_c_output_files() {
    let files = render_output(&settings_for(OutputLanguage::C, "/out"), &font_named("sample_font"))
        .unwrap();

    let paths: Vec<&str> = files.iter().map(|f| f.path.as_str()).collect();
    assert_eq!(paths, vec!["/out/sample_font.h", "/out/sample_font.c"], "unexpected paths: {paths:?}");
    assert!(files[0].contents.contains("typedef struct"));
    assert!(files[1].contents.contains("0xf0, 0x81"));
    assert!(files[1].contents.contains("{ \"A\", 0u, 2u, 2u, 2u, 3, 0, -1 }"));
}

#[test]
fn writes_deterministic_fixed_c_output_file() {
    let files = render_output(&fixed_settings("/out"), &font_named("sample_font")).unwrap();

    let paths: Vec<&str> = files.iter().map(|f| f.path.as_str()).collect();
    assert_eq!(paths, vec!["/out/sample_font.h"], "unexpected paths: {paths:?}");
    let header = &files[0].contents;
    for needle in [
        "#define SAMPLE_FONT_WIDTH 3",
        "#define SAMPLE_FONT_HEIGHT 3",
        "#define SAMPLE_FONT_FULL_WIDTH 3",
        "#define SAMPLE_FONT_HALF_WIDTH 1",
        "#define SAMPLE_FONT_FULL_BYTES_PER_CHAR 5",
        "#define SAMPLE_FONT_HALF_BYTES_PER_CHAR 2",
        "#define SAMPLE_FONT_BYTES_PER_CHAR 5",
        "static const char *sample_font_chars",
        "\"A\";",
        "static const uint8_t sample_font_widths[1]",
        "    1u, // 'A'",
        "static const uint8_t sample_font_data[1][5]",
    ] {
        assert!(header.contains(needle), "missing {needle} in {header}");
    }
}

#[test]
fn writes_deterministic_rust_output_file() {
    let files =
        render_output(&settings_for(OutputLanguage::Rust, "/out"), &font_named("sample_font"))
            .unwrap();

    let paths: Vec<&str> = files.iter().map(|f| f.path.as_str()).collect();
    assert_eq!(paths, vec!["/out/sample_font.rs"], "unexpected paths: {paths:?}");
    assert!(files[0].contents.contains("pub const SIZE_16_BITMAP_DATA"));
    assert!(files[0].contents.contains("0xf0, 0x81"));
    assert!(files[0].contents.contains("Glyph { key: \"A\""));
}

#[test]
fn renders_whole_fixed_header() {
    let header = render_fixed_header(&fixed_settings("."), &font_named("sample_font")).unwrap();
    let expected = "\
// Auto-generated 4-bit AA fixed-cell bitmap font: 3x3 full-width pixels
// Format: 4-bit grayscale alpha, nibble-packed, 2 pixels per byte
// Pixel size: 16

#ifndef SAMPLE_FONT_H
#define SAMPLE_FONT_H

#include <stdint.h>

#define SAMPLE_FONT_WIDTH 3
#define SAMPLE_FONT_HEIGHT 3
#define SAMPLE_FONT_FULL_WIDTH 3
#define SAMPLE_FONT_HALF_WIDTH 1
#define SAMPLE_FONT_BPP 4
#define SAMPLE_FONT_FULL_BYTES_PER_CHAR 5
#define SAMPLE_FONT_HALF_BYTES_PER_CHAR 2
#define SAMPLE_FONT_BYTES_PER_CHAR 5
#define SAMPLE_FONT_CHAR_COUNT 1

static const char *sample_font_chars =
    \"A\";

static const uint8_t sample_font_widths[1] = {
    1u, // 'A'
};

static const uint8_t sample_font_data[1][5] = {
    {// 'A'
     0xf8, 0x00, 0x00, 0x00, 0x00, 
    },
};

#endif
";
    assert_eq!(header, expected);
}

#[test]
fn fixed_header_needs_cell_and_size() {
    let mut settings = fixed_settings(".");
    settings.fixed_cell = None;
    assert!(matches!(
        render_fixed_header(&settings, &font_named("sample_font")),
        Err(AppError::MissingSetting("fixed_cell"))
    ));
    let empty = GeneratedFont { name: "x".to_string(), sizes: Vec::new(), missing_glyphs: Vec::new() };
    assert!(matches!(
        render_fixed_header(&fixed_settings("."), &empty),
        Err(AppError::InvalidSetting { setting: "generation.sizes", .. })
    ));
}

#[test]
fn full_width_units_center_in_the_cell() {
    let font = GeneratedFont {
        name: "f".to_string(),
        sizes: vec![GeneratedFontSize {
            pixel_size: 8,
            glyphs: vec![glyph("あ", 0, 1, 1, 1)],
            bitmap_data: vec![0x70],
        }],
        missing_glyphs: Vec::new(),
    };
    let settings = GenerationSettings {
        fixed_cell: Some(FixedCellSettings { width: 4, height: 4 }),
        ..fixed_settings(".")
    };
    let header = render_fixed_header(&settings, &font).unwrap();
    assert!(header.contains("    3u, // 'あ'\n"), "{header}");
    // 3x3 cell, the single pixel lands in the middle: pixel index 4.
    assert!(header.contains("     0x00, 0x00, 0x70, 0x00, 0x00, \n"), "{header}");
}

#[test]
fn fixed_cell_bitmap_crops_and_pads() {
    let size = GeneratedFontSize {
        pixel_size: 8,
        glyphs: vec![glyph("W", 0, 2, 3, 1)],
        bitmap_data: vec![0x12, 0x30],
    };
    let g = &size.glyphs[0];
    assert_eq!(unpack_glyph_alpha(&size, g).unwrap(), vec![1, 2, 3]);
    // Narrower cell keeps the centered column.
    assert_eq!(fixed_cell_bitmap(&size, g, 1, 1, 2).unwrap(), vec![0x20, 0x00]);
    // Wider and taller cell surrounds the glyph with zeros.
    assert_eq!(fixed_cell_bitmap(&size, g, 5, 3, 8).unwrap(), vec![0, 0, 0, 0x12, 0x30, 0, 0, 0]);
    // A record that cannot fit its row is refused.
    assert!(matches!(
        fixed_cell_bitmap(&size, g, 5, 3, 7),
        Err(AppError::InvalidSetting { setting: "fixed_cell.width", .. })
    ));
}

#[test]
fn bitmap_ranges_are_checked() {
    let size = GeneratedFontSize {
        pixel_size: 8,
        glyphs: vec![glyph("W", 1, 2, 3, 1), glyph("V", 0, 1, 2, 2)],
        bitmap_data: vec![0x12, 0x30],
    };
    assert!(matches!(
        unpack_glyph_alpha(&size, &size.glyphs[0]),
        Err(AppError::InvalidSetting { setting: "generation.sizes", .. })
    ));
    assert!(matches!(
        unpack_glyph_alpha(&size, &size.glyphs[1]),
        Err(AppError::InvalidSetting { setting: "generation.sizes", .. })
    ));
    let overflow = glyph("O", usize::MAX, 2, 1, 1);
    assert!(matches!(
        unpack_glyph_alpha(&size, &overflow),
        Err(AppError::InvalidSetting { setting: "generation.sizes", .. })
    ));
}

#[test]
fn record_sizes_and_prefixes() {
    assert_eq!(fixed_bytes_per_char(3, 3).unwrap(), 5);
    assert_eq!(fixed_bytes_per_char(1, 3).unwrap(), 2);
    assert_eq!(fixed_bytes_per_char(0, 3).unwrap(), 0);
    assert_eq!(c_macro_prefix("app_font9"), "APP_FONT9");
    let dims = FixedCellDimensions::from_config(26, 26);
    assert_eq!(dims.width_for("a"), 12);
    assert_eq!(dims.width_for("温"), 25);
    assert_eq!(dims.width_for("☀️"), 25);
}

#[test]
fn mapping_chunks_split_after_the_limit() {
    let size = GeneratedFontSize {
        pixel_size: 8,
        glyphs: vec![glyph("a", 0, 0, 0, 0), glyph("b", 0, 0, 0, 0), glyph("c", 0, 0, 0, 0)],
        bitmap_data: Vec::new(),
    };
    assert_eq!(mapping_chunks(&size, 2), vec!["ab".to_string(), "c".to_string()]);
    assert_eq!(mapping_chunks(&size, 32), vec!["abc".to_string()]);
    let empty = GeneratedFontSize { pixel_size: 8, glyphs: Vec::new(), bitmap_data: Vec::new() };
    assert_eq!(mapping_chunks(&empty, 32), vec![String::new()]);
}

#[test]
fn rust_module_keys_are_escaped_string_literals() {
    let mut font = font_named("r");
    font.sizes[0].glyphs[0].key = "\"\\".to_string();
    let module = render_module(&font);
    assert!(module.contains("Glyph { key: \"\\\"\\\\\", bitmap_offset: 0"), "{module}");
}

#[test]
fn renders_metrics_header_exactly() {
    let header = render_header("f");
    assert!(header.starts_with("#pragma once\n\n#include <stddef.h>\n#include <stdint.h>\n"));
    assert!(header.contains("} f_glyph_t;\n"));
    assert!(header.ends_with("extern const f_font_size_t f_sizes[];\nextern const size_t f_size_count;\n"));
}

#[test]
fn empty_sizes_get_placeholder_entries() {
    let font = GeneratedFont {
        name: "e".to_string(),
        sizes: vec![GeneratedFontSize { pixel_size: 9, glyphs: Vec::new(), bitmap_data: Vec::new() }],
        missing_glyphs: Vec::new(),
    };
    let source = render_source("e", &font);
    assert!(source.contains("e_size_9_bitmap_data[] = {\n    0x00,\n};\n"), "{source}");
    assert!(source.contains("    { \"\", 0u, 0u, 0u, 0u, 0, 0, 0 },\n"), "{source}");
    assert!(source.contains("    { 9u, e_size_9_glyphs, 0u, e_size_9_bitmap_data, 0u },\n"), "{source}");
}

#[test]
fn literals_and_written_file_list() {
    assert_eq!(c_string_literal("\r\t"), "\"\\r\\t\"");
    let bytes: Vec<u8> = (0..13).collect();
    assert_eq!(
        byte_array_literal(&bytes, "  "),
        "  0x00, 0x01, 0x02, 0x03, 0x04, 0x05, 0x06, 0x07, 0x08, 0x09, 0x0a, 0x0b, \n  0x0c, \n"
    );
    assert_eq!(byte_array_literal(&[], "  "), "");
    assert_eq!(
        format_written_files(&vec!["/o/a.h".to_string(), "/o/a.c".to_string()]),
        "output_files = 2\n  - /o/a.h\n  - /o/a.c\n"
    );
}

#[test]
fn model_counts_and_summary() {
    let mut font = font_named("m");
    font.sizes.push(GeneratedFontSize { pixel_size: 20, glyphs: Vec::new(), bitmap_data: vec![1, 2, 3] });
    font.missing_glyphs.push(MissingGlyph { display_unit: " ".to_string(), reason: MissingGlyphReason::NoFontGlyph });
    font.missing_glyphs.push(MissingGlyph { display_unit: "☀️".to_string(), reason: MissingGlyphReason::UnsupportedCluster });
    assert_eq!(font.glyph_count(), 1);
    assert_eq!(font.bitmap_bytes(), 5);
    assert_eq!(
        font.format_summary(),
        "font_model = m\n  - size 16: glyphs = 1, bitmap_bytes = 2\n  - size 20: glyphs = 0, bitmap_bytes = 3\n\
         missing_glyphs = 2\n  - <space> (no font glyph)\n  - ☀️ (unsupported grapheme cluster)\n"
    );
}

#[test]
fn error_messages_read_as_before() {
    assert_eq!(AppError::MissingSetting("font.path").message(), "missing required setting: font.path");
    assert_eq!(
        AppError::FixedCellGlyphTooLarge {
            glyph: "A".to_string(),
            glyph_width: 30,
            glyph_height: 2,
            cell_width: 25,
            cell_height: 25,
        }
        .message(),
        "glyph A bitmap 30x2 does not fit fixed cell 25x25"
    );
    assert_eq!(AppError::NoCharactersFound.message(), "no characters found in character input files");
    assert_eq!(
        AppError::OutputWrite { path: "/o/a.h".to_string(), message: "denied".to_string() }.message(),
        "failed to write output file /o/a.h: denied"
    );
    let p = || "/p".to_string();
    let m = || "m".to_string();
    let cases = vec![
        (AppError::ConfigNotFound(p()), "config file not found: /p"),
        (AppError::ConfigRead { path: p(), message: m() }, "failed to read config file /p: m"),
        (AppError::ConfigParse { path: p(), message: m() }, "failed to parse config file /p: m"),
        (
            AppError::InvalidSetting { setting: "output.name", message: m() },
            "invalid setting output.name: m",
        ),
        (AppError::FontNotFound(p()), "font file not found: /p"),
        (AppError::FontRead { path: p(), message: m() }, "failed to read font file /p: m"),
        (AppError::FontParse { path: p(), message: m() }, "failed to parse font file /p: m"),
        (AppError::CharacterFileNotFound(p()), "character file not found: /p"),
        (
            AppError::CharacterFileRead { path: p(), message: m() },
            "failed to read character file /p: m",
        ),
        (AppError::MissingGlyphs("x (no font glyph)".to_string()), "missing glyphs: x (no font glyph)"),
        (
            AppError::MetricOverflow { glyph: "A".to_string(), metric: "width" },
            "metric overflow for glyph A: width",
        ),
        (AppError::OutputDirectoryNotFound(p()), "output directory not found: /p"),
    ];
    for (error, expected) in cases {
        assert_eq!(error.message(), expected);
    }
}

#[test]
fn rust_glyph_entries_list_every_field() {
    let entry = glyph_entry_line(&glyph("A", 0, 2, 2, 2), "\"A\"");
    assert_eq!(
        entry,
        "    Glyph { key: \"A\", bitmap_offset: 0, bitmap_len: 2, width: 2u32, height: 2u32, \
         advance_x: 3, bearing_x: 0, bearing_y: -1 },\n"
    );
}

#[test]
fn glyphs_larger_than_the_cell_are_refused() {
    let font = GeneratedFont {
        name: "f".to_string(),
        sizes: vec![GeneratedFontSize {
            pixel_size: 8,
            glyphs: vec![glyph("a", 0, 2, 4, 1), glyph("W", 0, 3, 5, 1), glyph("H", 0, 3, 1, 6)],
            bitmap_data: vec![0x11, 0x22, 0x33],
        }],
        missing_glyphs: Vec::new(),
    };
    let result = render_fixed_header(&fixed_settings("."), &font);
    match result {
        Err(AppError::FixedCellGlyphTooLarge { glyph, glyph_width, glyph_height, cell_width, cell_height }) => {
            assert_eq!(glyph, "W");
            assert_eq!((glyph_width, glyph_height, cell_width, cell_height), (5, 1, 4, 4));
        }
        other => panic!("unexpected result: {other:?}"),
    }
    let message = render_output(&fixed_settings("."), &font).unwrap_err().message();
    assert_eq!(message, "glyph W bitmap 5x1 does not fit fixed cell 4x4");
}

#[test]
fn glyphs_as_large_as_the_cell_are_cropped_to_the_record() {
    let font = GeneratedFont {
        name: "f".to_string(),
        sizes: vec![GeneratedFontSize {
            pixel_size: 8,
            glyphs: vec![glyph("あ", 0, 8, 4, 4)],
            bitmap_data: vec![0x12, 0x34, 0x56, 0x78, 0x9a, 0xbc, 0xde, 0xf1],
        }],
        missing_glyphs: Vec::new(),
    };
    let header = render_fixed_header(&fixed_settings("."), &font).unwrap();
    // 4x4 glyph in a 3x3 record: rows and columns 0..3 are kept.
    assert!(header.contains("     0x12, 0x35, 0x67, 0x9a, 0xb0, \n"), "{header}");
}
