use font_generator::alpha::{pack_4bit_alpha, quantize_bitmap};
use font_generator::chars::collect_from_files;
use font_generator::config::{GenerationSettings, MissingGlyphPolicy, OutputLanguage};
use font_generator::error::AppError;
use font_generator::font::{
    assemble_size, format_missing_glyphs, generate_font_model, pixel_size_to_u16, plan_units,
    FontRasterizer, RasterPlan, RasterizedGlyph,
};
use font_generator::model::{MissingGlyph, MissingGlyphReason};

const TEST_FONT: &str = "/fonts/test.ttf";

fn push16(out: &mut Vec<u8>, value: u16) {
    out.extend_from_slice(&value.to_be_bytes());
}

fn push32(out: &mut Vec<u8>, value: u32) {
    out.extend_from_slice(&value.to_be_bytes());
}

/// A TrueType font with no outlines whose character map holds `A` and `B`
/// (glyphs 1 and 2) and nothing else.
fn test_font_bytes() -> Vec<u8> {
    let mut cmap = Vec::new();
    push16(&mut cmap, 0); // version
    push16(&mut cmap, 1); // one encoding record
    push16(&mut cmap, 3); // Windows
    push16(&mut cmap, 1); // Unicode BMP
    push32(&mut cmap, 12); // subtable offset
    push16(&mut cmap, 4); // format 4
    push16(&mut cmap, 32); // length
    push16(&mut cmap, 0); // language
    push16(&mut cmap, 4); // segCountX2
    push16(&mut cmap, 4); // searchRange
    push16(&mut cmap, 1); // entrySelector
    push16(&mut cmap, 0); // rangeShift
    push16(&mut cmap, 0x42); // end codes
    push16(&mut cmap, 0xffff);
    push16(&mut cmap, 0); // reserved pad
    push16(&mut cmap, 0x41); // start codes
    push16(&mut cmap, 0xffff);
    push16(&mut cmap, 1u16.wrapping_sub(0x41)); // id deltas
    push16(&mut cmap, 1);
    push16(&mut cmap, 0); // id range offsets
    push16(&mut cmap, 0);

    let mut head = Vec::new();
    push32(&mut head, 0x0001_0000); // version
    push32(&mut head, 0x0001_0000); // font revision
    push32(&mut head, 0); // checksum adjustment
    push32(&mut head, 0x5f0f_3cf5); // magic number
    push16(&mut head, 0); // flags
    push16(&mut head, 1000); // units per em
    head.extend_from_slice(&[0; 16]); // created, modified
    head.extend_from_slice(&[0; 8]); // bounding box
    push16(&mut head, 0); // mac style
    push16(&mut head, 8); // lowest ppem
    push16(&mut head, 2); // direction hint
    push16(&mut head, 0); // short loca offsets
    push16(&mut head, 0); // glyph data format

    let mut hhea = Vec::new();
    push32(&mut hhea, 0x0001_0000);
    push16(&mut hhea, 800); // ascender
    push16(&mut hhea, 0xff38); // descender -200
    push16(&mut hhea, 0); // line gap
    hhea.extend_from_slice(&[0; 24]);
    push16(&mut hhea, 0); // horizontal metrics count

    let mut maxp = Vec::new();
    push32(&mut maxp, 0x0000_5000);
    push16(&mut maxp, 3); // glyphs: .notdef, A, B

    let tables: [(&[u8; 4], Vec<u8>); 4] =
        [(b"cmap", cmap), (b"head", head), (b"hhea", hhea), (b"maxp", maxp)];
    let mut font = Vec::new();
    push32(&mut font, 0x0001_0000);
    push16(&mut font, tables.len() as u16);
    push16(&mut font, 64); // searchRange
    push16(&mut font, 2); // entrySelector
    push16(&mut font, 0); // rangeShift
    let mut offset = 12 + 16 * tables.len();
    let mut data = Vec::new();
    for (tag, table) in &tables {
        font.extend_from_slice(*tag);
        push32(&mut font, 0);
        push32(&mut font, offset as u32);
        push32(&mut font, table.len() as u32);
        data.extend_from_slice(table);
        while data.len() % 4 != 0 {
            data.push(0);
        }
        offset = 12 + 16 * tables.len() + data.len();
    }
    font.extend_from_slice(&data);
    font
}

fn load_test_font() -> FontRasterizer {
    FontRasterizer::load(TEST_FONT, test_font_bytes()).unwrap()
}

fn settings(policy: MissingGlyphPolicy) -> GenerationSettings {
    GenerationSettings {
        config_path: None,
        font_path: TEST_FONT.to_string(),
        character_files: vec!["chars.txt".to_string()],
        preserve_space: false,
        language: OutputLanguage::Rust,
        output_format: None,
        output_name: "test_font".to_string(),
        output_directory: ".".to_string(),
        sizes: vec![12],
        alpha_bits: 4,
        missing_glyphs: policy,
        fixed_cell: None,
    }
}

fn raster(width: usize, height: usize, coverage: Vec<u8>) -> RasterizedGlyph {
    RasterizedGlyph { width, height, advance_x: Some(7), bearing_x: 1, bearing_y: -2, coverage }
}

#[test]
fn rejects_multi_scalar_display_units_as_unsupported_clusters() {
    let rasterizer = load_test_font();

    let result = rasterizer.resolve_char("☀️");

    assert!(
        matches!(result, Err(MissingGlyphReason::UnsupportedCluster)),
        "variation-selector cluster should be unsupported in phase 4"
    );
}

#[test]
fn resolves_single_scalar_when_font_has_glyph() {
    let rasterizer = load_test_font();

    let result = rasterizer.resolve_char("A");

    assert!(matches!(result, Ok('A')), "A should resolve");
}

#[test]
fn refuses_bytes_that_are_not_a_font() {
    let result = FontRasterizer::load("/fonts/broken.ttf", vec![1, 2, 3, 4]);
    match result {
        Err(AppError::FontParse { path, message }) => {
            assert_eq!(path, "/fonts/broken.ttf");
            assert!(!message.is_empty());
        }
        _ => panic!("expected a parse error"),
    }
}

#[test]
fn plans_renderable_and_missing_units() {
    let rasterizer = load_test_font();
    let characters = collect_from_files(&vec!["A☀️CB".to_string()], false).unwrap();

    let plan = rasterizer.plan(&settings(MissingGlyphPolicy::Skip), &characters).unwrap();
    assert_eq!(plan.renderable, vec![("A".to_string(), 'A'), ("B".to_string(), 'B')]);
    assert_eq!(
        plan.missing_glyphs,
        vec![
            MissingGlyph {
                display_unit: "☀️".to_string(),
                reason: MissingGlyphReason::UnsupportedCluster,
            },
            MissingGlyph {
                display_unit: "C".to_string(),
                reason: MissingGlyphReason::NoFontGlyph,
            },
        ]
    );

    let refused = rasterizer.plan(&settings(MissingGlyphPolicy::Error), &characters);
    match refused {
        Err(AppError::MissingGlyphs(list)) => assert_eq!(
            list,
            "☀️ (unsupported grapheme cluster), C (no font glyph)"
        ),
        _ => panic!("expected missing glyphs"),
    }
}

#[test]
fn lists_missing_glyphs() {
    assert_eq!(format_missing_glyphs(&Vec::new()), "");
    let one = vec![MissingGlyph {
        display_unit: "x".to_string(),
        reason: MissingGlyphReason::NoFontGlyph,
    }];
    assert_eq!(format_missing_glyphs(&one), "x (no font glyph)");
}

#[test]
fn pixel_sizes_fit_sixteen_bits() {
    assert_eq!(pixel_size_to_u16(26).unwrap(), 26);
    assert_eq!(pixel_size_to_u16(65535).unwrap(), 65535);
    assert!(matches!(
        pixel_size_to_u16(65536),
        Err(AppError::InvalidSetting { setting: "generation.sizes", .. })
    ));
}

#[test]
fn assembles_packed_bitmaps_in_order() {
    let units = vec![("A".to_string(), 'A'), ("B".to_string(), 'B')];
    let rasters = vec![raster(3, 1, vec![0, 128, 255]), raster(1, 2, vec![255, 17])];

    let size = assemble_size(16, &units, &rasters).unwrap();

    assert_eq!(size.pixel_size, 16);
    assert_eq!(size.bitmap_data, vec![0x08, 0xf0, 0xf1]);
    assert_eq!(size.glyphs.len(), 2);
    let a = &size.glyphs[0];
    assert_eq!((a.key.as_str(), a.bitmap_offset, a.bitmap_len, a.width, a.height), ("A", 0, 2, 3, 1));
    assert_eq!((a.advance_x, a.bearing_x, a.bearing_y), (7, 1, -2));
    let b = &size.glyphs[1];
    assert_eq!((b.key.as_str(), b.bitmap_offset, b.bitmap_len, b.width, b.height), ("B", 2, 1, 1, 2));
    let expected = pack_4bit_alpha(&quantize_bitmap(&[255, 17]));
    assert_eq!(size.bitmap_data[b.bitmap_offset..b.bitmap_offset + b.bitmap_len], expected[..]);
}

#[test]
fn assembly_reports_metric_overflow() {
    let units = vec![("A".to_string(), 'A'), ("B".to_string(), 'B')];
    let mut rasters = vec![raster(1, 1, vec![255]), raster(1, 1, vec![0])];
    rasters[1].advance_x = None;
    match assemble_size(16, &units, &rasters) {
        Err(AppError::MetricOverflow { glyph, metric }) => {
            assert_eq!(glyph, "B");
            assert_eq!(metric, "advance_x");
        }
        _ => panic!("expected metric overflow"),
    }
    let wide = vec![raster(u32::MAX as usize + 1, 0, Vec::new())];
    match assemble_size(16, &units[..1].to_vec(), &wide) {
        Err(AppError::MetricOverflow { glyph, metric }) => {
            assert_eq!(glyph, "A");
            assert_eq!(metric, "width");
        }
        _ => panic!("expected metric overflow"),
    }
}

#[test]
fn model_carries_name_sizes_and_missing_units() {
    let units = vec![("A".to_string(), 'A'), ("B".to_string(), 'B')];
    let small = vec![raster(1, 1, vec![200]), raster(3, 1, vec![0, 255, 17])];
    let large = vec![raster(2, 1, vec![255, 255]), raster(1, 1, vec![8])];
    let expected_small = assemble_size(12, &units, &small).unwrap();
    let expected_large = assemble_size(24, &units, &large).unwrap();
    let missing = vec![MissingGlyph {
        display_unit: "☀️".to_string(),
        reason: MissingGlyphReason::UnsupportedCluster,
    }];
    let plan = RasterPlan { renderable: units, missing_glyphs: missing.clone() };
    let mut settings = settings(MissingGlyphPolicy::Skip);
    settings.sizes = vec![12, 24];

    let font = generate_font_model(&settings, plan, &vec![small, large]).unwrap();

    assert_eq!(font.name, "test_font");
    assert_eq!(font.sizes, vec![expected_small, expected_large]);
    assert_eq!(font.sizes.iter().map(|z| z.pixel_size).collect::<Vec<_>>(), vec![12, 24]);
    let offsets: Vec<(usize, usize)> =
        font.sizes[0].glyphs.iter().map(|g| (g.bitmap_offset, g.bitmap_len)).collect();
    assert_eq!(offsets, vec![(0, 1), (1, 2)]);
    assert_eq!(font.sizes[0].bitmap_data.len(), 3);
    assert_eq!(font.missing_glyphs, missing);
}

#[test]
fn model_reports_the_first_size_that_cannot_be_assembled() {
    let units = vec![("A".to_string(), 'A')];
    let broken = || RasterizedGlyph { advance_x: None, ..raster(1, 1, vec![1]) };
    let mut settings = settings(MissingGlyphPolicy::Error);
    settings.sizes = vec![12, 70000, 14];

    let plan = RasterPlan { renderable: units.clone(), missing_glyphs: Vec::new() };
    let result = generate_font_model(&settings, plan, &vec![vec![broken()], Vec::new(), vec![broken()]]);
    assert!(matches!(result, Err(AppError::MetricOverflow { metric: "advance_x", .. })));

    let plan = RasterPlan { renderable: units, missing_glyphs: Vec::new() };
    let result = generate_font_model(
        &settings,
        plan,
        &vec![vec![raster(1, 1, vec![1])], Vec::new(), vec![broken()]],
    );
    assert!(matches!(result, Err(AppError::InvalidSetting { setting: "generation.sizes", .. })));
}

#[test]
fn planning_follows_the_font_answers_and_the_policy() {
    let characters = collect_from_files(&vec!["A☀️C".to_string()], false).unwrap();

    let plan = plan_units(MissingGlyphPolicy::Skip, &characters, &vec![true, true, false]).unwrap();
    assert_eq!(plan.renderable, vec![("A".to_string(), 'A')]);
    assert_eq!(
        plan.missing_glyphs,
        vec![
            MissingGlyph {
                display_unit: "☀️".to_string(),
                reason: MissingGlyphReason::UnsupportedCluster,
            },
            MissingGlyph { display_unit: "C".to_string(), reason: MissingGlyphReason::NoFontGlyph },
        ]
    );

    let all = plan_units(MissingGlyphPolicy::Error, &characters, &vec![true, false, true]);
    assert!(matches!(all, Err(AppError::MissingGlyphs(list)) if list == "☀️ (unsupported grapheme cluster)"));

    let only_single = collect_from_files(&vec!["AC".to_string()], false).unwrap();
    let fine = plan_units(MissingGlyphPolicy::Error, &only_single, &vec![true, true]).unwrap();
    assert_eq!(fine.renderable, vec![("A".to_string(), 'A'), ("C".to_string(), 'C')]);
    assert!(fine.missing_glyphs.is_empty());
}
