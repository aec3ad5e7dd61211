use std::path::Path;

use font_generator::cli::{Cli, LanguageArg};
use font_generator::config::{
    parse_fixed_cell, resolve_path, validate_fixed_cell, validate_output_format, validate_sizes,
    validate_symbol_name, FixedCellConfig, FixedCellSettings, FontConfig, GenerationConfig,
    GenerationSettings, InputConfig, MissingGlyphPolicy, OutputConfig, OutputFormat,
    OutputLanguage, RawConfig,
};
use font_generator::error::AppError;

const ROOT: &str = "/project";
const CONFIG: &str = "/project/fontgen.toml";

fn cli_for(config: &str) -> Cli {
    Cli {
        config: Some(config.to_string()),
        font: None,
        chars: Vec::new(),
        sizes: Vec::new(),
        language: None,
        output_name: None,
        output_dir: None,
        preserve_space: None,
    }
}

fn cli_without_config(root: &str) -> Cli {
    Cli {
        config: None,
        font: Some(format!("{root}/fonts/font.ttf")),
        chars: vec![format!("{root}/chars/main.txt")],
        sizes: vec![14],
        language: Some(LanguageArg::C),
        output_name: Some("cli_font".to_string()),
        output_dir: Some(root.to_string()),
        preserve_space: Some(false),
    }
}

fn empty_raw() -> RawConfig {
    RawConfig { font: None, input: None, output: None, generation: None, fixed_cell: None }
}

fn raw(
    chars: &[&str],
    preserve_space: Option<bool>,
    output: Option<OutputConfig>,
    sizes: &[u32],
    fixed_cell: Option<FixedCellConfig>,
) -> RawConfig {
    RawConfig {
        font: Some(FontConfig { path: Some("fonts/font.ttf".to_string()) }),
        input: Some(InputConfig {
            chars: Some(chars.iter().map(|c| c.to_string()).collect()),
            preserve_space,
        }),
        output,
        generation: Some(GenerationConfig {
            sizes: Some(sizes.to_vec()),
            alpha_bits: None,
            missing_glyphs: None,
        }),
        fixed_cell,
    }
}

fn output(language: &str, name: Option<&str>, directory: Option<&str>, format: Option<&str>) -> OutputConfig {
    OutputConfig {
        language: Some(language.to_string()),
        name: name.map(|n| n.to_string()),
        directory: directory.map(|d| d.to_string()),
        format: format.map(|f| f.to_string()),
    }
}

fn cell(width: u32, height: u32) -> FixedCellConfig {
    FixedCellConfig { width: Some(width), height: Some(height) }
}

fn resolve(raw: RawConfig, cli: &Cli) -> Result<GenerationSettings, AppError> {
    GenerationSettings::from_raw_and_cli(cli.config.clone(), raw, cli)
}

fn same_path(actual: &str, expected: &str) -> bool {
    Path::new(actual) == Path::new(expected)
}

fn invalid_setting_name(result: &Result<GenerationSettings, AppError>) -> Option<&'static str> {
    match result {
        Err(AppError::InvalidSetting { setting, .. }) => Some(*setting),
        _ => None,
    }
}

#[test]
fn parses_config_into_normalized_settings() {
    let mut config = raw(
        &["chars/main.txt"],
        Some(true),
        Some(output("rust", Some("weather_font"), Some("."), None)),
        &[16, 24],
        None,
    );
    config.generation = Some(GenerationConfig {
        sizes: Some(vec![16, 24]),
        alpha_bits: Some(4),
        missing_glyphs: Some("skip".to_string()),
    });

    let settings = resolve(config, &cli_for(CONFIG)).unwrap();

    assert_eq!(settings.config_path, Some(format!("{ROOT}/fontgen.toml")), "config_path");
    assert_eq!(settings.font_path, format!("{ROOT}/fonts/font.ttf"), "font_path");
    assert_eq!(settings.character_files, vec![format!("{ROOT}/chars/main.txt")], "character_files");
    assert!(settings.preserve_space, "preserve_space should be true");
    assert_eq!(settings.language, OutputLanguage::Rust, "language");
    assert_eq!(settings.output_format, None, "output_format");
    assert_eq!(settings.output_name, "weather_font".to_string(), "output_name");
    assert!(same_path(&settings.output_directory, ROOT), "output_directory");
    assert_eq!(settings.sizes, vec![16, 24], "sizes");
    assert_eq!(settings.alpha_bits, 4, "alpha_bits");
    assert_eq!(settings.fixed_cell, None, "fixed_cell");
    assert_eq!(settings.missing_glyphs, MissingGlyphPolicy::Skip, "missing_glyphs");
}

#[test]
fn accepts_cli_only_settings_when_no_config_exists() {
    let settings = resolve(empty_raw(), &cli_without_config(ROOT)).unwrap();

    assert_eq!(settings.config_path, None, "config_path");
    assert_eq!(settings.font_path, format!("{ROOT}/fonts/font.ttf"), "font_path");
    assert_eq!(settings.character_files, vec![format!("{ROOT}/chars/main.txt")], "character_files");
    assert_eq!(settings.output_name, "cli_font".to_string(), "output_name");
    assert_eq!(settings.sizes, vec![14], "sizes");
    assert_eq!(settings.output_format, None, "output_format");
    assert_eq!(settings.fixed_cell, None, "fixed_cell");
}

#[test]
fn parses_fixed_cell_c_output_settings() {
    let config = raw(
        &["chars/main.txt"],
        None,
        Some(output("c", Some("fixed_font"), Some("."), Some("c-fixed"))),
        &[26],
        Some(cell(26, 26)),
    );

    let settings = resolve(config, &cli_for(CONFIG)).unwrap();

    assert_eq!(settings.language, OutputLanguage::C, "language");
    assert_eq!(settings.output_format, Some(OutputFormat::CFixed), "output_format");
    assert_eq!(
        settings.fixed_cell,
        Some(FixedCellSettings { width: 26, height: 26 }),
        "fixed_cell"
    );
    assert_eq!(settings.sizes, vec![26], "sizes");
}

#[test]
fn rejects_fixed_cell_c_output_with_multiple_sizes() {
    let config = raw(
        &["chars/main.txt"],
        None,
        Some(output("c", None, None, Some("c-fixed"))),
        &[16, 26],
        Some(cell(26, 26)),
    );

    let result = resolve(config, &cli_for(CONFIG));

    assert_eq!(
        invalid_setting_name(&result),
        Some("generation.sizes"),
        "expected generation.sizes invalid setting error"
    );
}

#[test]
fn rejects_fixed_cell_c_output_without_cell_settings() {
    let config =
        raw(&["chars/main.txt"], None, Some(output("c", None, None, Some("c-fixed"))), &[26], None);

    let result = resolve(config, &cli_for(CONFIG));

    assert!(
        matches!(result, Err(AppError::MissingSetting("fixed_cell"))),
        "expected missing fixed_cell setting"
    );
}

#[test]
fn cli_overrides_replace_config_values() {
    let config = raw(
        &["chars/main.txt"],
        Some(false),
        Some(output("c", Some("base_font"), Some("."), None)),
        &[12],
        None,
    );
    let cli = Cli {
        config: Some(CONFIG.to_string()),
        font: Some("fonts/override.otf".to_string()),
        chars: vec!["chars/override.txt".to_string()],
        sizes: vec![18, 20],
        language: Some(LanguageArg::Rust),
        output_name: Some("override_font".to_string()),
        output_dir: Some(".".to_string()),
        preserve_space: Some(true),
    };

    let settings = resolve(config, &cli).unwrap();

    assert_eq!(settings.font_path, format!("{ROOT}/fonts/override.otf"), "font_path");
    assert_eq!(
        settings.character_files,
        vec![format!("{ROOT}/chars/override.txt")],
        "character_files"
    );
    assert_eq!(settings.sizes, vec![18, 20], "sizes");
    assert_eq!(settings.language, OutputLanguage::Rust, "language");
    assert_eq!(settings.output_name, "override_font".to_string(), "output_name");
    assert!(settings.preserve_space, "preserve_space should be true");
}

#[test]
fn rejects_zero_sizes() {
    let config = raw(&["chars/main.txt"], None, None, &[0], None);

    let result = resolve(config, &cli_for(CONFIG));

    assert_eq!(
        invalid_setting_name(&result),
        Some("generation.sizes"),
        "expected generation.sizes invalid setting error"
    );
}

#[test]
fn defaults_fill_unset_settings() {
    let config = raw(&["chars/main.txt"], None, None, &[16], None);
    let settings = resolve(config, &cli_for(CONFIG)).unwrap();
    assert_eq!(settings.language, OutputLanguage::C);
    assert_eq!(settings.output_name, "app_font");
    assert_eq!(settings.output_directory, ".", "output goes to the working directory");
    assert!(!settings.preserve_space);
    assert_eq!(settings.missing_glyphs, MissingGlyphPolicy::Error);
    assert_eq!(settings.output_format, None);
    assert_eq!(settings.fixed_cell, None);
    assert_eq!(settings.alpha_bits, 4);
}

#[test]
fn relative_paths_without_config_resolve_against_current_directory() {
    let cli = Cli {
        config: None,
        font: Some("font.ttf".to_string()),
        chars: vec!["a.txt".to_string(), "/abs/b.txt".to_string()],
        sizes: vec![10],
        language: None,
        output_name: None,
        output_dir: None,
        preserve_space: None,
    };
    let settings = resolve(empty_raw(), &cli).unwrap();
    assert_eq!(settings.font_path, "./font.ttf");
    assert_eq!(settings.character_files, vec!["./a.txt".to_string(), "/abs/b.txt".to_string()]);
    assert_eq!(settings.output_directory, ".");
}

#[test]
fn absolute_configured_paths_are_kept() {
    assert_eq!(resolve_path("/project", "/fonts/x.ttf".to_string()), "/fonts/x.ttf");
    assert_eq!(resolve_path("/project", "fonts/x.ttf".to_string()), "/project/fonts/x.ttf");
    assert_eq!(resolve_path("", "x.ttf".to_string()), "x.ttf");
}

#[test]
fn reports_each_missing_setting() {
    let mut cli = cli_for(CONFIG);
    assert!(matches!(resolve(empty_raw(), &cli), Err(AppError::MissingSetting("font.path"))));

    cli.font = Some("f.ttf".to_string());
    assert!(matches!(resolve(empty_raw(), &cli), Err(AppError::MissingSetting("input.chars"))));

    cli.chars = vec!["c.txt".to_string()];
    assert!(matches!(
        resolve(empty_raw(), &cli),
        Err(AppError::MissingSetting("generation.sizes"))
    ));

    let mut config = raw(&["c.txt"], None, None, &[16], Some(FixedCellConfig { width: None, height: Some(3) }));
    assert!(matches!(
        resolve(config.clone(), &cli_for(CONFIG)),
        Err(AppError::MissingSetting("fixed_cell.width"))
    ));
    config.fixed_cell = Some(FixedCellConfig { width: Some(3), height: None });
    assert!(matches!(
        resolve(config, &cli_for(CONFIG)),
        Err(AppError::MissingSetting("fixed_cell.height"))
    ));
}

#[test]
fn reports_each_invalid_setting() {
    let cli = cli_for(CONFIG);

    let empty_chars = raw(&[], None, None, &[16], None);
    assert_eq!(invalid_setting_name(&resolve(empty_chars, &cli)), Some("input.chars"));

    let bad_language = raw(&["c.txt"], None, Some(output("go", None, None, None)), &[16], None);
    assert_eq!(invalid_setting_name(&resolve(bad_language, &cli)), Some("output.language"));

    let bad_format = raw(&["c.txt"], None, Some(output("c", None, None, Some("c-tiny"))), &[16], None);
    assert_eq!(invalid_setting_name(&resolve(bad_format, &cli)), Some("output.format"));

    let bad_name = raw(&["c.txt"], None, Some(output("c", Some("9font"), None, None)), &[16], None);
    assert_eq!(invalid_setting_name(&resolve(bad_name, &cli)), Some("output.name"));

    let no_sizes = raw(&["c.txt"], None, None, &[], None);
    assert_eq!(invalid_setting_name(&resolve(no_sizes, &cli)), Some("generation.sizes"));

    let mut eight_bit = raw(&["c.txt"], None, None, &[16], None);
    eight_bit.generation = Some(GenerationConfig { sizes: Some(vec![16]), alpha_bits: Some(8), missing_glyphs: None });
    assert_eq!(invalid_setting_name(&resolve(eight_bit, &cli)), Some("generation.alpha_bits"));

    let zero_width = raw(&["c.txt"], None, None, &[16], Some(cell(0, 4)));
    assert_eq!(invalid_setting_name(&resolve(zero_width, &cli)), Some("fixed_cell.width"));

    let zero_height = raw(&["c.txt"], None, None, &[16], Some(cell(4, 0)));
    assert_eq!(invalid_setting_name(&resolve(zero_height, &cli)), Some("fixed_cell.height"));

    let mut bad_policy = raw(&["c.txt"], None, None, &[16], None);
    bad_policy.generation = Some(GenerationConfig { sizes: Some(vec![16]), alpha_bits: None, missing_glyphs: Some("warn".to_string()) });
    assert_eq!(invalid_setting_name(&resolve(bad_policy, &cli)), Some("generation.missing_glyphs"));

    let fixed_rust = raw(&["c.txt"], None, Some(output("rust", None, None, Some("c-fixed"))), &[16], Some(cell(4, 4)));
    assert_eq!(invalid_setting_name(&resolve(fixed_rust, &cli)), Some("output.format"));
}

#[test]
fn the_first_failing_setting_is_reported() {
    let mut cli = cli_for(CONFIG);
    cli.sizes = vec![0];
    let config = raw(&["c.txt"], None, Some(output("c", Some(""), None, None)), &[16], None);
    let result = resolve(config, &cli);
    match result {
        Err(AppError::InvalidSetting { setting, message }) => {
            assert_eq!(setting, "output.name");
            assert_eq!(message, "name cannot be empty");
        }
        other => panic!("unexpected result: {other:?}"),
    }
}

#[test]
fn validates_symbol_names() {
    assert!(validate_symbol_name("app_font").is_ok());
    assert!(validate_symbol_name("_x9").is_ok());
    let message = |name: &str| match validate_symbol_name(name) {
        Err(AppError::InvalidSetting { message, .. }) => message,
        other => panic!("unexpected result: {other:?}"),
    };
    assert_eq!(message(""), "name cannot be empty");
    assert_eq!(message("1abc"), "name must start with an ASCII letter or underscore");
    assert_eq!(message("ab-c"), "name must contain only ASCII letters, digits, or underscores");
    assert_eq!(message("äb"), "name must start with an ASCII letter or underscore");
}

#[test]
fn validates_sizes_cells_and_formats() {
    assert!(validate_sizes(&[1, 2]).is_ok());
    assert!(validate_sizes(&[]).is_err());
    assert!(validate_sizes(&[3, 0]).is_err());
    assert!(validate_fixed_cell(1, 1).is_ok());
    assert!(validate_fixed_cell(0, 1).is_err());
    assert_eq!(
        parse_fixed_cell(Some(cell(8, 9))).unwrap(),
        Some(FixedCellSettings { width: 8, height: 9 })
    );
    assert_eq!(parse_fixed_cell(None).unwrap(), None);
    let one = Some(FixedCellSettings { width: 4, height: 4 });
    assert!(validate_output_format(OutputLanguage::Rust, None, None, &[1, 2]).is_ok());
    assert!(validate_output_format(OutputLanguage::C, Some(OutputFormat::CMetrics), None, &[1, 2]).is_ok());
    assert!(validate_output_format(OutputLanguage::C, Some(OutputFormat::CFixed), one, &[1]).is_ok());
    assert!(validate_output_format(OutputLanguage::C, Some(OutputFormat::CFixed), one, &[1, 2]).is_err());
}

#[test]
fn parses_and_names_enumerations() {
    assert_eq!(OutputLanguage::parse("rust").unwrap(), OutputLanguage::Rust);
    assert!(OutputLanguage::parse("Rust").is_err());
    assert_eq!(OutputLanguage::C.as_str(), "c");
    assert_eq!(OutputLanguage::from(LanguageArg::Rust), OutputLanguage::Rust);
    assert_eq!(OutputFormat::parse("c-metrics").unwrap(), OutputFormat::CMetrics);
    assert_eq!(OutputFormat::CFixed.as_str(), "c-fixed");
    assert_eq!(MissingGlyphPolicy::parse("skip").unwrap(), MissingGlyphPolicy::Skip);
    assert_eq!(MissingGlyphPolicy::Error.as_str(), "error");
}

#[test]
fn formats_normalized_settings() {
    let settings = GenerationSettings {
        config_path: Some("/p/fontgen.toml".to_string()),
        font_path: "/p/f.ttf".to_string(),
        character_files: vec!["/p/a.txt".to_string(), "/p/b.txt".to_string()],
        preserve_space: true,
        language: OutputLanguage::C,
        output_format: Some(OutputFormat::CFixed),
        output_name: "app_font".to_string(),
        output_directory: "/p/out".to_string(),
        sizes: vec![26],
        alpha_bits: 4,
        missing_glyphs: MissingGlyphPolicy::Skip,
        fixed_cell: Some(FixedCellSettings { width: 26, height: 20 }),
    };
    assert_eq!(
        settings.format_normalized(),
        "config = /p/fontgen.toml\nfont = /p/f.ttf\nchars =\n  - /p/a.txt\n  - /p/b.txt\n\
         preserve_space = true\nlanguage = c\noutput_format = c-fixed\noutput_name = app_font\n\
         output_directory = /p/out\nsizes = [26]\nalpha_bits = 4\nmissing_glyphs = skip\n\
         fixed_cell = 26x20\n"
    );
    let plain = GenerationSettings {
        config_path: None,
        output_format: None,
        fixed_cell: None,
        sizes: vec![16, 24],
        preserve_space: false,
        language: OutputLanguage::Rust,
        missing_glyphs: MissingGlyphPolicy::Error,
        ..settings
    };
    let text = plain.format_normalized();
    assert!(text.starts_with("config = <none>\n"));
    assert!(text.contains("\nsizes = [16, 24]\n"));
    assert!(text.contains("\noutput_format = <default>\n"));
    assert!(text.contains("\npreserve_space = false\nlanguage = rust\n"));
    assert!(text.ends_with("\nmissing_glyphs = error\nfixed_cell = <none>\n"));
}

#[test]
fn given_output_directories_resolve_against_the_config_directory() {
    let config = raw(&["c.txt"], None, Some(output("c", None, Some("out"), None)), &[16], None);
    let settings = resolve(config, &cli_for(CONFIG)).unwrap();
    assert_eq!(settings.output_directory, "/project/out");

    let mut cli = cli_for(CONFIG);
    cli.output_dir = Some("gen".to_string());
    let settings = resolve(raw(&["c.txt"], None, None, &[16], None), &cli).unwrap();
    assert_eq!(settings.output_directory, "/project/gen");
}
