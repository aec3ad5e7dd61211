use font_generator::chars::{
    collect_from_files, format_display_unit, should_ignore, single_scalar, CharacterCollector,
    CharacterSet,
};
use font_generator::config::{GenerationSettings, MissingGlyphPolicy, OutputLanguage};
use font_generator::error::AppError;

fn collect_text(content: &str, preserve_space: bool) -> Result<Vec<String>, AppError> {
    let mut collector = CharacterCollector::new(preserve_space);
    collector.collect_text(content);
    Ok(collector.finish()?.display_units().to_vec())
}

fn units(expected: &[&str]) -> Vec<String> {
    expected.iter().map(|s| s.to_string()).collect()
}

fn settings(preserve_space: bool) -> GenerationSettings {
    GenerationSettings {
        config_path: None,
        font_path: "unused.ttf".to_string(),
        character_files: vec!["first.txt".to_string(), "second.txt".to_string()],
        preserve_space,
        language: OutputLanguage::C,
        output_format: None,
        output_name: "app_font".to_string(),
        output_directory: ".".to_string(),
        sizes: vec![16],
        alpha_bits: 4,
        missing_glyphs: MissingGlyphPolicy::Error,
        fixed_cell: None,
    }
}

#[test]
fn removes_duplicate_ascii_in_stable_order() {
    let units_found = collect_text("banana!", false).unwrap();

    assert_eq!(units_found, units(&["b", "a", "n", "!"]), "ascii units");
}

#[test]
fn collects_japanese_and_symbols() {
    let units_found = collect_text("温度℃温", false).unwrap();

    assert_eq!(units_found, units(&["温", "度", "℃"]), "japanese units");
}

#[test]
fn keeps_emoji_variation_selector_with_base() {
    let units_found = collect_text("☀️☀️☔️", false).unwrap();

    assert_eq!(units_found, units(&["☀️", "☔️"]), "emoji units");
}

#[test]
fn preserves_normal_space_when_configured() {
    let units_found = collect_text("A B\nC", true).unwrap();

    assert_eq!(units_found, units(&["A", " ", "B", "C"]), "space units");
}

#[test]
fn ignores_normal_space_when_not_configured() {
    let units_found = collect_text("A B\nC", false).unwrap();

    assert_eq!(units_found, units(&["A", "B", "C"]), "filtered units");
}

#[test]
fn reads_multiple_files_in_order() {
    let contents = vec!["abc".to_string(), "cde".to_string()];

    let characters = collect_from_files(&contents, false).unwrap();

    assert_eq!(
        characters.display_units().to_vec(),
        units(&["a", "b", "c", "d", "e"]),
        "multi-file units"
    );
}

#[test]
fn rejects_empty_character_set() {
    let result = collect_text(" \n\t", false);

    assert!(
        matches!(result, Err(AppError::NoCharactersFound)),
        "empty character set should be rejected"
    );
}

#[test]
fn collecting_texts_one_after_another_keeps_first_occurrences() {
    let mut collector = CharacterCollector::new(false);
    collector.collect_text("cab");
    collector.collect_text("bad\r\nc");
    let set = collector.finish().unwrap();
    assert_eq!(set.display_units().to_vec(), units(&["c", "a", "b", "d"]));
    assert_eq!(set.len(), 4);
    assert!(!set.is_empty());
}

#[test]
fn reading_files_in_order_equals_reading_their_concatenation() {
    let separate = collect_from_files(&vec!["xy".to_string(), "yz".to_string()], false).unwrap();
    let joined = collect_from_files(&vec!["xyyz".to_string()], false).unwrap();
    assert_eq!(separate, joined);
}

#[test]
fn crlf_is_one_ignored_grapheme() {
    let units_found = collect_text("a\r\nb\r\n", true).unwrap();
    assert_eq!(units_found, units(&["a", "b"]));
}

#[test]
fn whitespace_only_files_give_no_characters() {
    let result = collect_from_files(&vec![" ".to_string(), "\t\n".to_string()], false);
    assert!(matches!(result, Err(AppError::NoCharactersFound)));
    let result = collect_from_files(&Vec::new(), true);
    assert!(matches!(result, Err(AppError::NoCharactersFound)));
    let kept = collect_from_files(&vec![" ".to_string()], true).unwrap();
    assert_eq!(kept.display_units().to_vec(), units(&[" "]));
}

#[test]
fn from_settings_uses_the_configured_space_policy() {
    let contents = vec!["a b".to_string(), "b c".to_string()];
    let kept = CharacterSet::from_settings(&settings(true), &contents).unwrap();
    assert_eq!(kept.display_units().to_vec(), units(&["a", " ", "b", "c"]));
    let dropped = CharacterSet::from_settings(&settings(false), &contents).unwrap();
    assert_eq!(dropped.display_units().to_vec(), units(&["a", "b", "c"]));
}

#[test]
fn collect_units_skips_ignored_and_repeated_units() {
    let mut collector = CharacterCollector::new(false);
    collector.collect_units(&units(&["q", " ", "\r\n", "q", "é", "👍🏽"]));
    let set = collector.finish().unwrap();
    assert_eq!(set.display_units().to_vec(), units(&["q", "é", "👍🏽"]));
}

#[test]
fn summary_lists_units_with_visible_space() {
    let set = collect_from_files(&vec!["A B".to_string()], true).unwrap();
    assert_eq!(set.format_summary(), "characters = 3\n  - A\n  - <space>\n  - B\n");
}

#[test]
fn display_unit_helpers() {
    assert_eq!(format_display_unit(" "), "<space>");
    assert_eq!(format_display_unit("  "), "  ");
    assert_eq!(format_display_unit("あ"), "あ");
    assert_eq!(single_scalar("あ"), Some('あ'));
    assert_eq!(single_scalar("☀️"), None);
    assert_eq!(single_scalar(""), None);
    assert!(should_ignore("\r\n", false));
    assert!(should_ignore(" ", false));
    assert!(!should_ignore(" ", true));
    assert!(!should_ignore("a ", false));
    assert!(should_ignore("", true));
}
