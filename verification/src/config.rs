//! Generation settings: the configuration file's values, overridden by the
//! command line, defaulted, validated and with paths resolved against the
//! configuration file's directory.

use vstd::prelude::*;

use crate::chars::string_views;
use crate::cli::{Cli, LanguageArg};
use crate::error::{invalid_setting, AppError, ErrorView};
use crate::text::{
    concat, decimal, decimal_string, lemma_concat_all, lemma_concat_take, line, push_line, push_str,
    push_u32, push_u32_list, str_equals, u32_list,
};

verus! {

/// The language of the generated source.
#[derive(Debug, Clone, Copy, PartialEq, Eq)]
pub enum OutputLanguage {
    C,
    Rust,
}

/// The shape of generated C output.
#[derive(Debug, Clone, Copy, PartialEq, Eq)]
pub enum OutputFormat {
    CFixed,
    CMetrics,
}

/// What to do with display units that cannot be rendered.
#[derive(Debug, Clone, Copy, PartialEq, Eq)]
pub enum MissingGlyphPolicy {
    Error,
    Skip,
}

/// The configured fixed cell, in pixels.
#[derive(Debug, Clone, Copy, PartialEq, Eq)]
pub struct FixedCellSettings {
    pub width: u32,
    pub height: u32,
}

/// The language that a configured name selects.
pub open spec fn parsed_language(value: Seq<char>) -> Result<OutputLanguage, ErrorView> {
    if value == "c"@ {
        Ok(OutputLanguage::C)
    } else if value == "rust"@ {
        Ok(OutputLanguage::Rust)
    } else {
        Err(invalid_setting("output.language"@, "expected 'c' or 'rust'"@))
    }
}

/// The configured name of a language.
pub open spec fn language_name(language: OutputLanguage) -> Seq<char> {
    match language {
        OutputLanguage::C => "c"@,
        OutputLanguage::Rust => "rust"@,
    }
}

/// The language that a command line choice selects.
pub open spec fn language_of_arg(arg: LanguageArg) -> OutputLanguage {
    match arg {
        LanguageArg::C => OutputLanguage::C,
        LanguageArg::Rust => OutputLanguage::Rust,
    }
}

/// The output format that a configured name selects.
pub open spec fn parsed_format(value: Seq<char>) -> Result<OutputFormat, ErrorView> {
    if value == "c-fixed"@ {
        Ok(OutputFormat::CFixed)
    } else if value == "c-metrics"@ {
        Ok(OutputFormat::CMetrics)
    } else {
        Err(invalid_setting("output.format"@, "expected 'c-fixed' or 'c-metrics'"@))
    }
}

/// The configured name of an output format.
pub open spec fn format_name(format: OutputFormat) -> Seq<char> {
    match format {
        OutputFormat::CFixed => "c-fixed"@,
        OutputFormat::CMetrics => "c-metrics"@,
    }
}

/// The missing-glyph policy that a configured name selects.
pub open spec fn parsed_policy(value: Seq<char>) -> Result<MissingGlyphPolicy, ErrorView> {
    if value == "error"@ {
        Ok(MissingGlyphPolicy::Error)
    } else if value == "skip"@ {
        Ok(MissingGlyphPolicy::Skip)
    } else {
        Err(invalid_setting("generation.missing_glyphs"@, "expected 'error' or 'skip'"@))
    }
}

/// The configured name of a missing-glyph policy.
pub open spec fn policy_name(policy: MissingGlyphPolicy) -> Seq<char> {
    match policy {
        MissingGlyphPolicy::Error => "error"@,
        MissingGlyphPolicy::Skip => "skip"@,
    }
}

/// The view of a parse result whose error is an `AppError`.
pub open spec fn result_view<T>(r: Result<T, AppError>) -> Result<T, ErrorView> {
    match r {
        Ok(v) => Ok(v),
        Err(e) => Err(e@),
    }
}

impl OutputLanguage {
    /// The language named `c` or `rust`.
    pub fn parse(value: &str) -> (result: Result<Self, AppError>)
        ensures
            result_view(result) == parsed_language(value@),
    {
        if str_equals(value, "c") {
            Ok(OutputLanguage::C)
        } else if str_equals(value, "rust") {
            Ok(OutputLanguage::Rust)
        } else {
            Err(AppError::InvalidSetting {
                setting: "output.language",
                message: String::from_str("expected 'c' or 'rust'"),
            })
        }
    }

    /// The language's configured name.
    pub fn as_str(self) -> (name: &'static str)
        ensures
            name@ == language_name(self),
    {
        match self {
            OutputLanguage::C => "c",
            OutputLanguage::Rust => "rust",
        }
    }
}

impl From<LanguageArg> for OutputLanguage {
    /// The language that a command line choice selects.
    fn from(arg: LanguageArg) -> (language: Self) {
        match arg {
            LanguageArg::C => OutputLanguage::C,
            LanguageArg::Rust => OutputLanguage::Rust,
        }
    }
}

impl vstd::std_specs::convert::FromSpecImpl<LanguageArg> for OutputLanguage {
    open spec fn obeys_from_spec() -> bool {
        true
    }

    open spec fn from_spec(arg: LanguageArg) -> OutputLanguage {
        language_of_arg(arg)
    }
}

impl OutputFormat {
    /// The format named `c-fixed` or `c-metrics`.
    pub fn parse(value: &str) -> (result: Result<Self, AppError>)
        ensures
            result_view(result) == parsed_format(value@),
    {
        if str_equals(value, "c-fixed") {
            Ok(OutputFormat::CFixed)
        } else if str_equals(value, "c-metrics") {
            Ok(OutputFormat::CMetrics)
        } else {
            Err(AppError::InvalidSetting {
                setting: "output.format",
                message: String::from_str("expected 'c-fixed' or 'c-metrics'"),
            })
        }
    }

    /// The format's configured name.
    pub fn as_str(self) -> (name: &'static str)
        ensures
            name@ == format_name(self),
    {
        match self {
            OutputFormat::CFixed => "c-fixed",
            OutputFormat::CMetrics => "c-metrics",
        }
    }
}

impl MissingGlyphPolicy {
    /// The policy named `error` or `skip`.
    pub fn parse(value: &str) -> (result: Result<Self, AppError>)
        ensures
            result_view(result) == parsed_policy(value@),
    {
        if str_equals(value, "error") {
            Ok(MissingGlyphPolicy::Error)
        } else if str_equals(value, "skip") {
            Ok(MissingGlyphPolicy::Skip)
        } else {
            Err(AppError::InvalidSetting {
                setting: "generation.missing_glyphs",
                message: String::from_str("expected 'error' or 'skip'"),
            })
        }
    }

    /// The policy's configured name.
    pub fn as_str(self) -> (name: &'static str)
        ensures
            name@ == policy_name(self),
    {
        match self {
            MissingGlyphPolicy::Error => "error",
            MissingGlyphPolicy::Skip => "skip",
        }
    }
}


/// `[font]` of the configuration file.
#[derive(Debug, Clone)]
pub struct FontConfig {
    pub path: Option<String>,
}

/// `[input]` of the configuration file.
#[derive(Debug, Clone)]
pub struct InputConfig {
    pub chars: Option<Vec<String>>,
    pub preserve_space: Option<bool>,
}

/// `[output]` of the configuration file.
#[derive(Debug, Clone)]
pub struct OutputConfig {
    pub language: Option<String>,
    pub name: Option<String>,
    pub directory: Option<String>,
    pub format: Option<String>,
}

/// `[generation]` of the configuration file.
#[derive(Debug, Clone)]
pub struct GenerationConfig {
    pub sizes: Option<Vec<u32>>,
    pub alpha_bits: Option<u8>,
    pub missing_glyphs: Option<String>,
}

/// `[fixed_cell]` of the configuration file.
#[derive(Debug, Clone)]
pub struct FixedCellConfig {
    pub width: Option<u32>,
    pub height: Option<u32>,
}

/// The configuration file as parsed: every table and setting optional.
#[derive(Debug, Clone)]
pub struct RawConfig {
    pub font: Option<FontConfig>,
    pub input: Option<InputConfig>,
    pub output: Option<OutputConfig>,
    pub generation: Option<GenerationConfig>,
    pub fixed_cell: Option<FixedCellConfig>,
}

/// Validated generation settings with resolved paths.
#[derive(Debug, Clone)]
pub struct GenerationSettings {
    pub config_path: Option<String>,
    pub font_path: String,
    pub character_files: Vec<String>,
    pub preserve_space: bool,
    pub language: OutputLanguage,
    pub output_format: Option<OutputFormat>,
    pub output_name: String,
    pub output_directory: String,
    pub sizes: Vec<u32>,
    pub alpha_bits: u8,
    pub missing_glyphs: MissingGlyphPolicy,
    pub fixed_cell: Option<FixedCellSettings>,
}

// ---------------------------------------------------------------------------
// Paths
// ---------------------------------------------------------------------------

/// Whether a path is absolute on the supported hosts (macOS and Linux): it
/// starts at the root `/`.
pub open spec fn is_absolute_path(path: Seq<char>) -> bool {
    path.len() > 0 && path[0] == '/'
}

/// `Path::join(dir, path)` rendered as text.
pub uninterp spec fn joined_path(dir: Seq<char>, path: Seq<char>) -> Seq<char>;

/// `Path::parent(path)` rendered as text.
pub uninterp spec fn parent_path(path: Seq<char>) -> Option<Seq<char>>;

/// `Path::is_absolute`. On Unix hosts, the only ones this tool targets, the
/// standard library documents a path as absolute exactly when it starts with
/// the root.
#[verifier::external_body]
fn path_is_absolute(path: &str) -> (absolute: bool)
    ensures
        absolute == is_absolute_path(path@),
{
    std::path::Path::new(path).is_absolute()
}

/// `Path::join`: the result is named; the documented fact that an absolute
/// `path` replaces `dir` is stated. How a relative path is appended is left
/// unsaid.
#[verifier::external_body]
pub(crate) fn path_join(dir: &str, path: &str) -> (joined: String)
    ensures
        joined@ == joined_path(dir@, path@),
        is_absolute_path(path@) ==> joined@ == path@,
{
    std::path::Path::new(dir).join(path).to_string_lossy().into_owned()
}

/// `Path::parent`: the result is named; nothing is stated of it.
#[verifier::external_body]
fn path_parent(path: &str) -> (parent: Option<String>)
    ensures
        parent matches Some(p) ==> parent_path(path@) == Some(p@),
        parent is None ==> parent_path(path@) is None,
{
    std::path::Path::new(path).parent().map(|p| p.to_string_lossy().into_owned())
}

/// A configured path, taken relative to `dir` unless it is absolute.
pub open spec fn resolved_path(dir: Seq<char>, path: Seq<char>) -> Seq<char> {
    if is_absolute_path(path) {
        path
    } else {
        joined_path(dir, path)
    }
}

/// The directory that relative configured paths are resolved against: the
/// configuration file's parent, or `.` without a configuration file.
pub open spec fn config_directory(config_path: Option<Seq<char>>) -> Seq<char> {
    match config_path {
        Some(p) => match parent_path(p) {
            Some(d) => d,
            None => "."@,
        },
        None => "."@,
    }
}

/// Resolves a configured path against the configuration directory.
pub fn resolve_path(config_dir: &str, path: String) -> (resolved: String)
    ensures
        resolved@ == resolved_path(config_dir@, path@),
{
    if path_is_absolute(path.as_str()) {
        path
    } else {
        path_join(config_dir, path.as_str())
    }
}

// ---------------------------------------------------------------------------
// Validation
// ---------------------------------------------------------------------------

/// Whether a check passed (`None`) or failed with the given error.
pub open spec fn check_outcome(result: Result<(), AppError>, error: Option<ErrorView>) -> bool {
    match error {
        Some(e) => result matches Err(x) && x@ == e,
        None => result is Ok,
    }
}

/// An ASCII letter.
pub open spec fn is_ascii_letter(c: char) -> bool {
    (('a' as u32) <= (c as u32) && (c as u32) <= ('z' as u32)) || (('A' as u32) <= (c as u32)
        && (c as u32) <= ('Z' as u32))
}

/// An ASCII decimal digit.
pub open spec fn is_ascii_digit(c: char) -> bool {
    ('0' as u32) <= (c as u32) && (c as u32) <= ('9' as u32)
}

/// A character allowed after the first one of a symbol name.
pub open spec fn is_symbol_char(c: char) -> bool {
    c == '_' || is_ascii_letter(c) || is_ascii_digit(c)
}

/// Why an output name is not a valid C and Rust identifier, if it is not.
pub open spec fn symbol_name_error(name: Seq<char>) -> Option<ErrorView> {
    if name.len() == 0 {
        Some(invalid_setting("output.name"@, "name cannot be empty"@))
    } else if !(name[0] == '_' || is_ascii_letter(name[0])) {
        Some(
            invalid_setting("output.name"@, "name must start with an ASCII letter or underscore"@),
        )
    } else if exists|i: int| 1 <= i < name.len() && !is_symbol_char(#[trigger] name[i]) {
        Some(
            invalid_setting(
                "output.name"@,
                "name must contain only ASCII letters, digits, or underscores"@,
            ),
        )
    } else {
        None
    }
}

/// An output name is accepted exactly when it is not empty, starts with an
/// underscore or an ASCII letter of either case, and continues with
/// underscores, ASCII letters of either case and ASCII digits.
pub proof fn symbol_name_rule(name: Seq<char>)
    ensures
        symbol_name_error(name) is None <==> {
            &&& name.len() > 0
            &&& (name[0] == '_' || (97 <= (name[0] as u32) && (name[0] as u32) <= 122) || (65 <= (
            name[0] as u32) && (name[0] as u32) <= 90))
            &&& forall|i: int|
                1 <= i < name.len() ==> #[trigger] name[i] == '_' || (97 <= (name[i] as u32) && (
                name[i] as u32) <= 122) || (65 <= (name[i] as u32) && (name[i] as u32) <= 90) || (48
                    <= (name[i] as u32) && (name[i] as u32) <= 57)
        },
{
}

/// Checks that the output name can serve as a C and Rust identifier: an
/// ASCII letter or underscore, then ASCII letters, digits or underscores.
pub fn validate_symbol_name(name: &str) -> (result: Result<(), AppError>)
    ensures
        check_outcome(result, symbol_name_error(name@)),
{
    let n = name.unicode_len();
    if n == 0 {
        return Err(
            AppError::InvalidSetting {
                setting: "output.name",
                message: String::from_str("name cannot be empty"),
            },
        );
    }
    let first = name.get_char(0);
    let first_code = first as u32;
    let first_letter = (97 <= first_code && first_code <= 122) || (65 <= first_code && first_code
        <= 90);
    assert(first_letter == is_ascii_letter(name@[0]));
    if !(first == '_' || first_letter) {
        return Err(
            AppError::InvalidSetting {
                setting: "output.name",
                message: String::from_str("name must start with an ASCII letter or underscore"),
            },
        );
    }
    let mut i: usize = 1;
    while i < n
        invariant
            n == name@.len(),
            1 <= i <= n,
            name@[0] == '_' || is_ascii_letter(name@[0]),
            forall|k: int| 1 <= k < i ==> is_symbol_char(#[trigger] name@[k]),
        decreases n - i,
    {
        let ch = name.get_char(i);
        let code = ch as u32;
        let allowed = ch == '_' || (97 <= code && code <= 122) || (65 <= code && code <= 90) || (48
            <= code && code <= 57);
        if !allowed {
            assert(!is_symbol_char(name@[i as int]));
            return Err(
                AppError::InvalidSetting {
                    setting: "output.name",
                    message: String::from_str(
                        "name must contain only ASCII letters, digits, or underscores",
                    ),
                },
            );
        }
        i += 1;
    }
    Ok(())
}

/// Why the configured sizes are unusable, if they are.
pub open spec fn sizes_error(sizes: Seq<u32>) -> Option<ErrorView> {
    if sizes.len() == 0 {
        Some(invalid_setting("generation.sizes"@, "at least one size is required"@))
    } else if sizes.contains(0u32) {
        Some(invalid_setting("generation.sizes"@, "sizes must be positive pixel values"@))
    } else {
        None
    }
}

/// Checks that there is at least one size and that every size is positive.
pub fn validate_sizes(sizes: &[u32]) -> (result: Result<(), AppError>)
    ensures
        check_outcome(result, sizes_error(sizes@)),
{
    if sizes.len() == 0 {
        return Err(
            AppError::InvalidSetting {
                setting: "generation.sizes",
                message: String::from_str("at least one size is required"),
            },
        );
    }
    let mut i: usize = 0;
    while i < sizes.len()
        invariant
            i <= sizes@.len(),
            forall|k: int| 0 <= k < i ==> sizes@[k] != 0,
        decreases sizes.len() - i,
    {
        if sizes[i] == 0 {
            assert(sizes@.contains(0u32));
            return Err(
                AppError::InvalidSetting {
                    setting: "generation.sizes",
                    message: String::from_str("sizes must be positive pixel values"),
                },
            );
        }
        i += 1;
    }
    Ok(())
}

/// Why a fixed cell is unusable, if it is.
pub open spec fn fixed_cell_error(width: u32, height: u32) -> Option<ErrorView> {
    if width == 0 {
        Some(invalid_setting("fixed_cell.width"@, "width must be a positive pixel value"@))
    } else if height == 0 {
        Some(invalid_setting("fixed_cell.height"@, "height must be a positive pixel value"@))
    } else {
        None
    }
}

/// Checks that both fixed cell dimensions are positive.
pub fn validate_fixed_cell(width: u32, height: u32) -> (result: Result<(), AppError>)
    ensures
        check_outcome(result, fixed_cell_error(width, height)),
{
    if width == 0 {
        return Err(
            AppError::InvalidSetting {
                setting: "fixed_cell.width",
                message: String::from_str("width must be a positive pixel value"),
            },
        );
    }
    if height == 0 {
        return Err(
            AppError::InvalidSetting {
                setting: "fixed_cell.height",
                message: String::from_str("height must be a positive pixel value"),
            },
        );
    }
    Ok(())
}

/// The fixed cell that `[fixed_cell]` describes, or why it is unusable.
pub open spec fn parsed_fixed_cell(cell: Option<FixedCellConfig>) -> Result<
    Option<FixedCellSettings>,
    ErrorView,
> {
    match cell {
        None => Ok(None),
        Some(c) => match (c.width, c.height) {
            (None, _) => Err(ErrorView::MissingSetting("fixed_cell.width"@)),
            (Some(_), None) => Err(ErrorView::MissingSetting("fixed_cell.height"@)),
            (Some(w), Some(h)) => match fixed_cell_error(w, h) {
                Some(e) => Err(e),
                None => Ok(Some(FixedCellSettings { width: w, height: h })),
            },
        },
    }
}

/// Reads `[fixed_cell]`: both dimensions are required and must be positive.
pub fn parse_fixed_cell(fixed_cell: Option<FixedCellConfig>) -> (result: Result<
    Option<FixedCellSettings>,
    AppError,
>)
    ensures
        result_view(result) == parsed_fixed_cell(fixed_cell),
{
    match fixed_cell {
        None => Ok(None),
        Some(cell) => {
            let width = match cell.width {
                Some(w) => w,
                None => {
                    return Err(AppError::MissingSetting("fixed_cell.width"));
                },
            };
            let height = match cell.height {
                Some(h) => h,
                None => {
                    return Err(AppError::MissingSetting("fixed_cell.height"));
                },
            };
            match validate_fixed_cell(width, height) {
                Ok(()) => Ok(Some(FixedCellSettings { width, height })),
                Err(e) => Err(e),
            }
        },
    }
}

/// Why the selected output format cannot be produced, if it cannot:
/// `c-fixed` needs the C language, a fixed cell and exactly one size.
pub open spec fn output_format_error(
    language: OutputLanguage,
    output_format: Option<OutputFormat>,
    fixed_cell: Option<FixedCellSettings>,
    sizes: Seq<u32>,
) -> Option<ErrorView> {
    if output_format != Some(OutputFormat::CFixed) {
        None
    } else if language != OutputLanguage::C {
        Some(invalid_setting("output.format"@, "'c-fixed' requires output.language = 'c'"@))
    } else if fixed_cell is None {
        Some(ErrorView::MissingSetting("fixed_cell"@))
    } else if sizes.len() != 1 {
        Some(invalid_setting("generation.sizes"@, "'c-fixed' requires exactly one size"@))
    } else {
        None
    }
}

/// Checks the requirements of the selected output format.
pub fn validate_output_format(
    language: OutputLanguage,
    output_format: Option<OutputFormat>,
    fixed_cell: Option<FixedCellSettings>,
    sizes: &[u32],
) -> (result: Result<(), AppError>)
    ensures
        check_outcome(result, output_format_error(language, output_format, fixed_cell, sizes@)),
{
    let fixed = match output_format {
        Some(OutputFormat::CFixed) => true,
        _ => false,
    };
    if !fixed {
        return Ok(());
    }
    let is_c = match language {
        OutputLanguage::C => true,
        OutputLanguage::Rust => false,
    };
    if !is_c {
        return Err(
            AppError::InvalidSetting {
                setting: "output.format",
                message: String::from_str("'c-fixed' requires output.language = 'c'"),
            },
        );
    }
    if fixed_cell.is_none() {
        return Err(AppError::MissingSetting("fixed_cell"));
    }
    if sizes.len() != 1 {
        return Err(
            AppError::InvalidSetting {
                setting: "generation.sizes",
                message: String::from_str("'c-fixed' requires exactly one size"),
            },
        );
    }
    Ok(())
}


// ---------------------------------------------------------------------------
// Resolution of the settings
// ---------------------------------------------------------------------------

/// The text of an optional string.
pub open spec fn opt_view(o: Option<String>) -> Option<Seq<char>> {
    match o {
        Some(s) => Some(s@),
        None => None,
    }
}

/// The first value that is present.
pub open spec fn first_some<T>(a: Option<T>, b: Option<T>) -> Option<T> {
    match a {
        Some(x) => Some(x),
        None => b,
    }
}

/// `[font].path`.
pub open spec fn raw_font_path(raw: RawConfig) -> Option<Seq<char>> {
    match raw.font {
        Some(f) => opt_view(f.path),
        None => None,
    }
}

/// `[input].chars`.
pub open spec fn raw_character_files(raw: RawConfig) -> Option<Seq<Seq<char>>> {
    match raw.input {
        Some(i) => match i.chars {
            Some(c) => Some(string_views(c@)),
            None => None,
        },
        None => None,
    }
}

/// `[input].preserve_space`.
pub open spec fn raw_preserve_space(raw: RawConfig) -> Option<bool> {
    match raw.input {
        Some(i) => i.preserve_space,
        None => None,
    }
}

/// `[output].language`.
pub open spec fn raw_language(raw: RawConfig) -> Option<Seq<char>> {
    match raw.output {
        Some(o) => opt_view(o.language),
        None => None,
    }
}

/// `[output].name`.
pub open spec fn raw_output_name(raw: RawConfig) -> Option<Seq<char>> {
    match raw.output {
        Some(o) => opt_view(o.name),
        None => None,
    }
}

/// `[output].directory`.
pub open spec fn raw_output_directory(raw: RawConfig) -> Option<Seq<char>> {
    match raw.output {
        Some(o) => opt_view(o.directory),
        None => None,
    }
}

/// `[output].format`.
pub open spec fn raw_output_format(raw: RawConfig) -> Option<Seq<char>> {
    match raw.output {
        Some(o) => opt_view(o.format),
        None => None,
    }
}

/// `[generation].sizes`.
pub open spec fn raw_sizes(raw: RawConfig) -> Option<Seq<u32>> {
    match raw.generation {
        Some(g) => match g.sizes {
            Some(v) => Some(v@),
            None => None,
        },
        None => None,
    }
}

/// `[generation].alpha_bits`.
pub open spec fn raw_alpha_bits(raw: RawConfig) -> Option<u8> {
    match raw.generation {
        Some(g) => g.alpha_bits,
        None => None,
    }
}

/// `[generation].missing_glyphs`.
pub open spec fn raw_missing_glyphs(raw: RawConfig) -> Option<Seq<char>> {
    match raw.generation {
        Some(g) => opt_view(g.missing_glyphs),
        None => None,
    }
}

/// The font path: `--font`, else `[font].path`.
pub open spec fn chosen_font_path(cli: Cli, raw: RawConfig) -> Option<Seq<char>> {
    first_some(opt_view(cli.font), raw_font_path(raw))
}

/// The character files: the `--chars` list when it is not empty, else
/// `[input].chars`.
pub open spec fn chosen_character_files(cli: Cli, raw: RawConfig) -> Option<Seq<Seq<char>>> {
    if cli.chars@.len() == 0 {
        raw_character_files(raw)
    } else {
        Some(string_views(cli.chars@))
    }
}

/// Whether spaces are kept: `--preserve-space`, else the configured value,
/// else false.
pub open spec fn chosen_preserve_space(cli: Cli, raw: RawConfig) -> bool {
    match first_some(cli.preserve_space, raw_preserve_space(raw)) {
        Some(b) => b,
        None => false,
    }
}

/// The language: `--language`, else the configured name, else C.
pub open spec fn chosen_language(cli: Cli, raw: RawConfig) -> Result<OutputLanguage, ErrorView> {
    match cli.language {
        Some(arg) => Ok(language_of_arg(arg)),
        None => match raw_language(raw) {
            Some(v) => parsed_language(v),
            None => Ok(OutputLanguage::C),
        },
    }
}

/// The configured output format, if any.
pub open spec fn chosen_output_format(raw: RawConfig) -> Result<Option<OutputFormat>, ErrorView> {
    match raw_output_format(raw) {
        Some(v) => match parsed_format(v) {
            Ok(f) => Ok(Some(f)),
            Err(e) => Err(e),
        },
        None => Ok(None),
    }
}

/// The output name: `--output-name`, else the configured name, else `app_font`.
pub open spec fn chosen_output_name(cli: Cli, raw: RawConfig) -> Seq<char> {
    match first_some(opt_view(cli.output_name), raw_output_name(raw)) {
        Some(n) => n,
        None => "app_font"@,
    }
}

/// The output directory: `--output-dir`, else the configured directory, each
/// resolved against `dir`; without either, the working directory `.`.
pub open spec fn chosen_output_directory(dir: Seq<char>, cli: Cli, raw: RawConfig) -> Seq<char> {
    match first_some(opt_view(cli.output_dir), raw_output_directory(raw)) {
        Some(d) => resolved_path(dir, d),
        None => "."@,
    }
}

/// The sizes: the `--size` list when it is not empty, else the configured sizes.
pub open spec fn chosen_sizes(cli: Cli, raw: RawConfig) -> Option<Seq<u32>> {
    if cli.sizes@.len() == 0 {
        raw_sizes(raw)
    } else {
        Some(cli.sizes@)
    }
}

/// The alpha depth: the configured value, else 4.
pub open spec fn chosen_alpha_bits(raw: RawConfig) -> u8 {
    match raw_alpha_bits(raw) {
        Some(b) => b,
        None => 4,
    }
}

/// The missing-glyph policy: the configured name, else `error`.
pub open spec fn chosen_policy(raw: RawConfig) -> Result<MissingGlyphPolicy, ErrorView> {
    match raw_missing_glyphs(raw) {
        Some(v) => parsed_policy(v),
        None => Ok(MissingGlyphPolicy::Error),
    }
}

/// The first reason, in the order the settings are checked, that the
/// configuration and command line do not give usable settings; `None` when
/// they do. (Whether the configured files and directories exist is checked
/// separately.)
pub open spec fn settings_error(cli: Cli, raw: RawConfig) -> Option<ErrorView> {
    if chosen_font_path(cli, raw) is None {
        Some(ErrorView::MissingSetting("font.path"@))
    } else if chosen_character_files(cli, raw) is None {
        Some(ErrorView::MissingSetting("input.chars"@))
    } else if chosen_character_files(cli, raw).unwrap().len() == 0 {
        Some(invalid_setting("input.chars"@, "at least one character file is required"@))
    } else if chosen_language(cli, raw) is Err {
        Some(chosen_language(cli, raw)->Err_0)
    } else if chosen_output_format(raw) is Err {
        Some(chosen_output_format(raw)->Err_0)
    } else if symbol_name_error(chosen_output_name(cli, raw)) is Some {
        symbol_name_error(chosen_output_name(cli, raw))
    } else if chosen_sizes(cli, raw) is None {
        Some(ErrorView::MissingSetting("generation.sizes"@))
    } else if sizes_error(chosen_sizes(cli, raw).unwrap()) is Some {
        sizes_error(chosen_sizes(cli, raw).unwrap())
    } else if chosen_alpha_bits(raw) != 4 {
        Some(invalid_setting("generation.alpha_bits"@, "phase 2 supports only 4-bit alpha"@))
    } else if parsed_fixed_cell(raw.fixed_cell) is Err {
        Some(parsed_fixed_cell(raw.fixed_cell)->Err_0)
    } else if chosen_policy(raw) is Err {
        Some(chosen_policy(raw)->Err_0)
    } else {
        output_format_error(
            chosen_language(cli, raw)->Ok_0,
            chosen_output_format(raw)->Ok_0,
            parsed_fixed_cell(raw.fixed_cell)->Ok_0,
            chosen_sizes(cli, raw).unwrap(),
        )
    }
}

/// The settings are those that the configuration file at `config_path` (if
/// any) and the command line give, with relative paths resolved against
/// `dir`.
pub open spec fn settings_from(
    s: GenerationSettings,
    config_path: Option<Seq<char>>,
    dir: Seq<char>,
    cli: Cli,
    raw: RawConfig,
) -> bool {
    &&& opt_view(s.config_path) == config_path
    &&& s.font_path@ == resolved_path(dir, chosen_font_path(cli, raw).unwrap())
    &&& string_views(s.character_files@) == chosen_character_files(cli, raw).unwrap().map_values(
        |p: Seq<char>| resolved_path(dir, p),
    )
    &&& s.preserve_space == chosen_preserve_space(cli, raw)
    &&& chosen_language(cli, raw) == Ok::<OutputLanguage, ErrorView>(s.language)
    &&& chosen_output_format(raw) == Ok::<Option<OutputFormat>, ErrorView>(s.output_format)
    &&& s.output_name@ == chosen_output_name(cli, raw)
    &&& s.output_directory@ == chosen_output_directory(dir, cli, raw)
    &&& chosen_sizes(cli, raw) == Some(s.sizes@)
    &&& s.alpha_bits == 4
    &&& chosen_alpha_bits(raw) == 4
    &&& chosen_policy(raw) == Ok::<MissingGlyphPolicy, ErrorView>(s.missing_glyphs)
    &&& parsed_fixed_cell(raw.fixed_cell) == Ok::<Option<FixedCellSettings>, ErrorView>(
        s.fixed_cell,
    )
}


fn clone_option_string(o: &Option<String>) -> (c: Option<String>)
    ensures
        opt_view(c) == opt_view(*o),
{
    match o {
        Some(s) => Some(s.clone()),
        None => None,
    }
}

/// Resolves each configured path, in order.
fn resolve_paths(config_dir: &str, paths: &Vec<String>) -> (resolved: Vec<String>)
    ensures
        string_views(resolved@) == string_views(paths@).map_values(
            |p: Seq<char>| resolved_path(config_dir@, p),
        ),
{
    let mut resolved: Vec<String> = Vec::new();
    let mut i: usize = 0;
    while i < paths.len()
        invariant
            i <= paths@.len(),
            string_views(resolved@) == string_views(paths@.take(i as int)).map_values(
                |p: Seq<char>| resolved_path(config_dir@, p),
            ),
        decreases paths.len() - i,
    {
        let r = resolve_path(config_dir, paths[i].clone());
        let ghost prev = resolved@;
        resolved.push(r);
        proof {
            let f = |p: Seq<char>| resolved_path(config_dir@, p);
            let before = string_views(paths@.take(i as int));
            assert(string_views(resolved@) =~= string_views(prev).push(r@));
            assert(string_views(paths@.take(i + 1)) =~= before.push(paths@[i as int]@));
            assert(before.push(paths@[i as int]@).map_values(f) =~= before.map_values(f).push(
                f(paths@[i as int]@),
            ));
        }
        i += 1;
    }
    assert(paths@.take(i as int) == paths@);
    resolved
}

fn copy_sizes(sizes: &Vec<u32>) -> (copy: Vec<u32>)
    ensures
        copy@ == sizes@,
{
    let mut copy: Vec<u32> = Vec::new();
    let mut i: usize = 0;
    while i < sizes.len()
        invariant
            i <= sizes@.len(),
            copy@ == sizes@.take(i as int),
        decreases sizes.len() - i,
    {
        copy.push(sizes[i]);
        proof {
            assert(sizes@.take(i + 1) == sizes@.take(i as int).push(sizes@[i as int]));
        }
        i += 1;
    }
    assert(sizes@.take(i as int) == sizes@);
    copy
}

/// Each command line option, when given, wins over the configuration file:
/// `--font`, `--chars`, `--size`, `--language`, `--output-name`,
/// `--output-dir` and `--preserve-space` each decide their setting.
pub proof fn command_line_overrides(
    s: GenerationSettings,
    config_path: Option<Seq<char>>,
    dir: Seq<char>,
    cli: Cli,
    raw: RawConfig,
)
    requires
        settings_error(cli, raw) is None,
        settings_from(s, config_path, dir, cli, raw),
    ensures
        cli.font matches Some(f) ==> s.font_path@ == resolved_path(
            dir,
            f@,
        ),
        cli.chars@.len() > 0 ==> string_views(s.character_files@) == string_views(
            cli.chars@,
        ).map_values(|p: Seq<char>| resolved_path(dir, p)),
        cli.sizes@.len() > 0 ==> s.sizes@ == cli.sizes@,
        cli.language matches Some(arg) ==> s.language == language_of_arg(arg),
        cli.output_name matches Some(n) ==> s.output_name@ == n@,
        cli.output_dir matches Some(d) ==> s.output_directory@ == resolved_path(
            dir,
            d@,
        ),
        cli.preserve_space matches Some(b) ==> s.preserve_space == b,
{
}

/// Without a command line option or a configured value, a setting takes its
/// default: C output named `app_font` in the working directory `.`, 4-bit alpha,
/// spaces ignored, missing glyphs an error, and no output format or fixed cell.
pub proof fn settings_defaults(
    s: GenerationSettings,
    config_path: Option<Seq<char>>,
    dir: Seq<char>,
    cli: Cli,
    raw: RawConfig,
)
    requires
        settings_error(cli, raw) is None,
        settings_from(s, config_path, dir, cli, raw),
    ensures
        cli.language is None && raw_language(raw) is None ==> s.language == OutputLanguage::C,
        cli.output_name is None && raw_output_name(raw) is None ==> s.output_name@ == "app_font"@,
        cli.output_dir is None && raw_output_directory(raw) is None ==> s.output_directory@
            == "."@,
        cli.preserve_space is None && raw_preserve_space(raw) is None ==> !s.preserve_space,
        raw_missing_glyphs(raw) is None ==> s.missing_glyphs == MissingGlyphPolicy::Error,
        raw_output_format(raw) is None ==> s.output_format is None,
        raw.fixed_cell is None ==> s.fixed_cell is None,
        s.alpha_bits == 4,
{
}

/// Settings that resolve are usable: at least one character file, a valid
/// symbol name, at least one size and every size positive, 4-bit alpha, a
/// fixed cell with positive dimensions, and for `c-fixed` output the C
/// language, a fixed cell and exactly one size.
pub proof fn resolved_settings_are_valid(
    s: GenerationSettings,
    config_path: Option<Seq<char>>,
    dir: Seq<char>,
    cli: Cli,
    raw: RawConfig,
)
    requires
        settings_error(cli, raw) is None,
        settings_from(s, config_path, dir, cli, raw),
    ensures
        s.character_files@.len() > 0,
        symbol_name_error(s.output_name@) is None,
        s.sizes@.len() > 0,
        forall|i: int| 0 <= i < s.sizes@.len() ==> #[trigger] s.sizes@[i] > 0,
        s.alpha_bits == 4,
        s.fixed_cell matches Some(cell) ==> cell.width > 0 && cell.height > 0,
        s.output_format == Some(OutputFormat::CFixed) ==> {
            &&& s.language == OutputLanguage::C
            &&& s.fixed_cell is Some
            &&& s.sizes@.len() == 1
        },
{
    assert(string_views(s.character_files@).len() == s.character_files@.len());
    assert forall|i: int| 0 <= i < s.sizes@.len() implies #[trigger] s.sizes@[i] > 0 by {
        if s.sizes@[i] == 0 {
            assert(s.sizes@.contains(0u32));
        }
    }
}

impl GenerationSettings {
    /// Builds validated settings from the parsed configuration file (if any)
    /// and the command line. Each command line option overrides its setting;
    /// relative paths are resolved against the configuration file's
    /// directory (`.` without one); without a configured output directory the
    /// files go to the working directory `.`; the first unusable setting is
    /// reported. Whether the font, character files and output directory exist
    /// is not checked here.
    pub fn from_raw_and_cli(config_path: Option<String>, raw: RawConfig, cli: &Cli) -> (result:
        Result<Self, AppError>)
        ensures
            match settings_error(*cli, raw) {
                Some(e) => result matches Err(x) && x@ == e,
                None => result matches Ok(s) && settings_from(
                    s,
                    opt_view(config_path),
                    config_directory(opt_view(config_path)),
                    *cli,
                    raw,
                ),
            },
    {
        let config_dir: String = match &config_path {
            Some(p) => match path_parent(p.as_str()) {
                Some(d) => d,
                None => String::from_str("."),
            },
            None => String::from_str("."),
        };
        Self::from_raw_in_dir(config_path, config_dir.as_str(), raw, cli)
    }

    /// Builds validated settings as `from_raw_and_cli` does, with relative
    /// paths resolved against `config_dir`.
    #[verifier::rlimit(100)]
    #[verifier::spinoff_prover]
    pub fn from_raw_in_dir(config_path: Option<String>, config_dir: &str, raw: RawConfig, cli: &Cli) -> (result:
        Result<Self, AppError>)
        ensures
            match settings_error(*cli, raw) {
                Some(e) => result matches Err(x) && x@ == e,
                None => result matches Ok(s) && settings_from(
                    s,
                    opt_view(config_path),
                    config_dir@,
                    *cli,
                    raw,
                ),
            },
    {
        let ghost raw0 = raw;
        let RawConfig { font, input, output, generation, fixed_cell } = raw;

        let font_choice: Option<String> = match &cli.font {
            Some(f) => Some(f.clone()),
            None => match font {
                Some(f) => f.path,
                None => None,
            },
        };
        let font_path = match font_choice {
            Some(p) => p,
            None => {
                return Err(AppError::MissingSetting("font.path"));
            },
        };
        let font_path = resolve_path(config_dir, font_path);

        let empty: Vec<String> = Vec::new();
        let chosen_files: &Vec<String> = if cli.chars.len() == 0 {
            match &input {
                Some(i) => match &i.chars {
                    Some(c) => c,
                    None => {
                        return Err(AppError::MissingSetting("input.chars"));
                    },
                },
                None => {
                    return Err(AppError::MissingSetting("input.chars"));
                },
            }
        } else {
            &cli.chars
        };
        if chosen_files.len() == 0 {
            return Err(
                AppError::InvalidSetting {
                    setting: "input.chars",
                    message: String::from_str("at least one character file is required"),
                },
            );
        }
        let character_files = resolve_paths(config_dir, chosen_files);

        let preserve_space = match cli.preserve_space {
            Some(b) => b,
            None => match &input {
                Some(i) => match i.preserve_space {
                    Some(b) => b,
                    None => false,
                },
                None => false,
            },
        };

        let (output_language, output_name_cfg, output_directory_cfg, output_format_cfg) =
            match output {
            Some(o) => (o.language, o.name, o.directory, o.format),
            None => (None, None, None, None),
        };
        let (generation_sizes, generation_alpha_bits, generation_missing) = match generation {
            Some(g) => (g.sizes, g.alpha_bits, g.missing_glyphs),
            None => (None, None, None),
        };

        let language = match cli.language {
            Some(arg) => OutputLanguage::from(arg),
            None => match &output_language {
                Some(v) => match OutputLanguage::parse(v.as_str()) {
                    Ok(l) => l,
                    Err(e) => {
                        return Err(e);
                    },
                },
                None => OutputLanguage::C,
            },
        };

        let output_format = match &output_format_cfg {
            Some(v) => match OutputFormat::parse(v.as_str()) {
                Ok(f) => Some(f),
                Err(e) => {
                    return Err(e);
                },
            },
            None => None,
        };

        let output_name: String = match clone_option_string(&cli.output_name) {
            Some(n) => n,
            None => match output_name_cfg {
                Some(n) => n,
                None => String::from_str("app_font"),
            },
        };
        match validate_symbol_name(output_name.as_str()) {
            Ok(()) => {},
            Err(e) => {
                return Err(e);
            },
        }

        let output_directory: String = match clone_option_string(&cli.output_dir) {
            Some(d) => resolve_path(config_dir, d),
            None => match output_directory_cfg {
                Some(d) => resolve_path(config_dir, d),
                None => String::from_str("."),
            },
        };

        let sizes: Vec<u32> = if cli.sizes.len() == 0 {
            match generation_sizes {
                Some(v) => v,
                None => {
                    return Err(AppError::MissingSetting("generation.sizes"));
                },
            }
        } else {
            copy_sizes(&cli.sizes)
        };
        match validate_sizes(sizes.as_slice()) {
            Ok(()) => {},
            Err(e) => {
                return Err(e);
            },
        }

        let alpha_bits: u8 = match generation_alpha_bits {
            Some(b) => b,
            None => 4,
        };
        if alpha_bits != 4 {
            return Err(
                AppError::InvalidSetting {
                    setting: "generation.alpha_bits",
                    message: String::from_str("phase 2 supports only 4-bit alpha"),
                },
            );
        }

        let fixed_cell = match parse_fixed_cell(fixed_cell) {
            Ok(c) => c,
            Err(e) => {
                return Err(e);
            },
        };

        let missing_glyphs = match &generation_missing {
            Some(v) => match MissingGlyphPolicy::parse(v.as_str()) {
                Ok(p) => p,
                Err(e) => {
                    return Err(e);
                },
            },
            None => MissingGlyphPolicy::Error,
        };

        match validate_output_format(language, output_format, fixed_cell, sizes.as_slice()) {
            Ok(()) => {},
            Err(e) => {
                return Err(e);
            },
        }

        Ok(
            GenerationSettings {
                config_path,
                font_path,
                character_files,
                preserve_space,
                language,
                output_format,
                output_name,
                output_directory,
                sizes,
                alpha_bits,
                missing_glyphs,
                fixed_cell,
            },
        )
    }
}


// ---------------------------------------------------------------------------
// Normalized settings summary
// ---------------------------------------------------------------------------

/// `true` or `false`.
pub open spec fn bool_text(b: bool) -> Seq<char> {
    if b {
        "true"@
    } else {
        "false"@
    }
}

/// The line of one character file in the settings summary.
pub open spec fn path_line(path: Seq<char>) -> Seq<char> {
    line("  - "@ + path)
}

/// The normalized settings as printed before generation: one `key = value`
/// line per setting, the character files listed one per line.
pub open spec fn settings_summary(s: GenerationSettings) -> Seq<char> {
    line(
        "config = "@ + match s.config_path {
            Some(p) => p@,
            None => "<none>"@,
        },
    ) + line("font = "@ + s.font_path@) + line("chars ="@) + concat(
        string_views(s.character_files@).map_values(|p: Seq<char>| path_line(p)),
    ) + line("preserve_space = "@ + bool_text(s.preserve_space)) + line(
        "language = "@ + language_name(s.language),
    ) + line(
        "output_format = "@ + match s.output_format {
            Some(f) => format_name(f),
            None => "<default>"@,
        },
    ) + line("output_name = "@ + s.output_name@) + line("output_directory = "@ + s.output_directory@)
        + line("sizes = "@ + u32_list(s.sizes@)) + line("alpha_bits = "@ + decimal(s.alpha_bits as nat))
        + line("missing_glyphs = "@ + policy_name(s.missing_glyphs)) + line(
        "fixed_cell = "@ + match s.fixed_cell {
            Some(c) => decimal(c.width as nat) + "x"@ + decimal(c.height as nat),
            None => "<none>"@,
        },
    )
}

impl GenerationSettings {
    /// The normalized settings, one `key = value` line each.
    pub fn format_normalized(&self) -> (text: String)
        ensures
            text@ == settings_summary(*self),
    {
        let mut text = String::new();
        match &self.config_path {
            Some(path) => push_line(&mut text, "config = ", path.as_str()),
            None => push_line(&mut text, "config = ", "<none>"),
        }
        push_line(&mut text, "font = ", self.font_path.as_str());
        push_line(&mut text, "chars =", "");
        proof {
            reveal_strlit("");
            assert("chars ="@ + ""@ == "chars ="@);
        }
        let ghost head = text@;
        let ghost lines = string_views(self.character_files@).map_values(
            |p: Seq<char>| path_line(p),
        );
        let mut i: usize = 0;
        while i < self.character_files.len()
            invariant
                i <= self.character_files@.len(),
                lines == string_views(self.character_files@).map_values(
                    |p: Seq<char>| path_line(p),
                ),
                text@ == head + concat(lines.take(i as int)),
            decreases self.character_files.len() - i,
        {
            push_line(&mut text, "  - ", self.character_files[i].as_str());
            proof {
                lemma_concat_take(lines, i as int);
            }
            i += 1;
        }
        proof {
            lemma_concat_all(lines);
        }
        push_line(&mut text, "preserve_space = ", if self.preserve_space { "true" } else { "false" });
        push_line(&mut text, "language = ", self.language.as_str());
        match self.output_format {
            Some(format) => push_line(&mut text, "output_format = ", format.as_str()),
            None => push_line(&mut text, "output_format = ", "<default>"),
        }
        push_line(&mut text, "output_name = ", self.output_name.as_str());
        push_line(&mut text, "output_directory = ", self.output_directory.as_str());
        let mut sizes = String::new();
        push_u32_list(&mut sizes, &self.sizes);
        assert(sizes@ == u32_list(self.sizes@));
        push_line(&mut text, "sizes = ", sizes.as_str());
        let alpha = decimal_string(self.alpha_bits as u64);
        push_line(&mut text, "alpha_bits = ", alpha.as_str());
        push_line(&mut text, "missing_glyphs = ", self.missing_glyphs.as_str());
        match self.fixed_cell {
            Some(cell) => {
                let mut dims = decimal_string(cell.width as u64);
                push_str(&mut dims, "x");
                push_u32(&mut dims, cell.height);
                push_line(&mut text, "fixed_cell = ", dims.as_str());
            },
            None => push_line(&mut text, "fixed_cell = ", "<none>"),
        }
        text
    }
}

} // verus!
