//! Errors of settings resolution, character collection, rasterization and
//! output rendering. Paths and the messages of failed system calls are held
//! as text.

use vstd::prelude::*;

use crate::text::{decimal, push_str, push_u32};

verus! {

/// Everything that stops a generation run.
#[derive(Debug, Clone, PartialEq, Eq)]
pub enum AppError {
    ConfigNotFound(String),
    ConfigRead { path: String, message: String },
    ConfigParse { path: String, message: String },
    MissingSetting(&'static str),
    InvalidSetting { setting: &'static str, message: String },
    FontNotFound(String),
    FontRead { path: String, message: String },
    FontParse { path: String, message: String },
    CharacterFileNotFound(String),
    CharacterFileRead { path: String, message: String },
    NoCharactersFound,
    MissingGlyphs(String),
    MetricOverflow { glyph: String, metric: &'static str },
    FixedCellGlyphTooLarge {
        glyph: String,
        glyph_width: u32,
        glyph_height: u32,
        cell_width: u32,
        cell_height: u32,
    },
    OutputDirectoryNotFound(String),
    OutputWrite { path: String, message: String },
}

/// An error with its texts taken as character sequences.
pub enum ErrorView {
    ConfigNotFound(Seq<char>),
    ConfigRead { path: Seq<char>, message: Seq<char> },
    ConfigParse { path: Seq<char>, message: Seq<char> },
    MissingSetting(Seq<char>),
    InvalidSetting { setting: Seq<char>, message: Seq<char> },
    FontNotFound(Seq<char>),
    FontRead { path: Seq<char>, message: Seq<char> },
    FontParse { path: Seq<char>, message: Seq<char> },
    CharacterFileNotFound(Seq<char>),
    CharacterFileRead { path: Seq<char>, message: Seq<char> },
    NoCharactersFound,
    MissingGlyphs(Seq<char>),
    MetricOverflow { glyph: Seq<char>, metric: Seq<char> },
    FixedCellGlyphTooLarge {
        glyph: Seq<char>,
        glyph_width: u32,
        glyph_height: u32,
        cell_width: u32,
        cell_height: u32,
    },
    OutputDirectoryNotFound(Seq<char>),
    OutputWrite { path: Seq<char>, message: Seq<char> },
}

impl View for AppError {
    type V = ErrorView;

    open spec fn view(&self) -> ErrorView {
        match self {
            AppError::ConfigNotFound(p) => ErrorView::ConfigNotFound(p@),
            AppError::ConfigRead { path, message } => ErrorView::ConfigRead {
                path: path@,
                message: message@,
            },
            AppError::ConfigParse { path, message } => ErrorView::ConfigParse {
                path: path@,
                message: message@,
            },
            AppError::MissingSetting(s) => ErrorView::MissingSetting(s@),
            AppError::InvalidSetting { setting, message } => ErrorView::InvalidSetting {
                setting: setting@,
                message: message@,
            },
            AppError::FontNotFound(p) => ErrorView::FontNotFound(p@),
            AppError::FontRead { path, message } => ErrorView::FontRead {
                path: path@,
                message: message@,
            },
            AppError::FontParse { path, message } => ErrorView::FontParse {
                path: path@,
                message: message@,
            },
            AppError::CharacterFileNotFound(p) => ErrorView::CharacterFileNotFound(p@),
            AppError::CharacterFileRead { path, message } => ErrorView::CharacterFileRead {
                path: path@,
                message: message@,
            },
            AppError::NoCharactersFound => ErrorView::NoCharactersFound,
            AppError::MissingGlyphs(m) => ErrorView::MissingGlyphs(m@),
            AppError::MetricOverflow { glyph, metric } => ErrorView::MetricOverflow {
                glyph: glyph@,
                metric: metric@,
            },
            AppError::FixedCellGlyphTooLarge {
                glyph,
                glyph_width,
                glyph_height,
                cell_width,
                cell_height,
            } => ErrorView::FixedCellGlyphTooLarge {
                glyph: glyph@,
                glyph_width: *glyph_width,
                glyph_height: *glyph_height,
                cell_width: *cell_width,
                cell_height: *cell_height,
            },
            AppError::OutputDirectoryNotFound(p) => ErrorView::OutputDirectoryNotFound(p@),
            AppError::OutputWrite { path, message } => ErrorView::OutputWrite {
                path: path@,
                message: message@,
            },
        }
    }
}

/// An invalid-setting error with the given setting name and message.
pub open spec fn invalid_setting(setting: Seq<char>, message: Seq<char>) -> ErrorView {
    ErrorView::InvalidSetting { setting, message }
}

/// The message that reports an error to the user.
pub open spec fn error_message(e: ErrorView) -> Seq<char> {
    match e {
        ErrorView::ConfigNotFound(p) => "config file not found: "@ + p,
        ErrorView::ConfigRead { path, message } => "failed to read config file "@ + path + ": "@
            + message,
        ErrorView::ConfigParse { path, message } => "failed to parse config file "@ + path
            + ": "@ + message,
        ErrorView::MissingSetting(s) => "missing required setting: "@ + s,
        ErrorView::InvalidSetting { setting, message } => "invalid setting "@ + setting + ": "@
            + message,
        ErrorView::FontNotFound(p) => "font file not found: "@ + p,
        ErrorView::FontRead { path, message } => "failed to read font file "@ + path + ": "@
            + message,
        ErrorView::FontParse { path, message } => "failed to parse font file "@ + path + ": "@
            + message,
        ErrorView::CharacterFileNotFound(p) => "character file not found: "@ + p,
        ErrorView::CharacterFileRead { path, message } => "failed to read character file "@
            + path + ": "@ + message,
        ErrorView::NoCharactersFound => "no characters found in character input files"@,
        ErrorView::MissingGlyphs(m) => "missing glyphs: "@ + m,
        ErrorView::MetricOverflow { glyph, metric } => "metric overflow for glyph "@ + glyph
            + ": "@ + metric,
        ErrorView::FixedCellGlyphTooLarge {
            glyph,
            glyph_width,
            glyph_height,
            cell_width,
            cell_height,
        } => "glyph "@ + glyph + " bitmap "@ + decimal(glyph_width as nat) + "x"@ + decimal(
            glyph_height as nat,
        ) + " does not fit fixed cell "@ + decimal(cell_width as nat) + "x"@ + decimal(
            cell_height as nat,
        ),
        ErrorView::OutputDirectoryNotFound(p) => "output directory not found: "@ + p,
        ErrorView::OutputWrite { path, message } => "failed to write output file "@ + path
            + ": "@ + message,
    }
}

impl AppError {
    /// The message that reports this error to the user.
    pub fn message(&self) -> (text: String)
        ensures
            text@ == error_message(self@),
    {
        let mut text = String::new();
        match self {
            AppError::ConfigNotFound(p) => {
                push_str(&mut text, "config file not found: ");
                push_str(&mut text, p.as_str());
            },
            AppError::ConfigRead { path, message } => {
                push_str(&mut text, "failed to read config file ");
                push_str(&mut text, path.as_str());
                push_str(&mut text, ": ");
                push_str(&mut text, message.as_str());
            },
            AppError::ConfigParse { path, message } => {
                push_str(&mut text, "failed to parse config file ");
                push_str(&mut text, path.as_str());
                push_str(&mut text, ": ");
                push_str(&mut text, message.as_str());
            },
            AppError::MissingSetting(s) => {
                push_str(&mut text, "missing required setting: ");
                push_str(&mut text, s);
            },
            AppError::InvalidSetting { setting, message } => {
                push_str(&mut text, "invalid setting ");
                push_str(&mut text, setting);
                push_str(&mut text, ": ");
                push_str(&mut text, message.as_str());
            },
            AppError::FontNotFound(p) => {
                push_str(&mut text, "font file not found: ");
                push_str(&mut text, p.as_str());
            },
            AppError::FontRead { path, message } => {
                push_str(&mut text, "failed to read font file ");
                push_str(&mut text, path.as_str());
                push_str(&mut text, ": ");
                push_str(&mut text, message.as_str());
            },
            AppError::FontParse { path, message } => {
                push_str(&mut text, "failed to parse font file ");
                push_str(&mut text, path.as_str());
                push_str(&mut text, ": ");
                push_str(&mut text, message.as_str());
            },
            AppError::CharacterFileNotFound(p) => {
                push_str(&mut text, "character file not found: ");
                push_str(&mut text, p.as_str());
            },
            AppError::CharacterFileRead { path, message } => {
                push_str(&mut text, "failed to read character file ");
                push_str(&mut text, path.as_str());
                push_str(&mut text, ": ");
                push_str(&mut text, message.as_str());
            },
            AppError::NoCharactersFound => {
                push_str(&mut text, "no characters found in character input files");
            },
            AppError::MissingGlyphs(m) => {
                push_str(&mut text, "missing glyphs: ");
                push_str(&mut text, m.as_str());
            },
            AppError::MetricOverflow { glyph, metric } => {
                push_str(&mut text, "metric overflow for glyph ");
                push_str(&mut text, glyph.as_str());
                push_str(&mut text, ": ");
                push_str(&mut text, metric);
            },
            AppError::FixedCellGlyphTooLarge {
                glyph,
                glyph_width,
                glyph_height,
                cell_width,
                cell_height,
            } => {
                push_str(&mut text, "glyph ");
                push_str(&mut text, glyph.as_str());
                push_str(&mut text, " bitmap ");
                push_u32(&mut text, *glyph_width);
                push_str(&mut text, "x");
                push_u32(&mut text, *glyph_height);
                push_str(&mut text, " does not fit fixed cell ");
                push_u32(&mut text, *cell_width);
                push_str(&mut text, "x");
                push_u32(&mut text, *cell_height);
            },
            AppError::OutputDirectoryNotFound(p) => {
                push_str(&mut text, "output directory not found: ");
                push_str(&mut text, p.as_str());
            },
            AppError::OutputWrite { path, message } => {
                push_str(&mut text, "failed to write output file ");
                push_str(&mut text, path.as_str());
                push_str(&mut text, ": ");
                push_str(&mut text, message.as_str());
            },
        }
        text
    }
}

} // verus!
