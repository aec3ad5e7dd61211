//! Rendering of generated output files, and the literals they share.

use vstd::prelude::*;

use crate::config::{joined_path, path_join, GenerationSettings, OutputFormat, OutputLanguage};
use crate::error::{AppError, ErrorView};
use crate::model::GeneratedFont;
use crate::text::{
    c_escaped, c_escaped_char, c_string, concat, hex_byte, lemma_concat_all, lemma_concat_take, line,
    push_char, push_hex_byte, push_line, push_str, push_usize, decimal,
};

pub mod c;
pub mod rust;

verus! {

/// One generated file: where it goes and what it holds.
#[derive(Debug, Clone)]
pub struct OutputFile {
    pub path: String,
    pub contents: String,
}

/// The text of `{value:?}`: a Rust string literal for `value`.
pub uninterp spec fn debug_string(value: Seq<char>) -> Seq<char>;

/// `format!("{value:?}")` for a string: a quoted Rust string literal with
/// Rust's escapes. The contract names the result and states nothing more.
#[verifier::external_body]
pub(crate) fn rust_string_literal(value: &str) -> (literal: String)
    ensures
        literal@ == debug_string(value@),
{
    format!("{value:?}")
}

/// A C string literal for `value`: backslash, double quote, newline, carriage
/// return and tab are escaped.
pub fn c_string_literal(value: &str) -> (literal: String)
    ensures
        literal@ == c_string(value@),
{
    let mut escaped = String::new();
    push_char(&mut escaped, '"');
    let n = value.unicode_len();
    let mut i: usize = 0;
    while i < n
        invariant
            n == value@.len(),
            i <= n,
            escaped@ == seq!['"'] + c_escaped(value@.take(i as int)),
        decreases n - i,
    {
        let ch = value.get_char(i);
        let ghost before = escaped@;
        if ch == '\\' {
            push_char(&mut escaped, '\\');
            push_char(&mut escaped, '\\');
        } else if ch == '"' {
            push_char(&mut escaped, '\\');
            push_char(&mut escaped, '"');
        } else if ch == '\n' {
            push_char(&mut escaped, '\\');
            push_char(&mut escaped, 'n');
        } else if ch == '\r' {
            push_char(&mut escaped, '\\');
            push_char(&mut escaped, 'r');
        } else if ch == '\t' {
            push_char(&mut escaped, '\\');
            push_char(&mut escaped, 't');
        } else {
            push_char(&mut escaped, ch);
        }
        proof {
            assert(value@.take(i + 1).drop_last() == value@.take(i as int));
            assert(escaped@ == before + c_escaped_char(ch));
        }
        i += 1;
    }
    assert(value@.take(n as int) == value@);
    push_char(&mut escaped, '"');
    escaped
}


/// One byte of a byte array literal: `0x`, two lowercase hex digits, `, `.
pub open spec fn byte_entry(b: u8) -> Seq<char> {
    "0x"@ + hex_byte(b) + ", "@
}

/// The entries of consecutive bytes.
pub open spec fn byte_entries(bytes: Seq<u8>) -> Seq<char> {
    concat(bytes.map_values(|b: u8| byte_entry(b)))
}

/// Number of rows of twelve bytes (the last one possibly shorter).
pub open spec fn row_count(n: nat) -> nat {
    (n + 11) / 12
}

/// Row `r` of the bytes: at most twelve of them, from byte `12 * r`.
pub open spec fn byte_row(bytes: Seq<u8>, r: int) -> Seq<u8> {
    let end = if 12 * r + 12 <= bytes.len() {
        12 * r + 12
    } else {
        bytes.len() as int
    };
    bytes.subrange(12 * r, end)
}

/// The lines of a byte array literal body: twelve entries per line, each
/// line starting with `indent`.
pub open spec fn byte_rows(bytes: Seq<u8>, indent: Seq<char>) -> Seq<char> {
    concat(
        Seq::new(row_count(bytes.len()), |r: int| line(indent + byte_entries(byte_row(bytes, r)))),
    )
}

/// The body of a byte array literal: rows of twelve `0x..` entries.
pub fn byte_array_literal(bytes: &[u8], indent: &str) -> (text: String)
    ensures
        text@ == byte_rows(bytes@, indent@),
{
    let n = bytes.len();
    let rows = n / 12 + if n % 12 != 0 {
        1
    } else {
        0
    };
    let ghost row_lines = Seq::new(
        row_count(bytes@.len()),
        |r: int| line(indent@ + byte_entries(byte_row(bytes@, r))),
    );
    assert(rows == row_count(n as nat));
    let mut text = String::new();
    let mut r: usize = 0;
    while r < rows
        invariant
            n == bytes@.len(),
            rows == row_count(n as nat),
            r <= rows,
            row_lines == Seq::new(
                row_count(bytes@.len()),
                |r: int| line(indent@ + byte_entries(byte_row(bytes@, r))),
            ),
            text@ == concat(row_lines.take(r as int)),
        decreases rows - r,
    {
        let start = 12 * r;
        assert(start < n);
        let end = if n - start >= 12 {
            start + 12
        } else {
            n
        };
        let ghost row = byte_row(bytes@, r as int);
        let ghost entries = row.map_values(|b: u8| byte_entry(b));
        let ghost before = text@;
        push_str(&mut text, indent);
        let mut j: usize = start;
        while j < end
            invariant
                n == bytes@.len(),
                start <= j <= end <= n,
                end - start == row.len(),
                row == bytes@.subrange(start as int, end as int),
                entries == row.map_values(|b: u8| byte_entry(b)),
                text@ == before + indent@ + concat(entries.take(j - start)),
            decreases end - j,
        {
            let ghost mid = text@;
            push_str(&mut text, "0x");
            push_hex_byte(&mut text, bytes[j]);
            push_str(&mut text, ", ");
            proof {
                assert(text@ == mid + byte_entry(bytes@[j as int]));
                lemma_concat_take(entries, j - start);
            }
            j += 1;
        }
        proof {
            lemma_concat_all(entries);
        }
        push_char(&mut text, '\n');
        proof {
            assert(text@ == before + row_lines[r as int]);
            lemma_concat_take(row_lines, r as int);
        }
        r += 1;
    }
    proof {
        lemma_concat_all(row_lines);
    }
    text
}

/// The line of one written file.
pub open spec fn written_file_line(path: Seq<char>) -> Seq<char> {
    line("  - "@ + path)
}

/// The list of written files: the count, then one line per path.
pub open spec fn written_files_summary(paths: Seq<Seq<char>>) -> Seq<char> {
    line("output_files = "@ + decimal(paths.len())) + concat(
        paths.map_values(|p: Seq<char>| written_file_line(p)),
    )
}

/// The count of written files, then each path on its own line.
pub fn format_written_files(paths: &Vec<String>) -> (text: String)
    ensures
        text@ == written_files_summary(paths@.map_values(|p: String| p@)),
{
    let ghost views = paths@.map_values(|p: String| p@);
    let mut text = String::new();
    push_str(&mut text, "output_files = ");
    push_usize(&mut text, paths.len());
    push_char(&mut text, '\n');
    let ghost head = text@;
    let ghost lines = views.map_values(|p: Seq<char>| written_file_line(p));
    let mut i: usize = 0;
    while i < paths.len()
        invariant
            i <= paths@.len(),
            views == paths@.map_values(|p: String| p@),
            lines == views.map_values(|p: Seq<char>| written_file_line(p)),
            text@ == head + concat(lines.take(i as int)),
        decreases paths.len() - i,
    {
        push_line(&mut text, "  - ", paths[i].as_str());
        proof {
            lemma_concat_take(lines, i as int);
        }
        i += 1;
    }
    proof {
        lemma_concat_all(lines);
    }
    text
}


/// A generated file's path and contents, as text.
pub open spec fn file_view(file: OutputFile) -> (Seq<char>, Seq<char>) {
    (file.path@, file.contents@)
}

/// The path of a generated file: `{name}{extension}` in the output directory.
pub open spec fn output_path(settings: GenerationSettings, extension: Seq<char>) -> Seq<char> {
    joined_path(settings.output_directory@, settings.output_name@ + extension)
}

/// The generated files, in the order they are written: for C with the
/// `c-fixed` format the fixed-cell header alone, otherwise for C the metrics
/// header then source, and for Rust the module; or why they cannot be made.
#[verifier::opaque]
pub open spec fn output_files(settings: GenerationSettings, font: GeneratedFont) -> Result<
    Seq<(Seq<char>, Seq<char>)>,
    ErrorView,
> {
    match settings.language {
        OutputLanguage::C => if settings.output_format == Some(OutputFormat::CFixed) {
            match c::fixed_header(settings, font) {
                Ok(t) => Ok(seq![(output_path(settings, ".h"@), t)]),
                Err(e) => Err(e),
            }
        } else {
            Ok(
                seq![
                    (output_path(settings, ".h"@), c::metrics_header(settings.output_name@)),
                    (output_path(settings, ".c"@), c::metrics_source(settings.output_name@, font)),
                ],
            )
        },
        OutputLanguage::Rust => Ok(seq![(output_path(settings, ".rs"@), rust::module_text(font))]),
    }
}

/// The path of a generated file.
pub(crate) fn output_file_path(settings: &GenerationSettings, extension: &str) -> (path: String)
    ensures
        path@ == output_path(*settings, extension@),
{
    let mut file_name = settings.output_name.clone();
    push_str(&mut file_name, extension);
    path_join(settings.output_directory.as_str(), file_name.as_str())
}

/// Whether the files can be rendered without a fixed cell too narrow or flat
/// to hold records.
pub open spec fn renderable(settings: GenerationSettings, font: GeneratedFont) -> bool {
    settings.language == OutputLanguage::C && settings.output_format == Some(OutputFormat::CFixed)
        && settings.fixed_cell is Some && font.sizes@.len() > 0 ==> settings.fixed_cell->Some_0.width
        >= 2 && settings.fixed_cell->Some_0.height >= 1
}

/// Renders the generated files for the configured language and format.
pub fn render_output(settings: &GenerationSettings, font: &GeneratedFont) -> (result: Result<
    Vec<OutputFile>,
    AppError,
>)
    requires
        renderable(*settings, *font),
    ensures
        match output_files(*settings, *font) {
            Ok(files) => result matches Ok(v) && v@.map_values(|f: OutputFile| file_view(f))
                == files,
            Err(e) => result matches Err(x) && x@ == e,
        },
{
    proof {
        reveal(output_files);
    }
    let mut files: Vec<OutputFile> = Vec::new();
    match settings.language {
        OutputLanguage::C => {
            let fixed = match settings.output_format {
                Some(OutputFormat::CFixed) => true,
                _ => false,
            };
            if fixed {
                let header = match c::render_fixed_header(settings, font) {
                    Ok(h) => h,
                    Err(e) => {
                        return Err(e);
                    },
                };
                files.push(OutputFile { path: output_file_path(settings, ".h"), contents: header });
            } else {
                let header = c::render_header(settings.output_name.as_str());
                let source = c::render_source(settings.output_name.as_str(), font);
                files.push(OutputFile { path: output_file_path(settings, ".h"), contents: header });
                files.push(OutputFile { path: output_file_path(settings, ".c"), contents: source });
            }
        },
        OutputLanguage::Rust => {
            let module = rust::render_module(font);
            files.push(OutputFile { path: output_file_path(settings, ".rs"), contents: module });
        },
    }
    assert(files@.map_values(|f: OutputFile| file_view(f)) =~= output_files(*settings, *font)->Ok_0);
    Ok(files)
}

/// Files with the same views have the same paths and contents.
proof fn lemma_same_file_views(first: Seq<OutputFile>, second: Seq<OutputFile>)
    requires
        first.map_values(|f: OutputFile| file_view(f)) == second.map_values(
            |f: OutputFile| file_view(f),
        ),
    ensures
        first.len() == second.len(),
        forall|i: int|
            0 <= i < first.len() ==> #[trigger] first[i].path@ == second[i].path@
                && first[i].contents@ == second[i].contents@,
{
    assert(first.len() == first.map_values(|f: OutputFile| file_view(f)).len());
    assert(second.len() == second.map_values(|f: OutputFile| file_view(f)).len());
    assert forall|i: int| 0 <= i < first.len() implies #[trigger] first[i].path@
        == second[i].path@ && first[i].contents@ == second[i].contents@ by {
        assert(first.map_values(|f: OutputFile| file_view(f))[i] == file_view(first[i]));
        assert(second.map_values(|f: OutputFile| file_view(f))[i] == file_view(second[i]));
        assert(file_view(first[i]) == file_view(second[i]));
    }
}

/// Rendering is deterministic: any two renderings of the same settings and
/// model hold the same files, paths and contents alike, in the same order.
pub proof fn rendering_is_deterministic(
    settings: GenerationSettings,
    font: GeneratedFont,
    first: Seq<OutputFile>,
    second: Seq<OutputFile>,
)
    requires
        output_files(settings, font) is Ok,
        first.map_values(|f: OutputFile| file_view(f)) == output_files(settings, font)->Ok_0,
        second.map_values(|f: OutputFile| file_view(f)) == output_files(settings, font)->Ok_0,
    ensures
        first.len() == second.len(),
        forall|i: int|
            0 <= i < first.len() ==> #[trigger] first[i].path@ == second[i].path@
                && first[i].contents@ == second[i].contents@,
{
    lemma_same_file_views(first, second);
    assert forall|i: int| 0 <= i < first.len() implies #[trigger] first[i].path@
        == second[i].path@ && first[i].contents@ == second[i].contents@ by {
        assert(first[i].path@ == second[i].path@);
    }
}

} // verus!
