//! The filter itself: read one line, pick a field, paint it.
use std::io::BufRead;
use vstd::prelude::*;
use vstd::string::StrSliceExecFns;
use vstd::string::StringExecFns;
use crate::colors::{Color, ColorString, painted};
use crate::split::{split_by_delimiter, get_field, split_spec};

verus! {

#[verifier::external_type_specification]
#[verifier::external_body]
pub struct ExIoError(std::io::Error);

/// The settings of one run: which field, split by what, painted how.
pub struct Cli {
    pub field: usize,
    pub delimiter: String,
    pub color: String,
    pub debug: bool,
}

/// The color that a one-letter token names, if any.
pub open spec fn color_of(token: Seq<char>) -> Option<Color> {
    if token == seq!['r'] {
        Some(Color::Red)
    } else if token == seq!['b'] {
        Some(Color::Blue)
    } else if token == seq!['y'] {
        Some(Color::Yellow)
    } else if token == seq!['g'] {
        Some(Color::Green)
    } else {
        None
    }
}

/// Maps a color token (`r`, `g`, `b` or `y`) to its color.
pub fn match_color(color: &String) -> (r: Result<Color, &'static str>)
    ensures
        color_of(color@) is Some ==> r == Ok::<Color, &str>(color_of(color@)->0),
        color_of(color@) is None ==> r is Err && r->Err_0@ == "Unmatched color input"@,
{
    let s = color.as_str();
    if s.unicode_len() == 1 {
        let c = s.get_char(0);
        assert(color@ =~= seq![c]);
        if c == 'r' {
            return Ok(Color::Red);
        } else if c == 'b' {
            return Ok(Color::Blue);
        } else if c == 'y' {
            return Ok(Color::Yellow);
        } else if c == 'g' {
            return Ok(Color::Green);
        }
    }
    Err("Unmatched color input")
}

/// Paints `s` in the color that the token `color` names.
pub fn colorize(s: &str, color: &String) -> (r: Result<String, &'static str>)
    ensures
        color_of(color@) is Some ==> r is Ok && r->Ok_0@ == painted(color_of(color@)->0, s@),
        color_of(color@) is None ==> r is Err && r->Err_0@ == "Unmatched color input"@,
{
    let color = match match_color(color) {
        Ok(c) => c,
        Err(e) => return Err(e),
    };
    let mut color_struct = ColorString {
        color,
        string: String::from_str(s),
        colorised: String::new(),
    };
    color_struct.paint();
    Ok(color_struct.colorised)
}

/// Characters with Unicode's White_Space property.
pub open spec fn is_white_space(c: char) -> bool {
    ('\t' <= c && c <= '\r') || c == ' ' || c == '\u{85}' || c == '\u{a0}' || c == '\u{1680}'
        || ('\u{2000}' <= c && c <= '\u{200a}') || c == '\u{2028}' || c == '\u{2029}'
        || c == '\u{202f}' || c == '\u{205f}' || c == '\u{3000}'
}

/// `s` without its trailing white space.
pub open spec fn trim_end_spec(s: Seq<char>) -> Seq<char>
    decreases s.len(),
{
    if s.len() > 0 && is_white_space(s.last()) {
        trim_end_spec(s.drop_last())
    } else {
        s
    }
}

/// `l` is what one read of a line can give: no newline but maybe a last one.
pub open spec fn is_one_line(l: Seq<char>) -> bool {
    forall|i: int| 0 <= i < l.len() - 1 ==> l[i] != '\n'
}

/// Relies on `str::trim_end`: the slice without the trailing characters
/// that have the White_Space property.
#[verifier::external_body]
fn trim_end_str(s: &str) -> (r: &str)
    ensures
        r@ == trim_end_spec(s@),
{
    s.trim_end()
}

/// Relies on `BufRead::read_line`: on success it appends to `buf` what it
/// read, which runs up to and including the next newline or to the end of
/// the stream.
#[verifier::external_body]
fn read_line<R: BufRead>(reader: &mut R, buf: &mut String) -> (r: Result<usize, std::io::Error>)
    ensures
        r is Ok ==> exists|l: Seq<char>| is_one_line(l) && final(buf)@ == old(buf)@ + l,
{
    reader.read_line(buf)
}

/// Cleans a line as read: the text without its line terminator and without
/// trailing white space. Leading white space stays.
pub fn clean_line(line: &str) -> (r: String)
    ensures
        r@ == trim_end_spec(line@),
{
    String::from_str(trim_end_str(line))
}

/// Reads one line from `reader` and returns it cleaned. At the end of the
/// stream the line is empty.
pub fn _read_stdin<R: BufRead>(reader: &mut R) -> (r: Result<String, std::io::Error>)
    ensures
        r is Ok ==> exists|l: Seq<char>| is_one_line(l) && r->Ok_0@ == trim_end_spec(l),
{
    let mut line = String::new();
    match read_line(reader, &mut line) {
        Ok(_) => {
            assert(exists|l: Seq<char>| is_one_line(l) && line@ == Seq::<char>::empty() + l);
            let r = clean_line(line.as_str());
            assert(exists|l: Seq<char>| is_one_line(l) && r@ == trim_end_spec(l)) by {
                let l = choose|l: Seq<char>| is_one_line(l) && line@ == Seq::<char>::empty() + l;
                assert(line@ =~= l);
            }
            Ok(r)
        },
        Err(e) => Err(e),
    }
}

/// Why a run ends without output.
pub enum RunError {
    /// Reading the input failed.
    Io(std::io::Error),
    /// The line has fewer fields than the index asks for.
    FieldNotFound,
    /// The color token is none of `r`, `g`, `b`, `y`.
    UnmatchedColor,
}

/// `r` is what a run with settings `cli` owes on the cleaned line `line`:
/// the selected field painted, or the first error met in the order field,
/// then color.
pub open spec fn rendered_as(cli: &Cli, line: Seq<char>, r: &Result<String, RunError>) -> bool {
    let parts = split_spec(line, cli.delimiter@);
    match r {
        Ok(out) => cli.field < parts.len() && color_of(cli.color@) is Some && out@ == painted(
            color_of(cli.color@)->0,
            parts[cli.field as int],
        ),
        Err(RunError::FieldNotFound) => cli.field >= parts.len(),
        Err(RunError::UnmatchedColor) => cli.field < parts.len() && color_of(cli.color@) is None,
        Err(RunError::Io(_)) => false,
    }
}

/// Picks the field that `cli` selects from the cleaned line `line` and
/// paints it in the color that `cli` names.
pub fn render_line(cli: &Cli, line: &str) -> (r: Result<String, RunError>)
    ensures
        rendered_as(cli, line@, &r),
{
    let s_parts = split_by_delimiter(line, cli.delimiter.as_str());
    let output_s = match get_field(s_parts, cli.field) {
        Ok(s) => s,
        Err(_) => return Err(RunError::FieldNotFound),
    };
    match colorize(output_s, &cli.color) {
        Ok(out) => Ok(out),
        Err(_) => Err(RunError::UnmatchedColor),
    }
}

/// Reads one line from `reader` and returns the text to print for it: the
/// field that `cli` selects, painted. Apart from a read error, the result is
/// the one `render_line` gives on the line as read and cleaned.
pub fn run<R: BufRead>(cli: &Cli, reader: &mut R) -> (r: Result<String, RunError>)
    ensures
        !(r matches Err(RunError::Io(_))) ==> exists|l: Seq<char>|
            is_one_line(l) && rendered_as(cli, trim_end_spec(l), &r),
{
    let input_s = match _read_stdin(reader) {
        Ok(s) => s,
        Err(e) => return Err(RunError::Io(e)),
    };
    render_line(cli, input_s.as_str())
}

} // verus!
