//! Source positions and the diagnostics of the lexer and the parser.
//!
//! A diagnostic can be rendered as an annotated snippet: a headline, a
//! locator, the source line and a caret under the offending column. The
//! rendered text is stable: [`LexerError::render`] and
//! [`ParserError::render`] state it character for character.

use crate::text::{
    append_decimal, append_repeat, decimal_spec, digit_char, hex_digit_spec, is_control,
    is_control_spec, opt_string_view, repeat_spec, strings_view,
};
use vstd::prelude::*;
use vstd::string::*;
use vstd::utf8::encode_utf8;

verus! {

/// A region of source text.
///
/// `start` and `end` are byte offsets, `line` counts from one and `column`
/// from zero. `line_content` optionally caches the text of the line for use
/// in rendered diagnostics.
#[derive(Debug, PartialEq)]
pub struct Span {
    pub file: Option<String>,
    pub start: usize,
    pub end: usize,
    pub line: usize,
    pub column: usize,
    pub line_content: Option<String>,
}

/// Mathematical value of a [`Span`].
pub struct SpanView {
    pub file: Option<Seq<char>>,
    pub start: nat,
    pub end: nat,
    pub line: nat,
    pub column: nat,
    pub line_content: Option<Seq<char>>,
}

impl View for Span {
    type V = SpanView;

    open spec fn view(&self) -> SpanView {
        SpanView {
            file: opt_string_view(self.file),
            start: self.start as nat,
            end: self.end as nat,
            line: self.line as nat,
            column: self.column as nat,
            line_content: opt_string_view(self.line_content),
        }
    }
}

impl SpanView {
    /// The region is not inverted and lies on a real line.
    pub open spec fn wf(self) -> bool {
        self.start <= self.end && self.line >= 1
    }
}

/// Copies an optional string.
pub fn clone_opt_string(o: &Option<String>) -> (r: Option<String>)
    ensures
        r == *o,
{
    match o {
        Some(s) => Some(s.clone()),
        None => None,
    }
}

impl Clone for Span {
    fn clone(&self) -> (r: Self)
        ensures
            r == *self,
    {
        Span {
            file: clone_opt_string(&self.file),
            start: self.start,
            end: self.end,
            line: self.line,
            column: self.column,
            line_content: clone_opt_string(&self.line_content),
        }
    }
}

impl Span {
    /// The same region, attributed to `file`.
    pub fn in_file(&self, file: &Option<String>) -> (r: Span)
        ensures
            r == (Span { file: *file, ..*self }),
    {
        Span {
            file: clone_opt_string(file),
            start: self.start,
            end: self.end,
            line: self.line,
            column: self.column,
            line_content: clone_opt_string(&self.line_content),
        }
    }

    /// The same region, carrying the text of its line.
    pub fn with_line_content(&self, line: &str) -> (r: Span)
        ensures
            r@ == (SpanView { line_content: Some(line@), ..self@ }),
    {
        Span {
            file: clone_opt_string(&self.file),
            start: self.start,
            end: self.end,
            line: self.line,
            column: self.column,
            line_content: Some(String::from_str(line)),
        }
    }
}

/// What the lexer can report.
#[derive(Debug)]
pub enum LexerError {
    /// A character that starts no token.
    InvalidCharacter { character: char, position: usize, line: usize, column: usize, line_content: String },
    /// A string literal that is not closed; carries the offset where it starts.
    UnterminatedString(usize),
    /// The input ended inside a construct.
    UnexpectedEof,
}

/// Mathematical value of a [`LexerError`].
pub enum LexerErrorView {
    InvalidCharacter { character: char, position: nat, line: nat, column: nat, line_content: Seq<char> },
    UnterminatedString(nat),
    UnexpectedEof,
}

impl View for LexerError {
    type V = LexerErrorView;

    open spec fn view(&self) -> LexerErrorView {
        match *self {
            LexerError::InvalidCharacter { character, position, line, column, line_content } => {
                LexerErrorView::InvalidCharacter {
                    character,
                    position: position as nat,
                    line: line as nat,
                    column: column as nat,
                    line_content: line_content@,
                }
            },
            LexerError::UnterminatedString(p) => LexerErrorView::UnterminatedString(p as nat),
            LexerError::UnexpectedEof => LexerErrorView::UnexpectedEof,
        }
    }
}

/// What the parser can report.
#[derive(Debug)]
#[allow(inconsistent_fields)]
pub enum ParserError {
    /// A token that the grammar does not allow at this point.
    UnexpectedToken { expected: Vec<String>, found: String, span: Span },
    /// A required token that is absent.
    MissingToken { expected: String, after: String, span: Span },
}

/// Mathematical value of a [`ParserError`].
#[allow(inconsistent_fields)]
pub enum ParserErrorView {
    UnexpectedToken { expected: Seq<Seq<char>>, found: Seq<char>, span: SpanView },
    MissingToken { expected: Seq<char>, after: Seq<char>, span: SpanView },
}

impl View for ParserError {
    type V = ParserErrorView;

    open spec fn view(&self) -> ParserErrorView {
        match *self {
            ParserError::UnexpectedToken { expected, found, span } => {
                ParserErrorView::UnexpectedToken {
                    expected: strings_view(expected@),
                    found: found@,
                    span: span@,
                }
            },
            ParserError::MissingToken { expected, after, span } => ParserErrorView::MissingToken {
                expected: expected@,
                after: after@,
                span: span@,
            },
        }
    }
}

/// The views of a sequence of parser diagnostics.
pub open spec fn parser_errors_view(v: Seq<ParserError>) -> Seq<ParserErrorView> {
    Seq::new(v.len(), |i: int| v[i]@)
}

/// The views of a sequence of lexer diagnostics.
pub open spec fn lexer_errors_view(v: Seq<LexerError>) -> Seq<LexerErrorView> {
    Seq::new(v.len(), |i: int| v[i]@)
}

/// How a list of strings is written by the standard `Debug` formatter:
/// bracketed, comma separated, each item quoted and escaped.
pub uninterp spec fn debug_list_text(items: Seq<Seq<char>>) -> Seq<char>;

/// Formats a list of strings with the standard library's `Debug` formatter
/// (`format!("{:?}", ..)`). The text is a function of the items alone; it is
/// named by [`debug_list_text`] and not spelled out here.
#[verifier::external_body]
fn format_debug_list(items: &Vec<String>) -> (s: String)
    ensures
        s@ == debug_list_text(strings_view(items@)),
{
    format!("{:?}", items)
}

/// How an offending character is shown: control characters as `\x` and two
/// hexadecimal digits, every other character as itself.
pub open spec fn shown_char(c: char) -> Seq<char> {
    if is_control_spec(c) {
        "\\x"@.push(hex_digit_spec(((c as u32) / 16) as nat)).push(
            hex_digit_spec(((c as u32) % 16) as nat),
        )
    } else {
        seq![c]
    }
}

/// The file name shown in a locator.
pub open spec fn shown_file(file: Option<Seq<char>>) -> Seq<char> {
    match file {
        Some(f) => f,
        None => "unknown"@,
    }
}

/// The source line shown in a snippet.
pub open spec fn shown_line(line_content: Option<Seq<char>>) -> Seq<char> {
    match line_content {
        Some(l) => l,
        None => Seq::empty(),
    }
}

/// The locator and snippet lines shared by the parser's diagnostics, up to
/// and including the caret line's indentation.
pub open spec fn snippet_head(span: SpanView) -> Seq<char> {
    " --> "@ + shown_file(span.file) + ":"@ + decimal_spec(span.line) + ":"@ + decimal_spec(
        span.column + 1,
    ) + "\n"@ + "  |\n"@ + decimal_spec(span.line) + " | "@ + shown_line(span.line_content)
        + "\n"@ + "  | "@ + repeat_spec(' ', span.column)
}

impl LexerErrorView {
    /// The rendered diagnostic.
    pub open spec fn render(self) -> Seq<char> {
        match self {
            LexerErrorView::InvalidCharacter { character, position, line, column, line_content } => {
                "error: invalid character\n"@ + " --> line "@ + decimal_spec(line) + ":"@
                    + decimal_spec(column) + "\n"@ + "  |\n"@ + decimal_spec(line) + " | "@
                    + line_content + "\n"@ + "  | "@ + repeat_spec(' ', column)
                    + "^ unexpected character '"@ + shown_char(character) + "'\n"@
            },
            LexerErrorView::UnterminatedString(p) => {
                "error: unterminated string\n"@ + "  |\n"@ + "  | string starting at position "@
                    + decimal_spec(p) + " is not terminated\n"@
            },
            LexerErrorView::UnexpectedEof => {
                "error: unexpected end of file\n"@ + "  |\n"@ + "  | the file ends unexpectedly\n"@
            },
        }
    }
}

impl ParserErrorView {
    /// The rendered diagnostic, given the text in which the list of
    /// expected tokens is shown. An unexpected token is underlined with one
    /// caret for each byte of its name.
    pub open spec fn render_with(self, expected_list: Seq<char>) -> Seq<char> {
        match self {
            ParserErrorView::UnexpectedToken { expected, found, span } => {
                "error: unexpected token\n"@ + snippet_head(span) + repeat_spec(
                    '^',
                    encode_utf8(found).len(),
                )
                    + " expected one of "@ + expected_list + ", found '"@ + found + "'\n"@
            },
            ParserErrorView::MissingToken { expected, after, span } => {
                "error: missing token\n"@ + snippet_head(span) + "^ missing '"@ + expected
                    + "' after '"@ + after + "'\n"@
            },
        }
    }

    /// The list of expected tokens as a diagnostic shows it; empty for a
    /// diagnostic that has none.
    pub open spec fn expected_list(self) -> Seq<char> {
        match self {
            ParserErrorView::UnexpectedToken { expected, .. } => debug_list_text(expected),
            ParserErrorView::MissingToken { .. } => Seq::empty(),
        }
    }

    /// The rendered diagnostic.
    pub open spec fn render(self) -> Seq<char> {
        self.render_with(self.expected_list())
    }

    /// The span that the diagnostic points at.
    pub open spec fn span(self) -> SpanView {
        match self {
            ParserErrorView::UnexpectedToken { span, .. } => span,
            ParserErrorView::MissingToken { span, .. } => span,
        }
    }
}

/// Appends a character as a diagnostic shows it.
fn append_shown_char(out: &mut String, c: char)
    ensures
        final(out)@ == old(out)@ + shown_char(c),
{
    if is_control(c) {
        let u: u32 = c as u32;
        out.append("\\x");
        out.push(digit_char((u / 16) as u8));
        out.push(digit_char((u % 16) as u8));
    } else {
        out.push(c);
    }
}

/// Appends the locator and snippet lines of a parser diagnostic.
fn append_snippet_head(out: &mut String, span: &Span)
    ensures
        final(out)@ == old(out)@ + snippet_head(span@),
{
    out.append(" --> ");
    match &span.file {
        Some(f) => out.append(f.as_str()),
        None => out.append("unknown"),
    }
    out.append(":");
    append_decimal(out, span.line as u128);
    out.append(":");
    append_decimal(out, span.column as u128 + 1);
    out.append("\n");
    out.append("  |\n");
    append_decimal(out, span.line as u128);
    out.append(" | ");
    match &span.line_content {
        Some(l) => out.append(l.as_str()),
        None => {},
    }
    out.append("\n");
    out.append("  | ");
    append_repeat(out, ' ', span.column);
}

impl LexerError {
    /// The diagnostic as an annotated snippet.
    pub fn render(&self) -> (s: String)
        ensures
            s@ == self@.render(),
    {
        let mut out = String::new();
        match self {
            LexerError::InvalidCharacter { character, position, line, column, line_content } => {
                out.append("error: invalid character\n");
                out.append(" --> line ");
                append_decimal(&mut out, *line as u128);
                out.append(":");
                append_decimal(&mut out, *column as u128);
                out.append("\n");
                out.append("  |\n");
                append_decimal(&mut out, *line as u128);
                out.append(" | ");
                out.append(line_content.as_str());
                out.append("\n");
                out.append("  | ");
                append_repeat(&mut out, ' ', *column);
                out.append("^ unexpected character '");
                append_shown_char(&mut out, *character);
                out.append("'\n");
            },
            LexerError::UnterminatedString(p) => {
                out.append("error: unterminated string\n");
                out.append("  |\n");
                out.append("  | string starting at position ");
                append_decimal(&mut out, *p as u128);
                out.append(" is not terminated\n");
            },
            LexerError::UnexpectedEof => {
                out.append("error: unexpected end of file\n");
                out.append("  |\n");
                out.append("  | the file ends unexpectedly\n");
            },
        }
        out
    }
}

impl ParserError {
    /// The diagnostic as an annotated snippet, with the list of expected
    /// tokens shown as `expected_list`. The source line is taken from the
    /// span's cached line text, and is empty where none is cached.
    pub fn render_with(&self, expected_list: &str) -> (s: String)
        ensures
            s@ == self@.render_with(expected_list@),
    {
        let mut out = String::new();
        match self {
            ParserError::UnexpectedToken { expected, found, span } => {
                out.append("error: unexpected token\n");
                append_snippet_head(&mut out, span);
                let width = found.as_str().as_bytes().len();
                append_repeat(&mut out, '^', width);
                out.append(" expected one of ");
                out.append(expected_list);
                out.append(", found '");
                out.append(found.as_str());
                out.append("'\n");
            },
            ParserError::MissingToken { expected, after, span } => {
                out.append("error: missing token\n");
                append_snippet_head(&mut out, span);
                out.append("^ missing '");
                out.append(expected.as_str());
                out.append("' after '");
                out.append(after.as_str());
                out.append("'\n");
            },
        }
        out
    }

    /// The diagnostic as an annotated snippet, with the list of expected
    /// tokens shown as the standard `Debug` formatter shows a list of
    /// strings.
    pub fn render(&self) -> (s: String)
        ensures
            s@ == self@.render(),
    {
        match self {
            ParserError::UnexpectedToken { expected, .. } => {
                let list = format_debug_list(expected);
                self.render_with(list.as_str())
            },
            ParserError::MissingToken { .. } => self.render_with(""),
        }
    }

    /// The span that the diagnostic points at.
    pub fn span(&self) -> (s: &Span)
        ensures
            s@ == self@.span(),
    {
        match self {
            ParserError::UnexpectedToken { span, .. } => span,
            ParserError::MissingToken { span, .. } => span,
        }
    }
}

} // verus!
