//! The lexer: source text to a finite, forward-only stream of tokens.
//!
//! Lexing is specified on the bytes of the source. At each position the lexer
//! skips a run of blanks (space, tab, form feed) and then takes the longest
//! token that starts there; a keyword wins over an identifier of the same
//! text. Newlines and comments are tokens of their own. A character that
//! starts no token is reported and skipped, and lexing goes on behind it.

use crate::error::{LexerError, LexerErrorView, Span, SpanView};
use crate::kind::SyntaxKind;
use crate::text::{string_from_chars, to_chars, trim_end_index, trim_end_spec};
use vstd::prelude::*;
use vstd::slice::*;
use vstd::string::*;
use vstd::utf8::*;

verus! {

broadcast use vstd::string::group_string_axioms;

/// Lexical category of a token.
#[derive(Debug, PartialEq, Eq, Clone, Copy, Structural)]
pub enum Token {
    // Keywords
    Import,
    Public,
    Function,
    Returns,
    Int,
    Boolean,
    If,
    Else,
    While,
    Break,
    Continue,
    Return,
    True,
    False,
    // Operators
    Eq,
    NotEq,
    Lt,
    LtEq,
    Gt,
    GtEq,
    Plus,
    Minus,
    Star,
    Slash,
    Percent,
    Assign,
    // Delimiters
    LParen,
    RParen,
    LBrace,
    RBrace,
    Comma,
    Colon,
    Semicolon,
    // Identifiers and literals
    Identifier,
    IntegerLiteral,
    /// One or more consecutive line feeds.
    Newline,
    /// `//` up to, and without, the end of the line.
    LineComment,
}

/// A token with its text and its place in the source.
#[derive(Debug, PartialEq)]
pub struct TokenInfo {
    pub kind: Token,
    pub text: String,
    pub span: Span,
}

/// Mathematical value of a [`TokenInfo`].
pub struct TokenInfoView {
    pub kind: Token,
    pub text: Seq<char>,
    pub span: SpanView,
}

impl View for TokenInfo {
    type V = TokenInfoView;

    open spec fn view(&self) -> TokenInfoView {
        TokenInfoView { kind: self.kind, text: self.text@, span: self.span@ }
    }
}

impl Clone for TokenInfo {
    fn clone(&self) -> (r: Self)
        ensures
            r == *self,
    {
        TokenInfo { kind: self.kind, text: self.text.clone(), span: self.span.clone() }
    }
}

/// Classes of bytes that the lexer takes in runs.
#[derive(Debug, PartialEq, Eq, Clone, Copy, Structural)]
pub enum ByteClass {
    /// Space, tab and form feed.
    Blank,
    /// ASCII letters, digits and the underscore.
    IdentContinue,
    /// ASCII digits.
    Digit,
    /// The line feed.
    LineFeed,
    /// Everything but the line feed.
    NotLineFeed,
    /// Bytes that continue a multi-byte character.
    Continuation,
}

/// ASCII letters.
pub open spec fn is_letter(b: u8) -> bool {
    (0x41 <= b <= 0x5a) || (0x61 <= b <= 0x7a)
}

/// ASCII digits.
pub open spec fn is_digit(b: u8) -> bool {
    0x30 <= b <= 0x39
}

impl ByteClass {
    /// Membership of a byte in the class.
    pub open spec fn has(self, b: u8) -> bool {
        match self {
            ByteClass::Blank => b == 0x20 || b == 0x09 || b == 0x0c,
            ByteClass::IdentContinue => is_letter(b) || is_digit(b) || b == 0x5f,
            ByteClass::Digit => is_digit(b),
            ByteClass::LineFeed => b == 0x0a,
            ByteClass::NotLineFeed => b != 0x0a,
            ByteClass::Continuation => is_continuation_byte(b),
        }
    }

    /// Membership of a byte in the class.
    fn contains(self, b: u8) -> (r: bool)
        ensures
            r == self.has(b),
    {
        match self {
            ByteClass::Blank => b == 0x20 || b == 0x09 || b == 0x0c,
            ByteClass::IdentContinue => (0x41 <= b && b <= 0x5a) || (0x61 <= b && b <= 0x7a) || (
            0x30 <= b && b <= 0x39) || b == 0x5f,
            ByteClass::Digit => 0x30 <= b && b <= 0x39,
            ByteClass::LineFeed => b == 0x0a,
            ByteClass::NotLineFeed => b != 0x0a,
            ByteClass::Continuation => 0x80 <= b && b <= 0xbf,
        }
    }
}

/// End of the longest run of bytes of `class` that starts at `from`.
pub open spec fn run_end(bytes: Seq<u8>, from: int, class: ByteClass) -> int
    decreases bytes.len() - from,
{
    if 0 <= from < bytes.len() && class.has(bytes[from]) {
        run_end(bytes, from + 1, class)
    } else {
        from
    }
}

/// A run ends inside the input, at or behind its start, on a byte outside
/// the class; every byte before the end is in the class.
pub proof fn lemma_run_end(bytes: Seq<u8>, from: int, class: ByteClass)
    requires
        0 <= from <= bytes.len(),
    ensures
        from <= run_end(bytes, from, class) <= bytes.len(),
        run_end(bytes, from, class) < bytes.len() ==> !class.has(
            bytes[run_end(bytes, from, class)],
        ),
        forall|i: int| from <= i < run_end(bytes, from, class) ==> class.has(#[trigger] bytes[i]),
    decreases bytes.len() - from,
{
    if from < bytes.len() && class.has(bytes[from]) {
        lemma_run_end(bytes, from + 1, class);
    }
}

/// The bytes of a word written in ASCII.
pub open spec fn ascii(word: Seq<char>) -> Seq<u8> {
    Seq::new(word.len(), |i: int| word[i] as u8)
}

/// The keyword spelled by `word`, or `Identifier` where it spells none.
pub open spec fn word_token(word: Seq<u8>) -> Token {
    if word == ascii(seq!['i', 'm', 'p', 'o', 'r', 't']) {
        Token::Import
    } else if word == ascii(seq!['p', 'u', 'b', 'l', 'i', 'c']) {
        Token::Public
    } else if word == ascii(seq!['f', 'u', 'n', 'c', 't', 'i', 'o', 'n']) {
        Token::Function
    } else if word == ascii(seq!['r', 'e', 't', 'u', 'r', 'n', 's']) {
        Token::Returns
    } else if word == ascii(seq!['i', 'n', 't']) {
        Token::Int
    } else if word == ascii(seq!['b', 'o', 'o', 'l', 'e', 'a', 'n']) {
        Token::Boolean
    } else if word == ascii(seq!['i', 'f']) {
        Token::If
    } else if word == ascii(seq!['e', 'l', 's', 'e']) {
        Token::Else
    } else if word == ascii(seq!['w', 'h', 'i', 'l', 'e']) {
        Token::While
    } else if word == ascii(seq!['b', 'r', 'e', 'a', 'k']) {
        Token::Break
    } else if word == ascii(seq!['c', 'o', 'n', 't', 'i', 'n', 'u', 'e']) {
        Token::Continue
    } else if word == ascii(seq!['r', 'e', 't', 'u', 'r', 'n']) {
        Token::Return
    } else if word == ascii(seq!['t', 'r', 'u', 'e']) {
        Token::True
    } else if word == ascii(seq!['f', 'a', 'l', 's', 'e']) {
        Token::False
    } else {
        Token::Identifier
    }
}

/// The keywords as string literals have the bytes of their letters.
proof fn lemma_keyword_bytes()
    ensures
        encode_utf8("import"@) == ascii(seq!['i', 'm', 'p', 'o', 'r', 't']),
        encode_utf8("public"@) == ascii(seq!['p', 'u', 'b', 'l', 'i', 'c']),
        encode_utf8("function"@) == ascii(seq!['f', 'u', 'n', 'c', 't', 'i', 'o', 'n']),
        encode_utf8("returns"@) == ascii(seq!['r', 'e', 't', 'u', 'r', 'n', 's']),
        encode_utf8("int"@) == ascii(seq!['i', 'n', 't']),
        encode_utf8("boolean"@) == ascii(seq!['b', 'o', 'o', 'l', 'e', 'a', 'n']),
        encode_utf8("if"@) == ascii(seq!['i', 'f']),
        encode_utf8("else"@) == ascii(seq!['e', 'l', 's', 'e']),
        encode_utf8("while"@) == ascii(seq!['w', 'h', 'i', 'l', 'e']),
        encode_utf8("break"@) == ascii(seq!['b', 'r', 'e', 'a', 'k']),
        encode_utf8("continue"@) == ascii(seq!['c', 'o', 'n', 't', 'i', 'n', 'u', 'e']),
        encode_utf8("return"@) == ascii(seq!['r', 'e', 't', 'u', 'r', 'n']),
        encode_utf8("true"@) == ascii(seq!['t', 'r', 'u', 'e']),
        encode_utf8("false"@) == ascii(seq!['f', 'a', 'l', 's', 'e']),
{
    assert(encode_utf8("import"@) =~= ascii(seq!['i', 'm', 'p', 'o', 'r', 't'])) by {
        reveal_strlit("import");
        is_ascii_chars_encode_utf8("import"@);
    }
    assert(encode_utf8("public"@) =~= ascii(seq!['p', 'u', 'b', 'l', 'i', 'c'])) by {
        reveal_strlit("public");
        is_ascii_chars_encode_utf8("public"@);
    }
    assert(encode_utf8("function"@) =~= ascii(seq!['f', 'u', 'n', 'c', 't', 'i', 'o', 'n'])) by {
        reveal_strlit("function");
        is_ascii_chars_encode_utf8("function"@);
    }
    assert(encode_utf8("returns"@) =~= ascii(seq!['r', 'e', 't', 'u', 'r', 'n', 's'])) by {
        reveal_strlit("returns");
        is_ascii_chars_encode_utf8("returns"@);
    }
    assert(encode_utf8("int"@) =~= ascii(seq!['i', 'n', 't'])) by {
        reveal_strlit("int");
        is_ascii_chars_encode_utf8("int"@);
    }
    assert(encode_utf8("boolean"@) =~= ascii(seq!['b', 'o', 'o', 'l', 'e', 'a', 'n'])) by {
        reveal_strlit("boolean");
        is_ascii_chars_encode_utf8("boolean"@);
    }
    assert(encode_utf8("if"@) =~= ascii(seq!['i', 'f'])) by {
        reveal_strlit("if");
        is_ascii_chars_encode_utf8("if"@);
    }
    assert(encode_utf8("else"@) =~= ascii(seq!['e', 'l', 's', 'e'])) by {
        reveal_strlit("else");
        is_ascii_chars_encode_utf8("else"@);
    }
    assert(encode_utf8("while"@) =~= ascii(seq!['w', 'h', 'i', 'l', 'e'])) by {
        reveal_strlit("while");
        is_ascii_chars_encode_utf8("while"@);
    }
    assert(encode_utf8("break"@) =~= ascii(seq!['b', 'r', 'e', 'a', 'k'])) by {
        reveal_strlit("break");
        is_ascii_chars_encode_utf8("break"@);
    }
    assert(encode_utf8("continue"@) =~= ascii(seq!['c', 'o', 'n', 't', 'i', 'n', 'u', 'e'])) by {
        reveal_strlit("continue");
        is_ascii_chars_encode_utf8("continue"@);
    }
    assert(encode_utf8("return"@) =~= ascii(seq!['r', 'e', 't', 'u', 'r', 'n'])) by {
        reveal_strlit("return");
        is_ascii_chars_encode_utf8("return"@);
    }
    assert(encode_utf8("true"@) =~= ascii(seq!['t', 'r', 'u', 'e'])) by {
        reveal_strlit("true");
        is_ascii_chars_encode_utf8("true"@);
    }
    assert(encode_utf8("false"@) =~= ascii(seq!['f', 'a', 'l', 's', 'e'])) by {
        reveal_strlit("false");
        is_ascii_chars_encode_utf8("false"@);
    }
}

/// The one-byte token that `b` spells on its own, if any.
pub open spec fn single_token(b: u8) -> Option<Token> {
    if b == 0x3c {
        Some(Token::Lt)
    } else if b == 0x3e {
        Some(Token::Gt)
    } else if b == 0x2b {
        Some(Token::Plus)
    } else if b == 0x2d {
        Some(Token::Minus)
    } else if b == 0x2a {
        Some(Token::Star)
    } else if b == 0x2f {
        Some(Token::Slash)
    } else if b == 0x25 {
        Some(Token::Percent)
    } else if b == 0x3d {
        Some(Token::Assign)
    } else if b == 0x28 {
        Some(Token::LParen)
    } else if b == 0x29 {
        Some(Token::RParen)
    } else if b == 0x7b {
        Some(Token::LBrace)
    } else if b == 0x7d {
        Some(Token::RBrace)
    } else if b == 0x2c {
        Some(Token::Comma)
    } else if b == 0x3a {
        Some(Token::Colon)
    } else if b == 0x3b {
        Some(Token::Semicolon)
    } else {
        None
    }
}

/// The two-byte token spelled by `b` followed by `c`, if any.
pub open spec fn double_token(b: u8, c: u8) -> Option<Token> {
    if c != 0x3d {
        None
    } else if b == 0x3d {
        Some(Token::Eq)
    } else if b == 0x21 {
        Some(Token::NotEq)
    } else if b == 0x3c {
        Some(Token::LtEq)
    } else if b == 0x3e {
        Some(Token::GtEq)
    } else {
        None
    }
}

/// What the lexer finds at one place: the bytes `start..end`, and the token
/// they spell or `None` where they are one character that starts no token.
pub struct Scan {
    pub start: int,
    pub end: int,
    pub token: Option<Token>,
}

/// The token that starts at `start`, a position inside the input that holds
/// no blank.
pub open spec fn scan_token(bytes: Seq<u8>, start: int) -> Scan {
    let b = bytes[start];
    if is_letter(b) {
        let end = run_end(bytes, start + 1, ByteClass::IdentContinue);
        Scan { start, end, token: Some(word_token(bytes.subrange(start, end))) }
    } else if b == 0x30 {
        Scan { start, end: start + 1, token: Some(Token::IntegerLiteral) }
    } else if is_digit(b) {
        Scan {
            start,
            end: run_end(bytes, start + 1, ByteClass::Digit),
            token: Some(Token::IntegerLiteral),
        }
    } else if b == 0x0a {
        Scan {
            start,
            end: run_end(bytes, start + 1, ByteClass::LineFeed),
            token: Some(Token::Newline),
        }
    } else if b == 0x2f && start + 1 < bytes.len() && bytes[start + 1] == 0x2f {
        Scan {
            start,
            end: run_end(bytes, start + 2, ByteClass::NotLineFeed),
            token: Some(Token::LineComment),
        }
    } else if start + 1 < bytes.len() && double_token(b, bytes[start + 1]) is Some {
        Scan { start, end: start + 2, token: double_token(b, bytes[start + 1]) }
    } else if single_token(b) is Some {
        Scan { start, end: start + 1, token: single_token(b) }
    } else {
        Scan { start, end: run_end(bytes, start + 1, ByteClass::Continuation), token: None }
    }
}

/// What the lexer finds when it resumes at `pos`: nothing once only blanks
/// are left, else the next token or invalid character.
pub open spec fn scan_at(bytes: Seq<u8>, pos: int) -> Option<Scan> {
    let start = run_end(bytes, pos, ByteClass::Blank);
    if start >= bytes.len() {
        None
    } else {
        Some(scan_token(bytes, start))
    }
}

/// A scan takes at least one byte and stays inside the input.
pub proof fn lemma_scan_token_bounds(bytes: Seq<u8>, start: int)
    requires
        0 <= start < bytes.len(),
    ensures
        scan_token(bytes, start).start == start,
        start < scan_token(bytes, start).end <= bytes.len(),
{
    lemma_run_end(bytes, start + 1, ByteClass::IdentContinue);
    lemma_run_end(bytes, start + 1, ByteClass::Digit);
    lemma_run_end(bytes, start + 1, ByteClass::LineFeed);
    lemma_run_end(bytes, start + 1, ByteClass::Continuation);
    if start + 1 < bytes.len() {
        lemma_run_end(bytes, start + 2, ByteClass::NotLineFeed);
    }
}

/// Takes the longest run of bytes of `class` from `from` on.
fn take_run(bytes: &[u8], from: usize, class: ByteClass) -> (end: usize)
    requires
        from <= bytes@.len(),
    ensures
        end == run_end(bytes@, from as int, class),
        from <= end <= bytes@.len(),
{
    let mut i: usize = from;
    while i < bytes.len() && class.contains(bytes[i])
        invariant
            from <= i <= bytes@.len(),
            run_end(bytes@, i as int, class) == run_end(bytes@, from as int, class),
        decreases bytes@.len() - i,
    {
        i += 1;
    }
    i
}

/// True where `bytes[start..end]` spells `word`.
fn range_equals(bytes: &[u8], start: usize, end: usize, word: &[u8]) -> (b: bool)
    requires
        start <= end <= bytes@.len(),
    ensures
        b == (bytes@.subrange(start as int, end as int) == word@),
{
    if end - start != word.len() {
        return false;
    }
    let mut i: usize = 0;
    while i < word.len()
        invariant
            start <= end <= bytes@.len(),
            end - start == word@.len(),
            i <= word@.len(),
            forall|j: int| 0 <= j < i ==> bytes@[start + j] == word@[j],
        decreases word@.len() - i,
    {
        if bytes[start + i] != word[i] {
            return false;
        }
        i += 1;
    }
    assert(bytes@.subrange(start as int, end as int) =~= word@);
    true
}

/// The keyword that `bytes[start..end]` spells, or `Identifier`.
fn classify_word(bytes: &[u8], start: usize, end: usize) -> (t: Token)
    requires
        start <= end <= bytes@.len(),
    ensures
        t == word_token(bytes@.subrange(start as int, end as int)),
{
    proof {
        lemma_keyword_bytes();
    }
    if range_equals(bytes, start, end, "import".as_bytes()) {
        Token::Import
    } else if range_equals(bytes, start, end, "public".as_bytes()) {
        Token::Public
    } else if range_equals(bytes, start, end, "function".as_bytes()) {
        Token::Function
    } else if range_equals(bytes, start, end, "returns".as_bytes()) {
        Token::Returns
    } else if range_equals(bytes, start, end, "int".as_bytes()) {
        Token::Int
    } else if range_equals(bytes, start, end, "boolean".as_bytes()) {
        Token::Boolean
    } else if range_equals(bytes, start, end, "if".as_bytes()) {
        Token::If
    } else if range_equals(bytes, start, end, "else".as_bytes()) {
        Token::Else
    } else if range_equals(bytes, start, end, "while".as_bytes()) {
        Token::While
    } else if range_equals(bytes, start, end, "break".as_bytes()) {
        Token::Break
    } else if range_equals(bytes, start, end, "continue".as_bytes()) {
        Token::Continue
    } else if range_equals(bytes, start, end, "return".as_bytes()) {
        Token::Return
    } else if range_equals(bytes, start, end, "true".as_bytes()) {
        Token::True
    } else if range_equals(bytes, start, end, "false".as_bytes()) {
        Token::False
    } else {
        Token::Identifier
    }
}

/// The one-byte token that `b` spells, if any.
fn classify_single(b: u8) -> (t: Option<Token>)
    ensures
        t == single_token(b),
{
    match b {
        0x3c => Some(Token::Lt),
        0x3e => Some(Token::Gt),
        0x2b => Some(Token::Plus),
        0x2d => Some(Token::Minus),
        0x2a => Some(Token::Star),
        0x2f => Some(Token::Slash),
        0x25 => Some(Token::Percent),
        0x3d => Some(Token::Assign),
        0x28 => Some(Token::LParen),
        0x29 => Some(Token::RParen),
        0x7b => Some(Token::LBrace),
        0x7d => Some(Token::RBrace),
        0x2c => Some(Token::Comma),
        0x3a => Some(Token::Colon),
        0x3b => Some(Token::Semicolon),
        _ => None,
    }
}

/// The two-byte token that `b` and `c` spell, if any.
fn classify_double(b: u8, c: u8) -> (t: Option<Token>)
    ensures
        t == double_token(b, c),
{
    if c != 0x3d {
        None
    } else {
        match b {
            0x3d => Some(Token::Eq),
            0x21 => Some(Token::NotEq),
            0x3c => Some(Token::LtEq),
            0x3e => Some(Token::GtEq),
            _ => None,
        }
    }
}

/// Finds the token that starts at `start`; returns its end and its category.
fn take_token(bytes: &[u8], start: usize) -> (r: (usize, Option<Token>))
    requires
        start < bytes@.len(),
    ensures
        r.0 == scan_token(bytes@, start as int).end,
        r.1 == scan_token(bytes@, start as int).token,
        start < r.0 <= bytes@.len(),
{
    let b = bytes[start];
    if (0x41 <= b && b <= 0x5a) || (0x61 <= b && b <= 0x7a) {
        let end = take_run(bytes, start + 1, ByteClass::IdentContinue);
        (end, Some(classify_word(bytes, start, end)))
    } else if b == 0x30 {
        (start + 1, Some(Token::IntegerLiteral))
    } else if 0x30 <= b && b <= 0x39 {
        (take_run(bytes, start + 1, ByteClass::Digit), Some(Token::IntegerLiteral))
    } else if b == 0x0a {
        (take_run(bytes, start + 1, ByteClass::LineFeed), Some(Token::Newline))
    } else if b == 0x2f && start + 1 < bytes.len() && bytes[start + 1] == 0x2f {
        (take_run(bytes, start + 2, ByteClass::NotLineFeed), Some(Token::LineComment))
    } else {
        let two = if start + 1 < bytes.len() {
            classify_double(b, bytes[start + 1])
        } else {
            None
        };
        if two.is_some() {
            (start + 2, two)
        } else {
            let one = classify_single(b);
            if one.is_some() {
                (start + 1, one)
            } else {
                (take_run(bytes, start + 1, ByteClass::Continuation), None)
            }
        }
    }
}

/// Number of line feeds among the first `off` bytes.
pub open spec fn newlines_before(bytes: Seq<u8>, off: int) -> nat
    decreases off,
{
    if off <= 0 {
        0
    } else if bytes[off - 1] == 0x0a {
        newlines_before(bytes, off - 1) + 1
    } else {
        newlines_before(bytes, off - 1)
    }
}

/// Offset at which the line that holds offset `off` begins: zero, or the
/// offset behind the last line feed before `off`.
pub open spec fn line_begin(bytes: Seq<u8>, off: int) -> int
    decreases off,
{
    if off <= 0 {
        0
    } else if bytes[off - 1] == 0x0a {
        off
    } else {
        line_begin(bytes, off - 1)
    }
}

/// Line number of an offset, counted from one.
pub open spec fn line_of(bytes: Seq<u8>, off: int) -> nat {
    newlines_before(bytes, off) + 1
}

/// Column of an offset: its distance in bytes from the start of its line.
pub open spec fn column_of(bytes: Seq<u8>, off: int) -> nat {
    (off - line_begin(bytes, off)) as nat
}

/// Offset behind the line that begins at `from`, its line feed included.
pub open spec fn line_stop(bytes: Seq<u8>, from: int) -> int {
    let e = run_end(bytes, from, ByteClass::NotLineFeed);
    if e < bytes.len() {
        e + 1
    } else {
        e
    }
}

/// Text of the line that holds offset `off`, without trailing white space.
pub open spec fn line_text(bytes: Seq<u8>, off: int) -> Seq<char> {
    let begin = line_begin(bytes, off);
    trim_end_spec(decode_utf8(bytes.subrange(begin, line_stop(bytes, begin))))
}

/// What the lexer yields for a scan: the token with its text and span, or
/// the report of an invalid character.
pub open spec fn item_of(bytes: Seq<u8>, sc: Scan) -> Result<TokenInfoView, LexerErrorView> {
    match sc.token {
        Some(kind) => Ok(
            TokenInfoView {
                kind,
                text: decode_utf8(bytes.subrange(sc.start, sc.end)),
                span: SpanView {
                    file: None,
                    start: sc.start as nat,
                    end: sc.end as nat,
                    line: line_of(bytes, sc.start),
                    column: column_of(bytes, sc.start),
                    line_content: None,
                },
            },
        ),
        None => Err(
            LexerErrorView::InvalidCharacter {
                character: decode_utf8(bytes.subrange(sc.start, sc.end))[0],
                position: sc.start as nat,
                line: line_of(bytes, sc.start),
                column: column_of(bytes, sc.start),
                line_content: line_text(bytes, sc.start),
            },
        ),
    }
}

/// Mathematical value of an item of the token stream.
pub open spec fn item_view(item: Result<TokenInfo, LexerError>) -> Result<
    TokenInfoView,
    LexerErrorView,
> {
    match item {
        Ok(token) => Ok(token@),
        Err(error) => Err(error@),
    }
}

/// A scan starts at or behind the position it was asked for, takes at least
/// one byte and stays inside the input.
pub proof fn lemma_scan_at_bounds(bytes: Seq<u8>, pos: int)
    requires
        0 <= pos <= bytes.len(),
    ensures
        scan_at(bytes, pos) matches Some(sc) ==> pos <= sc.start < sc.end <= bytes.len(),
{
    lemma_run_end(bytes, pos, ByteClass::Blank);
    let start = run_end(bytes, pos, ByteClass::Blank);
    if start < bytes.len() {
        lemma_scan_token_bounds(bytes, start);
    }
}

/// A run is determined by where the class stops.
pub proof fn lemma_run_end_unique(bytes: Seq<u8>, from: int, end: int, class: ByteClass)
    requires
        0 <= from <= end <= bytes.len(),
        forall|i: int| from <= i < end ==> class.has(#[trigger] bytes[i]),
        end < bytes.len() ==> !class.has(bytes[end]),
    ensures
        run_end(bytes, from, class) == end,
    decreases end - from,
{
    if from < end {
        lemma_run_end_unique(bytes, from + 1, end, class);
    }
}

/// Offsets with no line feed between them lie on the same line.
proof fn lemma_no_newline_stretch(bytes: Seq<u8>, from: int, off: int)
    requires
        0 <= from <= off <= bytes.len(),
        no_line_feed(bytes, from, off),
    ensures
        newlines_before(bytes, off) == newlines_before(bytes, from),
        line_begin(bytes, off) == line_begin(bytes, from),
    decreases off - from,
{
    if from < off {
        lemma_no_newline_stretch(bytes, from, off - 1);
    }
}

/// No line feed stands at the offsets `from..to`.
pub open spec fn no_line_feed(bytes: Seq<u8>, from: int, to: int) -> bool {
    forall|j: int| from <= j < to ==> #[trigger] bytes[j] != 0x0a
}

/// The table of line starts of an input: offset zero and the offset behind
/// each line feed, in increasing order.
#[verifier::opaque]
pub open spec fn line_table(bytes: Seq<u8>, starts: Seq<usize>) -> bool {
    &&& starts.len() >= 1
    &&& starts[0] == 0
    &&& forall|k: int| 0 <= k < starts.len() ==> #[trigger] starts[k] <= bytes.len()
    &&& forall|i: int, j: int| 0 <= i < j < starts.len() ==> starts[i] < starts[j]
    &&& forall|k: int| 0 < k < starts.len() ==> bytes[#[trigger] starts[k] - 1] == 0x0a
    &&& forall|k: int|
        0 < k < starts.len() ==> no_line_feed(bytes, starts[k - 1] as int, #[trigger] starts[k] - 1)
    &&& no_line_feed(bytes, starts.last() as int, bytes.len() as int)
}

/// Entry `k` of the table starts line `k + 1`.
proof fn lemma_table_entry(bytes: Seq<u8>, starts: Seq<usize>, k: int)
    requires
        line_table(bytes, starts),
        0 <= k < starts.len(),
    ensures
        newlines_before(bytes, starts[k] as int) == k,
        line_begin(bytes, starts[k] as int) == starts[k],
    decreases k,
{
    reveal(line_table);
    if k > 0 {
        lemma_table_entry(bytes, starts, k - 1);
        let prev = starts[k - 1] as int;
        let cur = starts[k] as int;
        lemma_no_newline_stretch(bytes, prev, cur - 1);
    }
}

/// An offset lies on the line of the last table entry at or before it.
proof fn lemma_table_position(bytes: Seq<u8>, starts: Seq<usize>, k: int, off: int)
    requires
        line_table(bytes, starts),
        0 <= k < starts.len(),
        starts[k] <= off <= bytes.len(),
        k + 1 < starts.len() ==> off < starts[k + 1],
    ensures
        line_of(bytes, off) == k + 1,
        line_begin(bytes, off) == starts[k],
        column_of(bytes, off) == off - starts[k],
{
    reveal(line_table);
    lemma_table_entry(bytes, starts, k);
    let cur = starts[k] as int;
    lemma_no_newline_stretch(bytes, cur, off);
}

/// A line stops where the next table entry starts, or at the end.
proof fn lemma_table_line_stop(bytes: Seq<u8>, starts: Seq<usize>, k: int)
    requires
        line_table(bytes, starts),
        0 <= k < starts.len(),
    ensures
        line_stop(bytes, starts[k] as int) == (if k + 1 < starts.len() {
            starts[k + 1] as int
        } else {
            bytes.len() as int
        }),
{
    reveal(line_table);
    let cur = starts[k] as int;
    if k + 1 < starts.len() {
        let next = starts[k + 1] as int;
        lemma_run_end_unique(bytes, cur, next - 1, ByteClass::NotLineFeed);
    } else {
        lemma_run_end_unique(bytes, cur, bytes.len() as int, ByteClass::NotLineFeed);
    }
}

/// In well-formed text, a byte below 0x80 is a character of its own: a
/// character starts at it and another one, or the end, follows it.
pub proof fn lemma_ascii_boundaries(bytes: Seq<u8>, i: int)
    requires
        valid_utf8(bytes),
        0 <= i < bytes.len(),
        bytes[i] < 0x80,
    ensures
        is_char_boundary(bytes, i),
        is_char_boundary(bytes, i + 1),
{
    is_char_boundary_iff_not_is_continuation_byte(bytes, i);
    valid_utf8_split(bytes, i);
    let suffix = bytes.subrange(i, bytes.len() as int);
    let rest = pop_first_scalar(suffix);
    assert(valid_utf8(rest));
    if i + 1 == bytes.len() {
        is_char_boundary_start_end_of_seq(bytes);
    } else {
        is_char_boundary_iff_not_is_continuation_byte(bytes, i + 1);
    }
}

/// In well-formed text, a character starts wherever the byte is no
/// continuation byte, and at the end.
pub proof fn lemma_boundary_at(bytes: Seq<u8>, i: int)
    requires
        valid_utf8(bytes),
        0 <= i <= bytes.len(),
        i < bytes.len() ==> !is_continuation_byte(bytes[i]),
    ensures
        is_char_boundary(bytes, i),
{
    if i == bytes.len() {
        is_char_boundary_start_end_of_seq(bytes);
    } else {
        is_char_boundary_iff_not_is_continuation_byte(bytes, i);
    }
}

/// A character boundary lies inside the text, on no continuation byte.
proof fn lemma_boundary_is_local(bytes: Seq<u8>, i: int)
    requires
        valid_utf8(bytes),
        is_char_boundary(bytes, i),
    ensures
        0 <= i <= bytes.len(),
        i < bytes.len() ==> !is_continuation_byte(bytes[i]),
{
    if 0 < i < bytes.len() {
        is_char_boundary_iff_not_is_continuation_byte(bytes, i);
    }
}

/// A character boundary of the text is a character boundary of each suffix
/// that starts at an earlier boundary.
pub proof fn lemma_boundary_in_suffix(bytes: Seq<u8>, a: int, b: int)
    requires
        valid_utf8(bytes),
        is_char_boundary(bytes, a),
        is_char_boundary(bytes, b),
        a <= b,
    ensures
        0 <= a <= b <= bytes.len(),
        valid_utf8(bytes.subrange(a, bytes.len() as int)),
        is_char_boundary(bytes.subrange(a, bytes.len() as int), b - a),
{
    lemma_boundary_is_local(bytes, b);
    valid_utf8_split(bytes, a);
    let suffix = bytes.subrange(a, bytes.len() as int);
    lemma_boundary_at(suffix, b - a);
}

/// A run of blanks from a character boundary ends on one.
proof fn lemma_blank_run_boundary(bytes: Seq<u8>, pos: int)
    requires
        valid_utf8(bytes),
        is_char_boundary(bytes, pos),
    ensures
        is_char_boundary(bytes, run_end(bytes, pos, ByteClass::Blank)),
    decreases bytes.len() - pos,
{
    if pos < bytes.len() && ByteClass::Blank.has(bytes[pos]) {
        lemma_ascii_boundaries(bytes, pos);
        lemma_blank_run_boundary(bytes, pos + 1);
    }
}

/// In well-formed text, every scan ends where a character starts or the
/// text ends.
pub proof fn lemma_scan_token_boundary(bytes: Seq<u8>, start: int)
    requires
        valid_utf8(bytes),
        0 <= start < bytes.len(),
    ensures
        is_char_boundary(bytes, scan_token(bytes, start).end),
{
    let sc = scan_token(bytes, start);
    let b = bytes[start];
    if is_letter(b) {
        lemma_run_end(bytes, start + 1, ByteClass::IdentContinue);
        lemma_ascii_boundaries(bytes, sc.end - 1);
    } else if b == 0x30 {
        lemma_ascii_boundaries(bytes, start);
    } else if is_digit(b) {
        lemma_run_end(bytes, start + 1, ByteClass::Digit);
        lemma_ascii_boundaries(bytes, sc.end - 1);
    } else if b == 0x0a {
        lemma_run_end(bytes, start + 1, ByteClass::LineFeed);
        lemma_ascii_boundaries(bytes, sc.end - 1);
    } else if b == 0x2f && start + 1 < bytes.len() && bytes[start + 1] == 0x2f {
        lemma_run_end(bytes, start + 2, ByteClass::NotLineFeed);
        lemma_boundary_at(bytes, sc.end);
    } else if start + 1 < bytes.len() && double_token(b, bytes[start + 1]) is Some {
        lemma_ascii_boundaries(bytes, start + 1);
    } else if single_token(b) is Some {
        lemma_ascii_boundaries(bytes, start);
    } else {
        lemma_run_end(bytes, start + 1, ByteClass::Continuation);
        lemma_boundary_at(bytes, sc.end);
    }
}

/// The part of `source` between two character boundaries.
fn slice_text<'a>(source: &'a str, start: usize, end: usize) -> (r: &'a str)
    requires
        start <= end,
        is_char_boundary(source.spec_bytes(), start as int),
        is_char_boundary(source.spec_bytes(), end as int),
    ensures
        r.spec_bytes() == source.spec_bytes().subrange(start as int, end as int),
        r@ == decode_utf8(source.spec_bytes().subrange(start as int, end as int)),
{
    let ghost bytes = source.spec_bytes();
    proof {
        encode_utf8_valid_utf8(source@);
        lemma_boundary_in_suffix(bytes, start as int, end as int);
    }
    let (_, rest) = source.split_at(start);
    let (text, _) = rest.split_at(end - start);
    proof {
        encode_utf8_decode_utf8(text@);
    }
    text
}

/// The lexer over one source text.
pub struct Lexer<'a> {
    source: &'a str,
    pos: usize,
    line_starts: Vec<usize>,
}

impl<'a> Lexer<'a> {
    /// The bytes of the source text.
    pub closed spec fn bytes(&self) -> Seq<u8> {
        self.source.spec_bytes()
    }

    /// The offset at which the lexer resumes.
    pub closed spec fn offset(&self) -> int {
        self.pos as int
    }

    /// The lexer stands inside its source, where a character starts, and its
    /// table of line starts is that of the source.
    pub closed spec fn wf(&self) -> bool {
        &&& self.pos <= self.bytes().len()
        &&& valid_utf8(self.bytes())
        &&& is_char_boundary(self.bytes(), self.pos as int)
        &&& line_table(self.bytes(), self.line_starts@)
    }

    /// A lexer at the start of `input`.
    pub fn new(input: &'a str) -> (lexer: Lexer<'a>)
        ensures
            lexer.wf(),
            lexer.bytes() == input.spec_bytes(),
            lexer.offset() == 0,
    {
        let bytes = input.as_bytes();
        let mut line_starts: Vec<usize> = Vec::new();
        line_starts.push(0);
        let mut i: usize = 0;
        while i < bytes.len()
            invariant
                i <= bytes@.len(),
                line_starts@.len() >= 1,
                line_starts@[0] == 0,
                forall|k: int| 0 <= k < line_starts@.len() ==> #[trigger] line_starts@[k] <= i,
                forall|a: int, b: int|
                    0 <= a < b < line_starts@.len() ==> line_starts@[a] < line_starts@[b],
                forall|k: int|
                    0 < k < line_starts@.len() ==> bytes@[#[trigger] line_starts@[k] - 1] == 0x0a,
                forall|k: int|
                    0 < k < line_starts@.len() ==> no_line_feed(
                        bytes@,
                        line_starts@[k - 1] as int,
                        #[trigger] line_starts@[k] - 1,
                    ),
                no_line_feed(bytes@, line_starts@.last() as int, i as int),
            decreases bytes@.len() - i,
        {
            if bytes[i] == 0x0a {
                line_starts.push(i + 1);
            }
            i += 1;
        }
        proof {
            reveal(line_table);
            encode_utf8_valid_utf8(input@);
        }
        Lexer { source: input, pos: 0, line_starts }
    }

    /// Line (from one) and column (from zero) of a byte offset, found by
    /// binary search in the table of line starts.
    fn get_position(&self, offset: usize) -> (r: (usize, usize))
        requires
            self.wf(),
            offset <= self.bytes().len(),
        ensures
            r.0 == line_of(self.bytes(), offset as int),
            r.1 == column_of(self.bytes(), offset as int),
            1 <= r.0 <= self.line_starts@.len(),
            self.line_starts@[r.0 - 1] == line_begin(self.bytes(), offset as int),
    {
        proof {
            reveal(line_table);
        }
        let mut lo: usize = 0;
        let mut hi: usize = self.line_starts.len();
        while hi - lo > 1
            invariant
                0 <= lo < hi <= self.line_starts@.len(),
                self.line_starts@[lo as int] <= offset,
                hi < self.line_starts@.len() ==> offset < self.line_starts@[hi as int],
            decreases hi - lo,
        {
            let mid = lo + (hi - lo) / 2;
            if self.line_starts[mid] <= offset {
                lo = mid;
            } else {
                hi = mid;
            }
        }
        proof {
            lemma_table_position(self.bytes(), self.line_starts@, lo as int, offset as int);
        }
        (lo + 1, offset - self.line_starts[lo])
    }

    /// Text of line `line_number` (counted from one), without trailing white
    /// space.
    fn get_line_content(&self, line_number: usize) -> (text: String)
        requires
            self.wf(),
            1 <= line_number <= self.line_starts@.len(),
        ensures
            text@ == trim_end_spec(
                decode_utf8(
                    self.bytes().subrange(
                        self.line_starts@[line_number - 1] as int,
                        line_stop(self.bytes(), self.line_starts@[line_number - 1] as int),
                    ),
                ),
            ),
    {
        let ghost bytes = self.bytes();
        let start = self.line_starts[line_number - 1];
        let end = if line_number < self.line_starts.len() {
            self.line_starts[line_number]
        } else {
            self.source.as_bytes().len()
        };
        proof {
            reveal(line_table);
            lemma_table_line_stop(bytes, self.line_starts@, line_number - 1);
            if line_number - 1 > 0 {
                lemma_ascii_boundaries(bytes, start - 1);
            }
            if line_number < self.line_starts@.len() {
                lemma_ascii_boundaries(bytes, end - 1);
            } else {
                is_char_boundary_start_end_of_seq(bytes);
            }
        }
        let line = slice_text(self.source, start, end);
        let chars = to_chars(line);
        let stop = trim_end_index(&chars, 0, chars.len());
        assert(chars@.subrange(0, chars@.len() as int) =~= chars@);
        string_from_chars(&chars, 0, stop)
    }

    /// Finds the next scan: its start, its end and its category.
    fn locate(&self) -> (r: Option<(usize, usize, Option<Token>)>)
        requires
            self.wf(),
        ensures
            match scan_at(self.bytes(), self.offset()) {
                None => r is None,
                Some(sc) => {
                    &&& r matches Some((start, end, token))
                    &&& start == sc.start
                    &&& end == sc.end
                    &&& token == sc.token
                    &&& self.offset() <= sc.start < sc.end <= self.bytes().len()
                    &&& is_char_boundary(self.bytes(), sc.start)
                    &&& is_char_boundary(self.bytes(), sc.end)
                },
            },
    {
        let ghost bytes = self.bytes();
        let raw = self.source.as_bytes();
        let start = take_run(raw, self.pos, ByteClass::Blank);
        proof {
            lemma_blank_run_boundary(bytes, self.pos as int);
        }
        if start >= raw.len() {
            return None;
        }
        let (end, token) = take_token(raw, start);
        proof {
            lemma_scan_token_boundary(bytes, start as int);
        }
        Some((start, end, token))
    }

    /// The character that starts at the boundary `start`.
    fn char_at(&self, start: usize, end: usize) -> (c: char)
        requires
            self.wf(),
            start < end <= self.bytes().len(),
            is_char_boundary(self.bytes(), start as int),
            is_char_boundary(self.bytes(), end as int),
        ensures
            c == decode_utf8(self.bytes().subrange(start as int, end as int))[0],
    {
        let text = slice_text(self.source, start, end);
        let mut it = text.chars();
        let first = it.next();
        match first {
            Some(c) => c,
            None => '\0',
        }
    }

    /// The next token, the report of an invalid character, or `None` at the
    /// end of the input.
    ///
    /// The result is the item that [`scan_at`] finds at the lexer's offset;
    /// the lexer then stands behind it. Offsets strictly increase from call
    /// to call, so the stream is finite.
    pub fn next_token(&mut self) -> (r: Option<Result<TokenInfo, LexerError>>)
        requires
            old(self).wf(),
        ensures
            final(self).wf(),
            final(self).bytes() == old(self).bytes(),
            match scan_at(old(self).bytes(), old(self).offset()) {
                None => r is None && final(self).offset() == old(self).bytes().len(),
                Some(sc) => {
                    &&& final(self).offset() == sc.end
                    &&& old(self).offset() < sc.end <= old(self).bytes().len()
                    &&& r matches Some(item)
                    &&& item_view(item) == item_of(old(self).bytes(), sc)
                },
            },
            r matches Some(Ok(token)) ==> token.span@.wf(),
    {
        match self.locate() {
            None => {
                self.pos = self.source.as_bytes().len();
                proof {
                    is_char_boundary_start_end_of_seq(self.bytes());
                }
                None
            },
            Some((start, end, token)) => {
                let (line, column) = self.get_position(start);
                let item = match token {
                    Some(kind) => {
                        let text = slice_text(self.source, start, end);
                        Ok(
                            TokenInfo {
                                kind,
                                text: String::from_str(text),
                                span: Span {
                                    file: None,
                                    start,
                                    end,
                                    line,
                                    column,
                                    line_content: None,
                                },
                            },
                        )
                    },
                    None => {
                        let line_content = self.get_line_content(line);
                        let character = self.char_at(start, end);
                        Err(
                            LexerError::InvalidCharacter {
                                character,
                                position: start,
                                line,
                                column,
                                line_content,
                            },
                        )
                    },
                };
                self.pos = end;
                Some(item)
            },
        }
    }
}

/// Maps a lexical category to the kind under which the parser sees it.
/// Line feeds count as whitespace; categories that the grammar has no use
/// for become `ERROR`.
pub open spec fn convert_token_spec(token: Token) -> SyntaxKind {
    match token {
        Token::Import => SyntaxKind::IMPORT_KW,
        Token::Public => SyntaxKind::PUBLIC_KW,
        Token::Function => SyntaxKind::FUNCTION_KW,
        Token::Returns => SyntaxKind::RETURNS_KW,
        Token::Int => SyntaxKind::INT_KW,
        Token::Boolean => SyntaxKind::BOOLEAN_KW,
        Token::Identifier => SyntaxKind::IDENTIFIER,
        Token::LParen => SyntaxKind::L_PAREN,
        Token::RParen => SyntaxKind::R_PAREN,
        Token::LBrace => SyntaxKind::L_BRACE,
        Token::RBrace => SyntaxKind::R_BRACE,
        Token::Comma => SyntaxKind::COMMA,
        Token::Semicolon => SyntaxKind::SEMICOLON,
        Token::Slash => SyntaxKind::SLASH,
        Token::LineComment => SyntaxKind::COMMENT,
        Token::Newline => SyntaxKind::WHITESPACE,
        _ => SyntaxKind::ERROR,
    }
}

/// The kind under which the parser sees a lexical category.
pub fn convert_token(token: Token) -> (kind: SyntaxKind)
    ensures
        kind == convert_token_spec(token),
{
    match token {
        Token::Import => SyntaxKind::IMPORT_KW,
        Token::Public => SyntaxKind::PUBLIC_KW,
        Token::Function => SyntaxKind::FUNCTION_KW,
        Token::Returns => SyntaxKind::RETURNS_KW,
        Token::Int => SyntaxKind::INT_KW,
        Token::Boolean => SyntaxKind::BOOLEAN_KW,
        Token::Identifier => SyntaxKind::IDENTIFIER,
        Token::LParen => SyntaxKind::L_PAREN,
        Token::RParen => SyntaxKind::R_PAREN,
        Token::LBrace => SyntaxKind::L_BRACE,
        Token::RBrace => SyntaxKind::R_BRACE,
        Token::Comma => SyntaxKind::COMMA,
        Token::Semicolon => SyntaxKind::SEMICOLON,
        Token::Slash => SyntaxKind::SLASH,
        Token::LineComment => SyntaxKind::COMMENT,
        Token::Newline => SyntaxKind::WHITESPACE,
        _ => SyntaxKind::ERROR,
    }
}

} // verus!
