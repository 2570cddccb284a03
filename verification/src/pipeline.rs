//! Building files and projects.
//!
//! Reading files, printing and persisting are done by the caller. This
//! module holds what is computed and decided in between: the path from
//! source text to a tree, the use of the parse cache, the order in which
//! the files of a project are built, and the outcome of a build.

use crate::dependency::{
    content_hash, ids_set, DependencyGraph, ModuleId, ModuleIdView, Timestamp,
};
use crate::error::{
    lexer_errors_view, parser_errors_view, LexerError, LexerErrorView, ParserError, Span,
};
use crate::event::raw_events;
use crate::grammar::{spans_wf, Grammar, TokenView};
use crate::green::{text_of, tree_events};
use crate::imports::{parse_imports, parse_imports_spec};
use crate::kind::SyntaxKind;
use crate::lexer::{
    convert_token, convert_token_spec, item_of, lemma_scan_at_bounds, scan_at, Lexer,
    TokenInfoView,
};
use crate::parser::{tokens_view, Parser};
use crate::path::file_stem_spec;
use crate::project::{module_id_from_path, Project};
use crate::text::{opt_string_view, strings_view};
use vstd::prelude::*;
use vstd::string::*;

verus! {

broadcast use vstd::string::group_string_axioms;

/// A token of the lexer as the parser receives it.
pub open spec fn as_parser_token(token: TokenInfoView) -> TokenView {
    TokenView { kind: convert_token_spec(token.kind), text: token.text, span: token.span }
}

/// The tokens that the parser receives for the source from offset `pos`
/// on: every token of the lexer, line feeds and comments included.
pub open spec fn tokens_from(bytes: Seq<u8>, pos: int) -> Seq<TokenView>
    decreases bytes.len() - pos,
{
    if 0 <= pos <= bytes.len() {
        match scan_at(bytes, pos) {
            None => Seq::empty(),
            Some(sc) => {
                proof {
                    lemma_scan_at_bounds(bytes, pos);
                }
                match item_of(bytes, sc) {
                    Ok(token) => seq![as_parser_token(token)] + tokens_from(bytes, sc.end),
                    Err(_) => tokens_from(bytes, sc.end),
                }
            },
        }
    } else {
        Seq::empty()
    }
}

/// The invalid characters that the lexer reports for the source from
/// offset `pos` on.
pub open spec fn errors_from(bytes: Seq<u8>, pos: int) -> Seq<LexerErrorView>
    decreases bytes.len() - pos,
{
    if 0 <= pos <= bytes.len() {
        match scan_at(bytes, pos) {
            None => Seq::empty(),
            Some(sc) => {
                proof {
                    lemma_scan_at_bounds(bytes, pos);
                }
                match item_of(bytes, sc) {
                    Ok(_) => errors_from(bytes, sc.end),
                    Err(error) => seq![error] + errors_from(bytes, sc.end),
                }
            },
        }
    } else {
        Seq::empty()
    }
}

/// The spans of the tokens of the lexer are well formed: they are not
/// inverted, and their lines count from one.
pub proof fn lemma_lexed_spans_wf(bytes: Seq<u8>, pos: int)
    ensures
        forall|i: int|
            0 <= i < tokens_from(bytes, pos).len() ==> (#[trigger] tokens_from(
                bytes,
                pos,
            )[i]).span.wf(),
    decreases bytes.len() - pos,
{
    if 0 <= pos <= bytes.len() {
        match scan_at(bytes, pos) {
            None => {},
            Some(sc) => {
                lemma_scan_at_bounds(bytes, pos);
                lemma_lexed_spans_wf(bytes, sc.end);
                match item_of(bytes, sc) {
                    Ok(token) => {
                    },
                    Err(_) => {},
                }
            },
        }
    }
}

/// What lexing a source yields.
pub struct Lexed {
    /// The tokens, as the parser takes them.
    pub tokens: Vec<(SyntaxKind, String, Span)>,
    /// The invalid characters.
    pub errors: Vec<LexerError>,
}

/// Lexes a whole source for the parser. Invalid characters are collected
/// and lexing goes on behind them.
pub fn lex_source(source: &str) -> (lexed: Lexed)
    ensures
        tokens_view(lexed.tokens@) == tokens_from(source.spec_bytes(), 0),
        lexer_errors_view(lexed.errors@) == errors_from(source.spec_bytes(), 0),
{
    let ghost bytes = source.spec_bytes();
    let mut lexer = Lexer::new(source);
    let mut tokens: Vec<(SyntaxKind, String, Span)> = Vec::new();
    let mut errors: Vec<LexerError> = Vec::new();
    loop
        invariant_except_break
            lexer.wf(),
            lexer.bytes() == bytes,
            0 <= lexer.offset() <= bytes.len(),
            tokens_view(tokens@) + tokens_from(bytes, lexer.offset()) == tokens_from(bytes, 0),
            lexer_errors_view(errors@) + errors_from(bytes, lexer.offset()) == errors_from(
                bytes,
                0,
            ),
        ensures
            tokens_view(tokens@) == tokens_from(bytes, 0),
            lexer_errors_view(errors@) == errors_from(bytes, 0),
        decreases bytes.len() - lexer.offset(),
    {
        let ghost pos = lexer.offset();
        let ghost seen = tokens_view(tokens@);
        let ghost reported = lexer_errors_view(errors@);
        match lexer.next_token() {
            None => {
                break ;
            },
            Some(Ok(token)) => {
                let ghost sc = scan_at(bytes, pos)->0;
                let kind = convert_token(token.kind);
                tokens.push((kind, token.text, token.span));
                proof {
                    let t = as_parser_token(token@);
                    assert(seen.push(t) + tokens_from(bytes, sc.end) =~= seen + (seq![t]
                        + tokens_from(bytes, sc.end)));
                }
            },
            Some(Err(error)) => {
                let ghost sc = scan_at(bytes, pos)->0;
                let ghost e = error@;
                errors.push(error);
                proof {
                    assert(reported.push(e) + errors_from(bytes, sc.end) =~= reported + (seq![e]
                        + errors_from(bytes, sc.end)));
                }
            },
        }
    }
    Lexed { tokens, errors }
}

/// How the build of one file ended.
#[derive(Debug, Clone, Copy, PartialEq, Eq, Structural)]
pub enum FileStatus {
    /// The tree was taken from the parse cache.
    Cached,
    /// The file was parsed and its tree cached; nothing was reported.
    Parsed,
    /// The file was parsed and its tree cached, but the lexer reported
    /// invalid characters.
    CompletedWithErrors,
    /// The parser reported diagnostics; the tree was not cached.
    ParserErrors,
    /// The source is too long for a tree; nothing was parsed.
    SourceTooLong,
}

impl FileStatus {
    /// Whether the file counts as built without errors.
    pub open spec fn is_success(self) -> bool {
        self == FileStatus::Cached || self == FileStatus::Parsed
    }

    /// Whether the file counts as built without errors.
    pub fn succeeded(self) -> (b: bool)
        ensures
            b == self.is_success(),
    {
        match self {
            FileStatus::Cached | FileStatus::Parsed => true,
            _ => false,
        }
    }

    /// The message with which a failed build of a file is reported.
    pub open spec fn message_spec(self) -> Option<Seq<char>> {
        match self {
            FileStatus::Cached | FileStatus::Parsed => None,
            FileStatus::CompletedWithErrors => Some("Completed with errors"@),
            FileStatus::ParserErrors => Some("Parser errors encountered"@),
            FileStatus::SourceTooLong => Some("Source too long"@),
        }
    }

    /// The message with which a failed build of a file is reported.
    pub fn message(self) -> (m: Option<String>)
        ensures
            opt_string_view(m) == self.message_spec(),
    {
        match self {
            FileStatus::Cached | FileStatus::Parsed => None,
            FileStatus::CompletedWithErrors => Some(String::from_str("Completed with errors")),
            FileStatus::ParserErrors => Some(String::from_str("Parser errors encountered")),
            FileStatus::SourceTooLong => Some(String::from_str("Source too long")),
        }
    }
}

/// What building one file yields.
pub struct FileReport {
    pub status: FileStatus,
    /// The invalid characters that the lexer reported.
    pub lexer_errors: Vec<LexerError>,
    /// The diagnostics of the parser.
    pub diagnostics: Vec<ParserError>,
}

/// What the parser runs on for a source in a file.
pub open spec fn source_grammar(path: Seq<char>, source: &str) -> Grammar {
    Grammar { tokens: tokens_from(source.spec_bytes(), 0), file: Some(path) }
}

/// The status with which a file is built that is not in the cache.
pub open spec fn parse_status(path: Seq<char>, source: &str) -> FileStatus {
    let g = source_grammar(path, source);
    if g.source_bytes() > u32::MAX {
        FileStatus::SourceTooLong
    } else if g.parse().diagnostics.len() > 0 {
        FileStatus::ParserErrors
    } else if errors_from(source.spec_bytes(), 0).len() > 0 {
        FileStatus::CompletedWithErrors
    } else {
        FileStatus::Parsed
    }
}

/// Builds one file from its source text.
///
/// Where the cache holds a tree for the path that was parsed from a source
/// with the same content hash, nothing is parsed. Else the source is lexed
/// and parsed; the tree is cached unless the parser reported diagnostics.
pub fn build_file(graph: &mut DependencyGraph, path: &str, source: &str) -> (report: FileReport)
    requires
        old(graph).wf(),
    ensures
        final(graph).wf(),
        final(graph).deps() == old(graph).deps(),
        final(graph).module_list() == old(graph).module_list(),
        final(graph).files() == old(graph).files(),
        final(graph).watched() == old(graph).watched(),
        old(graph).cached_tree(path@, source@) is Some ==> {
            &&& report.status == FileStatus::Cached
            &&& final(graph).cache() == old(graph).cache()
            &&& report.lexer_errors@.len() == 0
            &&& report.diagnostics@.len() == 0
        },
        old(graph).cached_tree(path@, source@) is None ==> {
            &&& report.status == parse_status(path@, source)
            &&& lexer_errors_view(report.lexer_errors@) == errors_from(source.spec_bytes(), 0)
            &&& report.status == FileStatus::SourceTooLong ==> report.diagnostics@.len() == 0
            &&& report.status != FileStatus::SourceTooLong ==> {
                &&& parser_errors_view(report.diagnostics@) == source_grammar(
                    path@,
                    source,
                ).parse().diagnostics
                &&& spans_wf(parser_errors_view(report.diagnostics@))
            }
            &&& if report.status == FileStatus::Parsed || report.status
                == FileStatus::CompletedWithErrors {
                &&& final(graph).cache().dom() == old(graph).cache().dom().insert(path@)
                &&& forall|p: Seq<char>|
                    p != path@ && old(graph).cache().contains_key(p) ==> final(graph).cache()[p]
                        == old(graph).cache()[p]
                &&& final(graph).cache()[path@].1 == content_hash(source@)
                &&& tree_events(final(graph).cache()[path@].0) == raw_events(
                    source_grammar(path@, source).parse().events,
                )
                &&& text_of(tree_events(final(graph).cache()[path@].0)) == source_grammar(
                    path@,
                    source,
                ).source_text()
            } else {
                final(graph).cache() == old(graph).cache()
            }
        },
{
    if graph.get_cached_parse(path, source).is_some() {
        return FileReport {
            status: FileStatus::Cached,
            lexer_errors: Vec::new(),
            diagnostics: Vec::new(),
        };
    }
    let lexed = lex_source(source);
    proof {
        lemma_lexed_spans_wf(source.spec_bytes(), 0);
    }
    let had_errors = lexed.errors.len() > 0;
    let parser = Parser::new(Some(String::from_str(path)), lexed.tokens);
    if !parser.within_limit() {
        return FileReport {
            status: FileStatus::SourceTooLong,
            lexer_errors: lexed.errors,
            diagnostics: Vec::new(),
        };
    }
    let (tree, diagnostics) = parser.parse();
    let status = if diagnostics.len() > 0 {
        FileStatus::ParserErrors
    } else {
        graph.cache_parse(String::from_str(path), source, tree);
        if had_errors {
            FileStatus::CompletedWithErrors
        } else {
            FileStatus::Parsed
        }
    };
    FileReport { status, lexer_errors: lexed.errors, diagnostics }
}

/// Adds the module in a source file of a project to the graph: its
/// dependencies are the modules that the source imports.
pub fn register_source(
    graph: &mut DependencyGraph,
    project: &Project,
    file_path: &str,
    source: &str,
    modified: Option<Timestamp>,
)
    requires
        old(graph).wf(),
        file_stem_spec(file_path@) is Some,
    ensures
        final(graph).wf(),
        final(graph).cache() == old(graph).cache(),
        final(graph).files() == old(graph).files().insert(
            source_module(project, file_path@),
            file_path@,
        ),
        final(graph).deps() == old(graph).deps().insert(
            source_module(project, file_path@),
            imported_modules(parse_imports_spec(source@)),
        ),
        modified is None ==> final(graph).watched() == old(graph).watched(),
        modified matches Some(t) ==> final(graph).time_of(file_path@) == Some(t) && forall|
            p: Seq<char>,
        |
            p != file_path@ ==> final(graph).time_of(p) == old(graph).time_of(p),
{
    let imports = parse_imports(source);
    let module = module_id_from_path(project, file_path);
    let mut dependencies: Vec<ModuleId> = Vec::new();
    let mut i: usize = 0;
    while i < imports.len()
        invariant
            i <= imports@.len(),
            dependencies@.len() == i,
            forall|j: int|
                0 <= j < i ==> (#[trigger] dependencies@[j])@ == import_module(imports@[j]@),
        decreases imports@.len() - i,
    {
        dependencies.push(ModuleId::from_import(imports[i].as_str()));
        i += 1;
    }
    proof {
        let paths = strings_view(imports@);
        assert forall|m: ModuleIdView|
            ids_set(dependencies@).contains(m) == imported_modules(paths).contains(m) by {
            if ids_set(dependencies@).contains(m) {
                let j = choose|j: int| 0 <= j < dependencies@.len() && #[trigger] dependencies@[j]@ == m;
                assert(import_module(paths[j]) == m);
            }
            if imported_modules(paths).contains(m) {
                let j = choose|j: int| 0 <= j < paths.len() && import_module(#[trigger] paths[j]) == m;
                assert(dependencies@[j]@ == m);
            }
        }
        assert(ids_set(dependencies@) =~= imported_modules(paths));
    }
    graph.add_module(module, dependencies, String::from_str(file_path), modified);
}

/// The module that an import path names.
pub open spec fn import_module(path: Seq<char>) -> ModuleIdView {
    ModuleIdView {
        org: crate::dependency::import_part(path, 0),
        name: crate::dependency::import_part(path, 1),
        version: crate::dependency::default_version(),
        module: crate::dependency::import_part(path, 2),
    }
}

/// The modules that a list of import paths names.
pub open spec fn imported_modules(paths: Seq<Seq<char>>) -> Set<ModuleIdView> {
    Set::new(
        |m: ModuleIdView| exists|j: int| 0 <= j < paths.len() && import_module(#[trigger] paths[j]) == m,
    )
}

/// The module in the source file `path` of a project.
pub open spec fn source_module(project: &Project, path: Seq<char>) -> ModuleIdView {
    ModuleIdView {
        org: project.package.info.org@,
        name: project.package.info.name@,
        version: project.package.info.version@,
        module: file_stem_spec(path)->0,
    }
}

/// Lexing from offset `pos` on skips nothing: every byte belongs to a
/// token.
pub open spec fn skips_nothing(bytes: Seq<u8>, pos: int) -> bool
    decreases bytes.len() - pos,
{
    if 0 <= pos <= bytes.len() {
        match scan_at(bytes, pos) {
            None => pos == bytes.len(),
            Some(sc) => {
                proof {
                    lemma_scan_at_bounds(bytes, pos);
                }
                sc.start == pos && sc.token is Some && skips_nothing(bytes, sc.end)
            },
        }
    } else {
        false
    }
}

/// The texts of a sequence of tokens, concatenated in order.
pub open spec fn joined_text(tokens: Seq<TokenView>) -> Seq<char> {
    (Grammar { tokens, file: None }).source_text()
}

/// The text of two walks in a row is the text of the one and of the other.
proof fn lemma_text_of_concat(a: Seq<crate::green::TreeEvent>, b: Seq<crate::green::TreeEvent>)
    ensures
        text_of(a + b) == text_of(a) + text_of(b),
    decreases b.len(),
{
    if b.len() > 0 {
        lemma_text_of_concat(a, b.drop_last());
        assert((a + b).drop_last() =~= a + b.drop_last());
        match b.last() {
            crate::green::TreeEvent::Leaf { text, .. } => {
                assert(text_of(a) + text_of(b.drop_last()) + text =~= text_of(a) + (text_of(
                    b.drop_last(),
                ) + text));
            },
            _ => {},
        }
    }
}

/// A token in front adds its text in front.
proof fn lemma_joined_prepend(first: TokenView, rest: Seq<TokenView>)
    ensures
        joined_text(seq![first] + rest) == first.text + joined_text(rest),
{
    let whole = Grammar { tokens: seq![first] + rest, file: None };
    let tail = Grammar { tokens: rest, file: None };
    let head = seq![whole.token_event(0).raw()];
    assert(whole.all_leaves() =~= head + tail.all_leaves());
    lemma_text_of_concat(head, tail.all_leaves());
    assert(text_of(head.drop_last()) =~= Seq::<char>::empty());
}

/// Where lexing skips nothing, the tokens from `pos` on spell the
/// source from `pos` on.
proof fn lemma_lexed_text(bytes: Seq<u8>, pos: int)
    requires
        vstd::utf8::valid_utf8(bytes),
        vstd::utf8::is_char_boundary(bytes, pos),
        0 <= pos <= bytes.len(),
        skips_nothing(bytes, pos),
    ensures
        joined_text(tokens_from(bytes, pos)) == vstd::utf8::decode_utf8(
            bytes.subrange(pos, bytes.len() as int),
        ),
    decreases bytes.len() - pos,
{
    let n = bytes.len() as int;
    match scan_at(bytes, pos) {
        None => {
        },
        Some(sc) => {
            lemma_scan_at_bounds(bytes, pos);
            crate::lexer::lemma_scan_token_boundary(bytes, pos);
            lemma_lexed_text(bytes, sc.end);
            let token = item_of(bytes, sc)->Ok_0;
            lemma_joined_prepend(as_parser_token(token), tokens_from(bytes, sc.end));
            let suffix = bytes.subrange(pos, n);
            crate::lexer::lemma_boundary_in_suffix(bytes, pos, sc.end);
            vstd::utf8::decode_utf8_split(suffix, sc.end - pos);
            assert(suffix.subrange(0, sc.end - pos) =~= bytes.subrange(pos, sc.end));
            assert(suffix.subrange(sc.end - pos, suffix.len() as int) =~= bytes.subrange(
                sc.end,
                n,
            ));
        },
    }
}

/// Losslessness from source to tree: where lexing skips nothing (the
/// source holds no blank and no invalid character), the texts of the
/// parser's tokens, and with them the text of the tree, are the source.
pub proof fn law_source_lossless(path: Seq<char>, source: &str)
    requires
        skips_nothing(source.spec_bytes(), 0),
    ensures
        source_grammar(path, source).source_text() == source@,
{
    let bytes = source.spec_bytes();
    vstd::utf8::encode_utf8_valid_utf8(source@);
    lemma_lexed_text(bytes, 0);
    assert(bytes.subrange(0, bytes.len() as int) =~= bytes);
    vstd::utf8::encode_utf8_decode_utf8(source@);
    let g = source_grammar(path, source);
    let h = Grammar { tokens: g.tokens, file: None };
    assert(g.all_leaves() =~= h.all_leaves());
}

} // verus!
