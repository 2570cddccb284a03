//! The error-recovering recursive-descent parser.
//!
//! [`Parser::parse`] turns a token stream into a lossless tree and a list of
//! diagnostics. It always returns a tree: a construct that does not parse
//! is marked, reported and skipped. What it computes is [`Grammar::parse`];
//! the code below follows the grammar rule by rule.

use crate::error::{clone_opt_string, parser_errors_view, ParserError, ParserErrorView, Span};
use crate::event::{events_view, raw_events, Event, EventView};
use crate::grammar::{
    is_sync_point_spec, names_of, spans_wf, type_keywords, type_recovery_set, Grammar, State,
    Step, TokenView,
};
use crate::green::{
    is_tree, is_tree_prefix, leaves, lemma_text_of_leaves, open_nodes, text_bytes, text_of,
    tree_events, TreeEvent,
};
use crate::kind::SyntaxKind;
use crate::sink::{lemma_tree_prefix_accepted, Sink};
use crate::text::opt_string_view;
use vstd::prelude::*;
use vstd::string::*;

verus! {

broadcast use vstd::string::group_string_axioms;

/// Mathematical value of one token of the parser's input.
pub open spec fn token_view(token: (SyntaxKind, String, Span)) -> TokenView {
    TokenView { kind: token.0, text: token.1@, span: token.2@ }
}

/// Mathematical value of the parser's input.
pub open spec fn tokens_view(tokens: Seq<(SyntaxKind, String, Span)>) -> Seq<TokenView> {
    Seq::new(tokens.len(), |i: int| token_view(tokens[i]))
}

/// The diagnostic of a result, if it is a failure.
pub open spec fn error_view(r: Result<(), ParserError>) -> Option<ParserErrorView> {
    match r {
        Ok(_) => None,
        Err(e) => Some(e@),
    }
}

impl Grammar {
    /// The tokens `0..n` as the leaves of a tree walk.
    pub open spec fn leaves_upto(self, n: int) -> Seq<TreeEvent> {
        Seq::new(n as nat, |i: int| self.token_event(i).raw())
    }

    /// All tokens as the leaves of a tree walk.
    pub open spec fn all_leaves(self) -> Seq<TreeEvent> {
        self.leaves_upto(self.len())
    }

    /// The texts of all tokens, concatenated in order.
    pub open spec fn source_text(self) -> Seq<char> {
        text_of(self.all_leaves())
    }

    /// Total length in bytes of the texts of all tokens.
    pub open spec fn source_bytes(self) -> nat {
        text_bytes(self.all_leaves())
    }
}

/// What appending one event does to a walk.
proof fn lemma_emit(events: Seq<EventView>, e: EventView)
    ensures
        raw_events(events.push(e)) == raw_events(events).push(e.raw()),
        open_nodes(raw_events(events.push(e))) == open_nodes(raw_events(events)) + (match e {
            EventView::StartNode { .. } => 1int,
            EventView::AddToken { .. } => 0int,
            EventView::FinishNode => -1int,
        }),
        is_tree_prefix(raw_events(events.push(e))) == (is_tree_prefix(raw_events(events)) && (
        if events.len() == 0 {
            e is StartNode
        } else {
            open_nodes(raw_events(events)) >= 1
        })),
        leaves(raw_events(events.push(e))) == (if e is AddToken {
            leaves(raw_events(events)).push(e.raw())
        } else {
            leaves(raw_events(events))
        }),
{
    let after = raw_events(events.push(e));
    assert(after.drop_last() =~= raw_events(events));
}

/// The parser over one token stream.
pub struct Parser {
    file: Option<String>,
    tokens: Vec<(SyntaxKind, String, Span)>,
    cursor: usize,
    events: Vec<Event>,
    diagnostics: Vec<ParserError>,
}

impl Parser {
    /// What the parser runs on.
    pub closed spec fn grammar(&self) -> Grammar {
        Grammar { tokens: tokens_view(self.tokens@), file: opt_string_view(self.file) }
    }

    /// What the parser has done so far.
    pub closed spec fn state(&self) -> State {
        State {
            cursor: self.cursor as int,
            events: events_view(self.events@),
            diagnostics: parser_errors_view(self.diagnostics@),
        }
    }

    /// The events so far, as a tree walk.
    spec fn walk(&self) -> Seq<TreeEvent> {
        raw_events(events_view(self.events@))
    }

    /// The cursor is inside the input, and the tokens in front of it are
    /// the leaves of the walk so far.
    spec fn inv(&self) -> bool {
        &&& self.cursor <= self.tokens@.len()
        &&& leaves(self.walk()) == self.grammar().leaves_upto(self.cursor as int)
    }

    /// The walk so far is the beginning of one tree, whose root is open.
    spec fn nested(&self) -> bool {
        is_tree_prefix(self.walk()) && open_nodes(self.walk()) >= 1
    }

    /// Number of open nodes.
    spec fn depth(&self) -> int {
        open_nodes(self.walk())
    }

    /// The parser has moved from `before` to `state`, inside the same open
    /// nodes.
    spec fn moved(&self, before: &Parser, state: State) -> bool {
        &&& self.tokens == before.tokens
        &&& self.file == before.file
        &&& self.grammar() == before.grammar()
        &&& self.inv()
        &&& self.nested()
        &&& self.depth() == before.depth()
        &&& before.state().cursor <= self.state().cursor
        &&& self.state() == state
        &&& before.grammar().tokens_wf() && spans_wf(before.state().diagnostics) ==> spans_wf(
            state.diagnostics,
        )
    }

    /// The parser has taken `step` from `before`, with result `r`.
    spec fn stepped(&self, before: &Parser, r: Result<(), ParserError>, step: Step) -> bool {
        &&& self.moved(before, step.state)
        &&& error_view(r) == step.error
        &&& before.grammar().tokens_wf() ==> (step.error matches Some(e) ==> e.span().wf())
    }

    /// A parser at the start of `tokens`, which come from `file`.
    pub fn new(file: Option<String>, tokens: Vec<(SyntaxKind, String, Span)>) -> (parser: Parser)
        ensures
            parser.grammar() == (Grammar {
                tokens: tokens_view(tokens@),
                file: opt_string_view(file),
            }),
            parser.state() == Grammar::start(),
    {
        let parser = Parser {
            file,
            tokens,
            cursor: 0,
            events: Vec::new(),
            diagnostics: Vec::new(),
        };
        assert(parser.state().events =~= Seq::<EventView>::empty());
        assert(parser.state().diagnostics =~= Seq::<ParserErrorView>::empty());
        parser
    }

    /// Appends an event that opens or closes a node.
    fn push_event(&mut self, e: Event)
        requires
            !(e is AddToken),
        ensures
            final(self).tokens == old(self).tokens,
            final(self).file == old(self).file,
            final(self).grammar() == old(self).grammar(),
            final(self).state() == old(self).state().emit(e@),
            final(self).cursor == old(self).cursor,
            leaves(final(self).walk()) == leaves(old(self).walk()),
            final(self).depth() == old(self).depth() + (if e is StartNode {
                1int
            } else {
                -1int
            }),
            is_tree_prefix(final(self).walk()) == (is_tree_prefix(old(self).walk()) && (
            if old(self).events@.len() == 0 {
                e is StartNode
            } else {
                old(self).depth() >= 1
            })),
    {
        proof {
            lemma_emit(events_view(self.events@), e@);
            crate::event::lemma_events_view_push(self.events@, e);
        }
        self.events.push(e);
    }

    /// Opens a node.
    fn start_node(&mut self, kind: SyntaxKind)
        requires
            old(self).inv(),
            old(self).nested(),
        ensures
            final(self).tokens == old(self).tokens,
            final(self).file == old(self).file,
            final(self).grammar() == old(self).grammar(),
            final(self).inv(),
            final(self).nested(),
            final(self).depth() == old(self).depth() + 1,
            final(self).state() == old(self).state().open(kind),
    {
        self.push_event(Event::StartNode { kind });
    }

    /// Closes the innermost node, which is not the root.
    fn finish_node(&mut self)
        requires
            old(self).inv(),
            old(self).nested(),
            old(self).depth() >= 2,
        ensures
            final(self).tokens == old(self).tokens,
            final(self).file == old(self).file,
            final(self).grammar() == old(self).grammar(),
            final(self).inv(),
            final(self).nested(),
            final(self).depth() == old(self).depth() - 1,
            final(self).state() == old(self).state().close(),
    {
        self.push_event(Event::FinishNode);
    }

    /// Moves the token under the cursor into the tree.
    fn emit_token(&mut self)
        requires
            old(self).inv(),
            old(self).nested(),
            old(self).cursor < old(self).tokens@.len(),
        ensures
            final(self).moved(
                old(self),
                State {
                    cursor: old(self).cursor + 1,
                    events: old(self).state().events.push(
                        old(self).grammar().token_event(old(self).cursor as int),
                    ),
                    ..old(self).state()
                },
            ),
    {
        let count = self.tokens.len();
        let kind = self.tokens[self.cursor].0;
        let text = self.tokens[self.cursor].1.clone();
        let e = Event::AddToken { kind, text };
        proof {
            lemma_emit(events_view(self.events@), e@);
            crate::event::lemma_events_view_push(self.events@, e);
            let g = self.grammar();
            assert(g.leaves_upto(self.cursor + 1) =~= g.leaves_upto(self.cursor as int).push(
                e@.raw(),
            ));
        }
        self.events.push(e);
        self.cursor = self.cursor + 1;
    }

    /// Index of the next token that is no trivia.
    fn next_non_trivia(&self) -> (pos: usize)
        requires
            self.inv(),
        ensures
            pos == self.grammar().next_significant(self.cursor as int),
            self.cursor <= pos <= self.tokens@.len(),
    {
        let ghost g = self.grammar();
        let mut pos = self.cursor;
        while pos < self.tokens.len() && self.tokens[pos].0.is_trivia()
            invariant
                self.cursor <= pos <= self.tokens@.len(),
                g == self.grammar(),
                g.next_significant(pos as int) == g.next_significant(self.cursor as int),
            decreases self.tokens@.len() - pos,
        {
            pos += 1;
        }
        pos
    }

    /// The kind of the next significant token.
    fn peek_kind(&self) -> (kind: Option<SyntaxKind>)
        requires
            self.inv(),
        ensures
            kind == self.grammar().peek(self.state()),
    {
        let pos = self.next_non_trivia();
        if pos < self.tokens.len() {
            Some(self.tokens[pos].0)
        } else {
            None
        }
    }

    /// The next significant token has the given kind.
    fn at(&self, kind: SyntaxKind) -> (b: bool)
        requires
            self.inv(),
        ensures
            b == self.grammar().at(self.state(), kind),
    {
        let pos = self.next_non_trivia();
        pos < self.tokens.len() && self.tokens[pos].0 == kind
    }

    /// No significant token is left.
    fn at_end(&self) -> (b: bool)
        requires
            self.inv(),
        ensures
            b == self.grammar().at_end(self.state()),
    {
        self.peek_kind().is_none()
    }

    /// The next significant token starts a function definition.
    fn at_function_start(&self) -> (b: bool)
        requires
            self.inv(),
        ensures
            b == self.grammar().at_function_start(self.state()),
    {
        self.at(SyntaxKind::FUNCTION_KW) || self.at(SyntaxKind::PUBLIC_KW)
    }

    /// Consumes the next significant token with the trivia in front of it.
    fn bump(&mut self)
        requires
            old(self).inv(),
            old(self).nested(),
        ensures
            final(self).moved(old(self), old(self).grammar().bump(old(self).state())),
            old(self).grammar().peek(old(self).state()) is Some ==> old(self).grammar().advanced(
                old(self).state(),
                final(self).state(),
            ),
    {
        let ghost g = self.grammar();
        let ghost start = self.state();
        let target = self.next_non_trivia();
        if target < self.tokens.len() {
            assert(self.state().events =~= start.events + g.token_events(
                start.cursor,
                self.cursor as int,
            ));
            while self.cursor <= target
                invariant
                    target < self.tokens@.len(),
                    start.cursor <= self.cursor <= target + 1,
                    self.moved(
                        old(self),
                        State {
                            cursor: self.cursor as int,
                            events: start.events + g.token_events(start.cursor, self.cursor as int),
                            ..start
                        },
                    ),
                    g == old(self).grammar(),
                    start == old(self).state(),
                decreases target + 1 - self.cursor,
            {
                self.emit_token();
                assert(self.state().events =~= start.events + g.token_events(
                    start.cursor,
                    self.cursor as int,
                ));
            }
        }
    }

    /// Consumes every token that is left.
    fn drain(&mut self)
        requires
            old(self).inv(),
            old(self).nested(),
        ensures
            final(self).moved(old(self), old(self).grammar().drain(old(self).state())),
            final(self).state().cursor == final(self).grammar().len(),
    {
        let ghost g = self.grammar();
        let ghost start = self.state();
        assert(self.state().events =~= start.events + g.token_events(
            start.cursor,
            self.cursor as int,
        ));
        while self.cursor < self.tokens.len()
            invariant
                start.cursor <= self.cursor <= self.tokens@.len(),
                self.moved(
                    old(self),
                    State {
                        cursor: self.cursor as int,
                        events: start.events + g.token_events(start.cursor, self.cursor as int),
                        ..start
                    },
                ),
                g == old(self).grammar(),
                start == old(self).state(),
            decreases self.tokens@.len() - self.cursor,
        {
            self.emit_token();
            assert(self.state().events =~= start.events + g.token_events(
                start.cursor,
                self.cursor as int,
            ));
        }
    }

    /// The span for a diagnostic at the current position.
    fn current_span(&self) -> (span: Span)
        requires
            self.inv(),
        ensures
            span@ == self.grammar().current_span(self.state()),
            self.grammar().tokens_wf() ==> span@.wf(),
    {
        let pos = self.next_non_trivia();
        if pos < self.tokens.len() {
            self.tokens[pos].2.in_file(&self.file)
        } else if self.tokens.len() == 0 {
            Span {
                file: clone_opt_string(&self.file),
                start: 0,
                end: 0,
                line: 1,
                column: 0,
                line_content: None,
            }
        } else {
            let last = &self.tokens[self.tokens.len() - 1].2;
            let column = if last.column < usize::MAX {
                last.column + 1
            } else {
                usize::MAX
            };
            Span {
                file: clone_opt_string(&self.file),
                start: last.end,
                end: last.end,
                line: last.line,
                column,
                line_content: None,
            }
        }
    }

    /// True for the kinds at which recovery stops.
    fn is_sync_point(&self, kind: SyntaxKind) -> (b: bool)
        ensures
            b == is_sync_point_spec(kind),
    {
        match kind {
            SyntaxKind::SEMICOLON
            | SyntaxKind::NEWLINE
            | SyntaxKind::R_BRACE
            | SyntaxKind::IMPORT_KW
            | SyntaxKind::PUBLIC_KW
            | SyntaxKind::FUNCTION_KW
            | SyntaxKind::IF_KW
            | SyntaxKind::WHILE_KW
            | SyntaxKind::RETURN_KW => true,
            _ => false,
        }
    }

    /// Skips tokens up to a synchronisation point and consumes that too.
    fn skip_until_sync_point(&mut self)
        requires
            old(self).inv(),
            old(self).nested(),
        ensures
            final(self).moved(
                old(self),
                old(self).grammar().skip_until_sync_point(old(self).state()),
            ),
            old(self).grammar().peek(old(self).state()) is Some ==> old(self).grammar().advanced(
                old(self).state(),
                final(self).state(),
            ),
    {
        let ghost g = self.grammar();
        let ghost goal = g.skip_until_sync_point(self.state());
        loop
            invariant_except_break
                self.moved(old(self), self.state()),
                g.skip_until_sync_point(self.state()) == goal,
                g.peek(old(self).state()) is Some ==> (g.advanced(old(self).state(), self.state())
                    || self.state() == old(self).state()),
            invariant
                g == old(self).grammar(),
                goal == g.skip_until_sync_point(old(self).state()),
            ensures
                self.moved(old(self), goal),
                g.peek(old(self).state()) is Some ==> g.advanced(old(self).state(), self.state()),
            decreases self.tokens@.len() - self.cursor,
        {
            match self.peek_kind() {
                None => {
                    break ;
                },
                Some(kind) => {
                    let stop = self.is_sync_point(kind);
                    self.bump();
                    if stop {
                        break ;
                    }
                },
            }
        }
    }

    /// Panic-mode recovery: skips to a synchronisation point, consumes it
    /// and the terminators behind it. Consumes at least one token unless
    /// the input is at its end.
    fn synchronize(&mut self)
        requires
            old(self).inv(),
            old(self).nested(),
        ensures
            final(self).moved(old(self), old(self).grammar().synchronize(old(self).state())),
            old(self).grammar().peek(old(self).state()) is Some ==> old(self).grammar().advanced(
                old(self).state(),
                final(self).state(),
            ),
    {
        self.skip_until_sync_point();
        let ghost g = self.grammar();
        let ghost goal = g.skip_terminators(self.state());
        loop
            invariant_except_break
                self.moved(old(self), self.state()),
                g.skip_terminators(self.state()) == goal,
            invariant
                g == old(self).grammar(),
                g.peek(old(self).state()) is Some ==> g.advanced(old(self).state(), self.state()),
                goal == g.synchronize(old(self).state()),
                self.cursor <= self.tokens@.len(),
            ensures
                self.moved(old(self), goal),
            decreases self.tokens@.len() - self.cursor,
        {
            match self.peek_kind() {
                Some(SyntaxKind::SEMICOLON) | Some(SyntaxKind::NEWLINE) => {
                    self.bump();
                },
                _ => {
                    break ;
                },
            }
        }
    }

    /// Skips tokens up to, and without, one of `sync` or a newline.
    fn recover_until(&mut self, sync: &Vec<SyntaxKind>)
        requires
            old(self).inv(),
            old(self).nested(),
        ensures
            final(self).moved(old(self), old(self).grammar().recover_until(old(self).state(), sync@)),
    {
        let ghost g = self.grammar();
        let ghost goal = g.recover_until(self.state(), sync@);
        loop
            invariant_except_break
                self.moved(old(self), self.state()),
                g.recover_until(self.state(), sync@) == goal,
            invariant
                g == old(self).grammar(),
                self.cursor <= self.tokens@.len(),
            ensures
                self.moved(old(self), goal),
            decreases self.tokens@.len() - self.cursor,
        {
            match self.peek_kind() {
                None => {
                    break ;
                },
                Some(kind) => {
                    if contains_kind(sync, kind) || kind == SyntaxKind::NEWLINE {
                        break ;
                    }
                    self.bump();
                },
            }
        }
    }

    /// Leaves an empty `ERROR` node.
    fn error_node(&mut self)
        requires
            old(self).inv(),
            old(self).nested(),
        ensures
            final(self).moved(old(self), old(self).state().error_node()),
    {
        self.start_node(SyntaxKind::ERROR);
        self.finish_node();
    }

    /// Consumes a token of the given kind, or fails with a diagnostic,
    /// leaves an `ERROR` node and recovers.
    fn expect(&mut self, kind: SyntaxKind) -> (r: Result<(), ParserError>)
        requires
            old(self).inv(),
            old(self).nested(),
        ensures
            final(self).stepped(old(self), r, old(self).grammar().expect(old(self).state(), kind)),
            r is Ok || old(self).grammar().peek(old(self).state()) is Some
                ==> old(self).grammar().advanced(old(self).state(), final(self).state()),
    {
        if self.at(kind) {
            self.bump();
            Ok(())
        } else {
            let found = match self.peek_kind() {
                Some(k) => k.name(),
                None => SyntaxKind::EOF.name(),
            };
            let mut expected: Vec<String> = Vec::new();
            expected.push(String::from_str(kind.name()));
            assert(crate::text::strings_view(expected@) =~= seq![kind.name_spec()]);
            let err = ParserError::UnexpectedToken {
                expected,
                found: String::from_str(found),
                span: self.current_span(),
            };
            self.error_node();
            self.synchronize();
            Err(err)
        }
    }

    /// Consumes a token of one of the given kinds, or fails with a
    /// diagnostic; unless the input is at its end it then leaves an `ERROR`
    /// node and skips to the end of the statement or block.
    fn expect_one_of(&mut self, kinds: &Vec<SyntaxKind>) -> (r: Result<(), ParserError>)
        requires
            old(self).inv(),
            old(self).nested(),
        ensures
            final(self).stepped(
                old(self),
                r,
                old(self).grammar().expect_one_of(old(self).state(), kinds@),
            ),
            r is Ok ==> old(self).grammar().advanced(old(self).state(), final(self).state()),
    {
        match self.peek_kind() {
            Some(current) => {
                if contains_kind(kinds, current) {
                    self.bump();
                    Ok(())
                } else {
                    let err = ParserError::UnexpectedToken {
                        expected: kind_names(kinds),
                        found: String::from_str(current.name()),
                        span: self.current_span(),
                    };
                    self.error_node();
                    let sync = type_recovery_kinds();
                    self.recover_until(&sync);
                    Err(err)
                }
            },
            None => Err(
                ParserError::UnexpectedToken {
                    expected: kind_names(kinds),
                    found: String::from_str("end of file"),
                    span: self.current_span(),
                },
            ),
        }
    }
}

impl Parser {
    /// Records the diagnostic of a failed step.
    fn record(&mut self, r: Result<(), ParserError>)
        requires
            old(self).inv(),
            old(self).nested(),
            old(self).grammar().tokens_wf() ==> (error_view(r) matches Some(e) ==> e.span().wf()),
        ensures
            final(self).moved(old(self), old(self).state().record(error_view(r))),
    {
        match r {
            Ok(_) => {},
            Err(e) => {
                proof {
                    assert(parser_errors_view(self.diagnostics@.push(e)) =~= parser_errors_view(
                        self.diagnostics@,
                    ).push(e@));
                }
                self.diagnostics.push(e);
            },
        }
    }

    /// type-desc := `int` | `boolean`
    fn parse_type_desc(&mut self) -> (r: Result<(), ParserError>)
        requires
            old(self).inv(),
            old(self).nested(),
        ensures
            final(self).stepped(old(self), r, old(self).grammar().type_desc(old(self).state())),
            r is Ok ==> old(self).grammar().advanced(old(self).state(), final(self).state()),
    {
        self.start_node(SyntaxKind::TYPE_DESC);
        let kinds = type_keyword_kinds();
        let r = self.expect_one_of(&kinds);
        self.finish_node();
        r
    }

    /// param := type-desc IDENTIFIER
    fn parse_param(&mut self) -> (r: Result<(), ParserError>)
        requires
            old(self).inv(),
            old(self).nested(),
        ensures
            final(self).stepped(old(self), r, old(self).grammar().param(old(self).state())),
            r is Ok ==> old(self).grammar().advanced(old(self).state(), final(self).state()),
    {
        self.start_node(SyntaxKind::PARAM);
        let ty = self.parse_type_desc();
        let r = match ty {
            Err(e) => Err(e),
            Ok(_) => self.expect(SyntaxKind::IDENTIFIER),
        };
        self.finish_node();
        r
    }

    /// param-list := param (`,` param)*
    fn parse_param_list(&mut self) -> (r: Result<(), ParserError>)
        requires
            old(self).inv(),
            old(self).nested(),
        ensures
            final(self).stepped(old(self), r, old(self).grammar().param_list(old(self).state())),
    {
        self.start_node(SyntaxKind::PARAM_LIST);
        let ghost g = self.grammar();
        let ghost opened = *self;
        let ghost goal = g.params(self.state());
        let mut r: Result<(), ParserError> = Ok(());
        loop
            invariant_except_break
                self.moved(&opened, self.state()),
                g.params(self.state()) == goal,
            invariant
                g == opened.grammar(),
                goal == g.params(opened.state()),
                opened.inv(),
                opened.nested(),
            ensures
                self.stepped(&opened, r, goal),
            decreases self.tokens@.len() - self.cursor,
        {
            r = self.parse_param();
            if r.is_err() {
                break ;
            }
            if !self.at(SyntaxKind::COMMA) {
                break ;
            }
            self.bump();
        }
        self.finish_node();
        r
    }

    /// The part of a signature behind its opening parenthesis.
    fn parse_signature_tail(&mut self) -> (r: Result<(), ParserError>)
        requires
            old(self).inv(),
            old(self).nested(),
        ensures
            final(self).stepped(
                old(self),
                r,
                old(self).grammar().signature_tail(old(self).state()),
            ),
    {
        if !self.at(SyntaxKind::R_PAREN) {
            match self.parse_param_list() {
                Err(e) => {
                    return Err(e);
                },
                Ok(_) => {},
            }
        }
        match self.expect(SyntaxKind::R_PAREN) {
            Err(e) => {
                return Err(e);
            },
            Ok(_) => {},
        }
        if self.at(SyntaxKind::RETURNS_KW) {
            self.bump();
            self.parse_type_desc()
        } else {
            Ok(())
        }
    }

    /// signature := `(` param-list? `)` (`returns` type-desc)?
    fn parse_signature(&mut self) -> (r: Result<(), ParserError>)
        requires
            old(self).inv(),
            old(self).nested(),
        ensures
            final(self).stepped(old(self), r, old(self).grammar().signature(old(self).state())),
    {
        self.start_node(SyntaxKind::SIGNATURE);
        let r = match self.expect(SyntaxKind::L_PAREN) {
            Err(e) => Err(e),
            Ok(_) => self.parse_signature_tail(),
        };
        self.finish_node();
        r
    }

    /// statement := any run of tokens, closed by `;`
    fn parse_statement(&mut self) -> (r: Result<(), ParserError>)
        requires
            old(self).inv(),
            old(self).nested(),
        ensures
            final(self).stepped(old(self), r, old(self).grammar().statement(old(self).state())),
            !old(self).grammar().at_end(old(self).state()) ==> old(self).grammar().advanced(
                old(self).state(),
                final(self).state(),
            ),
    {
        self.start_node(SyntaxKind::STATEMENT);
        let ghost g = self.grammar();
        let ghost opened = *self;
        let ghost goal = g.statement_tokens(self.state());
        while !self.at(SyntaxKind::SEMICOLON) && !self.at_end()
            invariant
                self.moved(&opened, self.state()),
                g.statement_tokens(self.state()) == goal,
                g == opened.grammar(),
                opened.inv(),
                opened.nested(),
            decreases self.tokens@.len() - self.cursor,
        {
            self.bump();
        }
        let r = self.expect(SyntaxKind::SEMICOLON);
        self.finish_node();
        r
    }

    /// stmt-block := `{` statement* `}`
    fn parse_stmt_block(&mut self) -> (r: Result<(), ParserError>)
        requires
            old(self).inv(),
            old(self).nested(),
        ensures
            final(self).stepped(old(self), r, old(self).grammar().stmt_block(old(self).state())),
    {
        self.start_node(SyntaxKind::STMT_BLOCK);
        let r = match self.expect(SyntaxKind::L_BRACE) {
            Err(e) => Err(e),
            Ok(_) => {
                let ghost g = self.grammar();
                let ghost inside = *self;
                let ghost goal = g.statements(self.state());
                while !self.at(SyntaxKind::R_BRACE) && !self.at_end()
                    invariant
                        self.moved(&inside, self.state()),
                        g.statements(self.state()) == goal,
                        g == inside.grammar(),
                        inside.inv(),
                        inside.nested(),
                    decreases self.tokens@.len() - self.cursor,
                {
                    let one = self.parse_statement();
                    if one.is_err() {
                        self.record(one);
                        self.synchronize();
                    }
                }
                self.expect(SyntaxKind::R_BRACE)
            },
        };
        self.finish_node();
        r
    }

    /// The part of a function definition behind the optional `public`.
    fn parse_function_tail(&mut self) -> (r: Result<(), ParserError>)
        requires
            old(self).inv(),
            old(self).nested(),
        ensures
            final(self).stepped(
                old(self),
                r,
                old(self).grammar().function_tail(old(self).state()),
            ),
            !old(self).grammar().at_end(old(self).state()) ==> old(self).grammar().advanced(
                old(self).state(),
                final(self).state(),
            ),
    {
        match self.expect(SyntaxKind::FUNCTION_KW) {
            Err(e) => {
                return Err(e);
            },
            Ok(_) => {},
        }
        match self.expect(SyntaxKind::IDENTIFIER) {
            Err(e) => {
                return Err(e);
            },
            Ok(_) => {},
        }
        match self.parse_signature() {
            Err(e) => {
                return Err(e);
            },
            Ok(_) => {},
        }
        self.parse_stmt_block()
    }

    /// function-def := `public`? `function` IDENTIFIER signature stmt-block
    fn parse_function_def(&mut self) -> (r: Result<(), ParserError>)
        requires
            old(self).inv(),
            old(self).nested(),
        ensures
            final(self).stepped(old(self), r, old(self).grammar().function_def(old(self).state())),
            !old(self).grammar().at_end(old(self).state()) ==> old(self).grammar().advanced(
                old(self).state(),
                final(self).state(),
            ),
    {
        self.start_node(SyntaxKind::FUNCTION_DEF);
        if self.at(SyntaxKind::PUBLIC_KW) {
            self.bump();
        }
        let r = self.parse_function_tail();
        self.finish_node();
        r
    }

    /// module-decl := function-def
    fn parse_module_decl(&mut self) -> (r: Result<(), ParserError>)
        requires
            old(self).inv(),
            old(self).nested(),
        ensures
            final(self).stepped(old(self), r, old(self).grammar().module_decl(old(self).state())),
            !old(self).grammar().at_end(old(self).state()) ==> old(self).grammar().advanced(
                old(self).state(),
                final(self).state(),
            ),
    {
        self.parse_function_def()
    }

    /// The tokens of an import declaration.
    fn parse_import_tail(&mut self) -> (r: Result<(), ParserError>)
        requires
            old(self).inv(),
            old(self).nested(),
        ensures
            final(self).stepped(old(self), r, old(self).grammar().import_tail(old(self).state())),
            old(self).grammar().at(old(self).state(), SyntaxKind::IMPORT_KW)
                ==> old(self).grammar().advanced(old(self).state(), final(self).state()),
    {
        match self.expect(SyntaxKind::IMPORT_KW) {
            Err(e) => {
                return Err(e);
            },
            Ok(_) => {},
        }
        match self.expect(SyntaxKind::IDENTIFIER) {
            Err(e) => {
                return Err(e);
            },
            Ok(_) => {},
        }
        match self.expect(SyntaxKind::SLASH) {
            Err(e) => {
                return Err(e);
            },
            Ok(_) => {},
        }
        match self.expect(SyntaxKind::IDENTIFIER) {
            Err(e) => {
                return Err(e);
            },
            Ok(_) => {},
        }
        match self.expect(SyntaxKind::SEMICOLON) {
            Err(_) => Err(
                ParserError::MissingToken {
                    expected: String::from_str("semicolon"),
                    after: String::from_str("import statement"),
                    span: self.current_span(),
                },
            ),
            Ok(_) => Ok(()),
        }
    }

    /// import-decl := `import` IDENTIFIER `/` IDENTIFIER `;`
    fn parse_import_decl(&mut self) -> (r: Result<(), ParserError>)
        requires
            old(self).inv(),
            old(self).nested(),
        ensures
            final(self).stepped(old(self), r, old(self).grammar().import_decl(old(self).state())),
            old(self).grammar().at(old(self).state(), SyntaxKind::IMPORT_KW)
                ==> old(self).grammar().advanced(old(self).state(), final(self).state()),
    {
        self.start_node(SyntaxKind::IMPORT_DECL);
        let r = self.parse_import_tail();
        self.finish_node();
        r
    }

    /// module-part := import-decl* module-decl*
    ///
    /// Builds the whole tree: the root is the module part, and the trivia
    /// at the end of the input are its last children.
    fn parse_module_part(&mut self)
        requires
            old(self).state() == Grammar::start(),
        ensures
            final(self).grammar() == old(self).grammar(),
            final(self).state() == old(self).grammar().parse(),
            final(self).cursor == final(self).tokens@.len(),
            is_tree(final(self).walk()),
            leaves(final(self).walk()) == final(self).grammar().all_leaves(),
            old(self).grammar().tokens_wf() ==> spans_wf(final(self).state().diagnostics),
    {
        let ghost g = self.grammar();
        proof {
            assert(g.leaves_upto(0) =~= Seq::<TreeEvent>::empty());
        }
        self.push_event(Event::StartNode { kind: SyntaxKind::MODULE_PART });
        let ghost opened = *self;
        let ghost imports_goal = g.imports(self.state());
        while self.at(SyntaxKind::IMPORT_KW)
            invariant
                self.moved(&opened, self.state()),
                self.depth() == 1,
                g.imports(self.state()) == imports_goal,
                g == opened.grammar(),
                opened.inv(),
                opened.nested(),
            decreases self.tokens@.len() - self.cursor,
        {
            let r = self.parse_import_decl();
            self.record(r);
        }
        let ghost declarations_goal = g.declarations(self.state());
        while !self.at_end()
            invariant
                self.moved(&opened, self.state()),
                self.depth() == 1,
                g.declarations(self.state()) == declarations_goal,
                g == opened.grammar(),
                opened.inv(),
                opened.nested(),
            decreases self.tokens@.len() - self.cursor,
        {
            let r = self.parse_module_decl();
            self.record(r);
        }
        self.drain();
        self.push_event(Event::FinishNode);
    }

    /// Parses the whole input.
    fn parse_source_file(&mut self)
        requires
            old(self).state() == Grammar::start(),
        ensures
            final(self).grammar() == old(self).grammar(),
            final(self).state() == old(self).grammar().parse(),
            final(self).cursor == final(self).tokens@.len(),
            is_tree(final(self).walk()),
            leaves(final(self).walk()) == final(self).grammar().all_leaves(),
            old(self).grammar().tokens_wf() ==> spans_wf(final(self).state().diagnostics),
    {
        self.parse_module_part();
    }

    /// Parses the input into the events of its tree and its diagnostics.
    ///
    /// The result is that of [`Grammar::parse`]. For every input the events
    /// are the walk of one tree, every token of the input is a leaf of that
    /// tree, in the order of the input, and the text of the tree is the
    /// text of the input. Where the spans of the tokens are well formed,
    /// those of the diagnostics are too.
    pub fn parse_events(self) -> (r: (Vec<Event>, Vec<ParserError>))
        requires
            self.state() == Grammar::start(),
        ensures
            events_view(r.0@) == self.grammar().parse().events,
            parser_errors_view(r.1@) == self.grammar().parse().diagnostics,
            self.grammar().parse().cursor == self.grammar().len(),
            is_tree(raw_events(events_view(r.0@))),
            leaves(raw_events(events_view(r.0@))) == self.grammar().all_leaves(),
            text_of(raw_events(events_view(r.0@))) == self.grammar().source_text(),
            text_bytes(raw_events(events_view(r.0@))) == self.grammar().source_bytes(),
            self.grammar().tokens_wf() ==> spans_wf(self.grammar().parse().diagnostics),
    {
        let mut parser = self;
        parser.parse_source_file();
        proof {
            lemma_text_of_leaves(parser.walk());
        }
        (parser.events, parser.diagnostics)
    }

    /// Parses the input into a lossless tree and its diagnostics.
    ///
    /// The tree is the one whose walk is the events of [`Grammar::parse`],
    /// and its text is the text of the input. The texts of the tokens must
    /// fit the tree's 32-bit text size together.
    pub fn parse(self) -> (r: (rowan::GreenNode, Vec<ParserError>))
        requires
            self.state() == Grammar::start(),
            self.grammar().source_bytes() <= u32::MAX,
        ensures
            tree_events(r.0) == raw_events(self.grammar().parse().events),
            parser_errors_view(r.1@) == self.grammar().parse().diagnostics,
            is_tree(tree_events(r.0)),
            leaves(tree_events(r.0)) == self.grammar().all_leaves(),
            text_of(tree_events(r.0)) == self.grammar().source_text(),
            self.grammar().tokens_wf() ==> spans_wf(self.grammar().parse().diagnostics),
    {
        let (events, diagnostics) = self.parse_events();
        let tree = build_tree(events);
        (tree, diagnostics)
    }
}

impl Grammar {
    /// The text of the first `n + 1` tokens is that of the first `n` and
    /// of token `n`.
    pub proof fn lemma_bytes_step(self, n: int)
        requires
            0 <= n < self.len(),
        ensures
            text_bytes(self.leaves_upto(n + 1)) == text_bytes(self.leaves_upto(n))
                + vstd::utf8::encode_utf8(self.tokens[n].text).len(),
    {
        let next = self.leaves_upto(n + 1);
        assert(next.drop_last() =~= self.leaves_upto(n));
    }

    /// More tokens have no less text.
    pub proof fn lemma_bytes_grow(self, n: int, m: int)
        requires
            0 <= n <= m <= self.len(),
        ensures
            text_bytes(self.leaves_upto(n)) <= text_bytes(self.leaves_upto(m)),
        decreases m - n,
    {
        if n < m {
            self.lemma_bytes_step(m - 1);
            self.lemma_bytes_grow(n, m - 1);
        }
    }
}

impl Parser {
    /// Whether the texts of all tokens together fit the 32-bit text size
    /// of a tree, which [`Parser::parse`] requires.
    pub fn within_limit(&self) -> (b: bool)
        ensures
            b == (self.grammar().source_bytes() <= u32::MAX),
    {
        let ghost g = self.grammar();
        let mut total: u32 = 0;
        let mut i: usize = 0;
        while i < self.tokens.len()
            invariant
                i <= self.tokens@.len(),
                g == self.grammar(),
                total == text_bytes(g.leaves_upto(i as int)),
            decreases self.tokens@.len() - i,
        {
            let len = self.tokens[i].1.as_str().as_bytes().len();
            proof {
                g.lemma_bytes_step(i as int);
                g.lemma_bytes_grow(i + 1, g.len());
            }
            if len > (u32::MAX - total) as usize {
                return false;
            }
            total = total + len as u32;
            i += 1;
        }
        true
    }
}

/// Parsing is deterministic: two parsers that run on the same tokens from
/// the same file yield the same events, hence structurally identical trees,
/// and the same diagnostics.
pub proof fn law_parse_deterministic(first: &Parser, second: &Parser)
    requires
        first.grammar().tokens == second.grammar().tokens,
        first.grammar().file == second.grammar().file,
    ensures
        first.grammar().parse().events == second.grammar().parse().events,
        raw_events(first.grammar().parse().events) == raw_events(
            second.grammar().parse().events,
        ),
        first.grammar().parse().diagnostics == second.grammar().parse().diagnostics,
{
}

impl Parser {
    /// Parses the input into a lossless tree and its diagnostics, unless
    /// the texts of the tokens exceed the text size of a tree (see
    /// [`Parser::within_limit`]).
    pub fn try_parse(self) -> (r: Option<(rowan::GreenNode, Vec<ParserError>)>)
        requires
            self.state() == Grammar::start(),
        ensures
            r is Some <==> self.grammar().source_bytes() <= u32::MAX,
            r matches Some((tree, diagnostics)) ==> {
                &&& tree_events(tree) == raw_events(self.grammar().parse().events)
                &&& parser_errors_view(diagnostics@) == self.grammar().parse().diagnostics
                &&& text_of(tree_events(tree)) == self.grammar().source_text()
            },
    {
        if self.within_limit() {
            Some(self.parse())
        } else {
            None
        }
    }
}

/// Builds the tree of a sequence of events that is the walk of one.
pub fn build_tree(events: Vec<Event>) -> (tree: rowan::GreenNode)
    requires
        is_tree(raw_events(events_view(events@))),
        text_bytes(raw_events(events_view(events@))) <= u32::MAX,
    ensures
        tree_events(tree) == raw_events(events_view(events@)),
{
    let ghost walk = raw_events(events_view(events@));
    let mut sink = Sink::new();
    let mut i: usize = 0;
    while i < events.len()
        invariant
            i <= events@.len(),
            sink.wf(),
            sink.events() == walk.subrange(0, i as int),
            walk == raw_events(events_view(events@)),
            is_tree(walk),
            text_bytes(walk) <= u32::MAX,
        decreases events@.len() - i,
    {
        proof {
            lemma_tree_prefix_accepted(walk, i as int);
        }
        let e = events[i].clone();
        let accepted = sink.process(e);
        i += 1;
    }
    assert(walk.subrange(0, i as int) =~= walk);
    match sink.finish() {
        Ok(tree) => tree,
        Err(_) => vstd::pervasive::unreached(),
    }
}

/// Membership of a kind in a list.
fn contains_kind(kinds: &Vec<SyntaxKind>, kind: SyntaxKind) -> (b: bool)
    ensures
        b == kinds@.contains(kind),
{
    let mut i: usize = 0;
    while i < kinds.len()
        invariant
            i <= kinds@.len(),
            forall|j: int| 0 <= j < i ==> kinds@[j] != kind,
        decreases kinds@.len() - i,
    {
        if kinds[i] == kind {
            return true;
        }
        i += 1;
    }
    false
}

/// The names of a list of kinds.
fn kind_names(kinds: &Vec<SyntaxKind>) -> (names: Vec<String>)
    ensures
        crate::text::strings_view(names@) == names_of(kinds@),
{
    let mut names: Vec<String> = Vec::new();
    let mut i: usize = 0;
    while i < kinds.len()
        invariant
            i <= kinds@.len(),
            names@.len() == i,
            forall|j: int| 0 <= j < i ==> names@[j]@ == kinds@[j].name_spec(),
        decreases kinds@.len() - i,
    {
        names.push(String::from_str(kinds[i].name()));
        i += 1;
    }
    names
}

/// The kinds that may stand for a type, as a list.
fn type_keyword_kinds() -> (kinds: Vec<SyntaxKind>)
    ensures
        kinds@ == type_keywords(),
{
    let mut kinds: Vec<SyntaxKind> = Vec::new();
    kinds.push(SyntaxKind::INT_KW);
    kinds.push(SyntaxKind::BOOLEAN_KW);
    kinds
}

/// The kinds at which recovery from a bad type stops, as a list.
fn type_recovery_kinds() -> (kinds: Vec<SyntaxKind>)
    ensures
        kinds@ == type_recovery_set(),
{
    let mut kinds: Vec<SyntaxKind> = Vec::new();
    kinds.push(SyntaxKind::SEMICOLON);
    kinds.push(SyntaxKind::R_BRACE);
    kinds
}

} // verus!
