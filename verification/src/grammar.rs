//! The grammar, as a mathematical function from tokens to events.
//!
//! ```text
//! module-part  := import-decl* module-decl*
//! import-decl  := `import` IDENTIFIER `/` IDENTIFIER `;`
//! module-decl  := function-def
//! function-def := `public`? `function` IDENTIFIER signature stmt-block
//! signature    := `(` param-list? `)` (`returns` type-desc)?
//! param-list   := param (`,` param)*
//! param        := type-desc IDENTIFIER
//! type-desc    := `int` | `boolean`
//! stmt-block   := `{` statement* `}`
//! statement    := any run of tokens, closed by `;`
//! ```
//!
//! Every rule opens one node and closes it before it returns, also when it
//! fails. Lookahead skips trivia; consuming a token first moves the trivia
//! in front of it into the tree, so that no token is lost. A failed
//! expectation leaves an empty `ERROR` node and recovers in panic mode.
//!
//! The functions here say what the parser computes; [`crate::parser`] holds
//! the code that computes it. A rule that repeats is written as a recursion
//! that goes on while the parse advances. It always does: the parser
//! proves so, and with it that every parse ends.

use crate::error::{ParserErrorView, SpanView};
use crate::event::EventView;
use crate::kind::SyntaxKind;
use vstd::prelude::*;

verus! {

/// Mathematical value of a token as the parser receives it.
pub struct TokenView {
    pub kind: SyntaxKind,
    pub text: Seq<char>,
    pub span: SpanView,
}

/// What a parse is run on: the tokens and the name of their file.
pub struct Grammar {
    pub tokens: Seq<TokenView>,
    pub file: Option<Seq<char>>,
}

/// What a parse has done so far: the number of tokens consumed, the events
/// emitted and the diagnostics recorded.
pub struct State {
    pub cursor: int,
    pub events: Seq<EventView>,
    pub diagnostics: Seq<ParserErrorView>,
}

/// Outcome of a rule: the state it leaves, and the diagnostic with which it
/// failed, if it did.
pub struct Step {
    pub state: State,
    pub error: Option<ParserErrorView>,
}

/// Kinds at which panic-mode recovery stops: the ends of statements and
/// declarations, and the keywords that start a new one.
pub open spec fn is_sync_point_spec(kind: SyntaxKind) -> bool {
    kind == SyntaxKind::SEMICOLON || kind == SyntaxKind::NEWLINE || kind == SyntaxKind::R_BRACE
        || kind == SyntaxKind::IMPORT_KW || kind == SyntaxKind::PUBLIC_KW || kind
        == SyntaxKind::FUNCTION_KW || kind == SyntaxKind::IF_KW || kind == SyntaxKind::WHILE_KW
        || kind == SyntaxKind::RETURN_KW
}

/// Kinds that end a statement.
pub open spec fn is_terminator_spec(kind: SyntaxKind) -> bool {
    kind == SyntaxKind::SEMICOLON || kind == SyntaxKind::NEWLINE
}

/// The names of a list of kinds.
pub open spec fn names_of(kinds: Seq<SyntaxKind>) -> Seq<Seq<char>> {
    Seq::new(kinds.len(), |i: int| kinds[i].name_spec())
}

/// The kinds that may stand for a type.
pub open spec fn type_keywords() -> Seq<SyntaxKind> {
    seq![SyntaxKind::INT_KW, SyntaxKind::BOOLEAN_KW]
}

/// The kinds at which recovery from a bad type stops, without consuming.
pub open spec fn type_recovery_set() -> Seq<SyntaxKind> {
    seq![SyntaxKind::SEMICOLON, SyntaxKind::R_BRACE]
}

/// The largest column that a span can hold.
pub open spec fn column_limit() -> nat {
    usize::MAX as nat
}

impl State {
    /// The state with one more event.
    pub open spec fn emit(self, e: EventView) -> State {
        State { events: self.events.push(e), ..self }
    }

    /// The state after opening a node.
    pub open spec fn open(self, kind: SyntaxKind) -> State {
        self.emit(EventView::StartNode { kind })
    }

    /// The state after closing the innermost node.
    pub open spec fn close(self) -> State {
        self.emit(EventView::FinishNode)
    }

    /// The state after leaving an empty `ERROR` node.
    pub open spec fn error_node(self) -> State {
        self.open(SyntaxKind::ERROR).close()
    }

    /// The state with the diagnostic of a failed step recorded.
    pub open spec fn record(self, error: Option<ParserErrorView>) -> State {
        match error {
            Some(e) => State { diagnostics: self.diagnostics.push(e), ..self },
            None => self,
        }
    }
}

impl Step {
    /// A step that succeeded.
    pub open spec fn ok(state: State) -> Step {
        Step { state, error: None }
    }

    /// The step, with the node closed that the rule had opened.
    pub open spec fn closed(self) -> Step {
        Step { state: self.state.close(), error: self.error }
    }

    /// The state after the step, with its diagnostic recorded.
    pub open spec fn recorded(self) -> State {
        self.state.record(self.error)
    }
}

/// Every diagnostic points at a well-formed span.
pub open spec fn spans_wf(diagnostics: Seq<ParserErrorView>) -> bool {
    forall|i: int| 0 <= i < diagnostics.len() ==> (#[trigger] diagnostics[i]).span().wf()
}

impl Grammar {
    /// Every token has a well-formed span.
    pub open spec fn tokens_wf(self) -> bool {
        forall|i: int| 0 <= i < self.tokens.len() ==> (#[trigger] self.tokens[i]).span.wf()
    }

    /// Number of tokens.
    pub open spec fn len(self) -> int {
        self.tokens.len() as int
    }

    /// The state before anything is parsed.
    pub open spec fn start() -> State {
        State { cursor: 0, events: Seq::empty(), diagnostics: Seq::empty() }
    }

    /// `to` is a state further into the tokens than `from`.
    pub open spec fn advanced(self, from: State, to: State) -> bool {
        from.cursor < to.cursor <= self.len()
    }

    /// Index of the first token at or behind `pos` that is no trivia; the
    /// number of tokens where there is none.
    pub open spec fn next_significant(self, pos: int) -> int
        decreases self.len() - pos,
    {
        if 0 <= pos < self.len() && self.tokens[pos].kind.is_trivia_spec() {
            self.next_significant(pos + 1)
        } else {
            pos
        }
    }

    /// The kind of the next significant token.
    pub open spec fn peek(self, st: State) -> Option<SyntaxKind> {
        let p = self.next_significant(st.cursor);
        if 0 <= p < self.len() {
            Some(self.tokens[p].kind)
        } else {
            None
        }
    }

    /// The next significant token has the given kind.
    pub open spec fn at(self, st: State, kind: SyntaxKind) -> bool {
        self.peek(st) == Some(kind)
    }

    /// No significant token is left.
    pub open spec fn at_end(self, st: State) -> bool {
        self.peek(st) is None
    }

    /// The next significant token starts a function definition.
    pub open spec fn at_function_start(self, st: State) -> bool {
        self.at(st, SyntaxKind::FUNCTION_KW) || self.at(st, SyntaxKind::PUBLIC_KW)
    }

    /// The event that puts token `i` into the tree.
    pub open spec fn token_event(self, i: int) -> EventView {
        EventView::AddToken { kind: self.tokens[i].kind, text: self.tokens[i].text }
    }

    /// The events that put the tokens `from..to` into the tree.
    pub open spec fn token_events(self, from: int, to: int) -> Seq<EventView> {
        Seq::new((to - from) as nat, |i: int| self.token_event(from + i))
    }

    /// Consumes the next significant token, together with the trivia in
    /// front of it. Consumes nothing where no significant token is left.
    pub open spec fn bump(self, st: State) -> State {
        let p = self.next_significant(st.cursor);
        if st.cursor <= p < self.len() {
            State {
                cursor: p + 1,
                events: st.events + self.token_events(st.cursor, p + 1),
                ..st
            }
        } else {
            st
        }
    }

    /// Consumes all tokens that are left.
    pub open spec fn drain(self, st: State) -> State {
        if st.cursor <= self.len() {
            State {
                cursor: self.len(),
                events: st.events + self.token_events(st.cursor, self.len()),
                ..st
            }
        } else {
            st
        }
    }

    /// The span for a diagnostic at the end of the input: an empty region
    /// behind the last token, one column to its right.
    pub open spec fn end_span(self) -> SpanView {
        if self.len() == 0 {
            SpanView { file: self.file, start: 0, end: 0, line: 1, column: 0, line_content: None }
        } else {
            let last = self.tokens[self.len() - 1].span;
            SpanView {
                file: self.file,
                start: last.end,
                end: last.end,
                line: last.line,
                column: if last.column < column_limit() {
                    last.column + 1
                } else {
                    column_limit()
                },
                line_content: None,
            }
        }
    }

    /// The span for a diagnostic at the current position: the span of the
    /// next significant token, or the end of the input.
    pub open spec fn current_span(self, st: State) -> SpanView {
        let p = self.next_significant(st.cursor);
        if 0 <= p < self.len() {
            SpanView { file: self.file, ..self.tokens[p].span }
        } else {
            self.end_span()
        }
    }

    /// The name under which a diagnostic mentions what was found.
    pub open spec fn found_name(self, st: State) -> Seq<char> {
        match self.peek(st) {
            Some(kind) => kind.name_spec(),
            None => SyntaxKind::EOF.name_spec(),
        }
    }

    /// Skips tokens up to a synchronisation point and consumes that too.
    pub open spec fn skip_until_sync_point(self, st: State) -> State
        decreases self.len() - st.cursor,
    {
        match self.peek(st) {
            None => st,
            Some(kind) => {
                let next = self.bump(st);
                if is_sync_point_spec(kind) || !self.advanced(st, next) {
                    next
                } else {
                    self.skip_until_sync_point(next)
                }
            },
        }
    }

    /// Consumes the statement terminators that follow.
    pub open spec fn skip_terminators(self, st: State) -> State
        decreases self.len() - st.cursor,
    {
        match self.peek(st) {
            None => st,
            Some(kind) => {
                let next = self.bump(st);
                if is_terminator_spec(kind) && self.advanced(st, next) {
                    self.skip_terminators(next)
                } else {
                    st
                }
            },
        }
    }

    /// Panic-mode recovery: skips to a synchronisation point, consumes it
    /// and the terminators behind it.
    pub open spec fn synchronize(self, st: State) -> State {
        self.skip_terminators(self.skip_until_sync_point(st))
    }

    /// Skips tokens up to, and without, one of `sync` or a newline.
    pub open spec fn recover_until(self, st: State, sync: Seq<SyntaxKind>) -> State
        decreases self.len() - st.cursor,
    {
        match self.peek(st) {
            None => st,
            Some(kind) => {
                let next = self.bump(st);
                if sync.contains(kind) || kind == SyntaxKind::NEWLINE || !self.advanced(st, next) {
                    st
                } else {
                    self.recover_until(next, sync)
                }
            },
        }
    }

    /// Consumes a token of the given kind. Where another token stands, or
    /// none, the step fails with `UnexpectedToken`, leaves an `ERROR` node
    /// and recovers.
    pub open spec fn expect(self, st: State, kind: SyntaxKind) -> Step {
        if self.at(st, kind) {
            Step::ok(self.bump(st))
        } else {
            Step {
                state: self.synchronize(st.error_node()),
                error: Some(
                    ParserErrorView::UnexpectedToken {
                        expected: seq![kind.name_spec()],
                        found: self.found_name(st),
                        span: self.current_span(st),
                    },
                ),
            }
        }
    }

    /// Consumes a token of one of the given kinds. Where another token
    /// stands, the step fails, leaves an `ERROR` node and skips to the end
    /// of the statement or block; at the end of the input it only fails.
    pub open spec fn expect_one_of(self, st: State, kinds: Seq<SyntaxKind>) -> Step {
        match self.peek(st) {
            Some(current) => {
                if kinds.contains(current) {
                    Step::ok(self.bump(st))
                } else {
                    Step {
                        state: self.recover_until(st.error_node(), type_recovery_set()),
                        error: Some(
                            ParserErrorView::UnexpectedToken {
                                expected: names_of(kinds),
                                found: current.name_spec(),
                                span: self.current_span(st),
                            },
                        ),
                    }
                }
            },
            None => Step {
                state: st,
                error: Some(
                    ParserErrorView::UnexpectedToken {
                        expected: names_of(kinds),
                        found: "end of file"@,
                        span: self.current_span(st),
                    },
                ),
            },
        }
    }

    /// type-desc := `int` | `boolean`
    pub open spec fn type_desc(self, st: State) -> Step {
        self.expect_one_of(st.open(SyntaxKind::TYPE_DESC), type_keywords()).closed()
    }

    /// param := type-desc IDENTIFIER
    pub open spec fn param(self, st: State) -> Step {
        let ty = self.type_desc(st.open(SyntaxKind::PARAM));
        if ty.error is Some {
            ty.closed()
        } else {
            self.expect(ty.state, SyntaxKind::IDENTIFIER).closed()
        }
    }

    /// param (`,` param)*
    pub open spec fn params(self, st: State) -> Step
        decreases self.len() - st.cursor,
    {
        let first = self.param(st);
        if first.error is Some || !self.at(first.state, SyntaxKind::COMMA) {
            first
        } else {
            let next = self.bump(first.state);
            if self.advanced(st, next) {
                self.params(next)
            } else {
                Step::ok(next)
            }
        }
    }

    /// param-list := param (`,` param)*
    pub open spec fn param_list(self, st: State) -> Step {
        self.params(st.open(SyntaxKind::PARAM_LIST)).closed()
    }

    /// The part of a signature behind its opening parenthesis.
    pub open spec fn signature_tail(self, st: State) -> Step {
        let list = if self.at(st, SyntaxKind::R_PAREN) {
            Step::ok(st)
        } else {
            self.param_list(st)
        };
        if list.error is Some {
            list
        } else {
            let paren = self.expect(list.state, SyntaxKind::R_PAREN);
            if paren.error is Some || !self.at(paren.state, SyntaxKind::RETURNS_KW) {
                paren
            } else {
                self.type_desc(self.bump(paren.state))
            }
        }
    }

    /// signature := `(` param-list? `)` (`returns` type-desc)?
    pub open spec fn signature(self, st: State) -> Step {
        let paren = self.expect(st.open(SyntaxKind::SIGNATURE), SyntaxKind::L_PAREN);
        if paren.error is Some {
            paren.closed()
        } else {
            self.signature_tail(paren.state).closed()
        }
    }

    /// Consumes the tokens in front of the next semicolon.
    pub open spec fn statement_tokens(self, st: State) -> State
        decreases self.len() - st.cursor,
    {
        if self.at(st, SyntaxKind::SEMICOLON) || self.at_end(st) {
            st
        } else {
            let next = self.bump(st);
            if self.advanced(st, next) {
                self.statement_tokens(next)
            } else {
                next
            }
        }
    }

    /// statement := any run of tokens, closed by `;`
    pub open spec fn statement(self, st: State) -> Step {
        self.expect(
            self.statement_tokens(st.open(SyntaxKind::STATEMENT)),
            SyntaxKind::SEMICOLON,
        ).closed()
    }

    /// statement*, up to a closing brace or the end of the input. A
    /// statement that fails is recorded and recovered from.
    pub open spec fn statements(self, st: State) -> State
        decreases self.len() - st.cursor,
    {
        if self.at(st, SyntaxKind::R_BRACE) || self.at_end(st) {
            st
        } else {
            let one = self.statement(st);
            let next = if one.error is Some {
                self.synchronize(one.recorded())
            } else {
                one.state
            };
            if self.advanced(st, next) {
                self.statements(next)
            } else {
                next
            }
        }
    }

    /// stmt-block := `{` statement* `}`
    pub open spec fn stmt_block(self, st: State) -> Step {
        let brace = self.expect(st.open(SyntaxKind::STMT_BLOCK), SyntaxKind::L_BRACE);
        if brace.error is Some {
            brace.closed()
        } else {
            self.expect(self.statements(brace.state), SyntaxKind::R_BRACE).closed()
        }
    }

    /// The part of a function definition behind the optional `public`.
    pub open spec fn function_tail(self, st: State) -> Step {
        let keyword = self.expect(st, SyntaxKind::FUNCTION_KW);
        if keyword.error is Some {
            keyword
        } else {
            let name = self.expect(keyword.state, SyntaxKind::IDENTIFIER);
            if name.error is Some {
                name
            } else {
                let signature = self.signature(name.state);
                if signature.error is Some {
                    signature
                } else {
                    self.stmt_block(signature.state)
                }
            }
        }
    }

    /// function-def := `public`? `function` IDENTIFIER signature stmt-block
    pub open spec fn function_def(self, st: State) -> Step {
        let opened = st.open(SyntaxKind::FUNCTION_DEF);
        let modifier = if self.at(opened, SyntaxKind::PUBLIC_KW) {
            self.bump(opened)
        } else {
            opened
        };
        self.function_tail(modifier).closed()
    }

    /// module-decl := function-def
    pub open spec fn module_decl(self, st: State) -> Step {
        self.function_def(st)
    }

    /// The diagnostic for an import that lacks its semicolon.
    pub open spec fn missing_semicolon(self, st: State) -> ParserErrorView {
        ParserErrorView::MissingToken {
            expected: "semicolon"@,
            after: "import statement"@,
            span: self.current_span(st),
        }
    }

    /// The tokens of an import declaration.
    pub open spec fn import_tail(self, st: State) -> Step {
        let keyword = self.expect(st, SyntaxKind::IMPORT_KW);
        if keyword.error is Some {
            keyword
        } else {
            let org = self.expect(keyword.state, SyntaxKind::IDENTIFIER);
            if org.error is Some {
                org
            } else {
                let slash = self.expect(org.state, SyntaxKind::SLASH);
                if slash.error is Some {
                    slash
                } else {
                    let module = self.expect(slash.state, SyntaxKind::IDENTIFIER);
                    if module.error is Some {
                        module
                    } else {
                        let semicolon = self.expect(module.state, SyntaxKind::SEMICOLON);
                        if semicolon.error is Some {
                            Step {
                                state: semicolon.state,
                                error: Some(self.missing_semicolon(semicolon.state)),
                            }
                        } else {
                            semicolon
                        }
                    }
                }
            }
        }
    }

    /// import-decl := `import` IDENTIFIER `/` IDENTIFIER `;`
    pub open spec fn import_decl(self, st: State) -> Step {
        self.import_tail(st.open(SyntaxKind::IMPORT_DECL)).closed()
    }

    /// import-decl*: one declaration for each `import` in front. A
    /// declaration that fails is recorded.
    pub open spec fn imports(self, st: State) -> State
        decreases self.len() - st.cursor,
    {
        if !self.at(st, SyntaxKind::IMPORT_KW) {
            st
        } else {
            let next = self.import_decl(st).recorded();
            if self.advanced(st, next) {
                self.imports(next)
            } else {
                next
            }
        }
    }

    /// module-decl*, up to the end of the input. A declaration that fails
    /// is recorded; whatever stands where a declaration should start is
    /// taken as a failed one, so that every token is consumed.
    pub open spec fn declarations(self, st: State) -> State
        decreases self.len() - st.cursor,
    {
        if self.at_end(st) {
            st
        } else {
            let next = self.module_decl(st).recorded();
            if self.advanced(st, next) {
                self.declarations(next)
            } else {
                next
            }
        }
    }

    /// module-part := import-decl* module-decl*, followed by the trivia at
    /// the end of the input.
    pub open spec fn module_part(self, st: State) -> State {
        self.drain(self.declarations(self.imports(st.open(SyntaxKind::MODULE_PART)))).close()
    }

    /// The whole parse.
    pub open spec fn parse(self) -> State {
        self.module_part(Grammar::start())
    }
}

} // verus!
