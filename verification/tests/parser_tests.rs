use bal_frontend::error::{ParserError, Span};
use bal_frontend::event::Event;
use bal_frontend::kind::SyntaxKind;
use bal_frontend::lexer::{Lexer, Token};
use bal_frontend::parser::{build_tree, Parser};
use rowan::{GreenNode, GreenNodeData, NodeOrToken};

fn tokenize(input: &str) -> Vec<(SyntaxKind, String, Span)> {
    let mut lexer = Lexer::new(input);
    let mut tokens = Vec::new();

    while let Some(result) = lexer.next_token() {
        if let Ok(token_info) = result {
            // Skip whitespace and newlines
            match token_info.kind {
                Token::Import => tokens.push((SyntaxKind::IMPORT_KW, token_info.text, token_info.span)),
                Token::Public => tokens.push((SyntaxKind::PUBLIC_KW, token_info.text, token_info.span)),
                Token::Function => tokens.push((SyntaxKind::FUNCTION_KW, token_info.text, token_info.span)),
                Token::Returns => tokens.push((SyntaxKind::RETURNS_KW, token_info.text, token_info.span)),
                Token::Int => tokens.push((SyntaxKind::INT_KW, token_info.text, token_info.span)),
                Token::Boolean => tokens.push((SyntaxKind::BOOLEAN_KW, token_info.text, token_info.span)),
                Token::Identifier => tokens.push((SyntaxKind::IDENTIFIER, token_info.text, token_info.span)),
                Token::LParen => tokens.push((SyntaxKind::L_PAREN, token_info.text, token_info.span)),
                Token::RParen => tokens.push((SyntaxKind::R_PAREN, token_info.text, token_info.span)),
                Token::LBrace => tokens.push((SyntaxKind::L_BRACE, token_info.text, token_info.span)),
                Token::RBrace => tokens.push((SyntaxKind::R_BRACE, token_info.text, token_info.span)),
                Token::Comma => tokens.push((SyntaxKind::COMMA, token_info.text, token_info.span)),
                Token::Semicolon => tokens.push((SyntaxKind::SEMICOLON, token_info.text, token_info.span)),
                Token::Slash => tokens.push((SyntaxKind::SLASH, token_info.text, token_info.span)),
                Token::LineComment => tokens.push((SyntaxKind::COMMENT, token_info.text, token_info.span)),
                Token::Newline => continue, // Skip newlines
                _ => continue,              // Skip other tokens
            }
        }
    }
    tokens
}

fn kind_name(raw: u16) -> &'static str {
    SyntaxKind::try_from(raw).unwrap().name()
}

fn render(node: &GreenNodeData, out: &mut String) {
    out.push_str(kind_name(node.kind().0));
    out.push('(');
    let mut first = true;
    for child in node.children() {
        if !first {
            out.push(' ');
        }
        first = false;
        match child {
            NodeOrToken::Node(n) => render(n, out),
            NodeOrToken::Token(t) => {
                out.push_str(kind_name(t.kind().0));
                out.push_str(&format!("{:?}", t.text()));
            }
        }
    }
    out.push(')');
}

fn shape(tree: &GreenNode) -> String {
    let mut out = String::new();
    render(tree, &mut out);
    out
}

fn tree_text(node: &GreenNodeData) -> String {
    let mut out = String::new();
    for child in node.children() {
        match child {
            NodeOrToken::Node(n) => out.push_str(&tree_text(n)),
            NodeOrToken::Token(t) => out.push_str(t.text()),
        }
    }
    out
}

fn parse_with(input: &str) -> (GreenNode, Vec<ParserError>) {
    let tokens = tokenize(input);
    let parser = Parser::new(Some("test.bal".to_string()), tokens);
    assert!(parser.within_limit());
    parser.parse()
}

fn parse(input: &str) -> String {
    shape(&parse_with(input).0)
}

fn token(kind: SyntaxKind, text: &str, start: usize) -> (SyntaxKind, String, Span) {
    (
        kind,
        text.to_string(),
        Span {
            file: None,
            start,
            end: start + text.len(),
            line: 1,
            column: start,
            line_content: None,
        },
    )
}

#[test]
fn test_empty_file() {
    let input = "";
    assert_eq!(parse(input), "MODULE_PART()");
    assert!(parse_with(input).1.is_empty());
}

#[test]
fn test_simple_import() {
    let input = "import foo/bar;";
    assert_eq!(
        parse(input),
        "MODULE_PART(IMPORT_DECL(IMPORT_KW\"import\" IDENTIFIER\"foo\" SLASH\"/\" IDENTIFIER\"bar\" SEMICOLON\";\"))"
    );
    assert!(parse_with(input).1.is_empty());
}

#[test]
fn test_simple_function() {
    let input = "function add(int a, int b) returns int { }";
    assert_eq!(
        parse(input),
        "MODULE_PART(FUNCTION_DEF(FUNCTION_KW\"function\" IDENTIFIER\"add\" \
         SIGNATURE(L_PAREN\"(\" \
         PARAM_LIST(PARAM(TYPE_DESC(INT_KW\"int\") IDENTIFIER\"a\") COMMA\",\" \
         PARAM(TYPE_DESC(INT_KW\"int\") IDENTIFIER\"b\")) \
         R_PAREN\")\" RETURNS_KW\"returns\" TYPE_DESC(INT_KW\"int\")) \
         STMT_BLOCK(L_BRACE\"{\" R_BRACE\"}\")))"
    );
    assert!(parse_with(input).1.is_empty());
}

#[test]
fn test_public_function() {
    let input = "public function greet() { }";
    assert_eq!(
        parse(input),
        "MODULE_PART(FUNCTION_DEF(PUBLIC_KW\"public\" FUNCTION_KW\"function\" IDENTIFIER\"greet\" \
         SIGNATURE(L_PAREN\"(\" R_PAREN\")\") \
         STMT_BLOCK(L_BRACE\"{\" R_BRACE\"}\")))"
    );
    assert!(parse_with(input).1.is_empty());
}

#[test]
fn test_function_with_multiple_params() {
    let input = "function calc(int x, boolean flag, int y) { }";
    assert_eq!(
        parse(input),
        "MODULE_PART(FUNCTION_DEF(FUNCTION_KW\"function\" IDENTIFIER\"calc\" \
         SIGNATURE(L_PAREN\"(\" \
         PARAM_LIST(PARAM(TYPE_DESC(INT_KW\"int\") IDENTIFIER\"x\") COMMA\",\" \
         PARAM(TYPE_DESC(BOOLEAN_KW\"boolean\") IDENTIFIER\"flag\") COMMA\",\" \
         PARAM(TYPE_DESC(INT_KW\"int\") IDENTIFIER\"y\")) \
         R_PAREN\")\") \
         STMT_BLOCK(L_BRACE\"{\" R_BRACE\"}\")))"
    );
    assert!(parse_with(input).1.is_empty());
}

#[test]
fn test_complete_module() {
    let input = r#"
            import ballerina/io;
            
            public function add(int a, int b) returns int {
            }
            
            function helper(boolean flag) {
            }
        "#;
    assert_eq!(
        parse(input),
        "MODULE_PART(\
         IMPORT_DECL(IMPORT_KW\"import\" IDENTIFIER\"ballerina\" SLASH\"/\" IDENTIFIER\"io\" SEMICOLON\";\") \
         FUNCTION_DEF(PUBLIC_KW\"public\" FUNCTION_KW\"function\" IDENTIFIER\"add\" \
         SIGNATURE(L_PAREN\"(\" \
         PARAM_LIST(PARAM(TYPE_DESC(INT_KW\"int\") IDENTIFIER\"a\") COMMA\",\" \
         PARAM(TYPE_DESC(INT_KW\"int\") IDENTIFIER\"b\")) \
         R_PAREN\")\" RETURNS_KW\"returns\" TYPE_DESC(INT_KW\"int\")) \
         STMT_BLOCK(L_BRACE\"{\" R_BRACE\"}\")) \
         FUNCTION_DEF(FUNCTION_KW\"function\" IDENTIFIER\"helper\" \
         SIGNATURE(L_PAREN\"(\" \
         PARAM_LIST(PARAM(TYPE_DESC(BOOLEAN_KW\"boolean\") IDENTIFIER\"flag\")) \
         R_PAREN\")\") \
         STMT_BLOCK(L_BRACE\"{\" R_BRACE\"}\")))"
    );
    assert!(parse_with(input).1.is_empty());
}

#[test]
fn test_error_recovery_missing_semicolon() {
    let input = "import foo/bar"; // Missing semicolon
    let (tree, diagnostics) = parse_with(input);
    assert_eq!(
        shape(&tree),
        "MODULE_PART(IMPORT_DECL(IMPORT_KW\"import\" IDENTIFIER\"foo\" SLASH\"/\" IDENTIFIER\"bar\" ERROR()))"
    );
    assert_eq!(diagnostics.len(), 1);
    match &diagnostics[0] {
        ParserError::MissingToken { expected, after, span } => {
            assert_eq!(expected, "semicolon");
            assert_eq!(after, "import statement");
            assert_eq!(span.file.as_deref(), Some("test.bal"));
            assert_eq!((span.start, span.end), (14, 14));
            assert_eq!((span.line, span.column), (1, 12));
            assert!(span.line_content.is_none());
        }
        other => panic!("expected a missing token, got {:?}", other),
    }
}

#[test]
fn test_error_recovery_missing_param_type() {
    let input = "function bad(a, int b) { }"; // Missing type for first param
    let (tree, diagnostics) = parse_with(input);
    assert_eq!(
        shape(&tree),
        "MODULE_PART(\
         FUNCTION_DEF(FUNCTION_KW\"function\" IDENTIFIER\"bad\" \
         SIGNATURE(L_PAREN\"(\" PARAM_LIST(PARAM(TYPE_DESC(ERROR() \
         IDENTIFIER\"a\" COMMA\",\" INT_KW\"int\" IDENTIFIER\"b\" R_PAREN\")\" L_BRACE\"{\"))))) \
         FUNCTION_DEF(ERROR() R_BRACE\"}\"))"
    );
    assert_eq!(tree_text(&tree), "functionbad(a,intb){}");
    assert_eq!(diagnostics.len(), 2);
    match &diagnostics[0] {
        ParserError::UnexpectedToken { expected, found, span } => {
            assert_eq!(expected, &vec!["INT_KW".to_string(), "BOOLEAN_KW".to_string()]);
            assert_eq!(found, "IDENTIFIER");
            assert_eq!((span.start, span.end, span.line, span.column), (13, 14, 1, 13));
            assert_eq!(span.file.as_deref(), Some("test.bal"));
        }
        other => panic!("expected an unexpected token, got {:?}", other),
    }
    match &diagnostics[1] {
        ParserError::UnexpectedToken { expected, found, span } => {
            assert_eq!(expected, &vec!["FUNCTION_KW".to_string()]);
            assert_eq!(found, "R_BRACE");
            assert_eq!((span.start, span.end), (25, 26));
        }
        other => panic!("expected an unexpected token, got {:?}", other),
    }
}

#[test]
fn trivia_goes_into_the_tree_in_front_of_the_next_token() {
    let tokens = vec![
        token(SyntaxKind::COMMENT, "// head", 0),
        token(SyntaxKind::WHITESPACE, "\n", 7),
        token(SyntaxKind::IMPORT_KW, "import", 8),
        token(SyntaxKind::IDENTIFIER, "a", 14),
        token(SyntaxKind::SLASH, "/", 15),
        token(SyntaxKind::IDENTIFIER, "b", 16),
        token(SyntaxKind::SEMICOLON, ";", 17),
        token(SyntaxKind::WHITESPACE, "\n", 18),
        token(SyntaxKind::COMMENT, "// tail", 19),
    ];
    let (tree, diagnostics) = Parser::new(None, tokens).parse();
    assert!(diagnostics.is_empty());
    assert_eq!(
        shape(&tree),
        "MODULE_PART(IMPORT_DECL(COMMENT\"// head\" WHITESPACE\"\\n\" IMPORT_KW\"import\" \
         IDENTIFIER\"a\" SLASH\"/\" IDENTIFIER\"b\" SEMICOLON\";\") WHITESPACE\"\\n\" COMMENT\"// tail\")"
    );
    assert_eq!(tree_text(&tree), "// head\nimporta/b;\n// tail");
}

#[test]
fn only_trivia_is_kept_under_the_root() {
    let tokens =
        vec![token(SyntaxKind::WHITESPACE, "\n", 0), token(SyntaxKind::COMMENT, "// x", 1)];
    let (tree, diagnostics) = Parser::new(None, tokens).parse();
    assert!(diagnostics.is_empty());
    assert_eq!(shape(&tree), "MODULE_PART(WHITESPACE\"\\n\" COMMENT\"// x\")");
}

#[test]
fn unmatched_closing_braces_are_all_consumed() {
    let input = "} } }";
    let (tree, diagnostics) = parse_with(input);
    assert_eq!(tree_text(&tree), "}}}");
    assert_eq!(
        shape(&tree),
        "MODULE_PART(FUNCTION_DEF(ERROR() R_BRACE\"}\") FUNCTION_DEF(ERROR() R_BRACE\"}\") \
         FUNCTION_DEF(ERROR() R_BRACE\"}\"))"
    );
    assert_eq!(diagnostics.len(), 3);
    for d in &diagnostics {
        assert!(matches!(d, ParserError::UnexpectedToken { found, .. } if found == "R_BRACE"));
    }
}

#[test]
fn keywords_without_bodies_are_all_consumed() {
    let input = "function function public import";
    let (tree, diagnostics) = parse_with(input);
    assert_eq!(tree_text(&tree), "functionfunctionpublicimport");
    assert!(!diagnostics.is_empty());
}

#[test]
fn every_token_ends_up_in_the_tree_in_order() {
    let inputs = [
        "import a/b import c/d; function f(int a { x y z } function",
        "function f() { a b; c d ; e } } import x/y;",
        "(((; ; ; int boolean returns , /",
        "function f(int a, boolean) returns foo { ;; }",
        "public public function f( { } }",
    ];
    for input in inputs {
        let tokens = tokenize(input);
        let expected: String = tokens.iter().map(|t| t.1.as_str()).collect();
        let (tree, _) = Parser::new(None, tokens).parse();
        assert_eq!(tree_text(&tree), expected, "input: {}", input);
        assert_eq!(tree.kind().0, SyntaxKind::MODULE_PART.to_raw());
    }
}

#[test]
fn parsing_twice_gives_the_same_tree_and_diagnostics() {
    let input = "import a/b function f(x) { a; b }";
    let (first_tree, first) = parse_with(input);
    let (second_tree, second) = parse_with(input);
    assert_eq!(first_tree, second_tree);
    assert_eq!(format!("{:?}", first), format!("{:?}", second));
    assert!(!first.is_empty());
}

#[test]
fn statements_are_runs_closed_by_semicolons() {
    let tokens = vec![
        token(SyntaxKind::FUNCTION_KW, "function", 0),
        token(SyntaxKind::IDENTIFIER, "f", 9),
        token(SyntaxKind::L_PAREN, "(", 10),
        token(SyntaxKind::R_PAREN, ")", 11),
        token(SyntaxKind::L_BRACE, "{", 13),
        token(SyntaxKind::IDENTIFIER, "a", 15),
        token(SyntaxKind::ERROR, "=", 17),
        token(SyntaxKind::IDENTIFIER, "b", 19),
        token(SyntaxKind::SEMICOLON, ";", 20),
        token(SyntaxKind::SEMICOLON, ";", 21),
        token(SyntaxKind::R_BRACE, "}", 23),
    ];
    let (tree, diagnostics) = Parser::new(None, tokens).parse();
    assert!(diagnostics.is_empty());
    assert_eq!(
        shape(&tree),
        "MODULE_PART(FUNCTION_DEF(FUNCTION_KW\"function\" IDENTIFIER\"f\" \
         SIGNATURE(L_PAREN\"(\" R_PAREN\")\") \
         STMT_BLOCK(L_BRACE\"{\" \
         STATEMENT(IDENTIFIER\"a\" ERROR\"=\" IDENTIFIER\"b\" SEMICOLON\";\") \
         STATEMENT(SEMICOLON\";\") R_BRACE\"}\")))"
    );
}

#[test]
fn unfinished_statement_is_reported_once_at_the_end() {
    let input = "function f() { a b";
    let (tree, diagnostics) = parse_with(input);
    assert_eq!(tree_text(&tree), "functionf(){ab");
    assert_eq!(diagnostics.len(), 2);
    match &diagnostics[0] {
        ParserError::UnexpectedToken { expected, found, span } => {
            assert_eq!(expected, &vec!["SEMICOLON".to_string()]);
            assert_eq!(found, "EOF");
            assert_eq!((span.start, span.end), (18, 18));
        }
        other => panic!("unexpected diagnostic {:?}", other),
    }
    match &diagnostics[1] {
        ParserError::UnexpectedToken { expected, found, .. } => {
            assert_eq!(expected, &vec!["R_BRACE".to_string()]);
            assert_eq!(found, "EOF");
        }
        other => panic!("unexpected diagnostic {:?}", other),
    }
}

#[test]
fn missing_type_at_the_end_of_input_leaves_no_error_node() {
    let input = "function f(";
    let (tree, diagnostics) = parse_with(input);
    assert_eq!(
        shape(&tree),
        "MODULE_PART(FUNCTION_DEF(FUNCTION_KW\"function\" IDENTIFIER\"f\" \
         SIGNATURE(L_PAREN\"(\" PARAM_LIST(PARAM(TYPE_DESC())))))"
    );
    assert_eq!(diagnostics.len(), 1);
    match &diagnostics[0] {
        ParserError::UnexpectedToken { expected, found, .. } => {
            assert_eq!(expected, &vec!["INT_KW".to_string(), "BOOLEAN_KW".to_string()]);
            assert_eq!(found, "end of file");
        }
        other => panic!("unexpected diagnostic {:?}", other),
    }
}

#[test]
fn recovery_consumes_the_sync_token_and_following_terminators() {
    // `x` is unexpected where the module name should stand; recovery skips
    // to the `;`, takes it and the two that follow, and goes on with the
    // next import.
    let input = "import a x b ; ; ; import c/d;";
    let (tree, diagnostics) = parse_with(input);
    assert_eq!(
        shape(&tree),
        "MODULE_PART(IMPORT_DECL(IMPORT_KW\"import\" IDENTIFIER\"a\" ERROR() \
         IDENTIFIER\"x\" IDENTIFIER\"b\" SEMICOLON\";\" SEMICOLON\";\" SEMICOLON\";\") \
         IMPORT_DECL(IMPORT_KW\"import\" IDENTIFIER\"c\" SLASH\"/\" IDENTIFIER\"d\" SEMICOLON\";\"))"
    );
    assert_eq!(diagnostics.len(), 1);
    match &diagnostics[0] {
        ParserError::UnexpectedToken { expected, found, span } => {
            assert_eq!(expected, &vec!["SLASH".to_string()]);
            assert_eq!(found, "IDENTIFIER");
            assert_eq!(span.start, 9);
        }
        other => panic!("unexpected diagnostic {:?}", other),
    }
}

#[test]
fn parse_events_are_balanced_and_hold_all_tokens() {
    let tokens = tokenize("import a/b; function f() { x; }");
    let count = tokens.len();
    let (events, diagnostics) = Parser::new(None, tokens).parse_events();
    assert!(diagnostics.is_empty());
    let mut depth = 0i64;
    let mut leaves = 0;
    for (i, e) in events.iter().enumerate() {
        match e {
            Event::StartNode { .. } => depth += 1,
            Event::AddToken { .. } => {
                assert!(depth >= 1);
                leaves += 1;
            }
            Event::FinishNode => depth -= 1,
        }
        if i + 1 < events.len() {
            assert!(depth >= 1);
        }
    }
    assert_eq!(depth, 0);
    assert_eq!(leaves, count);
    assert!(matches!(events[0], Event::StartNode { kind: SyntaxKind::MODULE_PART }));
    let tree = build_tree(events);
    assert_eq!(tree_text(&tree), "importa/b;functionf(){x;}");
}

#[test]
fn end_span_of_empty_input_is_line_one_column_zero() {
    let tokens = vec![token(SyntaxKind::IMPORT_KW, "import", 0)];
    let (_, diagnostics) = Parser::new(None, tokens).parse();
    assert_eq!(diagnostics.len(), 1);
    let span = diagnostics[0].span();
    assert_eq!((span.start, span.end, span.line, span.column), (6, 6, 1, 1));
    assert!(span.file.is_none());
}

#[test]
fn within_limit_holds_for_small_inputs() {
    let parser = Parser::new(None, tokenize("function f() { }"));
    assert!(parser.within_limit());
}
