use bal_frontend::error::LexerError;
use bal_frontend::kind::SyntaxKind;
use bal_frontend::lexer::{convert_token, Lexer, Token, TokenInfo};

fn tokenize(input: &str) -> Vec<TokenInfo> {
    let mut lexer = Lexer::new(input);
    let mut tokens = Vec::new();
    while let Some(result) = lexer.next_token() {
        if let Ok(token) = result {
            // Skip newlines
            if !matches!(token.kind, Token::Newline) {
                tokens.push(token);
            }
        }
    }
    tokens
}

fn lex_all(input: &str) -> Vec<Result<TokenInfo, LexerError>> {
    let mut lexer = Lexer::new(input);
    let mut items = Vec::new();
    while let Some(result) = lexer.next_token() {
        items.push(result);
    }
    items
}

fn kinds(input: &str) -> Vec<Token> {
    tokenize(input).into_iter().map(|t| t.kind).collect()
}

#[test]
fn test_keywords() {
    let input = "import public function returns int boolean if else while break continue return true false";
    let tokens: Vec<_> = tokenize(input).into_iter().map(|t| t.kind).collect();
    assert_eq!(
        tokens,
        vec![
            Token::Import,
            Token::Public,
            Token::Function,
            Token::Returns,
            Token::Int,
            Token::Boolean,
            Token::If,
            Token::Else,
            Token::While,
            Token::Break,
            Token::Continue,
            Token::Return,
            Token::True,
            Token::False,
        ]
    );
}

#[test]
fn test_operators() {
    let input = "== != < <= > >= + - * / % =";
    let tokens: Vec<_> = tokenize(input).into_iter().map(|t| t.kind).collect();
    assert_eq!(
        tokens,
        vec![
            Token::Eq,
            Token::NotEq,
            Token::Lt,
            Token::LtEq,
            Token::Gt,
            Token::GtEq,
            Token::Plus,
            Token::Minus,
            Token::Star,
            Token::Slash,
            Token::Percent,
            Token::Assign,
        ]
    );
}

#[test]
fn test_delimiters() {
    let input = "( ) { } , : ;";
    let tokens: Vec<_> = tokenize(input).into_iter().map(|t| t.kind).collect();
    assert_eq!(
        tokens,
        vec![
            Token::LParen,
            Token::RParen,
            Token::LBrace,
            Token::RBrace,
            Token::Comma,
            Token::Colon,
            Token::Semicolon,
        ]
    );
}

#[test]
fn test_identifiers() {
    let input = "foo bar123 baz_qux";
    let tokens: Vec<_> = tokenize(input).into_iter().map(|t| t.kind).collect();
    assert_eq!(
        tokens,
        vec![Token::Identifier, Token::Identifier, Token::Identifier,]
    );
}

#[test]
fn test_integer_literals() {
    let input = "0 42 123456789";
    let tokens: Vec<_> = tokenize(input).into_iter().map(|t| t.kind).collect();
    assert_eq!(
        tokens,
        vec![
            Token::IntegerLiteral,
            Token::IntegerLiteral,
            Token::IntegerLiteral,
        ]
    );
}

#[test]
fn test_comments() {
    let input = "foo // this is a comment\nbar baz";
    let tokens: Vec<_> = tokenize(input).into_iter().map(|t| t.kind).collect();
    assert_eq!(
        tokens,
        vec![
            Token::Identifier,
            Token::LineComment,
            Token::Identifier,
            Token::Identifier,
        ]
    );
}

#[test]
fn test_comment_spans() {
    let input = "foo // comment";
    let token = tokenize(input)
        .into_iter()
        .find(|t| matches!(t.kind, Token::LineComment))
        .unwrap();
    assert_eq!(token.text, "// comment");
    assert_eq!((token.span.start, token.span.end), (4, 14));
}

#[test]
fn test_complex_function() {
    let input = r#"
            public function add(int a, int b) returns int {
                return a + b;
            }
        "#;
    let tokens: Vec<_> = tokenize(input).into_iter().map(|t| t.kind).collect();
    assert_eq!(
        tokens,
        vec![
            Token::Public,
            Token::Function,
            Token::Identifier,
            Token::LParen,
            Token::Int,
            Token::Identifier,
            Token::Comma,
            Token::Int,
            Token::Identifier,
            Token::RParen,
            Token::Returns,
            Token::Int,
            Token::LBrace,
            Token::Return,
            Token::Identifier,
            Token::Plus,
            Token::Identifier,
            Token::Semicolon,
            Token::RBrace,
        ]
    );
}

#[test]
fn test_import_statement() {
    let input = "import foo/bar;";
    let tokens: Vec<_> = tokenize(input).into_iter().map(|t| t.kind).collect();
    assert_eq!(
        tokens,
        vec![
            Token::Import,
            Token::Identifier,
            Token::Slash,
            Token::Identifier,
            Token::Semicolon,
        ]
    );
}

#[test]
fn test_if_else_statement() {
    let input = r#"
            if (x < 10) {
                return true;
            } else {
                return false;
            }
        "#;
    let tokens: Vec<_> = tokenize(input).into_iter().map(|t| t.kind).collect();
    assert_eq!(
        tokens,
        vec![
            Token::If,
            Token::LParen,
            Token::Identifier,
            Token::Lt,
            Token::IntegerLiteral,
            Token::RParen,
            Token::LBrace,
            Token::Return,
            Token::True,
            Token::Semicolon,
            Token::RBrace,
            Token::Else,
            Token::LBrace,
            Token::Return,
            Token::False,
            Token::Semicolon,
            Token::RBrace,
        ]
    );
}

#[test]
fn test_while_loop() {
    let input = r#"
            while (i < 5) {
                i = i + 1;
                if (i == 3) {
                    continue;
                }
            }
        "#;
    let tokens: Vec<_> = tokenize(input).into_iter().map(|t| t.kind).collect();
    assert_eq!(
        tokens,
        vec![
            Token::While,
            Token::LParen,
            Token::Identifier,
            Token::Lt,
            Token::IntegerLiteral,
            Token::RParen,
            Token::LBrace,
            Token::Identifier,
            Token::Assign,
            Token::Identifier,
            Token::Plus,
            Token::IntegerLiteral,
            Token::Semicolon,
            Token::If,
            Token::LParen,
            Token::Identifier,
            Token::Eq,
            Token::IntegerLiteral,
            Token::RParen,
            Token::LBrace,
            Token::Continue,
            Token::Semicolon,
            Token::RBrace,
            Token::RBrace,
        ]
    );
}

#[test]
fn test_token_position() {
    let input = "foo\nbar // comment\nbaz";
    let tokens = tokenize(input);

    assert_eq!(tokens[0].span.line, 1);
    assert_eq!(tokens[0].span.column, 0);

    assert_eq!(tokens[1].span.line, 2);
    assert_eq!(tokens[1].span.column, 0);

    assert_eq!(tokens[2].span.line, 2);
    assert_eq!(tokens[2].span.column, 4);
}

#[test]
fn empty_input_yields_nothing() {
    let mut lexer = Lexer::new("");
    assert!(lexer.next_token().is_none());
    assert!(lexer.next_token().is_none());
}

#[test]
fn blanks_only_yield_nothing() {
    assert!(lex_all(" \t\x0c  ").is_empty());
}

#[test]
fn keyword_prefix_is_an_identifier() {
    assert_eq!(kinds("importx returnsy int_ iff"), vec![Token::Identifier; 4]);
    assert_eq!(kinds("return returns"), vec![Token::Return, Token::Returns]);
}

#[test]
fn longest_match_for_operators() {
    assert_eq!(kinds("<=<"), vec![Token::LtEq, Token::Lt]);
    assert_eq!(kinds("==="), vec![Token::Eq, Token::Assign]);
    assert_eq!(kinds(">=="), vec![Token::GtEq, Token::Assign]);
}

#[test]
fn leading_zero_splits_integer() {
    let tokens = tokenize("0123");
    assert_eq!(tokens.len(), 2);
    assert_eq!(tokens[0].text, "0");
    assert_eq!(tokens[1].text, "123");
}

#[test]
fn newlines_are_one_token_per_run() {
    let items = lex_all("a\n\n\nb");
    assert_eq!(items.len(), 3);
    let newline = items[1].as_ref().unwrap();
    assert_eq!(newline.kind, Token::Newline);
    assert_eq!(newline.text, "\n\n\n");
    assert_eq!((newline.span.start, newline.span.end), (1, 4));
    let b = items[2].as_ref().unwrap();
    assert_eq!((b.span.line, b.span.column), (4, 0));
}

#[test]
fn comment_stops_before_the_line_feed() {
    let items = lex_all("// one\n// two");
    assert_eq!(items.len(), 3);
    assert_eq!(items[0].as_ref().unwrap().text, "// one");
    assert_eq!(items[1].as_ref().unwrap().kind, Token::Newline);
    assert_eq!(items[2].as_ref().unwrap().text, "// two");
    assert_eq!(items[2].as_ref().unwrap().span.line, 2);
}

#[test]
fn slash_alone_is_an_operator() {
    assert_eq!(kinds("a/b"), vec![Token::Identifier, Token::Slash, Token::Identifier]);
}

#[test]
fn invalid_character_is_reported_and_skipped() {
    let items = lex_all("foo # bar");
    assert_eq!(items.len(), 3);
    assert!(items[0].is_ok());
    match &items[1] {
        Err(LexerError::InvalidCharacter { character, position, line, column, line_content }) => {
            assert_eq!(*character, '#');
            assert_eq!(*position, 4);
            assert_eq!(*line, 1);
            assert_eq!(*column, 4);
            assert_eq!(line_content, "foo # bar");
        }
        other => panic!("expected an invalid character, got {:?}", other),
    }
    let bar = items[2].as_ref().unwrap();
    assert_eq!(bar.text, "bar");
    assert_eq!(bar.span.start, 6);
}

#[test]
fn invalid_multibyte_character_is_skipped_whole() {
    let input = "a\n  é b  \nc";
    let items = lex_all(input);
    let errors: Vec<_> = items.iter().filter(|i| i.is_err()).collect();
    assert_eq!(errors.len(), 1);
    match errors[0] {
        Err(LexerError::InvalidCharacter { character, position, line, column, line_content }) => {
            assert_eq!(*character, 'é');
            assert_eq!(*position, 4);
            assert_eq!(*line, 2);
            assert_eq!(*column, 2);
            assert_eq!(line_content, "  é b");
        }
        _ => unreachable!(),
    }
    let texts: Vec<String> =
        items.iter().filter_map(|i| i.as_ref().ok()).map(|t| t.text.clone()).collect();
    assert_eq!(texts, vec!["a", "\n", "b", "\n", "c"]);
    let b = items.iter().filter_map(|i| i.as_ref().ok()).find(|t| t.text == "b").unwrap();
    assert_eq!((b.span.start, b.span.end, b.span.line, b.span.column), (7, 8, 2, 5));
}

#[test]
fn lone_bang_and_underscore_are_invalid() {
    let items = lex_all("!x _y");
    assert_eq!(items.len(), 4);
    assert!(matches!(&items[0], Err(LexerError::InvalidCharacter { character: '!', .. })));
    assert_eq!(items[1].as_ref().unwrap().text, "x");
    assert!(matches!(&items[2], Err(LexerError::InvalidCharacter { character: '_', .. })));
    assert_eq!(items[3].as_ref().unwrap().text, "y");
}

#[test]
fn carriage_return_is_invalid() {
    let items = lex_all("a\r\nb");
    assert_eq!(items.len(), 4);
    match &items[1] {
        Err(LexerError::InvalidCharacter { character, line_content, .. }) => {
            assert_eq!(*character, '\r');
            assert_eq!(line_content, "a");
        }
        _ => unreachable!(),
    }
}

#[test]
fn offsets_strictly_increase() {
    let input = "public function f(int a) { a = a + 1; } // done\n";
    let mut last_end = 0;
    let mut count = 0;
    for item in lex_all(input) {
        let token = item.unwrap();
        assert!(token.span.start >= last_end);
        assert!(token.span.end > token.span.start);
        assert_eq!(&input[token.span.start..token.span.end], token.text);
        assert!(token.span.file.is_none());
        assert!(token.span.line_content.is_none());
        last_end = token.span.end;
        count += 1;
    }
    assert_eq!(count, 17);
}

#[test]
fn lexing_twice_gives_the_same_tokens() {
    let input = "import a/b;\nfunction f() { }";
    assert_eq!(tokenize(input), tokenize(input));
}

#[test]
fn text_without_blanks_is_reproduced() {
    let input = "import\nfoo/bar;//c\nfunction(f){}";
    let joined: String = lex_all(input).into_iter().map(|i| i.unwrap().text).collect();
    assert_eq!(joined, input);
}

#[test]
fn convert_token_maps_to_kinds() {
    assert_eq!(convert_token(Token::Import), SyntaxKind::IMPORT_KW);
    assert_eq!(convert_token(Token::Public), SyntaxKind::PUBLIC_KW);
    assert_eq!(convert_token(Token::Function), SyntaxKind::FUNCTION_KW);
    assert_eq!(convert_token(Token::Returns), SyntaxKind::RETURNS_KW);
    assert_eq!(convert_token(Token::Int), SyntaxKind::INT_KW);
    assert_eq!(convert_token(Token::Boolean), SyntaxKind::BOOLEAN_KW);
    assert_eq!(convert_token(Token::Identifier), SyntaxKind::IDENTIFIER);
    assert_eq!(convert_token(Token::LParen), SyntaxKind::L_PAREN);
    assert_eq!(convert_token(Token::RParen), SyntaxKind::R_PAREN);
    assert_eq!(convert_token(Token::LBrace), SyntaxKind::L_BRACE);
    assert_eq!(convert_token(Token::RBrace), SyntaxKind::R_BRACE);
    assert_eq!(convert_token(Token::Comma), SyntaxKind::COMMA);
    assert_eq!(convert_token(Token::Semicolon), SyntaxKind::SEMICOLON);
    assert_eq!(convert_token(Token::Slash), SyntaxKind::SLASH);
    assert_eq!(convert_token(Token::LineComment), SyntaxKind::COMMENT);
    assert_eq!(convert_token(Token::Newline), SyntaxKind::WHITESPACE);
    assert_eq!(convert_token(Token::If), SyntaxKind::ERROR);
    assert_eq!(convert_token(Token::IntegerLiteral), SyntaxKind::ERROR);
    assert_eq!(convert_token(Token::Plus), SyntaxKind::ERROR);
}
