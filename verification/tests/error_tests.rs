use bal_frontend::error::{LexerError, ParserError, Span};
use bal_frontend::text::{
    append_decimal, append_repeat, is_control, is_white_space, string_from_chars, to_chars,
    trim_end_index, trim_start_index,
};

fn span(file: Option<&str>, line: usize, column: usize, content: Option<&str>) -> Span {
    Span {
        file: file.map(|f| f.to_string()),
        start: 0,
        end: 0,
        line,
        column,
        line_content: content.map(|c| c.to_string()),
    }
}

#[test]
fn invalid_character_is_rendered_as_a_snippet() {
    let e = LexerError::InvalidCharacter {
        character: '#',
        position: 9,
        line: 3,
        column: 4,
        line_content: "foo # bar".to_string(),
    };
    assert_eq!(
        e.render(),
        "error: invalid character\n --> line 3:4\n  |\n3 | foo # bar\n  |     ^ unexpected character '#'\n"
    );
}

#[test]
fn control_character_is_rendered_in_hex() {
    let e = LexerError::InvalidCharacter {
        character: '\r',
        position: 1,
        line: 12,
        column: 0,
        line_content: "a".to_string(),
    };
    assert_eq!(
        e.render(),
        "error: invalid character\n --> line 12:0\n  |\n12 | a\n  | ^ unexpected character '\\x0d'\n"
    );
    let e = LexerError::InvalidCharacter {
        character: '\u{9f}',
        position: 0,
        line: 1,
        column: 0,
        line_content: String::new(),
    };
    assert!(e.render().ends_with("^ unexpected character '\\x9f'\n"));
    let e = LexerError::InvalidCharacter {
        character: '\u{7f}',
        position: 0,
        line: 1,
        column: 0,
        line_content: String::new(),
    };
    assert!(e.render().ends_with("^ unexpected character '\\x7f'\n"));
}

#[test]
fn other_lexer_errors_are_rendered() {
    assert_eq!(
        LexerError::UnterminatedString(42).render(),
        "error: unterminated string\n  |\n  | string starting at position 42 is not terminated\n"
    );
    assert_eq!(
        LexerError::UnexpectedEof.render(),
        "error: unexpected end of file\n  |\n  | the file ends unexpectedly\n"
    );
}

#[test]
fn unexpected_token_is_rendered_with_carets_under_the_found_name() {
    let e = ParserError::UnexpectedToken {
        expected: vec!["INT_KW".to_string(), "BOOLEAN_KW".to_string()],
        found: "IDENTIFIER".to_string(),
        span: span(Some("main.bal"), 7, 3, Some("f(a, int b)")),
    };
    assert_eq!(
        e.render(),
        "error: unexpected token\n --> main.bal:7:4\n  |\n7 | f(a, int b)\n  |    ^^^^^^^^^^ expected one of [\"INT_KW\", \"BOOLEAN_KW\"], found 'IDENTIFIER'\n"
    );
}

#[test]
fn missing_token_is_rendered_with_one_caret() {
    let e = ParserError::MissingToken {
        expected: "semicolon".to_string(),
        after: "import statement".to_string(),
        span: span(None, 1, 14, None),
    };
    assert_eq!(
        e.render(),
        "error: missing token\n --> unknown:1:15\n  |\n1 | \n  |               ^ missing 'semicolon' after 'import statement'\n"
    );
}

#[test]
fn expected_list_is_escaped_like_debug_output() {
    let expected = vec!["a\"b".to_string(), "c\\d".to_string(), "\n".to_string()];
    let e = ParserError::UnexpectedToken {
        expected: expected.clone(),
        found: "x".to_string(),
        span: span(None, 1, 0, None),
    };
    let rendered = e.render();
    assert!(rendered.contains(&format!("expected one of {:?}, found 'x'", expected)));
    assert!(rendered.contains("[\"a\\\"b\", \"c\\\\d\", \"\\n\"]"));
}

#[test]
fn column_at_the_limit_does_not_overflow_the_locator() {
    let e = ParserError::MissingToken {
        expected: "x".to_string(),
        after: "y".to_string(),
        span: span(None, usize::MAX, 0, None),
    };
    let rendered = e.render();
    assert!(rendered.contains(&format!(" --> unknown:{}:1\n", usize::MAX)));
}

#[test]
fn spans_are_copied_field_by_field() {
    let s = span(Some("a.bal"), 2, 5, Some("text"));
    assert_eq!(s.clone(), s);
    let moved = s.in_file(&Some("b.bal".to_string()));
    assert_eq!(moved.file.as_deref(), Some("b.bal"));
    assert_eq!((moved.line, moved.column), (2, 5));
    assert_eq!(moved.line_content.as_deref(), Some("text"));
    let unnamed = s.in_file(&None);
    assert!(unnamed.file.is_none());
    let with_line = s.with_line_content("other");
    assert_eq!(with_line.line_content.as_deref(), Some("other"));
    assert_eq!(with_line.file.as_deref(), Some("a.bal"));
}

#[test]
fn parser_error_gives_its_span() {
    let e = ParserError::MissingToken {
        expected: "x".to_string(),
        after: "y".to_string(),
        span: span(Some("f"), 9, 8, None),
    };
    assert_eq!(e.span().line, 9);
    let e = ParserError::UnexpectedToken {
        expected: vec![],
        found: String::new(),
        span: span(Some("g"), 4, 8, None),
    };
    assert_eq!(e.span().file.as_deref(), Some("g"));
}

#[test]
fn decimal_digits_are_exact() {
    let mut s = String::from("n=");
    append_decimal(&mut s, 0);
    s.push(',');
    append_decimal(&mut s, 7);
    s.push(',');
    append_decimal(&mut s, 10);
    s.push(',');
    append_decimal(&mut s, 1234567890);
    s.push(',');
    append_decimal(&mut s, u128::MAX);
    assert_eq!(s, format!("n=0,7,10,1234567890,{}", u128::MAX));
}

#[test]
fn repeat_appends_copies() {
    let mut s = String::from("[");
    append_repeat(&mut s, '^', 3);
    append_repeat(&mut s, ' ', 0);
    s.push(']');
    assert_eq!(s, "[^^^]");
}

#[test]
fn white_space_and_control_follow_unicode() {
    for c in ['\t', '\n', '\u{0b}', '\u{0c}', '\r', ' ', '\u{85}', '\u{a0}', '\u{1680}',
        '\u{2000}', '\u{200a}', '\u{2028}', '\u{2029}', '\u{202f}', '\u{205f}', '\u{3000}']
    {
        assert!(is_white_space(c), "{:?}", c);
    }
    for c in ['a', '0', '\u{200b}', '\u{180e}', '\u{feff}', '\0', '\u{1f}'] {
        assert!(!is_white_space(c), "{:?}", c);
    }
    let mut c = 0u32;
    while c <= 0x3100 {
        if let Some(ch) = char::from_u32(c) {
            assert_eq!(is_white_space(ch), ch.is_whitespace(), "{:x}", c);
            assert_eq!(is_control(ch), ch.is_control(), "{:x}", c);
        }
        c += 1;
    }
}

#[test]
fn trimming_by_index_matches_the_standard_library() {
    for text in ["", "  a b \t\n", "\u{a0}x\u{3000}", "   ", "no-space", " é "] {
        let chars = to_chars(text);
        assert_eq!(chars, text.chars().collect::<Vec<char>>());
        let start = trim_start_index(&chars, 0, chars.len());
        let end = trim_end_index(&chars, start, chars.len());
        assert_eq!(string_from_chars(&chars, start, end), text.trim());
        let end_only = trim_end_index(&chars, 0, chars.len());
        assert_eq!(string_from_chars(&chars, 0, end_only), text.trim_end());
    }
}

#[test]
fn render_with_takes_the_list_as_given() {
    let e = ParserError::UnexpectedToken {
        expected: vec!["SLASH".to_string()],
        found: "EOF".to_string(),
        span: span(Some("a.bal"), 2, 1, Some("import a")),
    };
    assert_eq!(
        e.render_with("<list>"),
        "error: unexpected token\n --> a.bal:2:2\n  |\n2 | import a\n  |  ^^^ expected one of <list>, found 'EOF'\n"
    );
    assert_eq!(e.render(), e.render_with("[\"SLASH\"]"));
    let m = ParserError::MissingToken {
        expected: "semicolon".to_string(),
        after: "import statement".to_string(),
        span: span(None, 1, 0, None),
    };
    assert_eq!(m.render_with("ignored"), m.render());
}
