use bal_frontend::event::Event;
use bal_frontend::kind::{BallerinaLanguage, InvalidKind, SyntaxKind, KIND_LIMIT};
use bal_frontend::sink::{Sink, SinkError};
use bal_frontend::token::Token;
use bal_frontend::types::Type;
use rowan::NodeOrToken;

fn start(kind: SyntaxKind) -> Event {
    Event::StartNode { kind }
}

fn leaf(kind: SyntaxKind, text: &str) -> Event {
    Event::AddToken { kind, text: text.to_string() }
}

#[test]
fn raw_tags_follow_declaration_order() {
    assert_eq!(SyntaxKind::WHITESPACE.to_raw(), 0);
    assert_eq!(SyntaxKind::NEWLINE.to_raw(), 4);
    assert_eq!(SyntaxKind::IMPORT_KW.to_raw(), 5);
    assert_eq!(SyntaxKind::FALSE_KW.to_raw(), 18);
    assert_eq!(SyntaxKind::EQ.to_raw(), 19);
    assert_eq!(SyntaxKind::SEMICOLON.to_raw(), 37);
    assert_eq!(SyntaxKind::SOURCE_FILE.to_raw(), 38);
    assert_eq!(SyntaxKind::QUALIFIED_IDENTIFIER.to_raw(), 66);
    assert_eq!(SyntaxKind::ERROR.to_raw(), 67);
    assert_eq!(SyntaxKind::EOF.to_raw(), 68);
    assert_eq!(KIND_LIMIT, 68);
}

#[test]
fn try_from_round_trips_below_eof() {
    for raw in 0..KIND_LIMIT {
        let kind = SyntaxKind::try_from(raw).unwrap();
        assert_eq!(kind.to_raw(), raw);
        assert_eq!(BallerinaLanguage::kind_from_raw(raw), Ok(kind));
        assert_eq!(BallerinaLanguage::kind_to_raw(kind), raw);
    }
    assert_eq!(SyntaxKind::try_from(5), Ok(SyntaxKind::IMPORT_KW));
    assert_eq!(SyntaxKind::try_from(67), Ok(SyntaxKind::ERROR));
}

#[test]
fn try_from_refuses_eof_and_above() {
    assert_eq!(SyntaxKind::try_from(68), Err(InvalidKind { raw: 68 }));
    assert_eq!(SyntaxKind::try_from(69), Err(InvalidKind { raw: 69 }));
    assert_eq!(SyntaxKind::try_from(u16::MAX), Err(InvalidKind { raw: u16::MAX }));
    assert_eq!(BallerinaLanguage::kind_from_raw(1000), Err(InvalidKind { raw: 1000 }));
}

#[test]
fn kinds_are_ordered_and_named() {
    assert!(SyntaxKind::WHITESPACE < SyntaxKind::COMMENT);
    assert!(SyntaxKind::SEMICOLON < SyntaxKind::SOURCE_FILE);
    assert!(SyntaxKind::ERROR < SyntaxKind::EOF);
    assert_eq!(SyntaxKind::L_PAREN.name(), "L_PAREN");
    assert_eq!(SyntaxKind::EOF.name(), "EOF");
    assert_eq!(format!("{:?}", SyntaxKind::INTEGER_LITERAL), SyntaxKind::INTEGER_LITERAL.name());
    assert!(SyntaxKind::WHITESPACE.is_trivia());
    assert!(SyntaxKind::COMMENT.is_trivia());
    assert!(!SyntaxKind::NEWLINE.is_trivia());
    assert!(!SyntaxKind::IDENTIFIER.is_trivia());
}

#[test]
fn fixed_tokens_and_types_are_values() {
    let a = Token { kind: SyntaxKind::PLUS, text: "+" };
    let b = a;
    assert_eq!(a, b);
    assert_ne!(a, Token { kind: SyntaxKind::MINUS, text: "-" });
    assert_eq!(Type::Int, Type::Int);
    assert_ne!(Type::Int, Type::Boolean);
}

#[test]
fn sink_builds_the_tree_of_its_events() {
    let mut sink = Sink::new();
    assert_eq!(sink.process(start(SyntaxKind::MODULE_PART)), Ok(()));
    assert_eq!(sink.process(start(SyntaxKind::IMPORT_DECL)), Ok(()));
    assert_eq!(sink.process(leaf(SyntaxKind::IMPORT_KW, "import")), Ok(()));
    assert_eq!(sink.process(leaf(SyntaxKind::WHITESPACE, " ")), Ok(()));
    assert_eq!(sink.process(leaf(SyntaxKind::IDENTIFIER, "foo")), Ok(()));
    assert_eq!(sink.process(Event::FinishNode), Ok(()));
    assert_eq!(sink.process(start(SyntaxKind::ERROR)), Ok(()));
    assert_eq!(sink.process(Event::FinishNode), Ok(()));
    assert_eq!(sink.process(Event::FinishNode), Ok(()));
    let tree = sink.finish().unwrap();

    assert_eq!(tree.kind().0, SyntaxKind::MODULE_PART.to_raw());
    assert_eq!(u32::from(tree.text_len()), 10);
    let children: Vec<_> = tree.children().collect();
    assert_eq!(children.len(), 2);
    match children[0] {
        NodeOrToken::Node(import) => {
            assert_eq!(import.kind().0, SyntaxKind::IMPORT_DECL.to_raw());
            let texts: Vec<String> = import
                .children()
                .map(|c| match c {
                    NodeOrToken::Token(t) => t.text().to_string(),
                    NodeOrToken::Node(_) => panic!("no node expected"),
                })
                .collect();
            assert_eq!(texts, vec!["import", " ", "foo"]);
            let kinds: Vec<u16> = import.children().map(|c| c.kind().0).collect();
            assert_eq!(kinds, vec![5, 0, 2]);
        }
        NodeOrToken::Token(_) => panic!("a node expected"),
    }
    match children[1] {
        NodeOrToken::Node(error) => {
            assert_eq!(error.kind().0, SyntaxKind::ERROR.to_raw());
            assert_eq!(error.children().count(), 0);
        }
        NodeOrToken::Token(_) => panic!("a node expected"),
    }
}

#[test]
fn sink_refuses_finish_without_open_node() {
    let mut sink = Sink::new();
    assert_eq!(sink.process(Event::FinishNode), Err(SinkError::NothingToClose));
    // the refused event changed nothing: a tree can still be built
    assert_eq!(sink.process(start(SyntaxKind::MODULE_PART)), Ok(()));
    assert_eq!(sink.process(Event::FinishNode), Ok(()));
    assert!(sink.finish().is_ok());
}

#[test]
fn sink_refuses_token_outside_of_nodes() {
    let mut sink = Sink::new();
    assert_eq!(sink.process(leaf(SyntaxKind::IDENTIFIER, "x")), Err(SinkError::TokenOutsideNode));
    assert_eq!(sink.finish().err(), Some(SinkError::Incomplete));
}

#[test]
fn sink_refuses_events_after_the_root() {
    let mut sink = Sink::new();
    assert_eq!(sink.process(start(SyntaxKind::MODULE_PART)), Ok(()));
    assert_eq!(sink.process(Event::FinishNode), Ok(()));
    assert_eq!(sink.process(start(SyntaxKind::MODULE_PART)), Err(SinkError::RootAlreadyClosed));
    assert_eq!(sink.process(leaf(SyntaxKind::IDENTIFIER, "x")), Err(SinkError::RootAlreadyClosed));
    assert_eq!(sink.process(Event::FinishNode), Err(SinkError::RootAlreadyClosed));
    let tree = sink.finish().unwrap();
    assert_eq!(tree.children().count(), 0);
}

#[test]
fn sink_refuses_to_finish_an_open_tree() {
    let sink = Sink::new();
    assert_eq!(sink.finish().err(), Some(SinkError::Incomplete));

    let mut sink = Sink::new();
    assert_eq!(sink.process(start(SyntaxKind::MODULE_PART)), Ok(()));
    assert_eq!(sink.process(start(SyntaxKind::STATEMENT)), Ok(()));
    assert_eq!(sink.process(Event::FinishNode), Ok(()));
    assert_eq!(sink.finish().err(), Some(SinkError::Incomplete));
}

#[test]
fn equal_event_sequences_build_equal_trees() {
    let build = || {
        let mut sink = Sink::new();
        sink.process(start(SyntaxKind::MODULE_PART)).unwrap();
        sink.process(leaf(SyntaxKind::COMMENT, "// é")).unwrap();
        sink.process(Event::FinishNode).unwrap();
        sink.finish().unwrap()
    };
    let first = build();
    let second = build();
    assert_eq!(first, second);
    assert_eq!(u32::from(first.text_len()), 5);
}

#[test]
fn events_can_be_cloned() {
    let e = leaf(SyntaxKind::IDENTIFIER, "name");
    match e.clone() {
        Event::AddToken { kind, text } => {
            assert_eq!(kind, SyntaxKind::IDENTIFIER);
            assert_eq!(text, "name");
        }
        _ => unreachable!(),
    }
    assert!(matches!(Event::FinishNode.clone(), Event::FinishNode));
    assert!(matches!(
        start(SyntaxKind::PARAM).clone(),
        Event::StartNode { kind: SyntaxKind::PARAM }
    ));
}
