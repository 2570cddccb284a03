use bal_frontend::dependency::{DependencyGraph, ModuleId, Timestamp};
use bal_frontend::error::Span;
use bal_frontend::kind::SyntaxKind;
use bal_frontend::parser::Parser;
use bal_frontend::table::Table;
use bal_frontend::topo::sort;

fn position(order: &[usize], node: usize) -> usize {
    order.iter().position(|n| *n == node).unwrap()
}

#[test]
fn sort_orders_dependencies_first() {
    // 0 -> 1 -> 2, 0 -> 3, 4 alone
    let adj = vec![vec![1, 3], vec![2], vec![], vec![], vec![]];
    let order = sort(&adj).unwrap();
    assert_eq!(order, vec![2, 1, 3, 0, 4]);
    for (u, deps) in adj.iter().enumerate() {
        for v in deps {
            assert!(position(&order, *v) < position(&order, u));
        }
    }
}

#[test]
fn sort_hands_out_a_cycle() {
    // 0 -> 1 -> 2 -> 3 -> 1
    let adj = vec![vec![1], vec![2], vec![3], vec![1]];
    let cycle = sort(&adj).unwrap_err();
    assert_eq!(cycle, vec![1, 2, 3, 1]);
    let adj = vec![vec![0]];
    assert_eq!(sort(&adj).unwrap_err(), vec![0, 0]);
}

#[test]
fn sort_of_nothing_is_nothing() {
    assert_eq!(sort(&vec![]).unwrap(), Vec::<usize>::new());
    assert_eq!(sort(&vec![vec![], vec![]]).unwrap(), vec![0, 1]);
}

#[test]
fn sort_visits_shared_dependencies_once() {
    // a diamond: 0 -> 1, 0 -> 2, 1 -> 3, 2 -> 3, and 3 twice under 1
    let adj = vec![vec![1, 2], vec![3, 3], vec![3], vec![]];
    assert_eq!(sort(&adj).unwrap(), vec![3, 1, 2, 0]);
}

#[test]
fn table_keeps_one_entry_for_a_key() {
    let mut t: Table<String, u32> = Table::new();
    assert_eq!(t.len(), 0);
    assert_eq!(t.get(&"a".to_string()), None);
    t.insert("a".to_string(), 1);
    t.insert("b".to_string(), 2);
    t.insert("a".to_string(), 3);
    assert_eq!(t.len(), 2);
    assert_eq!(t.get(&"a".to_string()), Some(&3));
    assert_eq!(t.get(&"b".to_string()), Some(&2));
    assert_eq!(t.find(&"b".to_string()), Some(1));
    assert_eq!(t.find(&"c".to_string()), None);
    assert_eq!(t.key_at(0), "a");
    assert_eq!(*t.value_at(1), 2);
}

#[test]
fn try_parse_parses_what_fits() {
    let span = Span { file: None, start: 0, end: 1, line: 1, column: 0, line_content: None };
    let tokens = vec![(SyntaxKind::SEMICOLON, ";".to_string(), span)];
    let (tree, diagnostics) = Parser::new(None, tokens).try_parse().expect("fits");
    assert_eq!(u32::from(tree.text_len()), 1);
    assert_eq!(diagnostics.len(), 1);
}

#[test]
fn recorded_times_are_found_by_path() {
    let mut g = DependencyGraph::new();
    let t = Timestamp { secs: 7, nanos: 9 };
    let id = ModuleId::new("o".into(), "p".into(), "1".into(), "m".into());
    g.add_module(id.clone(), vec![], "m.bal".to_string(), Some(t));
    assert_eq!(g.recorded_time("m.bal"), Some(t));
    assert_eq!(g.recorded_time("n.bal"), None);
    g.add_module(id, vec![], "n.bal".to_string(), None);
    assert_eq!(g.recorded_time("n.bal"), None);
    assert_eq!(g.recorded_time("m.bal"), Some(t));
}
