use bal_frontend::dependency::{
    calculate_hash, BuildError, DependencyGraph, ModuleId, Timestamp,
};
use bal_frontend::event::Event;
use bal_frontend::kind::SyntaxKind;
use bal_frontend::sink::Sink;
use rowan::GreenNode;
use std::collections::hash_map::DefaultHasher;
use std::hash::{Hash, Hasher};

fn id(name: &str) -> ModuleId {
    ModuleId::new("org".to_string(), "pkg".to_string(), "0.1.0".to_string(), name.to_string())
}

fn names(order: &[ModuleId]) -> Vec<String> {
    order.iter().map(|m| m.module().clone()).collect()
}

fn graph(edges: &[(&str, &[&str])]) -> DependencyGraph {
    let mut g = DependencyGraph::new();
    for (module, deps) in edges {
        g.add_module(
            id(module),
            deps.iter().map(|d| id(d)).collect(),
            format!("{}.bal", module),
            Some(Timestamp { secs: 1, nanos: 0 }),
        );
    }
    g
}

fn tree(text: &str) -> GreenNode {
    let mut sink = Sink::new();
    sink.process(Event::StartNode { kind: SyntaxKind::MODULE_PART }).unwrap();
    sink.process(Event::AddToken { kind: SyntaxKind::IDENTIFIER, text: text.to_string() }).unwrap();
    sink.process(Event::FinishNode).unwrap();
    sink.finish().unwrap()
}

fn position(order: &[ModuleId], name: &str) -> usize {
    order.iter().position(|m| m.module().as_str() == name).unwrap()
}

#[test]
fn chain_is_built_leaves_first() {
    let g = graph(&[("A", &["B"]), ("B", &["C"]), ("C", &[])]);
    let order = g.build_order().unwrap();
    assert_eq!(names(&order), vec!["C", "B", "A"]);
}

#[test]
fn chain_order_does_not_depend_on_insertion_order() {
    let g = graph(&[("C", &[]), ("A", &["B"]), ("B", &["C"])]);
    assert_eq!(names(&g.build_order().unwrap()), vec!["C", "B", "A"]);
    let g = graph(&[("B", &["C"]), ("C", &[]), ("A", &["B"])]);
    assert_eq!(names(&g.build_order().unwrap()), vec!["C", "B", "A"]);
}

#[test]
fn two_module_cycle_is_reported() {
    let g = graph(&[("A", &["B"]), ("B", &["A"])]);
    match g.build_order() {
        Err(BuildError::CircularDependency { cycle }) => {
            let names = names(&cycle);
            assert!(names.len() >= 2);
            assert_eq!(names.first(), names.last());
            assert!(names.iter().all(|n| n == "A" || n == "B"));
            assert!(names.contains(&"A".to_string()) && names.contains(&"B".to_string()));
            for pair in cycle.windows(2) {
                let deps = g.dependencies_of(&pair[0]).unwrap();
                assert!(deps.contains(&pair[1]));
            }
        }
        Ok(order) => panic!("expected a cycle, got {:?}", order),
    }
}

#[test]
fn self_dependency_is_a_cycle() {
    let g = graph(&[("A", &["A"])]);
    match g.build_order() {
        Err(BuildError::CircularDependency { cycle }) => {
            assert_eq!(names(&cycle), vec!["A", "A"]);
        }
        Ok(_) => panic!("expected a cycle"),
    }
}

#[test]
fn cycle_behind_a_prefix_names_only_its_members() {
    let g = graph(&[("A", &["B"]), ("B", &["C"]), ("C", &["D"]), ("D", &["B"])]);
    match g.build_order() {
        Err(BuildError::CircularDependency { cycle }) => {
            let names = names(&cycle);
            assert_eq!(names.first(), names.last());
            assert!(!names.contains(&"A".to_string()));
            assert_eq!(names.len(), 4);
        }
        Ok(_) => panic!("expected a cycle"),
    }
}

#[test]
fn empty_graph_has_an_empty_order() {
    let g = DependencyGraph::new();
    assert!(g.build_order().unwrap().is_empty());
    assert!(g.modules().is_empty());
    assert!(g.watched_files().is_empty());
}

#[test]
fn dependencies_come_before_their_dependents() {
    let edges: &[(&str, &[&str])] = &[
        ("app", &["http", "log", "util"]),
        ("http", &["net", "log"]),
        ("log", &["util"]),
        ("net", &["util", "sys"]),
        ("util", &[]),
        ("cli", &["app", "sys"]),
    ];
    let g = graph(edges);
    let order = g.build_order().unwrap();
    let mut sorted = names(&order);
    sorted.sort();
    assert_eq!(sorted, vec!["app", "cli", "http", "log", "net", "sys", "util"]);
    for (module, deps) in edges {
        for d in deps.iter() {
            assert!(position(&order, d) < position(&order, module), "{} before {}", d, module);
        }
    }
}

#[test]
fn modules_known_from_imports_only_are_part_of_the_order() {
    let g = graph(&[("A", &["ext"])]);
    let order = g.build_order().unwrap();
    assert_eq!(names(&order), vec!["ext", "A"]);
    assert!(g.module_file(&id("ext")).is_none());
    assert_eq!(g.module_file(&id("A")).map(|s| s.as_str()), Some("A.bal"));
}

#[test]
fn adding_a_module_again_replaces_it() {
    let mut g = graph(&[("A", &["B"]), ("B", &["A"])]);
    assert!(g.build_order().is_err());
    g.add_module(id("B"), vec![], "other/B.bal".to_string(), None);
    assert_eq!(names(&g.build_order().unwrap()), vec!["B", "A"]);
    assert_eq!(g.module_file(&id("B")).map(|s| s.as_str()), Some("other/B.bal"));
    assert_eq!(names(&g.modules()), vec!["A", "B"]);
    assert_eq!(g.dependencies_of(&id("B")).map(|d| d.len()), Some(0));
    assert!(g.dependencies_of(&id("Z")).is_none());
}

#[test]
fn modules_differ_by_every_part() {
    let mut g = DependencyGraph::new();
    let a = ModuleId::new("o".into(), "p".into(), "1".into(), "m".into());
    let b = ModuleId::new("o".into(), "p".into(), "2".into(), "m".into());
    g.add_module(a.clone(), vec![b.clone()], "a".into(), None);
    g.add_module(b.clone(), vec![], "b".into(), None);
    let order = g.build_order().unwrap();
    assert_eq!(order, vec![b, a]);
}

#[test]
fn from_import_splits_at_slashes() {
    let m = ModuleId::from_import("ballerina/io");
    assert_eq!(m.org(), "ballerina");
    assert_eq!(m.name(), "io");
    assert_eq!(m.version(), "0.1.0");
    assert_eq!(m.module(), "");

    let m = ModuleId::from_import("a/b/c/d");
    assert_eq!((m.org().as_str(), m.name().as_str(), m.module().as_str()), ("a", "b", "c"));

    let m = ModuleId::from_import("");
    assert_eq!((m.org().as_str(), m.name().as_str(), m.module().as_str()), ("", "", ""));

    let m = ModuleId::from_import("/x//");
    assert_eq!((m.org().as_str(), m.name().as_str(), m.module().as_str()), ("", "x", ""));

    let m = ModuleId::from_import("solo");
    assert_eq!((m.org().as_str(), m.name().as_str(), m.module().as_str()), ("solo", "", ""));
    assert_eq!(ModuleId::from_import("a/b/c"), ModuleId::new("a".into(), "b".into(), "0.1.0".into(), "c".into()));
}

#[test]
fn module_id_is_shown_without_its_version() {
    let m = ModuleId::new("org".into(), "pkg".into(), "1.2.3".into(), "mod".into());
    assert_eq!(m.to_text(), "org/pkg/mod");
    assert_eq!(m.clone(), m);
}

#[test]
fn content_hash_is_the_default_hash_of_the_text() {
    for text in ["", "a", "function f() { }\n", "héllo wörld"] {
        let mut hasher = DefaultHasher::new();
        text.hash(&mut hasher);
        assert_eq!(calculate_hash(text), hasher.finish(), "{:?}", text);
    }
    assert_ne!(calculate_hash("a"), calculate_hash("b"));
    assert_eq!(calculate_hash("same"), calculate_hash("same"));
}

#[test]
fn cache_returns_the_tree_for_the_same_content_only() {
    let mut g = DependencyGraph::new();
    let x = tree("x");
    assert!(g.get_cached_parse("x.bal", "source").is_none());
    g.cache_parse("x.bal".to_string(), "source", x.clone());
    assert_eq!(g.get_cached_parse("x.bal", "source"), Some(&x));
    // one changed character is a miss
    assert!(g.get_cached_parse("x.bal", "sourcE").is_none());
    assert!(g.get_cached_parse("x.bal", "source ").is_none());
    // other paths are not affected
    assert!(g.get_cached_parse("y.bal", "source").is_none());
}

#[test]
fn cache_entries_are_per_file() {
    let mut g = DependencyGraph::new();
    let x = tree("x");
    let y = tree("y");
    g.cache_parse("x.bal".to_string(), "one", x.clone());
    g.cache_parse("y.bal".to_string(), "two", y.clone());
    // changing x leaves y's entry alone
    let x2 = tree("x2");
    g.cache_parse("x.bal".to_string(), "one!", x2.clone());
    assert_eq!(g.get_cached_parse("y.bal", "two"), Some(&y));
    assert_eq!(g.get_cached_parse("x.bal", "one!"), Some(&x2));
    assert!(g.get_cached_parse("x.bal", "one").is_none());
}

#[test]
fn graph_is_up_to_date_only_if_every_time_matches() {
    let mut g = DependencyGraph::new();
    let t1 = Timestamp { secs: 10, nanos: 1 };
    let t2 = Timestamp { secs: 20, nanos: 2 };
    g.add_module(id("A"), vec![], "a.bal".to_string(), Some(t1));
    g.add_module(id("B"), vec![], "b.bal".to_string(), Some(t2));
    g.add_module(id("C"), vec![], "c.bal".to_string(), None);
    assert_eq!(g.watched_files(), vec!["a.bal".to_string(), "b.bal".to_string()]);

    assert!(g.is_up_to_date(&vec![Some(t1), Some(t2)]));
    // touching one file makes the whole graph stale
    assert!(!g.is_up_to_date(&vec![Some(t1), Some(Timestamp { secs: 20, nanos: 3 })]));
    assert!(!g.is_up_to_date(&vec![Some(Timestamp { secs: 11, nanos: 1 }), Some(t2)]));
    // a file that cannot be read makes it stale
    assert!(!g.is_up_to_date(&vec![Some(t1), None]));
    // observations must cover every watched file
    assert!(!g.is_up_to_date(&vec![Some(t1)]));
    assert!(!g.is_up_to_date(&vec![Some(t1), Some(t2), Some(t2)]));
    assert!(!g.is_up_to_date(&vec![Some(t2), Some(t1)]));
}

#[test]
fn recorded_time_is_replaced_in_place() {
    let mut g = DependencyGraph::new();
    let t1 = Timestamp { secs: 1, nanos: 0 };
    let t2 = Timestamp { secs: 2, nanos: 0 };
    let t3 = Timestamp { secs: 3, nanos: 0 };
    g.add_module(id("A"), vec![], "a.bal".to_string(), Some(t1));
    g.add_module(id("B"), vec![], "b.bal".to_string(), Some(t2));
    g.add_module(id("A"), vec![], "a.bal".to_string(), Some(t3));
    assert_eq!(g.watched_files(), vec!["a.bal".to_string(), "b.bal".to_string()]);
    assert!(g.is_up_to_date(&vec![Some(t3), Some(t2)]));
    // a failed read keeps the earlier record
    g.add_module(id("A"), vec![], "a.bal".to_string(), None);
    assert!(g.is_up_to_date(&vec![Some(t3), Some(t2)]));
}

#[test]
fn graph_without_watched_files_is_up_to_date() {
    let g = DependencyGraph::new();
    assert!(g.is_up_to_date(&vec![]));
    assert!(!g.is_up_to_date(&vec![None]));
}

#[test]
fn cache_by_hash_answers_for_that_hash_only() {
    let mut g = DependencyGraph::new();
    let x = tree("x");
    g.cache_by_hash("x.bal".to_string(), 42, x.clone());
    assert_eq!(g.get_cached_by_hash("x.bal", 42), Some(&x));
    assert_eq!(g.get_cached_by_hash("x.bal", 43), None);
    assert_eq!(g.get_cached_by_hash("y.bal", 42), None);
    // the source-taking functions use the content hash
    g.cache_parse("s.bal".to_string(), "text", x.clone());
    assert_eq!(g.get_cached_by_hash("s.bal", calculate_hash("text")), Some(&x));
    g.cache_by_hash("t.bal".to_string(), calculate_hash("other"), x.clone());
    assert_eq!(g.get_cached_parse("t.bal", "other"), Some(&x));
}
