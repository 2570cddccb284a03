use bal_frontend::codegen::{Generator, Printer};
use bal_frontend::imports::parse_imports;
use bal_frontend::path::{ancestors, extension, file_stem, is_bal_file, join, parent};
use bal_frontend::project::{
    find_bal_files, find_ballerina_toml, module_id_from_path, BuildOptions, Package, PackageInfo,
    Project, ProjectError,
};
use bal_frontend::snapshot::{accept_snapshot, frame_snapshot, unframe_snapshot, SNAPSHOT_VERSION};
use bal_frontend::dependency::{DependencyGraph, ModuleId, Timestamp};
use std::path::Path;

fn project(root: &str) -> Project {
    Project {
        root_dir: root.to_string(),
        package: Package {
            info: PackageInfo {
                org: "acme".to_string(),
                name: "tools".to_string(),
                version: "2.0.0".to_string(),
                distribution: "dist".to_string(),
            },
            build_options: BuildOptions { observabilityIncluded: true },
        },
        source_files: vec![format!("{}/main.bal", root)],
    }
}

#[test]
fn extensions_follow_the_last_dot_of_the_name() {
    assert_eq!(extension("a/b.bal"), Some("bal".to_string()));
    assert_eq!(extension("a.b/c"), None);
    assert_eq!(extension("a/.hidden"), None);
    assert_eq!(extension("a/.hidden.txt"), Some("txt".to_string()));
    assert_eq!(extension("archive.tar.gz"), Some("gz".to_string()));
    assert_eq!(extension("trailing."), Some("".to_string()));
    assert_eq!(extension(""), None);
    assert_eq!(extension("dir/"), None);
}

#[test]
fn stems_drop_the_extension() {
    assert_eq!(file_stem("a/b.bal"), Some("b".to_string()));
    assert_eq!(file_stem("a/.hidden"), Some(".hidden".to_string()));
    assert_eq!(file_stem("archive.tar.gz"), Some("archive.tar".to_string()));
    assert_eq!(file_stem("plain"), Some("plain".to_string()));
    assert_eq!(file_stem("dir/"), None);
    assert_eq!(file_stem(""), None);
}

#[test]
fn parents_drop_the_last_component() {
    assert_eq!(parent("a/b/c.bal"), Some("a/b".to_string()));
    assert_eq!(parent("c.bal"), Some("".to_string()));
    assert_eq!(parent("/c.bal"), Some("/".to_string()));
    assert_eq!(parent("/"), None);
    assert_eq!(parent(""), None);
    assert_eq!(ancestors("/a/b"), vec!["/a".to_string(), "/".to_string()]);
    assert_eq!(ancestors("x"), vec!["".to_string()]);
    assert!(ancestors("").is_empty());
}

#[test]
fn path_functions_agree_with_the_standard_library_on_plain_paths() {
    for p in ["a/b/c.bal", "c.bal", "/c.bal", "a.b/c", "a/.hidden", "x/archive.tar.gz", "plain"] {
        let std_path = Path::new(p);
        assert_eq!(
            extension(p),
            std_path.extension().map(|e| e.to_str().unwrap().to_string()),
            "{}",
            p
        );
        assert_eq!(
            file_stem(p),
            std_path.file_stem().map(|e| e.to_str().unwrap().to_string()),
            "{}",
            p
        );
        assert_eq!(parent(p), std_path.parent().map(|e| e.to_str().unwrap().to_string()), "{}", p);
        assert_eq!(join(p, "x.toml"), std_path.join("x.toml").to_str().unwrap(), "{}", p);
    }
}

#[test]
fn joining_adds_one_separator() {
    assert_eq!(join("dir", "f"), "dir/f");
    assert_eq!(join("dir/", "f"), "dir/f");
    assert_eq!(join("", "f"), "f");
    assert_eq!(join("/", "f"), "/f");
}

#[test]
fn bal_files_are_recognised_by_extension() {
    assert!(is_bal_file("main.bal"));
    assert!(is_bal_file("a/b/main.bal"));
    assert!(!is_bal_file("main.txt"));
    assert!(!is_bal_file("main.BAL"));
    assert!(!is_bal_file("bal"));
    assert!(!is_bal_file(".bal"));
    assert!(!is_bal_file("main.bal/"));
    let entries: Vec<String> =
        ["p/a.bal", "p/b.txt", "p/Ballerina.toml", "p/c.bal", "p/.bal"].iter().map(|s| s.to_string()).collect();
    assert_eq!(find_bal_files(&entries), vec!["p/a.bal".to_string(), "p/c.bal".to_string()]);
    assert!(find_bal_files(&vec![]).is_empty());
}

#[test]
fn manifest_is_found_in_either_spelling() {
    assert_eq!(find_ballerina_toml("proj", true, false), Some("proj/Ballerina.toml".to_string()));
    assert_eq!(find_ballerina_toml("proj", true, true), Some("proj/Ballerina.toml".to_string()));
    assert_eq!(find_ballerina_toml("proj", false, true), Some("proj/ballerina.toml".to_string()));
    assert_eq!(find_ballerina_toml("proj", false, false), None);
    assert_eq!(find_ballerina_toml("", true, false), Some("Ballerina.toml".to_string()));
}

#[test]
fn source_files_lie_directly_in_the_root() {
    let p = project("work/proj");
    assert!(p.is_valid_source_file("work/proj/main.bal"));
    assert!(!p.is_valid_source_file("work/proj/modules/m.bal"));
    assert!(!p.is_valid_source_file("work/proj/main.txt"));
    assert!(!p.is_valid_source_file("work/main.bal"));
    assert!(!p.is_valid_source_file("main.bal"));
    assert!(project("").is_valid_source_file("main.bal"));
}

#[test]
fn project_needs_a_source_file() {
    let p = project("x");
    match Project::assemble("root".to_string(), p.package, vec![]) {
        Err(e) => {
            assert!(matches!(&e, ProjectError::Invalid(_)));
            assert_eq!(e.message(), "Invalid project: No .bal files found in project");
        }
        Ok(_) => panic!("expected an error"),
    }
    let p = project("x");
    let ok = Project::assemble("root".to_string(), p.package, vec!["root/a.bal".to_string()]).unwrap();
    assert_eq!(ok.root_dir, "root");
    assert_eq!(ok.source_files, vec!["root/a.bal".to_string()]);
    assert_eq!(ok.package.info.org, "acme");
    assert!(ok.package.build_options.observabilityIncluded);
}

#[test]
fn project_root_is_the_directory_or_the_parent_of_the_file() {
    assert_eq!(Project::root_for("work/proj", false).unwrap(), "work/proj");
    assert_eq!(Project::root_for("work/proj/Ballerina.toml", true).unwrap(), "work/proj");
    match Project::root_for("", true) {
        Err(e) => assert_eq!(e.message(), "Invalid project: Invalid project path"),
        Ok(_) => panic!("expected an error"),
    }
    assert_eq!(Project::missing_manifest().message(), "Invalid project: No Ballerina.toml found");
}

#[test]
fn project_errors_have_their_messages() {
    assert_eq!(ProjectError::Io("denied".to_string()).message(), "IO error: denied");
    assert_eq!(ProjectError::TomlParse("bad key".to_string()).message(), "TOML parse error: bad key");
    assert_eq!(ProjectError::Invalid("why".to_string()).message(), "Invalid project: why");
    assert!(!BuildOptions::default().observabilityIncluded);
}

#[test]
fn module_identity_comes_from_the_package_and_the_file_stem() {
    let p = project("work/proj");
    let id = module_id_from_path(&p, "work/proj/main.bal");
    assert_eq!(id, ModuleId::new("acme".into(), "tools".into(), "2.0.0".into(), "main".into()));
    let id = module_id_from_path(&p, "util.tar.bal");
    assert_eq!(id.module(), "util.tar");
}

#[test]
fn imports_are_read_line_by_line() {
    let source = "import ballerina/io;\n  import foo/bar ;\nfunction f() { }\nimport a/b/c;;;\nimportx/y;\n\timport z\r\n";
    assert_eq!(
        parse_imports(source),
        vec!["ballerina/io".to_string(), "foo/bar ".to_string(), "a/b/c".to_string(), "z".to_string()]
    );
    assert!(parse_imports("").is_empty());
    assert!(parse_imports("import").is_empty());
    assert_eq!(parse_imports("import "), Vec::<String>::new());
    assert_eq!(parse_imports("import x"), vec!["x".to_string()]);
    assert_eq!(parse_imports("import  ;"), vec![" ".to_string()]);
    assert_eq!(parse_imports("x\nimport last"), vec!["last".to_string()]);
}

#[test]
fn imports_agree_with_the_line_methods_of_the_standard_library() {
    let source = "import a/b;\r\n\u{a0}import c/d; \n // import e/f;\nimport g/h\n\nimport i;;";
    let mut expected = Vec::new();
    for line in source.lines() {
        if line.trim().starts_with("import ") {
            expected.push(line.trim()[7..].trim_end_matches(';').to_string());
        }
    }
    assert_eq!(parse_imports(source), expected);
    assert_eq!(expected.len(), 4);
}

#[test]
fn generator_and_printer_are_placeholders() {
    let g = Generator::new("function f() { }".to_string());
    assert_eq!(g.source, "function f() { }");
    assert_eq!(g.generate(), "");
    let p = Printer::new();
    assert_eq!(p.print("a  b\n"), "a  b\n");
    assert_eq!(p.print(""), "");
}

#[test]
fn snapshot_frame_round_trips() {
    let payload = vec![1u8, 2, 3, 255, 0];
    let framed = frame_snapshot(&payload);
    assert_eq!(framed.len(), payload.len() + 8);
    assert_eq!(&framed[..4], b"BALD");
    assert_eq!(framed[4], SNAPSHOT_VERSION);
    assert_eq!(&framed[5..8], &[0, 0, 0]);
    assert_eq!(unframe_snapshot(&framed), Some(payload));
    assert_eq!(unframe_snapshot(&frame_snapshot(&vec![])), Some(vec![]));
}

#[test]
fn snapshot_of_another_layout_is_refused() {
    let mut framed = frame_snapshot(&vec![9u8; 4]);
    framed[4] = SNAPSHOT_VERSION + 1;
    assert_eq!(unframe_snapshot(&framed), None);
    let mut framed = frame_snapshot(&vec![9u8; 4]);
    framed[0] = b'X';
    assert_eq!(unframe_snapshot(&framed), None);
    let mut framed = frame_snapshot(&vec![9u8; 4]);
    framed[7] = 1;
    assert_eq!(unframe_snapshot(&framed), None);
    assert_eq!(unframe_snapshot(&vec![]), None);
    assert_eq!(unframe_snapshot(&b"BALD\x01\0\0".to_vec()), None);
}

#[test]
fn stale_snapshot_is_not_accepted() {
    let t = Timestamp { secs: 100, nanos: 5 };
    let make = || {
        let mut g = DependencyGraph::new();
        g.add_module(
            ModuleId::new("o".into(), "p".into(), "1".into(), "m".into()),
            vec![],
            "m.bal".to_string(),
            Some(t),
        );
        g
    };
    assert!(accept_snapshot(make(), &vec![Some(t)]).is_some());
    // the file was touched: same content, later time
    assert!(accept_snapshot(make(), &vec![Some(Timestamp { secs: 101, nanos: 5 })]).is_none());
    assert!(accept_snapshot(make(), &vec![None]).is_none());
    assert!(accept_snapshot(make(), &vec![]).is_none());
    let kept = accept_snapshot(make(), &vec![Some(t)]).unwrap();
    assert_eq!(kept.watched_files(), vec!["m.bal".to_string()]);
}
