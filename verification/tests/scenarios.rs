use themer::fs_tree::FsNode;
use themer::pattern::PatternDesc;
use themer::tree_reader::{TreeReader, TreeReaderNode};

fn file(name: &str) -> FsNode {
    FsNode::File {
        name: String::from(name),
        contents: None,
    }
}

fn dir(name: &str, entries: Vec<FsNode>) -> FsNode {
    FsNode::Dir {
        name: String::from(name),
        entries: Some(entries),
    }
}

fn unreadable_dir(name: &str) -> FsNode {
    FsNode::Dir {
        name: String::from(name),
        entries: None,
    }
}

fn hook_grammar() -> Vec<TreeReaderNode> {
    vec![
        TreeReaderNode::Literal(String::from("hook")),
        TreeReaderNode::Any,
        TreeReaderNode::Any,
    ]
}

#[test]
fn flat_and_split_names_capture_alike() {
    let grammar = hook_grammar();

    let flat_root = dir("root", vec![file("hook-preinstall-foo")]);
    let flat = TreeReader::new(&flat_root, &grammar).get_file_entries_recursive();
    assert_eq!(flat.len(), 1);
    assert_eq!(
        flat[0].captures.0,
        &[String::from("preinstall"), String::from("foo")]
    );
    assert_eq!(flat[0].path, &[String::from("hook-preinstall-foo")]);

    let split_root = dir("root", vec![dir("hooks", vec![file("preinstall-foo")])]);
    let split = TreeReader::new(&split_root, &grammar).get_file_entries_recursive();
    assert_eq!(split.len(), 1);
    assert_eq!(
        split[0].captures.0,
        &[String::from("preinstall"), String::from("foo")]
    );
    assert_eq!(
        split[0].path,
        &[String::from("hooks"), String::from("preinstall-foo")]
    );
}

#[test]
fn strict_arity_rejects_short_names() {
    let grammar = vec![
        TreeReaderNode::Literal(String::from("unit")),
        TreeReaderNode::Any,
        TreeReaderNode::Any,
    ];

    let root = dir("root", vec![file("unit-termite-color"), file("unit-bad")]);
    let entries = TreeReader::new(&root, &grammar).get_file_entries_recursive();
    assert_eq!(entries.len(), 1);
    assert_eq!(
        entries[0].captures.0,
        &[String::from("termite"), String::from("color")]
    );
}

#[test]
fn pattern_node_captures_sub_groups() {
    let grammar = vec![
        TreeReaderNode::Literal(String::from("unit")),
        TreeReaderNode::Pattern(PatternDesc::new("^(.*)\\.toml$").unwrap()),
    ];

    let root = dir("root", vec![file("unit-test.toml"), file("unit-test.txt")]);
    let entries = TreeReader::new(&root, &grammar).get_file_entries_recursive();
    assert_eq!(entries.len(), 1);
    assert_eq!(entries[0].captures.0, &[String::from("test")]);
    assert_eq!(entries[0].path, &[String::from("unit-test.toml")]);
}

#[test]
fn whole_name_wildcard_consumes_directory() {
    let theme_grammar = vec![
        TreeReaderNode::Literal(String::from("theme")),
        TreeReaderNode::AnyDir,
    ];

    let theme_dir = dir("theme-dark", vec![file("unit-termite-color")]);
    let root = dir("root", vec![theme_dir]);
    let entries = TreeReader::new(&root, &theme_grammar).get_dir_entries_recursive();
    assert_eq!(entries.len(), 1);
    assert_eq!(entries[0].captures.0, &[String::from("dark")]);
    assert_eq!(entries[0].path, &[String::from("theme-dark")]);

    let unit_grammar = vec![
        TreeReaderNode::Literal(String::from("unit")),
        TreeReaderNode::Any,
        TreeReaderNode::Any,
    ];
    let FsNode::Dir {
        entries: Some(children),
        ..
    } = &root
    else {
        panic!("root is a directory");
    };
    let inner = TreeReader::new(&children[0], &unit_grammar).get_file_entries_recursive();
    assert_eq!(inner.len(), 1);
    assert_eq!(
        inner[0].captures.0,
        &[String::from("termite"), String::from("color")]
    );
}

#[test]
fn deep_directory_entries_keep_accumulated_captures() {
    // a wildcard ancestor contributes captures; the count filter sees the
    // accumulated total, so the deep entry is kept
    let grammar = vec![TreeReaderNode::Any, TreeReaderNode::AnyDir];
    let root = dir("root", vec![dir("foo", vec![dir("dark", vec![])])]);
    let entries = TreeReader::new(&root, &grammar).get_dir_entries_recursive();
    assert_eq!(entries.len(), 1);
    assert_eq!(
        entries[0].captures.0,
        &[String::from("foo"), String::from("dark")]
    );
    assert_eq!(
        entries[0].path,
        &[String::from("foo"), String::from("dark")]
    );
}

#[test]
fn unreadable_subtree_degrades_to_empty() {
    let grammar = hook_grammar();

    let root = dir(
        "root",
        vec![
            unreadable_dir("hooks"),
            dir("hook-as", vec![file("b")]),
            file("hook-x-y"),
        ],
    );
    let entries = TreeReader::new(&root, &grammar).get_file_entries_recursive();
    assert_eq!(entries.len(), 2);
    assert_eq!(entries[0].captures.0, &[String::from("x"), String::from("y")]);
    assert_eq!(entries[1].captures.0, &[String::from("as"), String::from("b")]);
}

#[test]
fn rerunning_a_traversal_yields_the_same_entries() {
    let grammar = hook_grammar();
    let root = dir(
        "root",
        vec![dir("hooks", vec![file("preinstall-foo"), file("a-b")]), file("hook-x-y")],
    );

    let reader = TreeReader::new(&root, &grammar);
    let first = reader.get_file_entries_recursive();
    let second = reader.get_file_entries_recursive();
    assert_eq!(first.len(), second.len());
    for i in 0..first.len() {
        assert_eq!(first[i].path, second[i].path);
        assert_eq!(first[i].captures.0, second[i].captures.0);
    }
}

#[test]
fn escaped_segments_are_excluded_at_every_depth() {
    let grammar = hook_grammar();
    let root = dir(
        "root",
        vec![
            file("_hook-x-y"),
            dir("_hooks", vec![file("preinstall-foo")]),
            dir("hooks", vec![file("_preinstall-foo")]),
        ],
    );
    let entries = TreeReader::new(&root, &grammar).get_file_entries_recursive();
    assert_eq!(entries.len(), 0);
}

#[test]
fn container_directory_matches_at_literal_position() {
    let grammar = vec![
        TreeReaderNode::Literal(String::from("unit")),
        TreeReaderNode::Any,
        TreeReaderNode::Any,
    ];
    let root = dir("root", vec![dir("units", vec![file("termite-color")])]);
    let entries = TreeReader::new(&root, &grammar).get_file_entries_recursive();
    assert_eq!(entries.len(), 1);
    assert_eq!(
        entries[0].captures.0,
        &[String::from("termite"), String::from("color")]
    );
    assert_eq!(
        entries[0].path,
        &[String::from("units"), String::from("termite-color")]
    );
}
