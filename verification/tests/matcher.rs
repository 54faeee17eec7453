use themer::pattern::PatternDesc;
use themer::tree_reader::{match_dir_name, match_file_name, TreeReaderNode};

#[test]
fn match_empty() {
    assert!(match_file_name(&[], "abc").is_none());
    assert!(match_dir_name(&[], "abc").is_none());
}

#[test]
fn match_any_file() {
    let captures = match_file_name(&[TreeReaderNode::Any], "abc");
    assert!(captures.is_some());
    assert_eq!(captures.unwrap().0, &[String::from("abc")]);
}

#[test]
fn match_exact_file() {
    let captures = match_file_name(&[TreeReaderNode::Literal(String::from("abc"))], "abc");
    assert!(captures.is_some());
    let expected: &[String] = &[];
    assert_eq!(captures.unwrap().0, expected);

    let captures = match_file_name(&[TreeReaderNode::Literal(String::from("def"))], "abc");
    assert!(captures.is_none());
}

#[test]
fn match_any_dir() {
    let captures = match_dir_name(&[TreeReaderNode::Any], "abc");
    assert!(captures.is_none());

    let captures = match_dir_name(&[TreeReaderNode::Any], "abc-def");
    assert!(captures.is_none());
}

#[test]
fn match_anydir_dir() {
    let captures = match_dir_name(&[TreeReaderNode::AnyDir], "abc");
    assert!(captures.is_some());
    assert_eq!(captures.unwrap().0, &[String::from("abc")]);

    let captures = match_dir_name(&[TreeReaderNode::AnyDir], "abc-def");
    assert!(captures.is_none());
}

#[test]
fn match_leaf_dir() {
    let captures = match_dir_name(
        &[
            TreeReaderNode::Literal(String::from("theme")),
            TreeReaderNode::Any,
        ],
        "themes",
    );
    assert!(captures.is_some());
    let expected: &[String] = &[];
    assert_eq!(captures.unwrap().0, expected);
}

#[test]
fn match_theme_directory() {
    let nodes = &[
        TreeReaderNode::Literal(String::from("theme")),
        TreeReaderNode::AnyDir,
        TreeReaderNode::Literal(String::from("unit")),
        TreeReaderNode::Any,
        TreeReaderNode::Any,
    ];

    assert!(match_dir_name(nodes, "themes").is_some());

    let captures = match_dir_name(nodes, "theme-dark");
    assert!(captures.is_some());
    assert_eq!(captures.unwrap().0, &[String::from("dark")]);

    let captures = match_file_name(nodes, "theme-dark-unit-termite-color");
    assert!(captures.is_none());
}

#[test]
fn match_units() {
    let nodes = &[
        TreeReaderNode::Literal(String::from("unit")),
        TreeReaderNode::Any,
        TreeReaderNode::Any,
    ];

    let captures = match_file_name(nodes, "unit-termite-color");
    assert!(captures.is_some());
    assert_eq!(
        captures.unwrap().0,
        &[String::from("termite"), String::from("color")]
    );

    assert!(match_file_name(nodes, "unit-abc").is_none());

    assert!(match_dir_name(nodes, "units").is_some());
    assert!(match_dir_name(nodes, "unit-termite").is_some());
    assert!(match_dir_name(nodes, "unit-termite-color").is_none());
}

#[test]
fn match_pattern() {
    let nodes = &[
        TreeReaderNode::Literal(String::from("unit")),
        TreeReaderNode::Pattern(PatternDesc::new("^(.*)\\.toml$").unwrap()),
    ];

    let captures = match_file_name(nodes, "unit-test.toml");
    assert!(captures.is_some());
    assert_eq!(captures.unwrap().0, &[String::from("test")]);
}

#[test]
fn ignore() {
    let captures = match_file_name(&[TreeReaderNode::Any], "_abc");
    assert!(captures.is_none());

    let captures = match_dir_name(
        &[
            TreeReaderNode::Literal(String::from("unit")),
            TreeReaderNode::Any,
        ],
        "_units",
    );
    assert!(captures.is_none());
}
