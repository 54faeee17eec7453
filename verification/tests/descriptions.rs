use themer::error::{Error, ResultExt};
use themer::fs_tree::{tree_read_file, FsNode};
use themer::hooks;
use themer::install::{file_stem, FileDesc, FileDescDeserialize, InstallDesc, InstallStep};
use themer::manager::ThemeManager;
use themer::pattern::PatternDesc;
use themer::str_map::StrMap;
use themer::strings::{make_plural, split_char, str_eq};
use themer::themes;
use themer::read_dir::{read_dir, ReadDirOptions};
use themer::templates::TemplatesDesc;
use themer::tree_reader::{captures_count_matches, match_file_name, TreeReaderNode};

fn file(name: &str, contents: &str) -> FsNode {
    FsNode::File {
        name: String::from(name),
        contents: Some(String::from(contents)),
    }
}

fn dir(name: &str, entries: Vec<FsNode>) -> FsNode {
    FsNode::Dir {
        name: String::from(name),
        entries: Some(entries),
    }
}

#[test]
fn listings_filter_by_entry_kind() {
    let root = dir("root", vec![file("a", ""), dir("sub", vec![]), file("b", "")]);
    let files = read_dir(&root, ReadDirOptions::Files).unwrap();
    assert_eq!(files.len(), 2);
    assert_eq!(files[0].file_name, "a");
    assert!(files[0].entry_type.is_file());
    assert!(!files[0].entry_type.is_dir());
    let dirs = read_dir(&root, ReadDirOptions::Directories).unwrap();
    assert_eq!(dirs.len(), 1);
    assert_eq!(dirs[0].file_name, "sub");
    assert_eq!(dirs[0].path, vec![String::from("sub")]);
    assert!(dirs[0].entry_type.is_dir());
    let both = read_dir(&root, ReadDirOptions::Both).unwrap();
    assert_eq!(both.len(), 3);
    let unreadable = FsNode::Dir {
        name: String::from("locked"),
        entries: None,
    };
    assert!(read_dir(&unreadable, ReadDirOptions::Both).is_err());
    assert!(read_dir(&file("f", ""), ReadDirOptions::Both).is_err());
}

#[test]
fn templates_resolve_their_targets() {
    let mut vars: StrMap<String> = StrMap::new();
    vars.set(String::from("home"), String::from("/home/me"));
    let desc = TemplatesDesc { vars, units: vec![] };
    assert_eq!(
        desc.resolve_target("{{home}}/.config/x").unwrap(),
        "/home/me/.config/x"
    );
    assert!(desc.resolve_target("{{#broken").is_err());
    // texts that would make the renderer look outside its arguments are
    // rejected rather than rendered
    assert!(desc.resolve_target("{{.}}").is_err());
    assert!(desc.resolve_target("{{\n.}}").is_err());
    assert!(desc.resolve_target("{{&\u{A0}.}}").is_err());
    assert!(desc.resolve_target("{{> partial}}").is_err());
    assert!(desc.resolve_target("{{=<% %>=}}<%home%>").is_err());
}

#[test]
fn errors_carry_context() {
    let ok: Result<u32, Error> = Ok(7);
    assert_eq!(ok.context(String::from("reading")).unwrap(), 7);
    let err: Result<u32, Error> = Err(Error::InvalidPath);
    match err.context(String::from("reading")) {
        Err(Error::Context { context, inner }) => {
            assert_eq!(context, "reading");
            assert!(matches!(*inner, Error::InvalidPath));
        }
        _ => panic!("the error is wrapped with its context"),
    }
}

#[test]
fn maps_keep_insertion_order_and_overwrite_on_repeat() {
    let mut m: StrMap<String> = StrMap::new();
    m.set(String::from("b"), String::from("1"));
    m.set(String::from("a"), String::from("2"));
    m.set(String::from("b"), String::from("3"));
    assert_eq!(m.len(), 2);
    assert_eq!(m.pair_at(0).0, "b");
    assert_eq!(m.pair_at(0).1, "3");
    assert_eq!(m.pair_at(1).0, "a");
    assert_eq!(m.get("b"), Some(&String::from("3")));
    assert_eq!(m.get("c"), None);
    m.ensure_contains(String::from("a"), String::from("x"));
    assert_eq!(m.get("a"), Some(&String::from("2")));
    m.ensure_contains(String::from("c"), String::from("x"));
    assert_eq!(m.get("c"), Some(&String::from("x")));
}

#[test]
fn string_helpers() {
    assert_eq!(make_plural("unit"), "units");
    assert_eq!(split_char("a-b-c", '-'), vec!["a", "b", "c"]);
    assert_eq!(split_char("", '-'), vec![""]);
    assert_eq!(split_char("a--b", '-'), vec!["a", "", "b"]);
    assert!(str_eq("abc", "abc"));
    assert!(!str_eq("abc", "abd"));
}

#[test]
fn file_stems() {
    assert_eq!(file_stem("configs/foo.conf"), Some(String::from("foo")));
    assert_eq!(file_stem("foo.tar.gz"), Some(String::from("foo.tar")));
    assert_eq!(file_stem(".hidden"), Some(String::from(".hidden")));
    assert_eq!(file_stem("dir/.."), None);
    assert_eq!(file_stem("dir/"), Some(String::from("dir")));
    assert_eq!(file_stem("dir//"), Some(String::from("dir")));
    assert_eq!(file_stem("/"), None);
    assert_eq!(file_stem(""), None);
}

#[test]
fn file_desc_name_defaults() {
    let f = FileDesc::from_deserialize(FileDescDeserialize {
        name: None,
        path: String::from("configs/termite.cfg"),
        target: String::from("~/.config/termite"),
        template: true,
    })
    .unwrap();
    assert_eq!(f.name, "termite");

    let f = FileDesc::from_deserialize(FileDescDeserialize {
        name: Some(String::from("given")),
        path: String::from("configs/termite.cfg"),
        target: String::from("t"),
        template: false,
    })
    .unwrap();
    assert_eq!(f.name, "given");

    let r = FileDesc::from_deserialize(FileDescDeserialize {
        name: None,
        path: String::from(".."),
        target: String::from("t"),
        template: false,
    });
    assert!(matches!(r, Err(Error::InvalidPath)));

    // a stemless path fails even when a name is given
    let r = FileDesc::from_deserialize(FileDescDeserialize {
        name: Some(String::from("given")),
        path: String::from(".."),
        target: String::from("t"),
        template: false,
    });
    assert!(matches!(r, Err(Error::InvalidPath)));
}

#[test]
fn tree_reads_and_errors() {
    let root = dir(
        "root",
        vec![
            file("readable", "text"),
            FsNode::File {
                name: String::from("locked"),
                contents: None,
            },
            dir("sub", vec![]),
        ],
    );
    let ok = tree_read_file(&root, &vec![String::from("readable")]);
    assert_eq!(ok.unwrap(), "text");
    let locked = tree_read_file(&root, &vec![String::from("locked")]);
    assert!(matches!(locked, Err(Error::Unreadable { .. })));
    let missing = tree_read_file(&root, &vec![String::from("absent")]);
    assert!(matches!(missing, Err(Error::Missing { .. })));
    let not_a_file = tree_read_file(&root, &vec![String::from("sub")]);
    assert!(matches!(not_a_file, Err(Error::NotAFile { .. })));
}

#[test]
fn patterns_compile_and_count_groups() {
    assert!(PatternDesc::new("(((").is_none());
    assert!(PatternDesc::new("^a$").is_some());

    // a group that does not participate in the match contributes no capture
    let optional = vec![TreeReaderNode::Pattern(
        PatternDesc::new("^([a-z]+)([0-9]+)?$").unwrap(),
    )];
    let caps = match_file_name(&optional, "abc").unwrap();
    assert_eq!(caps.0, &[String::from("abc")]);
    let caps = match_file_name(&optional, "abc12").unwrap();
    assert_eq!(caps.0, &[String::from("abc"), String::from("12")]);
    assert!(match_file_name(&optional, "ABC").is_none());

    // the expected capture total counts every group of a pattern
    let grammar = vec![
        TreeReaderNode::Literal(String::from("unit")),
        TreeReaderNode::Pattern(PatternDesc::new("^(.*)\\.toml$").unwrap()),
    ];
    assert!(captures_count_matches(&grammar, 1));
    assert!(!captures_count_matches(&grammar, 0));
    assert!(!captures_count_matches(&grammar, 2));
}

#[test]
fn global_hooks_are_read_from_the_tree() {
    let root = dir(
        "root",
        vec![
            dir("hooks", vec![file("preinstall-setup", "")]),
            file("hook-postinstall-notify", ""),
            file("hook-unknown-x", ""),
        ],
    );
    let set = hooks::read_from(&root);
    assert!(set.preinstall.global);
    assert_eq!(set.preinstall.executables.len(), 1);
    assert_eq!(set.preinstall.executables[0].0, "setup");
    assert_eq!(
        set.preinstall.executables[0].1,
        vec![String::from("hooks"), String::from("preinstall-setup")]
    );
    assert_eq!(set.postinstall.executables.len(), 1);
    assert_eq!(set.postinstall.executables[0].0, "notify");
    assert_eq!(set.preremove.executables.len(), 0);
    assert_eq!(set.postremove.executables.len(), 0);
}

#[test]
fn hook_launcher_yields_commands_in_order() {
    let mut set = hooks::HookSet::default();
    set.preinstall.add(
        String::from("first"),
        vec![String::from("hooks"), String::from("first")],
    );
    set.preinstall.add(
        String::from("second"),
        vec![String::from("hooks"), String::from("second")],
    );
    let theme_dir = vec![String::from("themes"), String::from("dark")];
    let launcher = hooks::HookLauncher::HookSet {
        theme_dir: &theme_dir,
        theme_name: "dark",
        hooks: &set,
    };
    let cmds = launcher.run_preinstall();
    assert_eq!(cmds.len(), 2);
    assert_eq!(cmds[0].executable_name, "first");
    assert_eq!(cmds[1].executable_name, "second");
    assert_eq!(cmds[0].hook_name, "Preinstall");
    assert_eq!(cmds[0].theme_dir, theme_dir);
    assert_eq!(cmds[0].theme_name, "dark");
    assert_eq!(launcher.run_postinstall().len(), 0);
    assert_eq!(hooks::HookLauncher::Empty.run_preinstall().len(), 0);
}

fn theme_tree() -> FsNode {
    dir(
        "root",
        vec![dir(
            "themes",
            vec![
                dir(
                    "dark",
                    vec![
                        file("theme.toml", "inherits = \"base\""),
                        dir("units", vec![file("termite-color", "#000000")]),
                        file("unit-extra.toml", "size = \"12\"\nfont = \"mono\""),
                        file("unit-broken.toml", "size = 12"),
                        file("hook-preinstall-prepare", ""),
                    ],
                ),
                dir("base", vec![dir("units", vec![file("termite-color", "#ffffff")])]),
            ],
        )],
    )
}

#[test]
fn themes_are_read_from_the_tree() {
    let root = theme_tree();
    let themes = themes::read_from(&root);
    assert_eq!(themes.len(), 2);

    let dark = themes.get("dark").unwrap();
    assert_eq!(dark.name, "dark");
    assert_eq!(
        dark.dir,
        vec![String::from("themes"), String::from("dark")]
    );
    assert_eq!(dark.options.inherits, Some(String::from("base")));
    let termite = dark.units.get("termite").unwrap();
    assert_eq!(
        termite.values.get("color"),
        Some(&String::from("#000000"))
    );
    let extra = dark.units.get("extra").unwrap();
    assert_eq!(extra.values.get("size"), Some(&String::from("12")));
    assert_eq!(extra.values.get("font"), Some(&String::from("mono")));
    // a compound file that is not a table of strings registers its unit
    // but contributes no values
    assert_eq!(dark.units.get("broken").unwrap().values.len(), 0);
    assert_eq!(dark.hooks.preinstall.executables.len(), 1);
    assert!(!dark.hooks.preinstall.global);

    let base = themes.get("base").unwrap();
    assert_eq!(base.options.inherits, None);
    assert_eq!(
        base.units.get("termite").unwrap().values.get("color"),
        Some(&String::from("#ffffff"))
    );
}

#[test]
fn a_theme_with_a_broken_options_file_is_skipped() {
    let root = dir(
        "root",
        vec![
            dir("theme-bad", vec![file("theme.toml", "inherits = [")]),
            dir("theme-good", vec![]),
        ],
    );
    let themes = themes::read_from(&root);
    assert_eq!(themes.len(), 1);
    assert!(themes.get("good").is_some());
    assert!(themes.get("bad").is_none());

    let root = dir(
        "root",
        vec![dir("theme-odd", vec![file("theme.toml", "inherits = 3")])],
    );
    let themes = themes::read_from(&root);
    assert!(themes.get("odd").is_none());
}

#[test]
fn install_plan_renders_templates_and_orders_hooks() {
    let root = dir(
        "root",
        vec![
            dir(
                "install",
                vec![file("termite.cfg", "color = {{color}}")],
            ),
            dir(
                "themes",
                vec![dir(
                    "dark",
                    vec![dir("units", vec![file("termite-color", "#000000")])],
                )],
            ),
        ],
    );
    let themes = themes::read_from(&root);
    let dark = themes.get("dark").unwrap();

    let mut vars: StrMap<String> = StrMap::new();
    vars.set(String::from("home"), String::from("/home/me"));
    let desc = InstallDesc {
        dir: vec![String::from("install")],
        vars,
        files: vec![FileDesc {
            name: String::from("termite"),
            path: String::from("termite.cfg"),
            target: String::from("{{home}}/.config/termite"),
            template: true,
        }],
    };

    let mut global = hooks::HookSet::global();
    global
        .preinstall
        .add(String::from("setup"), vec![String::from("hook-preinstall-setup")]);
    let theme_dir = dark.dir.clone();
    let launcher = hooks::HookLauncher::HookSet {
        theme_dir: &theme_dir,
        theme_name: "dark",
        hooks: &global,
    };
    let chain = vec![dark];
    let steps = desc.install(&root, &chain, &launcher).unwrap();
    assert_eq!(steps.len(), 2);
    match &steps[0] {
        InstallStep::Hook(c) => {
            assert_eq!(c.executable_name, "setup");
            assert_eq!(c.theme_name, "dark");
        }
        _ => panic!("first step runs the global preinstall hook"),
    }
    match &steps[1] {
        InstallStep::Write { target, contents } => {
            assert_eq!(target, "/home/me/.config/termite");
            assert_eq!(contents, "color = #000000");
        }
        _ => panic!("second step writes the rendered template"),
    }
}

#[test]
fn copies_fall_back_to_the_install_directory() {
    let root = dir(
        "root",
        vec![dir("install", vec![file("wallpaper.png", "")])],
    );
    let desc = InstallDesc {
        dir: vec![String::from("install")],
        vars: StrMap::new(),
        files: vec![FileDesc {
            name: String::from("wallpaper"),
            path: String::from("wallpaper.png"),
            target: String::from("/tmp/wallpaper.png"),
            template: false,
        }],
    };
    let steps = desc
        .install_empty(&root, &hooks::HookLauncher::Empty)
        .unwrap();
    assert_eq!(steps.len(), 1);
    match &steps[0] {
        InstallStep::Copy { source, target } => {
            assert_eq!(
                source,
                &vec![String::from("install"), String::from("wallpaper.png")]
            );
            assert_eq!(target, "/tmp/wallpaper.png");
        }
        _ => panic!("the only step copies the file"),
    }
}

#[test]
fn a_missing_template_fails_the_plan() {
    let root = dir("root", vec![dir("install", vec![])]);
    let desc = InstallDesc {
        dir: vec![String::from("install")],
        vars: StrMap::new(),
        files: vec![FileDesc {
            name: String::from("gone"),
            path: String::from("gone.cfg"),
            target: String::from("/tmp/gone"),
            template: true,
        }],
    };
    let r = desc.install_empty(&root, &hooks::HookLauncher::Empty);
    assert!(matches!(r, Err(Error::Context { .. })));
}

#[test]
fn manager_resolves_the_inheritance_chain() {
    let root = dir(
        "root",
        vec![
            dir("install", vec![file("termite.cfg", "color = {{color}}")]),
            dir(
                "themes",
                vec![
                    dir(
                        "dark",
                        vec![
                            file("theme.toml", "inherits = \"base\""),
                            dir("units", vec![file("termite-color", "#111111")]),
                        ],
                    ),
                    dir(
                        "base",
                        vec![dir(
                            "units",
                            vec![file("termite-color", "#eeeeee"), file("termite-size", "10")],
                        )],
                    ),
                ],
            ),
        ],
    );
    let desc = InstallDesc {
        dir: vec![String::from("install")],
        vars: StrMap::new(),
        files: vec![FileDesc {
            name: String::from("termite"),
            path: String::from("termite.cfg"),
            target: String::from("/tmp/termite"),
            template: true,
        }],
    };
    let manager = ThemeManager::read_from_dir(&root, desc);
    let steps = manager.install_theme(&root, "dark").unwrap();
    assert_eq!(steps.len(), 1);
    match &steps[0] {
        InstallStep::Write { contents, .. } => {
            // the leaf theme overrides the base it inherits
            assert_eq!(contents, "color = #111111");
        }
        _ => panic!("the only step writes the rendered template"),
    }

    let empty_steps = manager.install_empty(&root).unwrap();
    assert_eq!(empty_steps.len(), 1);
}
