//! Hook descriptions: the four hook points, the executables registered for
//! each, and the commands a launcher asks its caller to run. The library
//! never starts a process; a launcher turns a hook set into an ordered list
//! of commands, and whoever drives the library runs them.

use vstd::prelude::*;

use crate::fs_tree::FsNode;
use crate::strings::str_eq;
use crate::tree_reader::Captures;
use crate::tree_reader::TreeReader;
use crate::tree_reader::TreeReaderEntry;
use crate::tree_reader::TreeReaderNode;
use crate::tree_reader::spec_file_entries;
use crate::tree_reader::entries_view;
use crate::tree_reader::EntryView;

verus! {

/// One hook point: its display name, whether it belongs to the global set,
/// and the registered executables, each a name and a path below the root.
pub struct Hook {
    pub global: bool,
    pub name: String,
    pub executables: Vec<(String, Vec<String>)>,
}

/// The mathematical content of a hook.
#[verifier::ext_equal]
pub struct HookView {
    pub global: bool,
    pub name: Seq<char>,
    pub executables: Seq<(Seq<char>, Seq<Seq<char>>)>,
}

impl View for Hook {
    type V = HookView;

    open spec fn view(&self) -> HookView {
        HookView {
            global: self.global,
            name: self.name@,
            executables: self.executables.deep_view(),
        }
    }
}

/// A hook view with one executable appended.
pub open spec fn hook_view_add(h: HookView, name: Seq<char>, path: Seq<Seq<char>>) -> HookView {
    HookView { global: h.global, name: h.name, executables: h.executables.push((name, path)) }
}

impl Hook {
    /// Registers one executable under the hook.
    pub fn add(&mut self, name: String, path: Vec<String>)
        ensures
            final(self)@ == hook_view_add(old(self)@, name@, path.deep_view()),
    {
        let ghost nv = name@;
        let ghost pv = path.deep_view();
        self.executables.push((name, path));
        proof {
            assert(self@.executables =~= old(self)@.executables.push((nv, pv)));
            assert(self@ =~= hook_view_add(old(self)@, nv, pv));
        }
    }
}

/// The four hook points.
pub struct HookSet {
    pub preinstall: Hook,
    pub postinstall: Hook,
    pub preremove: Hook,
    pub postremove: Hook,
}

/// The mathematical content of a hook set.
#[verifier::ext_equal]
pub struct HookSetView {
    pub preinstall: HookView,
    pub postinstall: HookView,
    pub preremove: HookView,
    pub postremove: HookView,
}

impl View for HookSet {
    type V = HookSetView;

    open spec fn view(&self) -> HookSetView {
        HookSetView {
            preinstall: self.preinstall@,
            postinstall: self.postinstall@,
            preremove: self.preremove@,
            postremove: self.postremove@,
        }
    }
}

/// An empty hook with the given flag and display name.
pub open spec fn spec_hook_view(global: bool, name: Seq<char>) -> HookView {
    HookView { global, name, executables: Seq::empty() }
}

/// The empty theme-level hook set.
pub open spec fn spec_default_set() -> HookSetView {
    HookSetView {
        preinstall: spec_hook_view(false, "Preinstall"@),
        postinstall: spec_hook_view(false, "Postinstall"@),
        preremove: spec_hook_view(false, "Preremove"@),
        postremove: spec_hook_view(false, "Postremove"@),
    }
}

/// The empty global hook set.
pub open spec fn spec_global_set() -> HookSetView {
    HookSetView {
        preinstall: spec_hook_view(true, "Preinstall"@),
        postinstall: spec_hook_view(true, "Postinstall"@),
        preremove: spec_hook_view(true, "Preremove"@),
        postremove: spec_hook_view(true, "Postremove"@),
    }
}

impl Default for HookSet {
    /// The empty theme-level hook set: no executables anywhere.
    fn default() -> (r: Self)
        ensures
            r@ == spec_default_set(),
    {
        let r = HookSet {
            preinstall: Hook {
                global: false,
                name: String::from_str("Preinstall"),
                executables: Vec::new(),
            },
            postinstall: Hook {
                global: false,
                name: String::from_str("Postinstall"),
                executables: Vec::new(),
            },
            preremove: Hook {
                global: false,
                name: String::from_str("Preremove"),
                executables: Vec::new(),
            },
            postremove: Hook {
                global: false,
                name: String::from_str("Postremove"),
                executables: Vec::new(),
            },
        };
        proof {
            assert(r.preinstall@.executables =~= Seq::<(Seq<char>, Seq<Seq<char>>)>::empty());
            assert(r.postinstall@.executables =~= Seq::<(Seq<char>, Seq<Seq<char>>)>::empty());
            assert(r.preremove@.executables =~= Seq::<(Seq<char>, Seq<Seq<char>>)>::empty());
            assert(r.postremove@.executables =~= Seq::<(Seq<char>, Seq<Seq<char>>)>::empty());
            assert(r@ =~= spec_default_set());
        }
        r
    }
}

impl HookSet {
    /// The empty global hook set: as the default one, but every hook marked
    /// global.
    pub fn global() -> (r: Self)
        ensures
            r@ == spec_global_set(),
    {
        let mut set = HookSet::default();
        set.preinstall.global = true;
        set.postinstall.global = true;
        set.preremove.global = true;
        set.postremove.global = true;
        proof {
            assert(set@ =~= spec_global_set());
        }
        set
    }
}

/// One command a hook asks the caller to run: the executable's path below
/// the root, and the theme directory and theme name handed to it as
/// arguments.
pub struct HookCommand {
    pub hook_name: String,
    pub executable_name: String,
    pub executable: Vec<String>,
    pub theme_dir: Vec<String>,
    pub theme_name: String,
}

/// Where hook commands take their hooks from: a theme's (or the global)
/// hook set, or nowhere.
pub enum HookLauncher<'a> {
    HookSet { theme_dir: &'a Vec<String>, theme_name: &'a str, hooks: &'a HookSet },
    Empty,
}

/// The mathematical content of one command.
#[verifier::ext_equal]
pub struct HookCommandView {
    pub hook_name: Seq<char>,
    pub executable_name: Seq<char>,
    pub executable: Seq<Seq<char>>,
    pub theme_dir: Seq<Seq<char>>,
    pub theme_name: Seq<char>,
}

impl View for HookCommand {
    type V = HookCommandView;

    open spec fn view(&self) -> HookCommandView {
        HookCommandView {
            hook_name: self.hook_name@,
            executable_name: self.executable_name@,
            executable: self.executable.deep_view(),
            theme_dir: self.theme_dir.deep_view(),
            theme_name: self.theme_name@,
        }
    }
}

/// The views of a sequence of commands.
pub open spec fn commands_view(cs: Seq<HookCommand>) -> Seq<HookCommandView> {
    cs.map_values(|c: HookCommand| c.view())
}

/// The command list of one hook for the given theme directory and name: one
/// command per registered executable, in order.
pub open spec fn spec_hook_commands(
    hook: HookView,
    theme_dir: Seq<Seq<char>>,
    theme_name: Seq<char>,
) -> Seq<HookCommandView> {
    hook.executables.map_values(
        |e: (Seq<char>, Seq<Seq<char>>)| HookCommandView {
            hook_name: hook.name,
            executable_name: e.0,
            executable: e.1,
            theme_dir,
            theme_name,
        },
    )
}

/// The command list of one hook.
fn commands_for(hook: &Hook, theme_dir: &Vec<String>, theme_name: &str) -> (r: Vec<HookCommand>)
    ensures
        commands_view(r@) == spec_hook_commands(hook@, theme_dir.deep_view(), theme_name@),
{
    let mut out: Vec<HookCommand> = Vec::new();
    let n = hook.executables.len();
    let mut i: usize = 0;
    while i < n
        invariant
            i <= n,
            n == hook.executables.len(),
            out@.len() == i,
            commands_view(out@) == spec_hook_commands(
                hook@,
                theme_dir.deep_view(),
                theme_name@,
            ).take(i as int),
        decreases n - i,
    {
        let (ename, epath) = &hook.executables[i];
        let ghost pre = commands_view(out@);
        let cmd = HookCommand {
            hook_name: hook.name.clone(),
            executable_name: ename.clone(),
            executable: crate::tree_reader::clone_strings(epath),
            theme_dir: crate::tree_reader::clone_strings(theme_dir),
            theme_name: theme_name.to_owned(),
        };
        proof {
            assert(hook@.executables[i as int].0 == hook.executables@[i as int].0@);
            assert(hook@.executables[i as int].1 == hook.executables@[i as int].1.deep_view());
            assert(cmd@ =~= spec_hook_commands(hook@, theme_dir.deep_view(), theme_name@)[
                i as int
            ]);
        }
        out.push(cmd);
        proof {
            assert(commands_view(out@) =~= pre.push(cmd@));
        }
        i = i + 1;
    }
    proof {
        assert(commands_view(out@) =~= spec_hook_commands(
            hook@,
            theme_dir.deep_view(),
            theme_name@,
        ));
    }
    out
}

/// The preinstall commands a launcher yields: one per registered
/// executable for a hook set, none for the empty launcher.
pub open spec fn spec_launcher_preinstall(l: HookLauncher<'_>) -> Seq<HookCommandView> {
    match l {
        HookLauncher::HookSet { theme_dir, theme_name, hooks } => spec_hook_commands(
            hooks.preinstall@,
            theme_dir.deep_view(),
            theme_name@,
        ),
        HookLauncher::Empty => Seq::empty(),
    }
}

/// The postinstall commands a launcher yields.
pub open spec fn spec_launcher_postinstall(l: HookLauncher<'_>) -> Seq<HookCommandView> {
    match l {
        HookLauncher::HookSet { theme_dir, theme_name, hooks } => spec_hook_commands(
            hooks.postinstall@,
            theme_dir.deep_view(),
            theme_name@,
        ),
        HookLauncher::Empty => Seq::empty(),
    }
}

impl<'a> HookLauncher<'a> {
    /// The commands to run at the preinstall point, in registration order;
    /// none for the empty launcher.
    pub fn run_preinstall(&self) -> (r: Vec<HookCommand>)
        ensures
            commands_view(r@) == spec_launcher_preinstall(*self),
    {
        match self {
            HookLauncher::HookSet { theme_dir, theme_name, hooks } => commands_for(
                &hooks.preinstall,
                theme_dir,
                theme_name,
            ),
            HookLauncher::Empty => {
                let r: Vec<HookCommand> = Vec::new();
                proof {
                    assert(commands_view(r@) =~= Seq::<HookCommandView>::empty());
                }
                r
            },
        }
    }

    /// The commands to run at the postinstall point, in registration order;
    /// none for the empty launcher.
    pub fn run_postinstall(&self) -> (r: Vec<HookCommand>)
        ensures
            commands_view(r@) == spec_launcher_postinstall(*self),
    {
        match self {
            HookLauncher::HookSet { theme_dir, theme_name, hooks } => commands_for(
                &hooks.postinstall,
                theme_dir,
                theme_name,
            ),
            HookLauncher::Empty => {
                let r: Vec<HookCommand> = Vec::new();
                proof {
                    assert(commands_view(r@) =~= Seq::<HookCommandView>::empty());
                }
                r
            },
        }
    }
}

/// One traversal entry folded into a hook set: an entry with captures
/// `[set-name, hook-name]` registers its path under the named hook point;
/// any other entry is ignored.
pub open spec fn spec_apply_hook(set: HookSetView, e: EntryView) -> HookSetView {
    let c = e.captures;
    if c.len() == 2 {
        let sname = c[0];
        let hname = c[1];
        let path = e.path;
        if sname == "preinstall"@ {
            HookSetView { preinstall: hook_view_add(set.preinstall, hname, path), ..set }
        } else if sname == "postinstall"@ {
            HookSetView { postinstall: hook_view_add(set.postinstall, hname, path), ..set }
        } else if sname == "preremove"@ {
            HookSetView { preremove: hook_view_add(set.preremove, hname, path), ..set }
        } else if sname == "postremove"@ {
            HookSetView { postremove: hook_view_add(set.postremove, hname, path), ..set }
        } else {
            set
        }
    } else {
        set
    }
}

/// The traversal entries folded into a hook set, first to last.
pub open spec fn spec_read_hooks(entries: Seq<EntryView>, set: HookSetView) -> HookSetView
    decreases entries.len(),
{
    if entries.len() == 0 {
        set
    } else {
        spec_read_hooks(entries.drop_first(), spec_apply_hook(set, entries[0]))
    }
}

/// Folds one entry into the set.
pub(crate) fn apply_hook_entry(set: &mut HookSet, e: TreeReaderEntry)
    ensures
        final(set)@ == spec_apply_hook(old(set)@, e@),
{
    let ghost ev = e@;
    let TreeReaderEntry { path, captures } = e;
    let Captures(caps) = captures;
    let mut caps = caps;
    if caps.len() != 2 {
        return ;
    }
    let hname = caps.pop().unwrap();
    let sname = caps.pop().unwrap();
    proof {
        assert(hname@ == ev.captures[1]);
        assert(sname@ == ev.captures[0]);
        assert(path.deep_view() == ev.path);
    }
    if str_eq(sname.as_str(), "preinstall") {
        set.preinstall.add(hname, path);
        proof {
            assert(set@ =~= spec_apply_hook(old(set)@, ev));
        }
    } else if str_eq(sname.as_str(), "postinstall") {
        set.postinstall.add(hname, path);
        proof {
            assert(set@ =~= spec_apply_hook(old(set)@, ev));
        }
    } else if str_eq(sname.as_str(), "preremove") {
        set.preremove.add(hname, path);
        proof {
            assert(set@ =~= spec_apply_hook(old(set)@, ev));
        }
    } else if str_eq(sname.as_str(), "postremove") {
        set.postremove.add(hname, path);
        proof {
            assert(set@ =~= spec_apply_hook(old(set)@, ev));
        }
    }
}

/// Folds every entry into the set, first to last.
pub fn apply_hook_entries(entries: Vec<TreeReaderEntry>, set: HookSet) -> (r: HookSet)
    ensures
        r@ == spec_read_hooks(entries_view(entries@), set@),
{
    let ghost ev = entries_view(entries@);
    let ghost init = set@;
    let mut set = set;
    let mut rest = entries;
    while rest.len() > 0
        invariant
            spec_read_hooks(entries_view(rest@), set@) == spec_read_hooks(ev, init),
        decreases rest.len(),
    {
        let ghost rv = rest@;
        let ghost pre = set@;
        let e = rest.remove(0);
        proof {
            assert(e == rv[0]);
            assert(entries_view(rv)[0] == e@);
            assert(rest@ =~= rv.drop_first());
            assert forall|m: int| 0 <= m < rest@.len() implies entries_view(rest@)[m]
                == entries_view(rv).drop_first()[m] by {
                assert(entries_view(rv)[m + 1] == rv[m + 1]@);
            }
            assert(entries_view(rest@) =~= entries_view(rv).drop_first());
        }
        apply_hook_entry(&mut set, e);
        proof {
            assert(set@ == spec_apply_hook(pre, e@));
            assert(spec_read_hooks(entries_view(rv), pre) == spec_read_hooks(
                entries_view(rest@),
                set@,
            ));
        }
    }
    proof {
        assert(entries_view(rest@) =~= Seq::<EntryView>::empty());
    }
    set
}

/// Whether a grammar is the global-hooks grammar: the literal `hook`, then
/// two wildcards, one for the hook point's name and one for the hook's own
/// name.
pub open spec fn spec_hooks_grammar(desc: Seq<TreeReaderNode>) -> bool {
    &&& desc.len() == 3
    &&& desc[0] matches TreeReaderNode::Literal(x) && x@ == "hook"@
    &&& desc[1] is Any
    &&& desc[2] is Any
}

/// The global-hooks grammar.
pub fn hooks_grammar() -> (r: Vec<TreeReaderNode>)
    ensures
        spec_hooks_grammar(r@),
        r@.len() == 3,
{
    let mut g: Vec<TreeReaderNode> = Vec::new();
    g.push(TreeReaderNode::Literal(String::from_str("hook")));
    g.push(TreeReaderNode::Any);
    g.push(TreeReaderNode::Any);
    g
}

/// Whether `h` is the global hook set read from `tree`: the global-hooks
/// grammar's file entries folded into the empty global set.
pub open spec fn spec_is_hooks_read(tree: FsNode, h: HookSetView) -> bool {
    exists|desc: Seq<TreeReaderNode>|
        #[trigger] spec_hooks_grammar(desc) && h == spec_read_hooks(
            spec_file_entries(tree, desc),
            spec_global_set(),
        )
}

/// Reads the global hook set from a tree snapshot: every file whose logical
/// name is `hook-<point>-<name>` registers an executable, and the rest of
/// the set is the empty global one.
pub fn read_from(tree: &FsNode) -> (r: HookSet)
    ensures
        spec_is_hooks_read(*tree, r@),
{
    let grammar = hooks_grammar();
    let reader = TreeReader::new(tree, grammar.as_slice());
    let entries = reader.get_file_entries_recursive();
    let r = apply_hook_entries(entries, HookSet::global());
    proof {
        let gv = grammar@;
        assert(spec_hooks_grammar(gv) && r@ == spec_read_hooks(
            spec_file_entries(*tree, gv),
            spec_global_set(),
        ));
    }
    r
}

} // verus!
