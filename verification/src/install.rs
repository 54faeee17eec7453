//! The installation description: which files to install where, and the plan
//! an installation expands to. The library computes the plan — hook
//! commands to run, files to write or copy — and whoever drives it performs
//! the plan in order.

use vstd::prelude::*;

use crate::error::Error;
use crate::fs_tree::FsNode;
use crate::fs_tree::spec_tree_get;
use crate::fs_tree::tree_exists;
use crate::fs_tree::tree_read_file;
use crate::hooks::HookCommand;
use crate::hooks::HookCommandView;
use crate::hooks::HookLauncher;
use crate::hooks::commands_view;
use crate::hooks::spec_hook_commands;
use crate::hooks::spec_launcher_preinstall;
use crate::hooks::spec_launcher_postinstall;
use crate::str_map::StrMap;
use crate::str_map::vget;
use crate::strings::spec_split;
use crate::strings::split_char;
use crate::strings::str_eq;
use crate::template::mustache_render;
use crate::template::mustache_render_of;
use crate::template::plain_template;
use crate::template::spec_plain_template;
use crate::themes::ThemeDesc;
use crate::themes::ThemeDescView;
use crate::themes::extend_values;
use crate::themes::spec_extend_values;
use crate::tree_reader::clone_strings;

verus! {

/// A file description as it stands in the installation data, before the
/// name default is applied.
pub struct FileDescDeserialize {
    pub name: Option<String>,
    pub path: String,
    pub target: String,
    pub template: bool,
}

/// One file to install: a display name, the source path (separated by
/// `/`), the target location text, and whether the source is a template.
pub struct FileDesc {
    pub name: String,
    pub path: String,
    pub target: String,
    pub template: bool,
}

/// Position of the last `.` in `s`, or `-1` when there is none.
pub open spec fn spec_rfind_dot(s: Seq<char>) -> int
    decreases s.len(),
{
    if s.len() == 0 {
        -1
    } else if s[s.len() - 1] == '.' {
        s.len() - 1
    } else {
        spec_rfind_dot(s.drop_last())
    }
}

/// The stem of a file name: everything before the last `.`, unless the `.`
/// leads the name or there is none, in which case the whole name.
pub open spec fn spec_stem(name: Seq<char>) -> Seq<char> {
    let j = spec_rfind_dot(name);
    if j >= 1 {
        name.take(j)
    } else {
        name
    }
}

/// The components with trailing empty ones removed: a trailing separator
/// leaves empty last components, which name no file.
pub open spec fn spec_trim_empty_tail(comps: Seq<Seq<char>>) -> Seq<Seq<char>>
    decreases comps.len(),
{
    if comps.len() > 0 && comps.last().len() == 0 {
        spec_trim_empty_tail(comps.drop_last())
    } else {
        comps
    }
}

/// The stem of a path's last `/`-separated component, trailing separators
/// ignored, or `None` when nothing is left or the last component is a
/// relative-reference name.
pub open spec fn spec_file_stem(path: Seq<char>) -> Option<Seq<char>> {
    let comps = spec_trim_empty_tail(spec_split(path, '/'));
    if comps.len() == 0 {
        None
    } else {
        let last = comps.last();
        if last == "."@ || last == ".."@ {
            None
        } else {
            Some(spec_stem(last))
        }
    }
}

/// When everything after position `i` is not a dot, the last dot is decided
/// at `i`.
proof fn lemma_rfind_dot_at(s: Seq<char>, i: int)
    requires
        -1 <= i < s.len(),
        forall|j: int| i < j < s.len() ==> s[j] != '.',
    ensures
        i >= 0 && s[i] == '.' ==> spec_rfind_dot(s) == i,
        i == -1 ==> spec_rfind_dot(s) == -1,
    decreases s.len(),
{
    if s.len() > 0 && s[s.len() - 1] != '.' && i < s.len() - 1 {
        lemma_rfind_dot_at(s.drop_last(), i);
    }
}

/// The stem of a file name: everything before the last dot, unless the dot
/// leads the name or there is none.
pub fn stem_of(name: &str) -> (r: String)
    ensures
        r@ == spec_stem(name@),
{
    let n = name.unicode_len();
    let mut j: usize = n;
    while j > 0
        invariant
            j <= n,
            n == name@.len(),
            forall|m: int| j <= m < n ==> name@[m] != '.',
        decreases j,
    {
        if name.get_char(j - 1) == '.' {
            proof {
                lemma_rfind_dot_at(name@, j - 1);
            }
            if j - 1 >= 1 {
                return name.substring_char(0, j - 1).to_owned();
            } else {
                return name.to_owned();
            }
        }
        j = j - 1;
    }
    proof {
        lemma_rfind_dot_at(name@, -1);
    }
    name.to_owned()
}

/// The stem of a path's last component, or `None` when it has none.
pub fn file_stem(path: &str) -> (r: Option<String>)
    ensures
        (match r {
            Some(s) => spec_file_stem(path@) == Some(s@),
            None => spec_file_stem(path@) is None,
        }),
{
    let comps = split_char(path, '/');
    let ghost cdv = comps.deep_view();
    let mut e = comps.len();
    proof {
        assert(cdv.take(e as int) =~= cdv);
    }
    while e > 0 && comps[e - 1].as_str().unicode_len() == 0
        invariant
            e <= comps.len(),
            cdv == comps.deep_view(),
            spec_trim_empty_tail(cdv) == spec_trim_empty_tail(cdv.take(e as int)),
        decreases e,
    {
        proof {
            assert(cdv.take(e as int).last() == cdv[e - 1]);
            assert(cdv.take(e as int).drop_last() =~= cdv.take(e - 1));
        }
        e = e - 1;
    }
    if e == 0 {
        proof {
            assert(cdv.take(0) =~= Seq::<Seq<char>>::empty());
        }
        return None;
    }
    let last = &comps[e - 1];
    proof {
        assert(cdv.take(e as int).last() == cdv[e - 1]);
        assert(cdv[e - 1] == last@);
        assert(spec_trim_empty_tail(cdv) == cdv.take(e as int));
    }
    if str_eq(last.as_str(), ".") || str_eq(last.as_str(), "..") {
        return None;
    }
    Some(stem_of(last.as_str()))
}

impl FileDesc {
    /// A file description with the name default applied: when no name is
    /// given, the source path's file stem is the name. Fails exactly when
    /// the path yields no stem, whether or not a name is given.
    pub fn from_deserialize(d: FileDescDeserialize) -> (r: Result<FileDesc, Error>)
        ensures
            (match r {
                Ok(f) => {
                    &&& spec_file_stem(d.path@) is Some
                    &&& f.path@ == d.path@
                    &&& f.target@ == d.target@
                    &&& f.template == d.template
                    &&& (match d.name {
                        Some(n) => f.name@ == n@,
                        None => spec_file_stem(d.path@) == Some(f.name@),
                    })
                },
                Err(e) => spec_file_stem(d.path@) is None && e is InvalidPath,
            }),
    {
        let FileDescDeserialize { name, path, target, template } = d;
        let stem = match file_stem(path.as_str()) {
            Some(s) => s,
            None => {
                return Err(Error::InvalidPath);
            },
        };
        let name = match name {
            Some(n) => n,
            None => stem,
        };
        Ok(FileDesc { name, path, target, template })
    }
}

/// One step of an installation plan, to be performed in order: run a hook
/// command and stop on failure, write text to a target location, or copy a
/// source file of the tree to a target location.
pub enum InstallStep {
    Hook(HookCommand),
    Write { target: String, contents: String },
    Copy { source: Vec<String>, target: String },
}

/// The mathematical content of one step.
#[verifier::ext_equal]
pub enum InstallStepView {
    Hook(HookCommandView),
    Write { target: Seq<char>, contents: Seq<char> },
    Copy { source: Seq<Seq<char>>, target: Seq<char> },
}

impl View for InstallStep {
    type V = InstallStepView;

    open spec fn view(&self) -> InstallStepView {
        match self {
            InstallStep::Hook(c) => InstallStepView::Hook(c@),
            InstallStep::Write { target, contents } => InstallStepView::Write {
                target: target@,
                contents: contents@,
            },
            InstallStep::Copy { source, target } => InstallStepView::Copy {
                source: source.deep_view(),
                target: target@,
            },
        }
    }
}

/// The views of a sequence of steps.
pub open spec fn steps_view(s: Seq<InstallStep>) -> Seq<InstallStepView> {
    s.map_values(|st: InstallStep| st.view())
}

/// Hook commands as plan steps.
pub open spec fn spec_hook_steps(cmds: Seq<HookCommandView>) -> Seq<InstallStepView> {
    cmds.map_values(|c: HookCommandView| InstallStepView::Hook(c))
}

/// The views of a chain of theme references.
pub open spec fn chain_views(chain: Seq<&ThemeDesc>) -> Seq<ThemeDescView> {
    chain.map_values(|t: &ThemeDesc| t.view())
}

/// The preinstall commands of each theme of the chain, in chain order.
pub open spec fn spec_chain_pre(chain: Seq<ThemeDescView>) -> Seq<InstallStepView>
    decreases chain.len(),
{
    if chain.len() == 0 {
        Seq::empty()
    } else {
        spec_hook_steps(
            spec_hook_commands(chain[0].hooks.preinstall, chain[0].dir, chain[0].name),
        ) + spec_chain_pre(chain.drop_first())
    }
}

/// The postinstall commands of each theme of the chain, in chain order.
pub open spec fn spec_chain_post(chain: Seq<ThemeDescView>) -> Seq<InstallStepView>
    decreases chain.len(),
{
    if chain.len() == 0 {
        Seq::empty()
    } else {
        spec_hook_steps(
            spec_hook_commands(chain[0].hooks.postinstall, chain[0].dir, chain[0].name),
        ) + spec_chain_post(chain.drop_first())
    }
}

/// The source path a file resolves to: the first theme directory, searched
/// from the end of the chain, under which the path names a node of the
/// tree; the installation directory itself when no theme has it.
pub open spec fn spec_resolve_from(
    tree: FsNode,
    chain: Seq<ThemeDescView>,
    dir: Seq<Seq<char>>,
    segs: Seq<Seq<char>>,
    i: int,
) -> Seq<Seq<char>>
    decreases i + 1,
{
    if i < 0 {
        dir + segs
    } else {
        let cand = chain[i].dir + segs;
        if spec_tree_get(tree, cand, 0) is Some {
            cand
        } else {
            spec_resolve_from(tree, chain, dir, segs, i - 1)
        }
    }
}

/// One theme's unit values folded over an accumulator: the values of the
/// theme's unit of that name extend the accumulator, later pairs winning.
pub open spec fn spec_theme_values(
    acc: Seq<(Seq<char>, Seq<char>)>,
    t: ThemeDescView,
    uname: Seq<char>,
) -> Seq<(Seq<char>, Seq<char>)> {
    match vget(t.units, uname) {
        Some(u) => spec_extend_values(acc, u),
        None => acc,
    }
}

/// The merged values of the named unit across the chain, first to last, so
/// that later themes override earlier ones.
pub open spec fn spec_collect_from(
    chain: Seq<ThemeDescView>,
    uname: Seq<char>,
    acc: Seq<(Seq<char>, Seq<char>)>,
) -> Seq<(Seq<char>, Seq<char>)>
    decreases chain.len(),
{
    if chain.len() == 0 {
        acc
    } else {
        spec_collect_from(chain.drop_first(), uname, spec_theme_values(acc, chain[0], uname))
    }
}

/// The plan step one file expands to: a copy of the resolved source for a
/// plain file; for a template, the resolved source's contents rendered with
/// the unit values merged across the chain. The target is the target text
/// rendered with the installation variables. `None` when a text that should
/// render is not a plain template, when a template's source cannot be read,
/// or when a rendering fails.
pub open spec fn spec_one_file(
    tree: FsNode,
    chain: Seq<ThemeDescView>,
    dir: Seq<Seq<char>>,
    vars: Seq<(Seq<char>, Seq<char>)>,
    f: FileDesc,
) -> Option<InstallStepView> {
    let src = spec_resolve_from(tree, chain, dir, spec_split(f.path@, '/'), chain.len() - 1);
    if !spec_plain_template(f.target@) {
        None
    } else {
        match mustache_render_of(f.target@, vars) {
            None => None,
            Some(t) => if f.template {
                match spec_tree_get(tree, src, 0) {
                    Some(FsNode::File { contents: Some(c), .. }) => {
                        if !spec_plain_template(c@) {
                            None
                        } else {
                            match mustache_render_of(
                                c@,
                                spec_collect_from(chain, f.name@, Seq::empty()),
                            ) {
                                Some(txt) => Some(
                                    InstallStepView::Write { target: t, contents: txt },
                                ),
                                None => None,
                            }
                        }
                    },
                    _ => None,
                }
            } else {
                Some(InstallStepView::Copy { source: src, target: t })
            },
        }
    }
}

/// The plan steps of the files, in order; `None` as soon as one fails.
pub open spec fn spec_file_steps(
    tree: FsNode,
    chain: Seq<ThemeDescView>,
    dir: Seq<Seq<char>>,
    vars: Seq<(Seq<char>, Seq<char>)>,
    files: Seq<FileDesc>,
) -> Option<Seq<InstallStepView>>
    decreases files.len(),
{
    if files.len() == 0 {
        Some(Seq::empty())
    } else {
        match spec_one_file(tree, chain, dir, vars, files[0]) {
            Some(st) => match spec_file_steps(tree, chain, dir, vars, files.drop_first()) {
                Some(rest) => Some(seq![st] + rest),
                None => None,
            },
            None => None,
        }
    }
}

/// The position of the first file whose step fails, `files.len()` when none
/// does.
pub open spec fn spec_failing_file(
    tree: FsNode,
    chain: Seq<ThemeDescView>,
    dir: Seq<Seq<char>>,
    vars: Seq<(Seq<char>, Seq<char>)>,
    files: Seq<FileDesc>,
) -> int
    decreases files.len(),
{
    if files.len() == 0 {
        0
    } else if spec_one_file(tree, chain, dir, vars, files[0]) is None {
        0
    } else {
        1 + spec_failing_file(tree, chain, dir, vars, files.drop_first())
    }
}

/// When the first `i` files succeed and file `i` fails, the failing
/// position is `i`.
proof fn lemma_failing_at(
    tree: FsNode,
    chain: Seq<ThemeDescView>,
    dir: Seq<Seq<char>>,
    vars: Seq<(Seq<char>, Seq<char>)>,
    files: Seq<FileDesc>,
    i: int,
)
    requires
        0 <= i < files.len(),
        forall|j: int|
            0 <= j < i ==> spec_one_file(tree, chain, dir, vars, #[trigger] files[j]) is Some,
        spec_one_file(tree, chain, dir, vars, files[i]) is None,
    ensures
        spec_failing_file(tree, chain, dir, vars, files) == i,
    decreases files.len(),
{
    if i > 0 {
        assert(spec_one_file(tree, chain, dir, vars, files[0]) is Some);
        assert forall|j: int|
            0 <= j < i - 1 implies spec_one_file(
            tree,
            chain,
            dir,
            vars,
            #[trigger] files.drop_first()[j],
        ) is Some by {
            assert(spec_one_file(tree, chain, dir, vars, files[j + 1]) is Some);
        }
        lemma_failing_at(tree, chain, dir, vars, files.drop_first(), i - 1);
    }
}

/// The whole plan: the launcher's preinstall commands, each theme's
/// preinstall commands, one step per file, then the postinstall commands in
/// the same order.
pub open spec fn spec_install(
    tree: FsNode,
    chain: Seq<ThemeDescView>,
    pre: Seq<HookCommandView>,
    post: Seq<HookCommandView>,
    dir: Seq<Seq<char>>,
    vars: Seq<(Seq<char>, Seq<char>)>,
    files: Seq<FileDesc>,
) -> Option<Seq<InstallStepView>> {
    match spec_file_steps(tree, chain, dir, vars, files) {
        Some(fsteps) => Some(
            spec_hook_steps(pre) + spec_chain_pre(chain) + fsteps + spec_hook_steps(post)
                + spec_chain_post(chain),
        ),
        None => None,
    }
}

/// The installation description: its directory below the root, the
/// variables targets are rendered with, and the files to install.
pub struct InstallDesc {
    pub dir: Vec<String>,
    pub vars: StrMap<String>,
    pub files: Vec<FileDesc>,
}

/// Appends hook commands to a plan.
fn push_hook_steps(steps: &mut Vec<InstallStep>, cmds: Vec<HookCommand>)
    ensures
        steps_view(final(steps)@) == steps_view(old(steps)@) + spec_hook_steps(
            commands_view(cmds@),
        ),
{
    let ghost cv = commands_view(cmds@);
    let mut rest = cmds;
    while rest.len() > 0
        invariant
            steps_view(steps@) + spec_hook_steps(commands_view(rest@)) =~= steps_view(
                old(steps)@,
            ) + spec_hook_steps(cv),
        decreases rest.len(),
    {
        let ghost rv = rest@;
        let ghost pre = steps_view(steps@);
        let c = rest.remove(0);
        proof {
            assert(c == rv[0]);
            assert(rest@ =~= rv.drop_first());
            assert(commands_view(rest@) =~= commands_view(rv).drop_first());
        }
        steps.push(InstallStep::Hook(c));
        proof {
            assert(steps_view(steps@) =~= pre.push(InstallStepView::Hook(c@)));
            assert(spec_hook_steps(commands_view(rv)) =~= seq![InstallStepView::Hook(c@)]
                + spec_hook_steps(commands_view(rest@)));
            assert(steps_view(steps@) + spec_hook_steps(commands_view(rest@)) =~= pre
                + spec_hook_steps(commands_view(rv)));
        }
    }
    proof {
        assert(spec_hook_steps(commands_view(rest@)) =~= Seq::<InstallStepView>::empty());
        assert(steps_view(steps@) + Seq::<InstallStepView>::empty() =~= steps_view(steps@));
    }
}

/// The merged values of the named unit across the chain.
fn collect_values(chain: &Vec<&ThemeDesc>, uname: &str) -> (r: Vec<(String, String)>)
    ensures
        r.deep_view() == spec_collect_from(chain_views(chain@), uname@, Seq::empty()),
{
    let ghost cv = chain_views(chain@);
    let mut vals: StrMap<String> = StrMap::new();
    let n = chain.len();
    let mut i: usize = 0;
    proof {
        assert(cv.skip(0) =~= cv);
    }
    while i < n
        invariant
            i <= n,
            n == chain.len(),
            cv == chain_views(chain@),
            cv.len() == n,
            spec_collect_from(cv.skip(i as int), uname@, vals@) == spec_collect_from(
                cv,
                uname@,
                Seq::empty(),
            ),
        decreases n - i,
    {
        proof {
            assert(cv.skip(i as int)[0] == cv[i as int]);
            assert(cv.skip(i as int).drop_first() =~= cv.skip(i as int + 1));
        }
        let theme: &ThemeDesc = chain[i];
        proof {
            assert(theme@ == cv[i as int]);
        }
        match theme.units.get(uname) {
            Some(unit) => {
                let pairs = unit.values.pairs_cloned();
                extend_values(&mut vals, pairs);
            },
            None => {},
        }
        i = i + 1;
    }
    proof {
        assert(cv.skip(n as int) =~= Seq::<ThemeDescView>::empty());
    }
    vals.pairs_cloned()
}

impl InstallDesc {
    /// The target location a file installs to: its target text rendered
    /// with the installation variables. Fails exactly when the text is not
    /// a plain template or does not render.
    pub fn resolve_target(&self, target: &str) -> (r: Result<String, Error>)
        ensures
            (match r {
                Ok(s) => spec_plain_template(target@) && mustache_render_of(target@, self.vars@)
                    == Some(s@),
                Err(_) => !spec_plain_template(target@) || mustache_render_of(target@, self.vars@)
                    is None,
            }),
    {
        if !plain_template(target) {
            return Err(Error::Template { context: target.to_owned() });
        }
        let pairs = self.vars.pairs_cloned();
        match mustache_render(target, &pairs) {
            Some(s) => Ok(s),
            None => Err(Error::Template { context: target.to_owned() }),
        }
    }

    /// The source path a file resolves to: the first theme directory,
    /// searched from the end of the chain, under which the path names a
    /// node of the tree, or the installation directory itself.
    pub fn resolve_theme_chain_path(
        &self,
        tree: &FsNode,
        theme_chain: &Vec<&ThemeDesc>,
        path: &str,
    ) -> (r: Vec<String>)
        ensures
            r.deep_view() == spec_resolve_from(
                *tree,
                chain_views(theme_chain@),
                self.dir.deep_view(),
                spec_split(path@, '/'),
                theme_chain@.len() - 1,
            ),
    {
        let ghost cv = chain_views(theme_chain@);
        let ghost segs = spec_split(path@, '/');
        let n = theme_chain.len();
        let mut i: usize = n;
        while i > 0
            invariant
                i <= n,
                n == theme_chain.len(),
                cv == chain_views(theme_chain@),
                segs == spec_split(path@, '/'),
                spec_resolve_from(*tree, cv, self.dir.deep_view(), segs, n - 1)
                    == spec_resolve_from(*tree, cv, self.dir.deep_view(), segs, i - 1),
            decreases i,
        {
            let theme: &ThemeDesc = theme_chain[i - 1];
            proof {
                assert(theme@ == cv[i - 1]);
            }
            let mut cand = clone_strings(&theme.dir);
            let mut segs_vec = split_char(path, '/');
            cand.append(&mut segs_vec);
            proof {
                assert(cand.deep_view() =~= cv[i - 1].dir + segs);
            }
            if tree_exists(tree, &cand) {
                return cand;
            }
            i = i - 1;
        }
        let mut cand = clone_strings(&self.dir);
        let mut segs_vec = split_char(path, '/');
        cand.append(&mut segs_vec);
        proof {
            assert(cand.deep_view() =~= self.dir.deep_view() + segs);
        }
        cand
    }

    /// The plan step one file expands to.
    fn install_one_file(
        &self,
        tree: &FsNode,
        theme_chain: &Vec<&ThemeDesc>,
        f: &FileDesc,
    ) -> (r: Result<InstallStep, Error>)
        ensures
            (match r {
                Ok(st) => spec_one_file(
                    *tree,
                    chain_views(theme_chain@),
                    self.dir.deep_view(),
                    self.vars@,
                    *f,
                ) == Some(st@),
                Err(_) => spec_one_file(
                    *tree,
                    chain_views(theme_chain@),
                    self.dir.deep_view(),
                    self.vars@,
                    *f,
                ) is None,
            }),
    {
        let src = self.resolve_theme_chain_path(tree, theme_chain, f.path.as_str());
        let target = match self.resolve_target(f.target.as_str()) {
            Ok(t) => t,
            Err(e) => {
                return Err(e);
            },
        };
        if f.template {
            let contents = match tree_read_file(tree, &src) {
                Ok(c) => c.clone(),
                Err(e) => {
                    return Err(e.context(String::from_str("Failed to read template file")));
                },
            };
            if !plain_template(contents.as_str()) {
                return Err(Error::Template { context: f.name.clone() });
            }
            let vals = collect_values(theme_chain, f.name.as_str());
            match mustache_render(contents.as_str(), &vals) {
                Some(txt) => Ok(InstallStep::Write { target, contents: txt }),
                None => Err(Error::Template { context: f.name.clone() }),
            }
        } else {
            Ok(InstallStep::Copy { source: src, target })
        }
    }

    /// The installation plan for a chain of themes: the launcher's and each
    /// theme's preinstall commands, a write or copy per file, then the
    /// postinstall commands in the same order. Fails exactly when a
    /// template's source cannot be read or a rendering fails.
    pub fn install(
        &self,
        tree: &FsNode,
        theme_chain: &Vec<&ThemeDesc>,
        global_hooks: &HookLauncher<'_>,
    ) -> (r: Result<Vec<InstallStep>, Error>)
        requires
            theme_chain@.len() > 0,
        ensures
            (match r {
                Ok(steps) => spec_install(
                    *tree,
                    chain_views(theme_chain@),
                    spec_launcher_preinstall(*global_hooks),
                    spec_launcher_postinstall(*global_hooks),
                    self.dir.deep_view(),
                    self.vars@,
                    self.files@,
                ) == Some(steps_view(steps@)),
                Err(e) => {
                    &&& spec_install(
                        *tree,
                        chain_views(theme_chain@),
                        spec_launcher_preinstall(*global_hooks),
                        spec_launcher_postinstall(*global_hooks),
                        self.dir.deep_view(),
                        self.vars@,
                        self.files@,
                    ) is None
                    &&& (e matches Error::Context { context: c, inner: _ } && c@ == "Installing "@
                        + self.files@[spec_failing_file(
                        *tree,
                        chain_views(theme_chain@),
                        self.dir.deep_view(),
                        self.vars@,
                        self.files@,
                    )].name@)
                },
            }),
    {
        let ghost cv = chain_views(theme_chain@);
        let mut steps: Vec<InstallStep> = Vec::new();
        proof {
            assert(steps_view(steps@) =~= Seq::<InstallStepView>::empty());
            assert(Seq::<InstallStepView>::empty() + spec_hook_steps(
                spec_launcher_preinstall(*global_hooks),
            ) =~= spec_hook_steps(spec_launcher_preinstall(*global_hooks)));
        }
        push_hook_steps(&mut steps, global_hooks.run_preinstall());
        let ghost base0 = steps_view(steps@);
        let n = theme_chain.len();
        let mut i: usize = 0;
        proof {
            assert(cv.skip(0) =~= cv);
            assert(base0 =~= spec_hook_steps(spec_launcher_preinstall(*global_hooks)));
        }
        while i < n
            invariant
                i <= n,
                n == theme_chain.len(),
                cv == chain_views(theme_chain@),
                cv.len() == n,
                steps_view(steps@) + spec_chain_pre(cv.skip(i as int)) =~= base0 + spec_chain_pre(
                    cv,
                ),
            decreases n - i,
        {
            proof {
                assert(cv.skip(i as int)[0] == cv[i as int]);
                assert(cv.skip(i as int).drop_first() =~= cv.skip(i as int + 1));
            }
            let ghost pre = steps_view(steps@);
            let theme: &ThemeDesc = theme_chain[i];
            proof {
                assert(theme@ == cv[i as int]);
            }
            let launcher = theme.get_hook_launcher();
            push_hook_steps(&mut steps, launcher.run_preinstall());
            proof {
                assert((pre + spec_hook_steps(
                    spec_hook_commands(cv[i as int].hooks.preinstall, cv[i as int].dir, cv[
                        i as int
                    ].name),
                )) + spec_chain_pre(cv.skip(i as int + 1)) =~= pre + (spec_hook_steps(
                    spec_hook_commands(cv[i as int].hooks.preinstall, cv[i as int].dir, cv[
                        i as int
                    ].name),
                ) + spec_chain_pre(cv.skip(i as int + 1))));
            }
            i = i + 1;
        }
        proof {
            assert(cv.skip(n as int) =~= Seq::<ThemeDescView>::empty());
            assert(steps_view(steps@) + Seq::<InstallStepView>::empty() =~= steps_view(steps@));
        }
        let ghost base1 = steps_view(steps@);
        let nf = self.files.len();
        let mut fi: usize = 0;
        proof {
            assert(self.files@.skip(0) =~= self.files@);
        }
        while fi < nf
            invariant
                fi <= nf,
                nf == self.files.len(),
                cv == chain_views(theme_chain@),
                forall|j: int|
                    0 <= j < fi ==> spec_one_file(
                        *tree,
                        cv,
                        self.dir.deep_view(),
                        self.vars@,
                        #[trigger] self.files@[j],
                    ) is Some,
                (match spec_file_steps(
                    *tree,
                    cv,
                    self.dir.deep_view(),
                    self.vars@,
                    self.files@.skip(fi as int),
                ) {
                    Some(rest) => spec_file_steps(
                        *tree,
                        cv,
                        self.dir.deep_view(),
                        self.vars@,
                        self.files@,
                    ) matches Some(all) && base1 + all =~= steps_view(steps@) + rest,
                    None => spec_file_steps(
                        *tree,
                        cv,
                        self.dir.deep_view(),
                        self.vars@,
                        self.files@,
                    ) is None,
                }),
            decreases nf - fi,
        {
            proof {
                assert(self.files@.skip(fi as int)[0] == self.files@[fi as int]);
                assert(self.files@.skip(fi as int).drop_first() =~= self.files@.skip(
                    fi as int + 1,
                ));
            }
            let ghost pre = steps_view(steps@);
            match self.install_one_file(tree, theme_chain, &self.files[fi]) {
                Ok(st) => {
                    let ghost stv = st@;
                    steps.push(st);
                    proof {
                        assert(steps_view(steps@) =~= pre.push(stv));
                        assert(pre.push(stv) =~= pre + seq![stv]);
                        match spec_file_steps(
                            *tree,
                            cv,
                            self.dir.deep_view(),
                            self.vars@,
                            self.files@.skip(fi as int + 1),
                        ) {
                            Some(rest) => {
                                assert((pre + seq![stv]) + rest =~= pre + (seq![stv] + rest));
                            },
                            None => {},
                        }
                    }
                },
                Err(e) => {
                    let ctx = String::from_str("Installing ").concat(self.files[fi].name.as_str());
                    proof {
                        lemma_failing_at(
                            *tree,
                            cv,
                            self.dir.deep_view(),
                            self.vars@,
                            self.files@,
                            fi as int,
                        );
                    }
                    return Err(e.context(ctx));
                },
            }
            fi = fi + 1;
        }
        proof {
            assert(self.files@.skip(nf as int) =~= Seq::<FileDesc>::empty());
            assert(steps_view(steps@) + Seq::<InstallStepView>::empty() =~= steps_view(steps@));
        }
        let ghost base2 = steps_view(steps@);
        proof {
            assert(base2 + spec_hook_steps(spec_launcher_postinstall(*global_hooks)) =~= base2
                + spec_hook_steps(spec_launcher_postinstall(*global_hooks)));
        }
        push_hook_steps(&mut steps, global_hooks.run_postinstall());
        let ghost base3 = steps_view(steps@);
        let mut i2: usize = 0;
        proof {
            assert(cv.skip(0) =~= cv);
        }
        while i2 < n
            invariant
                i2 <= n,
                n == theme_chain.len(),
                cv == chain_views(theme_chain@),
                cv.len() == n,
                steps_view(steps@) + spec_chain_post(cv.skip(i2 as int)) =~= base3
                    + spec_chain_post(cv),
            decreases n - i2,
        {
            proof {
                assert(cv.skip(i2 as int)[0] == cv[i2 as int]);
                assert(cv.skip(i2 as int).drop_first() =~= cv.skip(i2 as int + 1));
            }
            let ghost pre = steps_view(steps@);
            let theme: &ThemeDesc = theme_chain[i2];
            proof {
                assert(theme@ == cv[i2 as int]);
            }
            let launcher = theme.get_hook_launcher();
            push_hook_steps(&mut steps, launcher.run_postinstall());
            proof {
                assert((pre + spec_hook_steps(
                    spec_hook_commands(cv[i2 as int].hooks.postinstall, cv[i2 as int].dir, cv[
                        i2 as int
                    ].name),
                )) + spec_chain_post(cv.skip(i2 as int + 1)) =~= pre + (spec_hook_steps(
                    spec_hook_commands(cv[i2 as int].hooks.postinstall, cv[i2 as int].dir, cv[
                        i2 as int
                    ].name),
                ) + spec_chain_post(cv.skip(i2 as int + 1))));
            }
            i2 = i2 + 1;
        }
        proof {
            assert(cv.skip(n as int) =~= Seq::<ThemeDescView>::empty());
            assert(steps_view(steps@) + Seq::<InstallStepView>::empty() =~= steps_view(steps@));
            let fsteps = spec_file_steps(
                *tree,
                cv,
                self.dir.deep_view(),
                self.vars@,
                self.files@,
            );
            assert(fsteps is Some);
            assert(base2 =~= base1 + fsteps->Some_0);
            assert(base1 =~= base0 + spec_chain_pre(cv));
            assert(steps_view(steps@) =~= base3 + spec_chain_post(cv));
            assert(base3 =~= base2 + spec_hook_steps(spec_launcher_postinstall(*global_hooks)));
            assert(steps_view(steps@) =~= spec_hook_steps(spec_launcher_preinstall(*global_hooks))
                + spec_chain_pre(cv) + fsteps->Some_0 + spec_hook_steps(
                spec_launcher_postinstall(*global_hooks),
            ) + spec_chain_post(cv));
        }
        Ok(steps)
    }

    /// The installation plan with no theme: one default, empty theme in the
    /// chain.
    pub fn install_empty(&self, tree: &FsNode, global_hooks: &HookLauncher<'_>) -> (r: Result<
        Vec<InstallStep>,
        Error,
    >)
        ensures
            (exists|chain: Seq<ThemeDescView>|
                {
                    &&& #[trigger] chain.len() == 1
                    &&& chain[0] == crate::themes::spec_new_theme(Seq::empty(), Seq::empty(), None)
                    &&& (match r {
                        Ok(steps) => spec_install(
                            *tree,
                            chain,
                            spec_launcher_preinstall(*global_hooks),
                            spec_launcher_postinstall(*global_hooks),
                            self.dir.deep_view(),
                            self.vars@,
                            self.files@,
                        ) == Some(steps_view(steps@)),
                        Err(_) => spec_install(
                            *tree,
                            chain,
                            spec_launcher_preinstall(*global_hooks),
                            spec_launcher_postinstall(*global_hooks),
                            self.dir.deep_view(),
                            self.vars@,
                            self.files@,
                        ) is None,
                    })
                }),
    {
        let default_theme = ThemeDesc::default();
        let mut chain: Vec<&ThemeDesc> = Vec::new();
        chain.push(&default_theme);
        let r = self.install(tree, &chain, global_hooks);
        proof {
            assert(chain_views(chain@).len() == 1);
            assert(chain_views(chain@)[0] == crate::themes::spec_new_theme(
                Seq::empty(),
                Seq::empty(),
                None,
            ));
        }
        r
    }
}

} // verus!
