//! Theme descriptions assembled from a tree snapshot: each theme's
//! directory, its options, its units' values, and its hooks, found by
//! matching path grammars over the snapshot.

use vstd::prelude::*;

use crate::fs_tree::FsNode;
use crate::fs_tree::spec_tree_get;
use crate::fs_tree::tree_read_file;
use crate::hooks::HookSet;
use crate::hooks::HookSetView;
use crate::hooks::HookLauncher;
use crate::hooks::apply_hook_entry;
use crate::hooks::spec_apply_hook;
use crate::hooks::spec_default_set;
use crate::pattern::PatternDesc;
use crate::pattern::regex_compiles;
use crate::str_map::StrMap;
use crate::str_map::vget;
use crate::str_map::vset;
use crate::str_map::lemma_vfind_bounds;
use crate::toml_text::toml_string_field;
use crate::toml_text::toml_string_field_of;
use crate::toml_text::toml_string_map;
use crate::toml_text::toml_string_map_of;
use crate::tree_reader::Captures;
use crate::tree_reader::EntryView;
use crate::tree_reader::TreeReader;
use crate::tree_reader::TreeReaderEntry;
use crate::tree_reader::TreeReaderNode;
use crate::tree_reader::clone_strings;
use crate::tree_reader::entries_view;
use crate::tree_reader::spec_dir_entries;
use crate::tree_reader::spec_file_entries;

verus! {

/// The values of one unit: value name to value text.
pub struct UnitDesc {
    pub values: StrMap<String>,
}

impl View for UnitDesc {
    type V = Seq<(Seq<char>, Seq<char>)>;

    open spec fn view(&self) -> Seq<(Seq<char>, Seq<char>)> {
        self.values@
    }
}

impl Default for UnitDesc {
    /// A unit with no values.
    fn default() -> (r: Self)
        ensures
            r@ == Seq::<(Seq<char>, Seq<char>)>::empty(),
    {
        UnitDesc { values: StrMap::new() }
    }
}

/// A theme's options, read from its `theme.toml`.
pub struct ThemeOptions {
    pub inherits: Option<String>,
}

impl View for ThemeOptions {
    type V = Option<Seq<char>>;

    open spec fn view(&self) -> Option<Seq<char>> {
        self.inherits.deep_view()
    }
}

impl Default for ThemeOptions {
    /// No options: the theme inherits nothing.
    fn default() -> (r: Self)
        ensures
            r@ is None,
    {
        ThemeOptions { inherits: None }
    }
}

/// One theme: its name, its directory below the root, its hooks, its units,
/// and its options.
pub struct ThemeDesc {
    pub name: String,
    pub dir: Vec<String>,
    pub hooks: HookSet,
    pub units: StrMap<UnitDesc>,
    pub options: ThemeOptions,
}

/// The mathematical content of a theme.
#[verifier::ext_equal]
pub struct ThemeDescView {
    pub name: Seq<char>,
    pub dir: Seq<Seq<char>>,
    pub hooks: HookSetView,
    pub units: Seq<(Seq<char>, Seq<(Seq<char>, Seq<char>)>)>,
    pub options: Option<Seq<char>>,
}

impl View for ThemeDesc {
    type V = ThemeDescView;

    open spec fn view(&self) -> ThemeDescView {
        ThemeDescView {
            name: self.name@,
            dir: self.dir.deep_view(),
            hooks: self.hooks@,
            units: self.units@,
            options: self.options@,
        }
    }
}

/// A freshly found theme: the given name, directory and inherited theme,
/// with no units and the empty theme-level hooks.
pub open spec fn spec_new_theme(
    name: Seq<char>,
    dir: Seq<Seq<char>>,
    inherits: Option<Seq<char>>,
) -> ThemeDescView {
    ThemeDescView {
        name,
        dir,
        hooks: spec_default_set(),
        units: Seq::empty(),
        options: inherits,
    }
}

impl Default for ThemeDesc {
    /// An empty, nameless theme.
    fn default() -> (r: Self)
        ensures
            r@ == spec_new_theme(Seq::empty(), Seq::empty(), None),
    {
        let r = ThemeDesc {
            name: String::new(),
            dir: Vec::new(),
            hooks: HookSet::default(),
            units: StrMap::new(),
            options: ThemeOptions::default(),
        };
        proof {
            assert(r@ =~= spec_new_theme(Seq::empty(), Seq::empty(), None));
        }
        r
    }
}

impl ThemeDesc {
    /// A launcher that runs this theme's hooks in this theme's directory.
    pub fn get_hook_launcher(&self) -> (r: HookLauncher<'_>)
        ensures
            (r matches HookLauncher::HookSet { theme_dir, theme_name, hooks } && *theme_dir
                == self.dir && theme_name@ == self.name@ && *hooks == self.hooks),
    {
        HookLauncher::HookSet {
            theme_dir: &self.dir,
            theme_name: self.name.as_str(),
            hooks: &self.hooks,
        }
    }
}

/// Whether a grammar finds theme directories: the literal `theme`, then a
/// whole-name wildcard for the theme's name.
pub open spec fn spec_themes_grammar(desc: Seq<TreeReaderNode>) -> bool {
    &&& desc.len() == 2
    &&& desc[0] matches TreeReaderNode::Literal(x) && x@ == "theme"@
    &&& desc[1] is AnyDir
}

/// Whether a grammar finds unit value files: a theme prefix, the literal
/// `unit`, then wildcards for the unit's and the value's names.
pub open spec fn spec_units_grammar(desc: Seq<TreeReaderNode>) -> bool {
    &&& desc.len() == 5
    &&& desc[0] matches TreeReaderNode::Literal(x) && x@ == "theme"@
    &&& desc[1] is AnyDir
    &&& desc[2] matches TreeReaderNode::Literal(x) && x@ == "unit"@
    &&& desc[3] is Any
    &&& desc[4] is Any
}

/// Whether a grammar finds compound unit files: a theme prefix, the literal
/// `unit`, then a pattern capturing the unit's name from a `.toml` file
/// name.
pub open spec fn spec_compound_grammar(desc: Seq<TreeReaderNode>) -> bool {
    &&& desc.len() == 4
    &&& desc[0] matches TreeReaderNode::Literal(x) && x@ == "theme"@
    &&& desc[1] is AnyDir
    &&& desc[2] matches TreeReaderNode::Literal(x) && x@ == "unit"@
    &&& desc[3] matches TreeReaderNode::Pattern(p) && p.src_view() == "^(.*)\\.toml$"@
}

/// Whether a grammar finds theme hook files: a theme prefix, the literal
/// `hook`, then wildcards for the hook point's and the hook's names.
pub open spec fn spec_theme_hooks_grammar(desc: Seq<TreeReaderNode>) -> bool {
    &&& desc.len() == 5
    &&& desc[0] matches TreeReaderNode::Literal(x) && x@ == "theme"@
    &&& desc[1] is AnyDir
    &&& desc[2] matches TreeReaderNode::Literal(x) && x@ == "hook"@
    &&& desc[3] is Any
    &&& desc[4] is Any
}

/// The grammar that finds theme directories.
pub fn themes_grammar() -> (r: Vec<TreeReaderNode>)
    ensures
        spec_themes_grammar(r@),
        r@.len() == 2,
{
    let mut g: Vec<TreeReaderNode> = Vec::new();
    g.push(TreeReaderNode::Literal(String::from_str("theme")));
    g.push(TreeReaderNode::AnyDir);
    g
}

/// The grammar that finds unit value files.
pub fn units_grammar() -> (r: Vec<TreeReaderNode>)
    ensures
        spec_units_grammar(r@),
        r@.len() == 5,
{
    let mut g: Vec<TreeReaderNode> = Vec::new();
    g.push(TreeReaderNode::Literal(String::from_str("theme")));
    g.push(TreeReaderNode::AnyDir);
    g.push(TreeReaderNode::Literal(String::from_str("unit")));
    g.push(TreeReaderNode::Any);
    g.push(TreeReaderNode::Any);
    g
}

/// The grammar that finds compound unit files, when its pattern compiles.
pub fn compound_grammar() -> (r: Option<Vec<TreeReaderNode>>)
    ensures
        (r matches Some(g) ==> spec_compound_grammar(g@) && g@.len() == 4),
        (r is Some) == regex_compiles("^(.*)\\.toml$"@),
{
    match PatternDesc::new("^(.*)\\.toml$") {
        Some(p) => {
            let mut g: Vec<TreeReaderNode> = Vec::new();
            g.push(TreeReaderNode::Literal(String::from_str("theme")));
            g.push(TreeReaderNode::AnyDir);
            g.push(TreeReaderNode::Literal(String::from_str("unit")));
            g.push(TreeReaderNode::Pattern(p));
            Some(g)
        },
        None => None,
    }
}

/// The grammar that finds theme hook files.
pub fn theme_hooks_grammar() -> (r: Vec<TreeReaderNode>)
    ensures
        spec_theme_hooks_grammar(r@),
        r@.len() == 5,
{
    let mut g: Vec<TreeReaderNode> = Vec::new();
    g.push(TreeReaderNode::Literal(String::from_str("theme")));
    g.push(TreeReaderNode::AnyDir);
    g.push(TreeReaderNode::Literal(String::from_str("hook")));
    g.push(TreeReaderNode::Any);
    g.push(TreeReaderNode::Any);
    g
}

/// One theme-directory entry folded into the theme map: an entry with one
/// capture registers a theme of that name at the entry's path, with options
/// from the `theme.toml` beneath it. A theme whose options file exists but
/// cannot be read or parsed is skipped.
pub open spec fn spec_apply_theme(
    tree: FsNode,
    themes: Seq<(Seq<char>, ThemeDescView)>,
    e: EntryView,
) -> Seq<(Seq<char>, ThemeDescView)> {
    if e.captures.len() == 1 {
        let name = e.captures[0];
        let opts_path = e.path.push("theme.toml"@);
        match spec_tree_get(tree, opts_path, 0) {
            None => vset(themes, name, spec_new_theme(name, e.path, None)),
            Some(node) => match node {
                FsNode::File { contents: Some(c), .. } => match toml_string_field_of(
                    c@,
                    "inherits"@,
                ) {
                    Some(inh) => vset(themes, name, spec_new_theme(name, e.path, inh)),
                    None => themes,
                },
                _ => themes,
            },
        }
    } else {
        themes
    }
}

/// The theme-directory entries folded into the map, first to last.
pub open spec fn spec_read_themes(
    tree: FsNode,
    entries: Seq<EntryView>,
    themes: Seq<(Seq<char>, ThemeDescView)>,
) -> Seq<(Seq<char>, ThemeDescView)>
    decreases entries.len(),
{
    if entries.len() == 0 {
        themes
    } else {
        spec_read_themes(tree, entries.drop_first(), spec_apply_theme(tree, themes, entries[0]))
    }
}

/// A unit map with the unit present, empty when it was absent.
pub open spec fn spec_ensure_unit(
    units: Seq<(Seq<char>, Seq<(Seq<char>, Seq<char>)>)>,
    uname: Seq<char>,
) -> Seq<(Seq<char>, Seq<(Seq<char>, Seq<char>)>)> {
    if vget(units, uname) is Some {
        units
    } else {
        vset(units, uname, Seq::empty())
    }
}

/// One value-file entry folded into the theme map: an entry with captures
/// `[theme, unit, value]` for a known theme registers the unit and, when
/// the file's contents are readable, binds the value to them. An entry
/// naming a theme the map does not hold is skipped; this library treats the
/// inconsistency with the warn-and-skip policy, not as a fatal one.
pub open spec fn spec_apply_unit_value(
    tree: FsNode,
    themes: Seq<(Seq<char>, ThemeDescView)>,
    e: EntryView,
) -> Seq<(Seq<char>, ThemeDescView)> {
    if e.captures.len() == 3 {
        let tname = e.captures[0];
        let uname = e.captures[1];
        let vname = e.captures[2];
        match vget(themes, tname) {
            None => themes,
            Some(theme) => {
                let units1 = spec_ensure_unit(theme.units, uname);
                let units2 = match spec_tree_get(tree, e.path, 0) {
                    Some(FsNode::File { contents: Some(c), .. }) => vset(
                        units1,
                        uname,
                        vset(vget(units1, uname)->Some_0, vname, c@),
                    ),
                    _ => units1,
                };
                vset(themes, tname, ThemeDescView { units: units2, ..theme })
            },
        }
    } else {
        themes
    }
}

/// The value-file entries folded into the map, first to last.
pub open spec fn spec_read_unit_values(
    tree: FsNode,
    entries: Seq<EntryView>,
    themes: Seq<(Seq<char>, ThemeDescView)>,
) -> Seq<(Seq<char>, ThemeDescView)>
    decreases entries.len(),
{
    if entries.len() == 0 {
        themes
    } else {
        spec_read_unit_values(
            tree,
            entries.drop_first(),
            spec_apply_unit_value(tree, themes, entries[0]),
        )
    }
}

/// A value map extended with the given pairs, first to last.
pub open spec fn spec_extend_values(
    values: Seq<(Seq<char>, Seq<char>)>,
    pairs: Seq<(Seq<char>, Seq<char>)>,
) -> Seq<(Seq<char>, Seq<char>)>
    decreases pairs.len(),
{
    if pairs.len() == 0 {
        values
    } else {
        spec_extend_values(vset(values, pairs[0].0, pairs[0].1), pairs.drop_first())
    }
}

/// One compound-file entry folded into the theme map: an entry with
/// captures `[theme, unit]` for a known theme registers the unit and, when
/// the file holds a readable table of strings, extends the unit's values
/// with its pairs. An entry naming an unknown theme is skipped, as for
/// value files.
pub open spec fn spec_apply_compound(
    tree: FsNode,
    themes: Seq<(Seq<char>, ThemeDescView)>,
    e: EntryView,
) -> Seq<(Seq<char>, ThemeDescView)> {
    if e.captures.len() == 2 {
        let tname = e.captures[0];
        let uname = e.captures[1];
        match vget(themes, tname) {
            None => themes,
            Some(theme) => {
                let units1 = spec_ensure_unit(theme.units, uname);
                let units2 = match spec_tree_get(tree, e.path, 0) {
                    Some(FsNode::File { contents: Some(c), .. }) => match toml_string_map_of(c@) {
                        Some(pairs) => vset(
                            units1,
                            uname,
                            spec_extend_values(vget(units1, uname)->Some_0, pairs),
                        ),
                        None => units1,
                    },
                    _ => units1,
                };
                vset(themes, tname, ThemeDescView { units: units2, ..theme })
            },
        }
    } else {
        themes
    }
}

/// The compound-file entries folded into the map, first to last.
pub open spec fn spec_read_compound(
    tree: FsNode,
    entries: Seq<EntryView>,
    themes: Seq<(Seq<char>, ThemeDescView)>,
) -> Seq<(Seq<char>, ThemeDescView)>
    decreases entries.len(),
{
    if entries.len() == 0 {
        themes
    } else {
        spec_read_compound(
            tree,
            entries.drop_first(),
            spec_apply_compound(tree, themes, entries[0]),
        )
    }
}

/// One hook-file entry folded into the theme map: an entry with captures
/// `[theme, point, name]` for a known theme registers the hook under that
/// point of the theme's own hook set. An entry naming an unknown theme is
/// skipped, as for value files.
pub open spec fn spec_apply_theme_hook(
    themes: Seq<(Seq<char>, ThemeDescView)>,
    e: EntryView,
) -> Seq<(Seq<char>, ThemeDescView)> {
    if e.captures.len() == 3 {
        let tname = e.captures[0];
        match vget(themes, tname) {
            None => themes,
            Some(theme) => {
                let inner = EntryView {
                    path: e.path,
                    captures: seq![e.captures[1], e.captures[2]],
                };
                vset(
                    themes,
                    tname,
                    ThemeDescView { hooks: spec_apply_hook(theme.hooks, inner), ..theme },
                )
            },
        }
    } else {
        themes
    }
}

/// The hook-file entries folded into the map, first to last.
pub open spec fn spec_read_theme_hooks(
    entries: Seq<EntryView>,
    themes: Seq<(Seq<char>, ThemeDescView)>,
) -> Seq<(Seq<char>, ThemeDescView)>
    decreases entries.len(),
{
    if entries.len() == 0 {
        themes
    } else {
        spec_read_theme_hooks(entries.drop_first(), spec_apply_theme_hook(themes, entries[0]))
    }
}


/// Folds one theme-directory entry into the map.
fn apply_theme_entry(tree: &FsNode, themes: &mut StrMap<ThemeDesc>, e: TreeReaderEntry)
    ensures
        final(themes)@ == spec_apply_theme(*tree, old(themes)@, e@),
{
    let ghost ev = e@;
    let TreeReaderEntry { path, captures } = e;
    let Captures(caps) = captures;
    let mut caps = caps;
    if caps.len() != 1 {
        return ;
    }
    let name = caps.pop().unwrap();
    proof {
        assert(name@ == ev.captures[0]);
        assert(path.deep_view() == ev.path);
    }
    let mut opts_path = clone_strings(&path);
    opts_path.push(String::from_str("theme.toml"));
    proof {
        assert(opts_path.deep_view() =~= ev.path.push("theme.toml"@));
    }
    let inherits: Option<String> = match crate::fs_tree::tree_get(tree, &opts_path, 0) {
        None => None,
        Some(node) => match node {
            FsNode::File { contents: Some(c), .. } => match toml_string_field(
                c.as_str(),
                "inherits",
            ) {
                Some(inh) => inh,
                None => {
                    return ;
                },
            },
            _ => {
                return ;
            },
        },
    };
    let ghost inhv = inherits.deep_view();
    let theme = ThemeDesc {
        name: name.clone(),
        dir: path,
        hooks: HookSet::default(),
        units: StrMap::new(),
        options: ThemeOptions { inherits },
    };
    proof {
        assert(theme@ =~= spec_new_theme(ev.captures[0], ev.path, inhv));
    }
    themes.set(name, theme);
}

/// Folds every theme-directory entry into the map, first to last.
fn apply_theme_entries(tree: &FsNode, entries: Vec<TreeReaderEntry>, themes: StrMap<ThemeDesc>) -> (r:
    StrMap<ThemeDesc>)
    ensures
        r@ == spec_read_themes(*tree, entries_view(entries@), themes@),
{
    let ghost ev = entries_view(entries@);
    let ghost init = themes@;
    let mut themes = themes;
    let mut rest = entries;
    while rest.len() > 0
        invariant
            spec_read_themes(*tree, entries_view(rest@), themes@) == spec_read_themes(
                *tree,
                ev,
                init,
            ),
        decreases rest.len(),
    {
        let ghost rv = rest@;
        let ghost pre = themes@;
        let e = rest.remove(0);
        proof {
            assert(e == rv[0]);
            assert(entries_view(rv)[0] == e@);
            assert(rest@ =~= rv.drop_first());
            assert forall|m: int| 0 <= m < rest@.len() implies entries_view(rest@)[m]
                == entries_view(rv).drop_first()[m] by {
                assert(entries_view(rv)[m + 1] == rv[m + 1]@);
            }
            assert(entries_view(rest@) =~= entries_view(rv).drop_first());
        }
        apply_theme_entry(tree, &mut themes, e);
    }
    proof {
        assert(entries_view(rest@) =~= Seq::<EntryView>::empty());
    }
    themes
}

/// Folds one value-file entry into the map.
fn apply_unit_value_entry(tree: &FsNode, themes: &mut StrMap<ThemeDesc>, e: TreeReaderEntry)
    ensures
        final(themes)@ == spec_apply_unit_value(*tree, old(themes)@, e@),
{
    let ghost ev = e@;
    let TreeReaderEntry { path, captures } = e;
    let Captures(caps) = captures;
    let mut caps = caps;
    if caps.len() != 3 {
        return ;
    }
    let vname = caps.pop().unwrap();
    let uname = caps.pop().unwrap();
    let tname = caps.pop().unwrap();
    proof {
        assert(tname@ == ev.captures[0]);
        assert(uname@ == ev.captures[1]);
        assert(vname@ == ev.captures[2]);
        assert(path.deep_view() == ev.path);
    }
    let ti = match themes.index_of(tname.as_str()) {
        Some(i) => i,
        None => {
            return ;
        },
    };
    let ghost themes0 = themes@;
    let ghost theme0 = vget(themes0, tname@)->Some_0;
    let (tkey, mut theme) = themes.remove_at(ti);
    proof {
        assert(theme@ == theme0);
        assert(tkey@ == themes0[ti as int].0);
        lemma_vfind_bounds(themes0, tname@);
        assert(tkey@ == tname@);
    }
    let ghost units0 = theme@.units;
    theme.units.ensure_contains(uname.clone(), UnitDesc::default());
    let ghost units1 = theme@.units;
    proof {
        assert(units1 == spec_ensure_unit(units0, uname@));
    }
    match tree_read_file(tree, &path) {
        Ok(c) => {
            let c = c.clone();
            proof {
                crate::str_map::lemma_vget_vset(units0, uname@, Seq::<(Seq<char>, Seq<
                    char,
                >)>::empty());
                assert(vget(units1, uname@) is Some);
                lemma_vfind_bounds(units1, uname@);
            }
            let uj = match theme.units.index_of(uname.as_str()) {
                Some(j) => j,
                None => {
                    proof {
                        assert(false);
                    }
                    return ;
                },
            };
            let ghost unit0 = vget(units1, uname@)->Some_0;
            let (ukey, mut unit) = theme.units.remove_at(uj);
            proof {
                assert(unit@ == unit0);
                assert(ukey@ == uname@);
            }
            unit.values.set(vname, c);
            proof {
                assert(unit@ == vset(unit0, ev.captures[2], spec_tree_get(
                    *tree,
                    ev.path,
                    0,
                )->Some_0->File_contents->Some_0@));
            }
            let ghost before_insert = theme@.units;
            theme.units.insert_at(uj, (ukey, unit));
            proof {
                assert(theme@.units =~= units1.update(uj as int, (uname@, unit@)));
                assert(theme@.units =~= vset(units1, uname@, unit@));
            }
        },
        Err(_) => {},
    }
    proof {
        assert(theme@ =~= (ThemeDescView {
            units: theme@.units,
            ..theme0
        }));
    }
    let ghost theme2 = theme@;
    themes.insert_at(ti, (tkey, theme));
    proof {
        assert(themes@ =~= themes0.update(ti as int, (tname@, theme2)));
        assert(themes@ =~= vset(themes0, tname@, theme2));
    }
}

/// Folds every value-file entry into the map, first to last.
fn apply_unit_value_entries(
    tree: &FsNode,
    entries: Vec<TreeReaderEntry>,
    themes: StrMap<ThemeDesc>,
) -> (r: StrMap<ThemeDesc>)
    ensures
        r@ == spec_read_unit_values(*tree, entries_view(entries@), themes@),
{
    let ghost ev = entries_view(entries@);
    let ghost init = themes@;
    let mut themes = themes;
    let mut rest = entries;
    while rest.len() > 0
        invariant
            spec_read_unit_values(*tree, entries_view(rest@), themes@) == spec_read_unit_values(
                *tree,
                ev,
                init,
            ),
        decreases rest.len(),
    {
        let ghost rv = rest@;
        let e = rest.remove(0);
        proof {
            assert(e == rv[0]);
            assert(entries_view(rv)[0] == e@);
            assert(rest@ =~= rv.drop_first());
            assert forall|m: int| 0 <= m < rest@.len() implies entries_view(rest@)[m]
                == entries_view(rv).drop_first()[m] by {
                assert(entries_view(rv)[m + 1] == rv[m + 1]@);
            }
            assert(entries_view(rest@) =~= entries_view(rv).drop_first());
        }
        apply_unit_value_entry(tree, &mut themes, e);
    }
    proof {
        assert(entries_view(rest@) =~= Seq::<EntryView>::empty());
    }
    themes
}

/// Extends a value map with the given pairs, first to last.
pub(crate) fn extend_values(values: &mut StrMap<String>, pairs: Vec<(String, String)>)
    ensures
        final(values)@ == spec_extend_values(old(values)@, pairs.deep_view()),
{
    let ghost pv = pairs.deep_view();
    let ghost init = values@;
    let mut rest = pairs;
    while rest.len() > 0
        invariant
            spec_extend_values(values@, rest.deep_view()) == spec_extend_values(init, pv),
        decreases rest.len(),
    {
        let ghost rv = rest@;
        let ghost rdv = rest.deep_view();
        let (k, v) = rest.remove(0);
        proof {
            assert((k, v) == rv[0]);
            assert(rdv[0] == (k@, v@));
            assert(rest@ =~= rv.drop_first());
            assert forall|m: int| 0 <= m < rest@.len() implies rest.deep_view()[m]
                == rdv.drop_first()[m] by {
                assert(rdv[m + 1] == (rv[m + 1].0@, rv[m + 1].1@));
            }
            assert(rest.deep_view() =~= rdv.drop_first());
        }
        values.set(k, v);
    }
    proof {
        assert(rest.deep_view() =~= Seq::<(Seq<char>, Seq<char>)>::empty());
    }
}

/// Folds one compound-file entry into the map.
fn apply_compound_entry(tree: &FsNode, themes: &mut StrMap<ThemeDesc>, e: TreeReaderEntry)
    ensures
        final(themes)@ == spec_apply_compound(*tree, old(themes)@, e@),
{
    let ghost ev = e@;
    let TreeReaderEntry { path, captures } = e;
    let Captures(caps) = captures;
    let mut caps = caps;
    if caps.len() != 2 {
        return ;
    }
    let uname = caps.pop().unwrap();
    let tname = caps.pop().unwrap();
    proof {
        assert(tname@ == ev.captures[0]);
        assert(uname@ == ev.captures[1]);
        assert(path.deep_view() == ev.path);
    }
    let ti = match themes.index_of(tname.as_str()) {
        Some(i) => i,
        None => {
            return ;
        },
    };
    let ghost themes0 = themes@;
    let ghost theme0 = vget(themes0, tname@)->Some_0;
    let (tkey, mut theme) = themes.remove_at(ti);
    proof {
        assert(theme@ == theme0);
        lemma_vfind_bounds(themes0, tname@);
        assert(tkey@ == tname@);
    }
    let ghost units0 = theme@.units;
    theme.units.ensure_contains(uname.clone(), UnitDesc::default());
    let ghost units1 = theme@.units;
    proof {
        assert(units1 == spec_ensure_unit(units0, uname@));
    }
    match tree_read_file(tree, &path) {
        Ok(c) => {
            match toml_string_map(c.as_str()) {
                Some(pairs) => {
                    proof {
                        crate::str_map::lemma_vget_vset(units0, uname@, Seq::<(Seq<char>, Seq<
                            char,
                        >)>::empty());
                        assert(vget(units1, uname@) is Some);
                        lemma_vfind_bounds(units1, uname@);
                    }
                    let ghost pairsv = pairs.deep_view();
                    let uj = match theme.units.index_of(uname.as_str()) {
                        Some(j) => j,
                        None => {
                            proof {
                                assert(false);
                            }
                            return ;
                        },
                    };
                    let ghost unit0 = vget(units1, uname@)->Some_0;
                    let (ukey, mut unit) = theme.units.remove_at(uj);
                    proof {
                        assert(unit@ == unit0);
                        assert(ukey@ == uname@);
                    }
                    extend_values(&mut unit.values, pairs);
                    proof {
                        assert(unit@ == spec_extend_values(unit0, pairsv));
                    }
                    theme.units.insert_at(uj, (ukey, unit));
                    proof {
                        assert(theme@.units =~= units1.update(uj as int, (uname@, unit@)));
                        assert(theme@.units =~= vset(units1, uname@, unit@));
                    }
                },
                None => {},
            }
        },
        Err(_) => {},
    }
    proof {
        assert(theme@ =~= (ThemeDescView { units: theme@.units, ..theme0 }));
    }
    let ghost theme2 = theme@;
    themes.insert_at(ti, (tkey, theme));
    proof {
        assert(themes@ =~= themes0.update(ti as int, (tname@, theme2)));
        assert(themes@ =~= vset(themes0, tname@, theme2));
    }
}

/// Folds every compound-file entry into the map, first to last.
fn apply_compound_entries(
    tree: &FsNode,
    entries: Vec<TreeReaderEntry>,
    themes: StrMap<ThemeDesc>,
) -> (r: StrMap<ThemeDesc>)
    ensures
        r@ == spec_read_compound(*tree, entries_view(entries@), themes@),
{
    let ghost ev = entries_view(entries@);
    let ghost init = themes@;
    let mut themes = themes;
    let mut rest = entries;
    while rest.len() > 0
        invariant
            spec_read_compound(*tree, entries_view(rest@), themes@) == spec_read_compound(
                *tree,
                ev,
                init,
            ),
        decreases rest.len(),
    {
        let ghost rv = rest@;
        let e = rest.remove(0);
        proof {
            assert(e == rv[0]);
            assert(entries_view(rv)[0] == e@);
            assert(rest@ =~= rv.drop_first());
            assert forall|m: int| 0 <= m < rest@.len() implies entries_view(rest@)[m]
                == entries_view(rv).drop_first()[m] by {
                assert(entries_view(rv)[m + 1] == rv[m + 1]@);
            }
            assert(entries_view(rest@) =~= entries_view(rv).drop_first());
        }
        apply_compound_entry(tree, &mut themes, e);
    }
    proof {
        assert(entries_view(rest@) =~= Seq::<EntryView>::empty());
    }
    themes
}

/// Folds one hook-file entry into the map.
fn apply_theme_hook_entry(themes: &mut StrMap<ThemeDesc>, e: TreeReaderEntry)
    ensures
        final(themes)@ == spec_apply_theme_hook(old(themes)@, e@),
{
    let ghost ev = e@;
    let TreeReaderEntry { path, captures } = e;
    let Captures(caps) = captures;
    let mut caps = caps;
    if caps.len() != 3 {
        return ;
    }
    let hname = caps.pop().unwrap();
    let sname = caps.pop().unwrap();
    let tname = caps.pop().unwrap();
    proof {
        assert(tname@ == ev.captures[0]);
        assert(sname@ == ev.captures[1]);
        assert(hname@ == ev.captures[2]);
        assert(path.deep_view() == ev.path);
    }
    let ti = match themes.index_of(tname.as_str()) {
        Some(i) => i,
        None => {
            return ;
        },
    };
    let ghost themes0 = themes@;
    let ghost theme0 = vget(themes0, tname@)->Some_0;
    let (tkey, mut theme) = themes.remove_at(ti);
    proof {
        assert(theme@ == theme0);
        lemma_vfind_bounds(themes0, tname@);
        assert(tkey@ == tname@);
    }
    let mut inner_caps: Vec<String> = Vec::new();
    inner_caps.push(sname);
    inner_caps.push(hname);
    let inner = TreeReaderEntry { path, captures: Captures(inner_caps) };
    proof {
        assert(inner@.captures =~= seq![ev.captures[1], ev.captures[2]]);
        assert(inner@ =~= (EntryView {
            path: ev.path,
            captures: seq![ev.captures[1], ev.captures[2]],
        }));
    }
    let ghost innerv = inner@;
    apply_hook_entry(&mut theme.hooks, inner);
    proof {
        assert(theme@.hooks == spec_apply_hook(theme0.hooks, innerv));
        assert(theme@ =~= (ThemeDescView { hooks: theme@.hooks, ..theme0 }));
    }
    let ghost theme2 = theme@;
    themes.insert_at(ti, (tkey, theme));
    proof {
        assert(themes@ =~= themes0.update(ti as int, (tname@, theme2)));
        assert(themes@ =~= vset(themes0, tname@, theme2));
    }
}

/// Folds every hook-file entry into the map, first to last.
fn apply_theme_hook_entries(entries: Vec<TreeReaderEntry>, themes: StrMap<ThemeDesc>) -> (r:
    StrMap<ThemeDesc>)
    ensures
        r@ == spec_read_theme_hooks(entries_view(entries@), themes@),
{
    let ghost ev = entries_view(entries@);
    let ghost init = themes@;
    let mut themes = themes;
    let mut rest = entries;
    while rest.len() > 0
        invariant
            spec_read_theme_hooks(entries_view(rest@), themes@) == spec_read_theme_hooks(ev, init),
        decreases rest.len(),
    {
        let ghost rv = rest@;
        let e = rest.remove(0);
        proof {
            assert(e == rv[0]);
            assert(entries_view(rv)[0] == e@);
            assert(rest@ =~= rv.drop_first());
            assert forall|m: int| 0 <= m < rest@.len() implies entries_view(rest@)[m]
                == entries_view(rv).drop_first()[m] by {
                assert(entries_view(rv)[m + 1] == rv[m + 1]@);
            }
            assert(entries_view(rest@) =~= entries_view(rv).drop_first());
        }
        apply_theme_hook_entry(&mut themes, e);
    }
    proof {
        assert(entries_view(rest@) =~= Seq::<EntryView>::empty());
    }
    themes
}

/// Reads every theme's unit values into the map: first the single value
/// files, then, when the compound pattern compiles, the compound `.toml`
/// files. A file for a theme the map does not hold is skipped.
pub fn read_units(tree: &FsNode, themes: StrMap<ThemeDesc>) -> (r: StrMap<ThemeDesc>)
    ensures
        regex_compiles("^(.*)\\.toml$"@) ==> exists|d2: Seq<TreeReaderNode>, d3: Seq<
            TreeReaderNode,
        >|
            {
                &&& #[trigger] spec_units_grammar(d2)
                &&& #[trigger] spec_compound_grammar(d3)
                &&& r@ == spec_read_compound(
                    *tree,
                    spec_file_entries(*tree, d3),
                    spec_read_unit_values(*tree, spec_file_entries(*tree, d2), themes@),
                )
            },
        !regex_compiles("^(.*)\\.toml$"@) ==> exists|d2: Seq<TreeReaderNode>|
            {
                &&& #[trigger] spec_units_grammar(d2)
                &&& r@ == spec_read_unit_values(*tree, spec_file_entries(*tree, d2), themes@)
            },
{
    let g2 = units_grammar();
    let e2 = TreeReader::new(tree, g2.as_slice()).get_file_entries_recursive();
    let themes = apply_unit_value_entries(tree, e2, themes);
    match compound_grammar() {
        Some(g3) => {
            let e3 = TreeReader::new(tree, g3.as_slice()).get_file_entries_recursive();
            let r = apply_compound_entries(tree, e3, themes);
            proof {
                assert(spec_units_grammar(g2@) && spec_compound_grammar(g3@));
            }
            r
        },
        None => {
            proof {
                assert(spec_units_grammar(g2@));
            }
            themes
        },
    }
}

/// Reads every theme's own hooks into the map. A hook file for a theme the
/// map does not hold is skipped.
pub fn read_hooks(tree: &FsNode, themes: StrMap<ThemeDesc>) -> (r: StrMap<ThemeDesc>)
    ensures
        exists|d4: Seq<TreeReaderNode>|
            {
                &&& #[trigger] spec_theme_hooks_grammar(d4)
                &&& r@ == spec_read_theme_hooks(spec_file_entries(*tree, d4), themes@)
            },
{
    let g4 = theme_hooks_grammar();
    let e4 = TreeReader::new(tree, g4.as_slice()).get_file_entries_recursive();
    let r = apply_theme_hook_entries(e4, themes);
    proof {
        assert(spec_theme_hooks_grammar(g4@));
    }
    r
}

/// Reads every theme from a tree snapshot: theme directories first, then
/// unit values, then theme hooks.
/// Whether `m` is the theme map read from `tree`: theme directories first,
/// then unit values, then compound unit files (when the compound pattern
/// compiles), then theme hooks.
pub open spec fn spec_is_themes_read(tree: FsNode, m: Seq<(Seq<char>, ThemeDescView)>) -> bool {
    exists|d1: Seq<TreeReaderNode>, d4: Seq<TreeReaderNode>|
            {
                &&& #[trigger] spec_themes_grammar(d1)
                &&& #[trigger] spec_theme_hooks_grammar(d4)
                &&& (regex_compiles("^(.*)\\.toml$"@) ==> exists|d2: Seq<TreeReaderNode>, d3: Seq<
                    TreeReaderNode,
                >|
                    {
                        &&& #[trigger] spec_units_grammar(d2)
                        &&& #[trigger] spec_compound_grammar(d3)
                        &&& m == spec_read_theme_hooks(
                            spec_file_entries(tree, d4),
                            spec_read_compound(
                                tree,
                                spec_file_entries(tree, d3),
                                spec_read_unit_values(
                                    tree,
                                    spec_file_entries(tree, d2),
                                    spec_read_themes(
                                        tree,
                                        spec_dir_entries(tree, d1),
                                        Seq::empty(),
                                    ),
                                ),
                            ),
                        )
                    })
                &&& (!regex_compiles("^(.*)\\.toml$"@) ==> exists|d2: Seq<TreeReaderNode>|
                    {
                        &&& #[trigger] spec_units_grammar(d2)
                        &&& m == spec_read_theme_hooks(
                            spec_file_entries(tree, d4),
                            spec_read_unit_values(
                                tree,
                                spec_file_entries(tree, d2),
                                spec_read_themes(tree, spec_dir_entries(tree, d1), Seq::empty()),
                            ),
                        )
                    })
            }
}

pub fn read_from(tree: &FsNode) -> (r: StrMap<ThemeDesc>)
    ensures
        spec_is_themes_read(*tree, r@),
{
    let g1 = themes_grammar();
    let e1 = TreeReader::new(tree, g1.as_slice()).get_dir_entries_recursive();
    let themes = apply_theme_entries(tree, e1, StrMap::new());
    let ghost after1 = themes@;
    let g2 = units_grammar();
    let e2 = TreeReader::new(tree, g2.as_slice()).get_file_entries_recursive();
    let themes = apply_unit_value_entries(tree, e2, themes);
    let ghost after2 = themes@;
    let themes = match compound_grammar() {
        Some(g3) => {
            let e3 = TreeReader::new(tree, g3.as_slice()).get_file_entries_recursive();
            let r = apply_compound_entries(tree, e3, themes);
            proof {
                assert(spec_compound_grammar(g3@) && r@ == spec_read_compound(
                    *tree,
                    spec_file_entries(*tree, g3@),
                    after2,
                ));
            }
            r
        },
        None => themes,
    };
    let g4 = theme_hooks_grammar();
    let e4 = TreeReader::new(tree, g4.as_slice()).get_file_entries_recursive();
    let r = apply_theme_hook_entries(e4, themes);
    proof {
        assert(spec_themes_grammar(g1@));
        assert(spec_theme_hooks_grammar(g4@));
        assert(spec_units_grammar(g2@));
    }
    r
}

} // verus!

