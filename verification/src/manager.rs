//! The theme manager: the installation description, the themes and the
//! global hooks read from one tree snapshot, and the plans its operations
//! expand to.

use vstd::prelude::*;

use crate::error::Error;
use crate::fs_tree::FsNode;
use crate::hooks;
use crate::hooks::HookLauncher;
use crate::hooks::HookSet;
use crate::hooks::HookSetView;
use crate::hooks::spec_hook_commands;
use crate::hooks::spec_is_hooks_read;
use crate::install::InstallDesc;
use crate::install::InstallStep;
use crate::install::InstallStepView;
use crate::install::chain_views;
use crate::install::spec_install;
use crate::install::steps_view;
use crate::str_map::StrMap;
use crate::str_map::vget;
use crate::strings::str_eq;
use crate::themes;
use crate::themes::ThemeDesc;
use crate::themes::ThemeDescView;
use crate::themes::spec_is_themes_read;

verus! {

/// The inheritance chain from the named theme to its base: each theme
/// followed by the theme it inherits, stopping at one that inherits
/// nothing. `None` when a theme along the way is unknown or the fuel runs
/// out (the inheritance references form a cycle).
pub open spec fn spec_chain_walk(
    themes: Seq<(Seq<char>, ThemeDescView)>,
    name: Seq<char>,
    fuel: nat,
) -> Option<Seq<ThemeDescView>>
    decreases fuel,
{
    match vget(themes, name) {
        None => None,
        Some(t) => match t.options {
            None => Some(seq![t]),
            Some(next) => if fuel == 0 {
                None
            } else {
                match spec_chain_walk(themes, next, (fuel - 1) as nat) {
                    Some(rest) => Some(seq![t] + rest),
                    None => None,
                }
            },
        },
    }
}

/// The chain with the default theme appended, unless the base of the chain
/// is itself the default theme or there is none.
pub open spec fn spec_with_default(
    themes: Seq<(Seq<char>, ThemeDescView)>,
    chain: Seq<ThemeDescView>,
) -> Seq<ThemeDescView> {
    if vget(themes, "default"@) is Some && chain.last().name != "default"@ {
        chain.push(vget(themes, "default"@)->Some_0)
    } else {
        chain
    }
}

/// The plan installing the named theme expands to: the chain is walked from
/// the theme to its base, the default theme is appended, and the reversed
/// chain — base first, named theme last — is installed, with the global
/// hooks run in the base theme's directory and name.
pub open spec fn spec_install_theme(
    tree: FsNode,
    themes: Seq<(Seq<char>, ThemeDescView)>,
    global_hooks: HookSetView,
    desc: InstallDesc,
    name: Seq<char>,
) -> Option<Seq<InstallStepView>> {
    match spec_chain_walk(themes, name, themes.len() as nat) {
        None => None,
        Some(chain) => {
            let base = chain.last();
            spec_install(
                tree,
                spec_with_default(themes, chain).reverse(),
                spec_hook_commands(global_hooks.preinstall, base.dir, base.name),
                spec_hook_commands(global_hooks.postinstall, base.dir, base.name),
                desc.dir.deep_view(),
                desc.vars@,
                desc.files@,
            )
        },
    }
}

/// A chain of theme references in reverse order.
fn reverse_refs<'a>(chain: Vec<&'a ThemeDesc>) -> (r: Vec<&'a ThemeDesc>)
    ensures
        chain_views(r@) == chain_views(chain@).reverse(),
{
    let ghost cv = chain_views(chain@);
    let n = chain.len();
    let mut r: Vec<&'a ThemeDesc> = Vec::new();
    let mut i: usize = n;
    while i > 0
        invariant
            i <= n,
            n == chain.len(),
            cv == chain_views(chain@),
            r@.len() == n - i,
            forall|j: int| 0 <= j < n - i ==> chain_views(r@)[j] == cv[n - 1 - j],
        decreases i,
    {
        let ghost pre = chain_views(r@);
        r.push(chain[i - 1]);
        proof {
            assert(chain_views(r@) =~= pre.push(cv[i - 1]));
        }
        i = i - 1;
    }
    proof {
        assert(chain_views(r@) =~= cv.reverse());
    }
    r
}

/// The theme manager: everything read from one tree snapshot, ready to
/// expand operations into plans.
pub struct ThemeManager {
    pub dir: Vec<String>,
    pub install: InstallDesc,
    pub themes: StrMap<ThemeDesc>,
    pub global_hooks: HookSet,
}

impl ThemeManager {
    /// A manager over a tree snapshot: the themes and the global hooks are
    /// read from the tree; the installation description, whose data lives
    /// in a structured file, is handed in by the caller.
    pub fn read_from_dir(tree: &FsNode, install: InstallDesc) -> (r: Self)
        ensures
            r.dir@.len() == 0,
            r.install == install,
            spec_is_themes_read(*tree, r.themes@),
            spec_is_hooks_read(*tree, r.global_hooks@),
    {
        ThemeManager {
            dir: Vec::new(),
            install,
            themes: themes::read_from(tree),
            global_hooks: hooks::read_from(tree),
        }
    }

    /// The plan installing the named theme expands to. Fails exactly when
    /// the inheritance chain cannot be resolved (an unknown inherited theme,
    /// or references that never reach a base) or the installation plan
    /// cannot be computed; the failure is returned to the caller rather
    /// than aborting.
    pub fn install_theme(&self, tree: &FsNode, theme: &str) -> (r: Result<Vec<InstallStep>, Error>)
        requires
            vget(self.themes@, theme@) is Some,
        ensures
            (match r {
                Ok(steps) => spec_install_theme(
                    *tree,
                    self.themes@,
                    self.global_hooks@,
                    self.install,
                    theme@,
                ) == Some(steps_view(steps@)),
                Err(_) => spec_install_theme(
                    *tree,
                    self.themes@,
                    self.global_hooks@,
                    self.install,
                    theme@,
                ) is None,
            }),
    {
        let ghost tv = self.themes@;
        let ghost fuel0 = tv.len() as nat;
        let mut chain: Vec<&ThemeDesc> = Vec::new();
        let mut cur: &ThemeDesc = match self.themes.get(theme) {
            Some(t) => t,
            None => {
                proof {
                    assert(false);
                }
                return Err(Error::InvalidPath);
            },
        };
        let mut fuel: usize = self.themes.len();
        let ghost mut curkey: Seq<char> = theme@;
        proof {
            assert(chain_views(chain@) =~= Seq::<ThemeDescView>::empty());
            match spec_chain_walk(tv, theme@, fuel0) {
                Some(rest) => {
                    assert(chain_views(chain@) + rest =~= rest);
                },
                None => {},
            }
        }
        loop
            invariant
                vget(tv, curkey) == Some(cur@),
                tv == self.themes@,
                fuel0 == tv.len() as nat,
                fuel <= tv.len(),
                (match spec_chain_walk(tv, curkey, fuel as nat) {
                    Some(rest) => spec_chain_walk(tv, theme@, fuel0) == Some(
                        chain_views(chain@) + rest,
                    ),
                    None => spec_chain_walk(tv, theme@, fuel0) is None,
                }),
            ensures
                vget(tv, curkey) == Some(cur@),
                tv == self.themes@,
                fuel0 == tv.len() as nat,
                cur@.options is None,
                spec_chain_walk(tv, theme@, fuel0) == Some(chain_views(chain@) + seq![cur@]),
            decreases fuel,
        {
            let next_name: &String = match &cur.options.inherits {
                None => {
                    proof {
                        assert(spec_chain_walk(tv, curkey, fuel as nat) == Some(seq![cur@]));
                    }
                    break ;
                },
                Some(next) => next,
            };
            if fuel == 0 {
                proof {
                    assert(cur@.options is Some);
                    assert(spec_chain_walk(tv, curkey, fuel as nat) is None);
                    assert(spec_chain_walk(tv, theme@, fuel0) is None);
                }
                return Err(Error::Missing { path: Vec::new() });
            }
            match self.themes.get(next_name.as_str()) {
                Some(n) => {
                    let ghost pre = chain_views(chain@);
                    chain.push(cur);
                    proof {
                        assert(chain_views(chain@) =~= pre.push(cur@));
                        assert(pre.push(cur@) + spec_chain_walk(
                            tv,
                            next_name@,
                            (fuel - 1) as nat,
                        )->Some_0 =~= pre + (seq![cur@] + spec_chain_walk(
                            tv,
                            next_name@,
                            (fuel - 1) as nat,
                        )->Some_0));
                    }
                    cur = n;
                    proof {
                        curkey = next_name@;
                    }
                    fuel = fuel - 1;
                },
                None => {
                    proof {
                        assert(cur@.options is Some);
                        assert(vget(tv, next_name@) is None);
                        assert(spec_chain_walk(tv, next_name@, (fuel - 1) as nat) is None);
                        assert(spec_chain_walk(tv, curkey, fuel as nat) is None);
                        assert(spec_chain_walk(tv, theme@, fuel0) is None);
                    }
                    return Err(Error::Missing { path: Vec::new() });
                },
            }
        }
        let ghost walked_last = cur@;
        let ghost pre = chain_views(chain@);
        chain.push(cur);
        proof {
            assert(chain_views(chain@) =~= pre.push(cur@));
            assert(pre + seq![cur@] =~= pre.push(cur@));
            assert(spec_chain_walk(tv, theme@, fuel0) == Some(chain_views(chain@)));
            assert(chain_views(chain@).last() == walked_last);
            assert(chain_views(chain@).len() > 0);
        }
        let ghost walked = chain_views(chain@);
        match self.themes.get("default") {
            Some(default_theme) => {
                if !str_eq(cur.name.as_str(), "default") {
                    let ghost pre2 = chain_views(chain@);
                    chain.push(default_theme);
                    proof {
                        assert(chain_views(chain@) =~= pre2.push(default_theme@));
                        assert(chain_views(chain@) == spec_with_default(tv, walked));
                    }
                } else {
                    proof {
                        assert(chain_views(chain@) == spec_with_default(tv, walked));
                    }
                }
            },
            None => {
                proof {
                    assert(chain_views(chain@) == spec_with_default(tv, walked));
                }
            },
        }
        let chain = reverse_refs(chain);
        let launcher = HookLauncher::HookSet {
            theme_dir: &cur.dir,
            theme_name: cur.name.as_str(),
            hooks: &self.global_hooks,
        };
        proof {
            assert(chain_views(chain@).len() > 0);
        }
        self.install.install(tree, &chain, &launcher)
    }

    /// The plan installing no theme expands to: the installation files with
    /// one default, empty theme, and the global hooks run in the manager's
    /// own directory under the name `empty`. A failure is returned rather
    /// than aborting.
    pub fn install_empty(&self, tree: &FsNode) -> (r: Result<Vec<InstallStep>, Error>)
        ensures
            (exists|chain: Seq<ThemeDescView>|
                {
                    &&& #[trigger] chain.len() == 1
                    &&& chain[0] == crate::themes::spec_new_theme(Seq::empty(), Seq::empty(), None)
                    &&& (match r {
                        Ok(steps) => spec_install(
                            *tree,
                            chain,
                            spec_hook_commands(
                                self.global_hooks@.preinstall,
                                self.dir.deep_view(),
                                "empty"@,
                            ),
                            spec_hook_commands(
                                self.global_hooks@.postinstall,
                                self.dir.deep_view(),
                                "empty"@,
                            ),
                            self.install.dir.deep_view(),
                            self.install.vars@,
                            self.install.files@,
                        ) == Some(steps_view(steps@)),
                        Err(_) => spec_install(
                            *tree,
                            chain,
                            spec_hook_commands(
                                self.global_hooks@.preinstall,
                                self.dir.deep_view(),
                                "empty"@,
                            ),
                            spec_hook_commands(
                                self.global_hooks@.postinstall,
                                self.dir.deep_view(),
                                "empty"@,
                            ),
                            self.install.dir.deep_view(),
                            self.install.vars@,
                            self.install.files@,
                        ) is None,
                    })
                }),
    {
        let launcher = HookLauncher::HookSet {
            theme_dir: &self.dir,
            theme_name: "empty",
            hooks: &self.global_hooks,
        };
        self.install.install_empty(tree, &launcher)
    }
}

} // verus!
