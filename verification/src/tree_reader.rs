//! The path grammar matcher: grammar nodes, the file-name and directory-name
//! segment matchers, and the recursive traversal that projects a directory
//! tree onto `(path, captures)` entries.

use vstd::prelude::*;

use crate::pattern::PatternDesc;
use crate::pattern::regex_groups;
use crate::strings::make_plural;
use crate::strings::spec_escaped;
use crate::strings::spec_plural;
use crate::strings::spec_split;
use crate::strings::split_char;
use crate::strings::starts_with_escape;
use crate::strings::str_eq;
use crate::strings::lemma_split_nonempty;
use crate::strings::lemma_split_no_sep;
use crate::fs_tree::FsNode;

verus! {

/// One node of a path grammar, aligned with one dash-token position of the
/// logical (fully flattened) name.
pub enum TreeReaderNode {
    /// The token must equal the literal exactly; contributes no capture.
    Literal(String),
    /// The token must satisfy the pattern; each sub-group of the match is
    /// captured in group order.
    Pattern(PatternDesc),
    /// Matches an entire directory name as one unit, captured verbatim; legal
    /// only as the terminal node of a directory match.
    AnyDir,
    /// Matches any single token, captured verbatim.
    Any,
}

/// The ordered captures of one match.
#[derive(Debug, Clone)]
pub struct Captures(pub Vec<String>);

/// The captures contributed by a sequence of optional sub-group matches:
/// the groups that participated, in order.
pub open spec fn matched_groups(gs: Seq<Option<Seq<char>>>) -> Seq<Seq<char>>
    decreases gs.len(),
{
    if gs.len() == 0 {
        seq![]
    } else {
        let rest = matched_groups(gs.drop_first());
        match gs[0] {
            Some(g) => seq![g] + rest,
            None => rest,
        }
    }
}

/// What one grammar node contributes when matched against one token of a
/// file name: `None` on mismatch, otherwise its captures.
pub open spec fn node_file_caps(n: TreeReaderNode, tok: Seq<char>) -> Option<Seq<Seq<char>>> {
    match n {
        TreeReaderNode::Literal(x) => if tok == x@ {
            Some(seq![])
        } else {
            None
        },
        TreeReaderNode::Pattern(p) => match regex_groups(p.src_view(), tok) {
            Some(gs) => Some(matched_groups(gs)),
            None => None,
        },
        TreeReaderNode::AnyDir => None,
        TreeReaderNode::Any => Some(seq![tok]),
    }
}

/// The concatenated captures of matching each token against its aligned
/// node, or `None` as soon as one node fails.
pub open spec fn nodes_file_caps(desc: Seq<TreeReaderNode>, toks: Seq<Seq<char>>) -> Option<
    Seq<Seq<char>>,
>
    decreases desc.len(),
{
    if desc.len() == 0 || toks.len() == 0 {
        Some(seq![])
    } else {
        match node_file_caps(desc[0], toks[0]) {
            Some(c) => match nodes_file_caps(desc.drop_first(), toks.drop_first()) {
                Some(rest) => Some(c + rest),
                None => None,
            },
            None => None,
        }
    }
}

/// A file name matches the grammar exactly when it is not escaped, splits
/// into exactly one token per node, and every token satisfies its node; the
/// result is the ordered concatenation of the nodes' captures.
pub open spec fn spec_match_file(desc: Seq<TreeReaderNode>, name: Seq<char>) -> Option<
    Seq<Seq<char>>,
> {
    if spec_escaped(name) {
        None
    } else {
        let toks = spec_split(name, '-');
        if toks.len() != desc.len() {
            None
        } else {
            nodes_file_caps(desc, toks)
        }
    }
}

/// What one grammar node contributes at a non-terminal position of a
/// directory name. Unlike file positions, a whole-name wildcard aligned to a
/// non-terminal token captures that token.
pub open spec fn node_dir_caps(n: TreeReaderNode, tok: Seq<char>) -> Option<Seq<Seq<char>>> {
    match n {
        TreeReaderNode::Literal(x) => if tok == x@ {
            Some(seq![])
        } else {
            None
        },
        TreeReaderNode::Pattern(p) => match regex_groups(p.src_view(), tok) {
            Some(gs) => Some(matched_groups(gs)),
            None => None,
        },
        TreeReaderNode::AnyDir => Some(seq![tok]),
        TreeReaderNode::Any => Some(seq![tok]),
    }
}

/// The concatenated captures of the non-terminal directory tokens.
pub open spec fn nodes_dir_caps(desc: Seq<TreeReaderNode>, toks: Seq<Seq<char>>) -> Option<
    Seq<Seq<char>>,
>
    decreases desc.len(),
{
    if desc.len() == 0 || toks.len() == 0 {
        Some(seq![])
    } else {
        match node_dir_caps(desc[0], toks[0]) {
            Some(c) => match nodes_dir_caps(desc.drop_first(), toks.drop_first()) {
                Some(rest) => Some(c + rest),
                None => None,
            },
            None => None,
        }
    }
}

/// Whether the node aligned with a directory name's last token lets the
/// directory match. A literal requires its pluralized form; a wildcard or
/// pattern node may not be the final unconsumed node; a whole-name wildcard
/// is always valid.
pub open spec fn dir_terminal_ok(n: TreeReaderNode, last: Seq<char>, full: bool) -> bool {
    match n {
        TreeReaderNode::Literal(x) => last == spec_plural(x@),
        TreeReaderNode::Pattern(_) => !full,
        TreeReaderNode::Any => !full,
        TreeReaderNode::AnyDir => true,
    }
}

/// The capture contributed by the directory's last token.
pub open spec fn dir_terminal_caps(n: TreeReaderNode, last: Seq<char>) -> Seq<Seq<char>> {
    match n {
        TreeReaderNode::Any => seq![last],
        TreeReaderNode::AnyDir => seq![last],
        _ => seq![],
    }
}

/// A directory name may consume a prefix of the grammar: its `k` tokens
/// align with the first `k` nodes, the node at position `k-1` decides the
/// terminal convention, and the earlier tokens must satisfy their nodes.
pub open spec fn spec_match_dir(desc: Seq<TreeReaderNode>, name: Seq<char>) -> Option<
    Seq<Seq<char>>,
> {
    if spec_escaped(name) {
        None
    } else {
        let toks = spec_split(name, '-');
        let k = toks.len() as int;
        if k > desc.len() {
            None
        } else if !dir_terminal_ok(desc[k - 1], toks[k - 1], k == desc.len()) {
            None
        } else {
            match nodes_dir_caps(desc.take(k - 1), toks.take(k - 1)) {
                Some(caps) => Some(caps + dir_terminal_caps(desc[k - 1], toks[k - 1])),
                None => None,
            }
        }
    }
}

/// Appends the participating sub-groups of a pattern match, in group order.
fn push_matched_groups(captures: &mut Vec<String>, groups: &Vec<Option<String>>)
    ensures
        final(captures).deep_view() == old(captures).deep_view() + matched_groups(
            groups.deep_view(),
        ),
{
    let ghost gs = groups.deep_view();
    let mut i: usize = 0;
    proof {
        assert(gs.skip(0) =~= gs);
    }
    while i < groups.len()
        invariant
            i <= groups.len(),
            gs == groups.deep_view(),
            gs.len() == groups.len(),
            captures.deep_view() + matched_groups(gs.skip(i as int)) == old(
                captures,
            ).deep_view() + matched_groups(gs),
        decreases groups.len() - i,
    {
        let ghost pre = captures.deep_view();
        match &groups[i] {
            Some(g) => {
                captures.push(g.clone());
                proof {
                    assert(captures.deep_view() =~= pre.push(gs[i as int]->Some_0));
                }
            },
            None => {},
        }
        proof {
            let rest = gs.skip(i as int);
            assert(rest.drop_first() =~= gs.skip(i as int + 1));
            assert(rest[0] == gs[i as int]);
            if gs[i as int] is Some {
                assert(captures.deep_view() + matched_groups(gs.skip(i as int + 1)) =~= pre
                    + matched_groups(rest));
            }
        }
        i = i + 1;
    }
    proof {
        assert(gs.skip(groups.len() as int) =~= Seq::<Option<Seq<char>>>::empty());
        assert(captures.deep_view() + matched_groups(gs.skip(groups.len() as int))
            =~= captures.deep_view());
        assert(old(captures).deep_view() + matched_groups(gs) =~= old(
            captures,
        ).deep_view() + matched_groups(groups.deep_view()));
    }
}

/// Matches a file name against the remaining grammar: strict arity, one
/// token per node, no whole-name wildcards.
pub fn match_file_name(desc: &[TreeReaderNode], name: &str) -> (r: Option<Captures>)
    ensures
        (match r {
            Some(c) => spec_match_file(desc@, name@) == Some(c.0.deep_view()),
            None => spec_match_file(desc@, name@) is None,
        }),
{
    if starts_with_escape(name) {
        return None;
    }
    let toks = split_char(name, '-');
    let ghost tv = toks.deep_view();
    if toks.len() != desc.len() {
        return None;
    }
    let n = desc.len();
    let mut captures: Vec<String> = Vec::new();
    let mut i: usize = 0;
    proof {
        assert(desc@.skip(0) =~= desc@);
        assert(tv.skip(0) =~= tv);
    }
    while i < n
        invariant
            i <= n,
            n == desc.len(),
            n == toks.len(),
            tv == toks.deep_view(),
            tv.len() == n,
            !spec_escaped(name@),
            spec_split(name@, '-') == tv,
            (match nodes_file_caps(desc@.skip(i as int), tv.skip(i as int)) {
                Some(rest) => nodes_file_caps(desc@, tv) == Some(captures.deep_view() + rest),
                None => nodes_file_caps(desc@, tv) is None,
            }),
        decreases n - i,
    {
        proof {
            assert(desc@.skip(i as int).drop_first() =~= desc@.skip(i as int + 1));
            assert(tv.skip(i as int).drop_first() =~= tv.skip(i as int + 1));
            assert(desc@.skip(i as int)[0] == desc@[i as int]);
            assert(tv.skip(i as int)[0] == tv[i as int]);
        }
        let ghost pre = captures.deep_view();
        match &desc[i] {
            TreeReaderNode::Literal(x) => {
                if !str_eq(x.as_str(), toks[i].as_str()) {
                    return None;
                }
                proof {
                    assert(captures.deep_view() + seq![] + matched_groups(seq![]) =~= pre);
                    assert(pre + Seq::<Seq<char>>::empty() =~= pre);
                }
            },
            TreeReaderNode::Pattern(p) => {
                match p.captures(toks[i].as_str()) {
                    Some(groups) => {
                        push_matched_groups(&mut captures, &groups);
                    },
                    None => {
                        return None;
                    },
                }
            },
            TreeReaderNode::AnyDir => {
                return None;
            },
            TreeReaderNode::Any => {
                captures.push(toks[i].clone());
                proof {
                    assert(captures.deep_view() =~= pre.push(tv[i as int]));
                    assert(captures.deep_view() =~= pre + seq![tv[i as int]]);
                }
            },
        }
        proof {
            match node_file_caps(desc@[i as int], tv[i as int]) {
                Some(c) => {
                    assert(captures.deep_view() =~= pre + c);
                    match nodes_file_caps(desc@.skip(i as int + 1), tv.skip(i as int + 1)) {
                        Some(rest) => {
                            assert(pre + (c + rest) =~= (pre + c) + rest);
                        },
                        None => {},
                    }
                },
                None => {
                    assert(false);
                },
            }
        }
        i = i + 1;
    }
    proof {
        assert(desc@.skip(n as int) =~= Seq::<TreeReaderNode>::empty());
        assert(tv.skip(n as int) =~= Seq::<Seq<char>>::empty());
        assert(captures.deep_view() + Seq::<Seq<char>>::empty() =~= captures.deep_view());
    }
    Some(Captures(captures))
}

/// Matches a directory name against a prefix of the remaining grammar.
pub fn match_dir_name(desc: &[TreeReaderNode], name: &str) -> (r: Option<Captures>)
    ensures
        (match r {
            Some(c) => spec_match_dir(desc@, name@) == Some(c.0.deep_view()),
            None => spec_match_dir(desc@, name@) is None,
        }),
{
    if starts_with_escape(name) {
        return None;
    }
    let toks = split_char(name, '-');
    let ghost tv = toks.deep_view();
    proof {
        lemma_split_nonempty(name@, '-');
    }
    let k = toks.len();
    if k > desc.len() {
        return None;
    }
    let full = k == desc.len();
    match &desc[k - 1] {
        TreeReaderNode::Literal(x) => {
            let p = make_plural(x.as_str());
            if !str_eq(toks[k - 1].as_str(), p.as_str()) {
                return None;
            }
        },
        TreeReaderNode::Pattern(_) => {
            if full {
                return None;
            }
        },
        TreeReaderNode::Any => {
            if full {
                return None;
            }
        },
        TreeReaderNode::AnyDir => {},
    }
    let mut captures: Vec<String> = Vec::new();
    let mut i: usize = 0;
    let ghost dpre = desc@.take(k - 1);
    let ghost tpre = tv.take(k - 1);
    proof {
        assert(dpre.skip(0) =~= dpre);
        assert(tpre.skip(0) =~= tpre);
    }
    while i < k - 1
        invariant
            i <= k - 1,
            1 <= k <= desc.len(),
            k == toks.len(),
            tv == toks.deep_view(),
            tv.len() == k,
            !spec_escaped(name@),
            spec_split(name@, '-') == tv,
            dir_terminal_ok(desc@[k - 1], tv[k - 1], k == desc.len()),
            dpre == desc@.take(k - 1),
            tpre == tv.take(k - 1),
            (match nodes_dir_caps(dpre.skip(i as int), tpre.skip(i as int)) {
                Some(rest) => nodes_dir_caps(dpre, tpre) == Some(captures.deep_view() + rest),
                None => nodes_dir_caps(dpre, tpre) is None,
            }),
        decreases k - 1 - i,
    {
        proof {
            assert(dpre.skip(i as int).drop_first() =~= dpre.skip(i as int + 1));
            assert(tpre.skip(i as int).drop_first() =~= tpre.skip(i as int + 1));
            assert(dpre.skip(i as int)[0] == desc@[i as int]);
            assert(tpre.skip(i as int)[0] == tv[i as int]);
        }
        let ghost pre = captures.deep_view();
        match &desc[i] {
            TreeReaderNode::Literal(x) => {
                if !str_eq(x.as_str(), toks[i].as_str()) {
                    return None;
                }
                proof {
                    assert(pre + Seq::<Seq<char>>::empty() =~= pre);
                }
            },
            TreeReaderNode::Pattern(p) => {
                match p.captures(toks[i].as_str()) {
                    Some(groups) => {
                        push_matched_groups(&mut captures, &groups);
                    },
                    None => {
                        return None;
                    },
                }
            },
            TreeReaderNode::AnyDir => {
                captures.push(toks[i].clone());
                proof {
                    assert(captures.deep_view() =~= pre + seq![tv[i as int]]);
                }
            },
            TreeReaderNode::Any => {
                captures.push(toks[i].clone());
                proof {
                    assert(captures.deep_view() =~= pre + seq![tv[i as int]]);
                }
            },
        }
        proof {
            match node_dir_caps(desc@[i as int], tv[i as int]) {
                Some(c) => {
                    assert(captures.deep_view() =~= pre + c);
                    match nodes_dir_caps(dpre.skip(i as int + 1), tpre.skip(i as int + 1)) {
                        Some(rest) => {
                            assert(pre + (c + rest) =~= (pre + c) + rest);
                        },
                        None => {},
                    }
                },
                None => {
                    assert(false);
                },
            }
        }
        i = i + 1;
    }
    proof {
        assert(dpre.skip(k - 1) =~= Seq::<TreeReaderNode>::empty());
        assert(tpre.skip(k - 1) =~= Seq::<Seq<char>>::empty());
        assert(captures.deep_view() + Seq::<Seq<char>>::empty() =~= captures.deep_view());
    }
    let ghost before_term = captures.deep_view();
    match &desc[k - 1] {
        TreeReaderNode::Any => {
            captures.push(toks[k - 1].clone());
            proof {
                assert(captures.deep_view() =~= before_term + seq![tv[k - 1]]);
            }
        },
        TreeReaderNode::AnyDir => {
            captures.push(toks[k - 1].clone());
            proof {
                assert(captures.deep_view() =~= before_term + seq![tv[k - 1]]);
            }
        },
        _ => {
            proof {
                assert(captures.deep_view() =~= before_term + dir_terminal_caps(
                    desc@[k - 1],
                    tv[k - 1],
                ));
            }
        },
    }
    Some(Captures(captures))
}


/// Law: a file match succeeds exactly when the name is not escaped, splits
/// into exactly one token per grammar node, and every token satisfies its
/// aligned node; on success the captures are the concatenation, in grammar
/// order, of the captures contributed by each node.
pub proof fn lemma_file_match_characterization(desc: Seq<TreeReaderNode>, name: Seq<char>)
    ensures
        spec_match_file(desc, name) is Some <==> {
            &&& !spec_escaped(name)
            &&& spec_split(name, '-').len() == desc.len()
            &&& forall|i: int|
                0 <= i < desc.len() ==> node_file_caps(desc[i], spec_split(name, '-')[i]) is Some
        },
        spec_match_file(desc, name) is Some ==> spec_match_file(desc, name)->Some_0 == Seq::new(
            desc.len(),
            |i: int| node_file_caps(desc[i], spec_split(name, '-')[i])->Some_0,
        ).flatten(),
{
    if !spec_escaped(name) && spec_split(name, '-').len() == desc.len() {
        lemma_nodes_file_caps(desc, spec_split(name, '-'));
    }
}

proof fn lemma_nodes_file_caps(desc: Seq<TreeReaderNode>, toks: Seq<Seq<char>>)
    requires
        desc.len() == toks.len(),
    ensures
        nodes_file_caps(desc, toks) is Some <==> forall|i: int|
            0 <= i < desc.len() ==> node_file_caps(desc[i], toks[i]) is Some,
        nodes_file_caps(desc, toks) is Some ==> nodes_file_caps(desc, toks)->Some_0 == Seq::new(
            desc.len(),
            |i: int| node_file_caps(desc[i], toks[i])->Some_0,
        ).flatten(),
    decreases desc.len(),
{
    let caps = Seq::new(desc.len(), |i: int| node_file_caps(desc[i], toks[i])->Some_0);
    if desc.len() == 0 {
        assert(caps.flatten() =~= Seq::<Seq<char>>::empty());
    } else {
        lemma_nodes_file_caps(desc.drop_first(), toks.drop_first());
        let dcaps = Seq::new(
            desc.drop_first().len(),
            |i: int| node_file_caps(desc.drop_first()[i], toks.drop_first()[i])->Some_0,
        );
        assert(caps.drop_first() =~= dcaps);
        assert forall|i: int|
            0 <= i < desc.len() && nodes_file_caps(desc, toks) is Some implies node_file_caps(
            desc[i],
            toks[i],
        ) is Some by {
            if i > 0 {
                assert(node_file_caps(desc.drop_first()[i - 1], toks.drop_first()[i - 1])
                    is Some);
            }
        }
        if forall|i: int| 0 <= i < desc.len() ==> node_file_caps(desc[i], toks[i]) is Some {
            assert(node_file_caps(desc[0], toks[0]) is Some);
            assert forall|i: int|
                0 <= i < desc.drop_first().len() implies node_file_caps(
                desc.drop_first()[i],
                toks.drop_first()[i],
            ) is Some by {
                assert(node_file_caps(desc[i + 1], toks[i + 1]) is Some);
            }
            assert(caps.flatten() == caps.first() + caps.drop_first().flatten());
        }
    }
}

/// Law: a segment whose name begins with the escape marker never matches,
/// neither as a file nor as a directory.
pub proof fn lemma_escaped_never_matches(desc: Seq<TreeReaderNode>, name: Seq<char>)
    requires
        spec_escaped(name),
    ensures
        spec_match_file(desc, name) is None,
        spec_match_dir(desc, name) is None,
{
}

/// Law: a directory whose last token is the pluralized form of the literal
/// aligned with it matches however much grammar remains: the match is
/// decided by the earlier tokens alone, and the plural token contributes no
/// capture.
pub proof fn lemma_plural_literal_dir_match(desc: Seq<TreeReaderNode>, name: Seq<char>, x: String)
    requires
        !spec_escaped(name),
        spec_split(name, '-').len() <= desc.len(),
        desc[spec_split(name, '-').len() - 1] == TreeReaderNode::Literal(x),
        spec_split(name, '-').last() == spec_plural(x@),
    ensures
        spec_match_dir(desc, name) == nodes_dir_caps(
            desc.take(spec_split(name, '-').len() - 1),
            spec_split(name, '-').take(spec_split(name, '-').len() - 1),
        ),
{
    lemma_split_nonempty(name, '-');
    let toks = spec_split(name, '-');
    let k = toks.len() as int;
    assert(toks[k - 1] == toks.last());
    assert(dir_terminal_ok(desc[k - 1], toks[k - 1], k == desc.len()));
    match nodes_dir_caps(desc.take(k - 1), toks.take(k - 1)) {
        Some(caps) => {
            assert(caps + dir_terminal_caps(desc[k - 1], toks[k - 1]) =~= caps);
        },
        None => {},
    }
}

/// Law: a directory named as the pluralized form of a literal token matches
/// at the position aligned to that literal, however much grammar remains,
/// and contributes no capture. The literal must itself be a single,
/// unescaped token.
pub proof fn lemma_plural_container_matches(desc: Seq<TreeReaderNode>, x: String)
    requires
        desc.len() >= 1,
        desc[0] == TreeReaderNode::Literal(x),
        !spec_escaped(x@),
        forall|j: int| 0 <= j < x@.len() ==> x@[j] != '-',
    ensures
        spec_match_dir(desc, spec_plural(x@)) == Some(Seq::<Seq<char>>::empty()),
{
    let name = spec_plural(x@);
    assert(forall|j: int| 0 <= j < name.len() ==> name[j] != '-');
    lemma_split_no_sep(name, '-');
    let toks = spec_split(name, '-');
    assert(toks.len() == 1);
    assert(toks[0] == name);
    assert(!spec_escaped(name));
    assert(dir_terminal_ok(desc[0], toks[0], 1 == desc.len()));
    assert(nodes_dir_caps(desc.take(0), toks.take(0)) == Some(Seq::<Seq<char>>::empty()));
    assert(Seq::<Seq<char>>::empty() + dir_terminal_caps(desc[0], toks[0])
        =~= Seq::<Seq<char>>::empty());
}


/// A matched entry: the path to the matched node, as segments below the
/// traversal root, and the captures accumulated along the way.
#[derive(Debug, Clone)]
pub struct TreeReaderEntry {
    pub path: Vec<String>,
    pub captures: Captures,
}

/// The mathematical content of an entry.
#[verifier::ext_equal]
pub struct EntryView {
    pub path: Seq<Seq<char>>,
    pub captures: Seq<Seq<char>>,
}

impl View for TreeReaderEntry {
    type V = EntryView;

    open spec fn view(&self) -> EntryView {
        EntryView { path: self.path.deep_view(), captures: self.captures.0.deep_view() }
    }
}

/// The views of a sequence of entries.
pub open spec fn entries_view(es: Seq<TreeReaderEntry>) -> Seq<EntryView> {
    es.map_values(|e: TreeReaderEntry| e.view())
}

/// Entries with one path segment and one set of captures prepended.
pub open spec fn spec_prepend(seg: Seq<char>, caps: Seq<Seq<char>>, entries: Seq<EntryView>) -> Seq<
    EntryView,
> {
    entries.map_values(
        |e: EntryView| EntryView { path: seq![seg] + e.path, captures: caps + e.captures },
    )
}

/// The entries kept by the capture-count filter of directory-entries mode.
pub open spec fn spec_keep_expected(entries: Seq<EntryView>, n: nat) -> Seq<EntryView>
    decreases entries.len(),
{
    if entries.len() == 0 {
        Seq::empty()
    } else {
        let head: Seq<EntryView> = if entries[0].captures.len() == n {
            seq![entries[0]]
        } else {
            seq![]
        };
        head + spec_keep_expected(entries.drop_first(), n)
    }
}

/// How many captures a grammar node contributes when fully matched: none for
/// a literal, one for either wildcard, one per sub-group for a pattern.
pub open spec fn spec_node_expected(n: TreeReaderNode) -> nat {
    match n {
        TreeReaderNode::Literal(_) => 0,
        TreeReaderNode::Pattern(p) => (crate::pattern::regex_group_count(p.src_view()) - 1) as nat,
        TreeReaderNode::AnyDir => 1,
        TreeReaderNode::Any => 1,
    }
}

/// The capture count a terminal entry of the full grammar is expected to
/// carry: the sum of each node's contribution. A match can carry fewer: a
/// pattern's groups need not all participate, and a pattern consumed as a
/// directory's last token is not matched and contributes nothing.
/// Directory-entries mode keeps exactly the entries that reach this total.
pub open spec fn spec_expected_captures(desc: Seq<TreeReaderNode>) -> nat
    decreases desc.len(),
{
    if desc.len() == 0 {
        0
    } else {
        spec_node_expected(desc[0]) + spec_expected_captures(desc.drop_first())
    }
}

/// The direct file entries of one listing: every file child whose name
/// matches the remaining grammar, in listing order.
pub open spec fn spec_direct_files(children: Seq<FsNode>, desc: Seq<TreeReaderNode>) -> Seq<
    EntryView,
>
    decreases children.len(),
{
    if children.len() == 0 {
        Seq::empty()
    } else {
        let head: Seq<EntryView> = match children[0] {
            FsNode::File { name, .. } => match spec_match_file(desc, name@) {
                Some(caps) => seq![EntryView { path: seq![name@], captures: caps }],
                None => seq![],
            },
            FsNode::Dir { .. } => seq![],
        };
        head + spec_direct_files(children.drop_first(), desc)
    }
}

/// The direct directory entries of one listing: every directory child whose
/// name matches a prefix of the remaining grammar, in listing order.
pub open spec fn spec_direct_dirs(children: Seq<FsNode>, desc: Seq<TreeReaderNode>) -> Seq<
    EntryView,
>
    decreases children.len(),
{
    if children.len() == 0 {
        Seq::empty()
    } else {
        let head: Seq<EntryView> = match children[0] {
            FsNode::Dir { name, .. } => match spec_match_dir(desc, name@) {
                Some(caps) => seq![EntryView { path: seq![name@], captures: caps }],
                None => seq![],
            },
            FsNode::File { .. } => seq![],
        };
        head + spec_direct_dirs(children.drop_first(), desc)
    }
}

/// File-entries mode: all direct file matches of this node's listing, then,
/// for every directory child that matches a grammar prefix, the entries of
/// the subtree against the advanced grammar, with the directory's segment
/// and captures prepended. A file node, or a directory whose listing could
/// not be read, contributes nothing.
pub open spec fn spec_file_entries(node: FsNode, desc: Seq<TreeReaderNode>) -> Seq<EntryView>
    decreases node, 1int,
{
    match node {
        FsNode::Dir { entries: Some(children), .. } => spec_direct_files(children@, desc)
            + spec_descend_files(children@, desc),
        _ => Seq::empty(),
    }
}

/// The recursive part of file-entries mode, over a listing.
pub open spec fn spec_descend_files(children: Seq<FsNode>, desc: Seq<TreeReaderNode>) -> Seq<
    EntryView,
>
    decreases children, 0int,
{
    if children.len() == 0 {
        Seq::empty()
    } else {
        let head: Seq<EntryView> = match children[0] {
            FsNode::Dir { name, .. } => match spec_match_dir(desc, name@) {
                Some(dcaps) => {
                    let k = spec_split(name@, '-').len() as int;
                    spec_prepend(name@, dcaps, spec_file_entries(children[0], desc.skip(k)))
                },
                None => seq![],
            },
            FsNode::File { .. } => seq![],
        };
        head + spec_descend_files(children.drop_first(), desc)
    }
}

/// Directory-entries mode: the direct directory matches whose capture count
/// equals the full expected count, then, for every matching directory child,
/// the subtree's directory entries, filtered by this level's expected count
/// and prepended with the directory's segment and captures.
pub open spec fn spec_dir_entries(node: FsNode, desc: Seq<TreeReaderNode>) -> Seq<EntryView>
    decreases node, 1int,
{
    match node {
        FsNode::Dir { entries: Some(children), .. } => spec_keep_expected(
            spec_direct_dirs(children@, desc),
            spec_expected_captures(desc),
        ) + spec_descend_dirs(children@, desc),
        _ => Seq::empty(),
    }
}

/// The recursive part of directory-entries mode, over a listing. The
/// capture-count filter sees the accumulated captures: the ancestor's are
/// prepended first, and only then are entries held to the expected total.
pub open spec fn spec_descend_dirs(children: Seq<FsNode>, desc: Seq<TreeReaderNode>) -> Seq<
    EntryView,
>
    decreases children, 0int,
{
    if children.len() == 0 {
        Seq::empty()
    } else {
        let head: Seq<EntryView> = match children[0] {
            FsNode::Dir { name, .. } => match spec_match_dir(desc, name@) {
                Some(dcaps) => {
                    let k = spec_split(name@, '-').len() as int;
                    spec_keep_expected(
                        spec_prepend(name@, dcaps, spec_dir_entries(children[0], desc.skip(k))),
                        spec_expected_captures(desc),
                    )
                },
                None => seq![],
            },
            FsNode::File { .. } => seq![],
        };
        head + spec_descend_dirs(children.drop_first(), desc)
    }
}

/// A copy of a vector of strings, equal to the original.
pub(crate) fn clone_strings(v: &Vec<String>) -> (r: Vec<String>)
    ensures
        r@ == v@,
{
    let mut r: Vec<String> = Vec::new();
    let n = v.len();
    let mut i: usize = 0;
    while i < n
        invariant
            i <= n,
            n == v.len(),
            r@ =~= v@.take(i as int),
        decreases n - i,
    {
        r.push(v[i].clone());
        i = i + 1;
    }
    proof {
        assert(r@ =~= v@);
    }
    r
}

/// Each entry with `seg` prepended to its path and `caps` prepended to its
/// captures.
fn prepended_entries(seg: &String, caps: &Captures, entries: Vec<TreeReaderEntry>) -> (r: Vec<
    TreeReaderEntry,
>)
    ensures
        entries_view(r@) == spec_prepend(seg@, caps.0.deep_view(), entries_view(entries@)),
{
    let ghost ev = entries_view(entries@);
    let ghost cv = caps.0.deep_view();
    let mut out: Vec<TreeReaderEntry> = Vec::new();
    let mut rest = entries;
    while rest.len() > 0
        invariant
            cv == caps.0.deep_view(),
            rest@.len() <= ev.len(),
            entries_view(rest@) == ev.skip(ev.len() - rest@.len()),
            entries_view(out@) == spec_prepend(seg@, cv, ev).take(ev.len() - rest@.len()),
        decreases rest.len(),
    {
        let ghost j = ev.len() - rest@.len();
        let ghost rv = rest@;
        let e = rest.remove(0);
        proof {
            assert(e == rv[0]);
            assert(entries_view(rv)[0] == ev.skip(j)[0]);
            assert(e@ == ev[j]);
            assert(rest@ =~= rv.drop_first());
            assert forall|m: int| 0 <= m < rest@.len() implies entries_view(rest@)[m] == ev.skip(
                j + 1,
            )[m] by {
                assert(entries_view(rv)[m + 1] == ev.skip(j)[m + 1]);
            }
            assert(entries_view(rest@) =~= ev.skip(j + 1));
        }
        let TreeReaderEntry { path: epath, captures: ecaps } = e;
        let mut epath = epath;
        let Captures(ecapvec) = ecaps;
        let mut ecapvec = ecapvec;
        let mut path: Vec<String> = Vec::new();
        path.push(seg.clone());
        path.append(&mut epath);
        let mut capvec = clone_strings(&caps.0);
        capvec.append(&mut ecapvec);
        let ghost opre = entries_view(out@);
        let ne = TreeReaderEntry { path, captures: Captures(capvec) };
        proof {
            assert(ne@.path =~= seq![seg@] + ev[j].path);
            assert(ne@.captures =~= cv + ev[j].captures);
            assert(ne@ =~= spec_prepend(seg@, cv, ev)[j]);
        }
        proof {
            assert(ne@ == spec_prepend(seg@, cv, ev)[j]);
            assert(opre.len() == j);
        }
        out.push(ne);
        proof {
            assert(entries_view(out@) =~= opre.push(spec_prepend(seg@, cv, ev)[j]));
            assert(opre.push(spec_prepend(seg@, cv, ev)[j]) =~= spec_prepend(
                seg@,
                cv,
                ev,
            ).take(j + 1));
        }
    }
    proof {
        assert(entries_view(out@) =~= spec_prepend(seg@, cv, ev));
        assert(entries_view(rest@) =~= ev.skip(ev.len() as int));
    }
    out
}

/// The entries whose capture count equals the expected total of `desc`.
fn keep_expected_entries(entries: Vec<TreeReaderEntry>, desc: &[TreeReaderNode]) -> (r: Vec<
    TreeReaderEntry,
>)
    ensures
        entries_view(r@) == spec_keep_expected(entries_view(entries@), spec_expected_captures(
            desc@,
        )),
{
    let ghost ev = entries_view(entries@);
    let ghost n = spec_expected_captures(desc@);
    let mut out: Vec<TreeReaderEntry> = Vec::new();
    let mut rest = entries;
    proof {
        assert(ev.skip(0) =~= ev);
    }
    while rest.len() > 0
        invariant
            n == spec_expected_captures(desc@),
            rest@.len() <= ev.len(),
            entries_view(rest@) == ev.skip(ev.len() - rest@.len()),
            entries_view(out@) + spec_keep_expected(ev.skip(ev.len() - rest@.len()), n)
                =~= spec_keep_expected(ev, n),
        decreases rest.len(),
    {
        let ghost j = ev.len() - rest@.len();
        let ghost pre = entries_view(out@);
        let ghost rv = rest@;
        let e = rest.remove(0);
        proof {
            assert(e == rv[0]);
            assert(entries_view(rv)[0] == ev.skip(j)[0]);
            assert(e@ == ev[j]);
            assert(rest@ =~= rv.drop_first());
            assert forall|m: int| 0 <= m < rest@.len() implies entries_view(rest@)[m] == ev.skip(
                j + 1,
            )[m] by {
                assert(entries_view(rv)[m + 1] == ev.skip(j)[m + 1]);
            }
            assert(entries_view(rest@) =~= ev.skip(j + 1));
            assert(ev.skip(j).drop_first() =~= ev.skip(j + 1));
            assert(ev.skip(j)[0] == ev[j]);
        }
        if captures_count_matches(desc, e.captures.0.len()) {
            proof {
                assert(e@.captures.len() == e.captures.0.len());
            }
            out.push(e);
            proof {
                assert(entries_view(out@) =~= pre + seq![ev[j]]);
                assert((pre + seq![ev[j]]) + spec_keep_expected(ev.skip(j + 1), n) =~= pre + (
                seq![ev[j]] + spec_keep_expected(ev.skip(j + 1), n)));
            }
        } else {
            proof {
                assert(e@.captures.len() == e.captures.0.len());
                assert(pre + spec_keep_expected(ev.skip(j + 1), n) =~= pre + (Seq::<
                    EntryView,
                >::empty() + spec_keep_expected(ev.skip(j + 1), n)));
            }
        }
    }
    proof {
        assert(ev.skip(ev.len() as int) =~= Seq::<EntryView>::empty());
        assert(entries_view(out@) + Seq::<EntryView>::empty() =~= entries_view(out@));
    }
    out
}

/// Whether `count` equals the expected capture total of the grammar, summed
/// without ever materializing the (unbounded) total.
pub fn captures_count_matches(desc: &[TreeReaderNode], count: usize) -> (r: bool)
    ensures
        r == (count == spec_expected_captures(desc@)),
{
    let n = desc.len();
    let mut rem = count;
    let mut i: usize = 0;
    proof {
        assert(desc@.skip(0) =~= desc@);
    }
    while i < n
        invariant
            i <= n,
            n == desc@.len(),
            rem <= count,
            spec_expected_captures(desc@) == spec_expected_captures(desc@.skip(i as int)) + (
            count - rem),
        decreases n - i,
    {
        proof {
            assert(desc@.skip(i as int).drop_first() =~= desc@.skip(i as int + 1));
            assert(desc@.skip(i as int)[0] == desc@[i as int]);
        }
        let c: usize = match &desc[i] {
            TreeReaderNode::Literal(_) => 0,
            TreeReaderNode::Pattern(p) => p.captures_len() - 1,
            TreeReaderNode::AnyDir => 1,
            TreeReaderNode::Any => 1,
        };
        if c > rem {
            proof {
                assert(spec_expected_captures(desc@.skip(i as int)) >= spec_node_expected(
                    desc@[i as int],
                ));
            }
            return false;
        }
        rem = rem - c;
        i = i + 1;
    }
    proof {
        assert(desc@.skip(n as int) =~= Seq::<TreeReaderNode>::empty());
    }
    rem == 0
}


/// A traversal of one snapshot directory against one grammar.
#[derive(Clone, Copy)]
pub struct TreeReader<'a> {
    dir: &'a FsNode,
    desc: &'a [TreeReaderNode],
}

impl<'a> TreeReader<'a> {
    /// The snapshot directory the traversal starts at.
    pub closed spec fn spec_dir(self) -> FsNode {
        *self.dir
    }

    /// The grammar the traversal matches against.
    pub closed spec fn spec_desc(self) -> Seq<TreeReaderNode> {
        self.desc@
    }

    /// A traversal of `dir` against the non-empty grammar `desc`.
    pub fn new(dir: &'a FsNode, desc: &'a [TreeReaderNode]) -> (r: Self)
        requires
            desc@.len() > 0,
        ensures
            r.spec_dir() == *dir,
            r.spec_desc() == desc@,
    {
        TreeReader { dir, desc }
    }

    /// The direct children of the traversal root that match the grammar as
    /// file names, in listing order.
    pub fn get_file_entries(&self) -> (r: Vec<TreeReaderEntry>)
        ensures
            entries_view(r@) == spec_direct_files(
                self.spec_dir().spec_children(),
                self.spec_desc(),
            ),
    {
        let mut out: Vec<TreeReaderEntry> = Vec::new();
        let dir: &'a FsNode = self.dir;
        match dir {
            FsNode::Dir { entries: Some(children), .. } => {
                let n = children.len();
                let mut i: usize = 0;
                proof {
                    assert(children@.skip(0) =~= children@);
                    assert(entries_view(out@) =~= Seq::<EntryView>::empty());
                    assert(Seq::<EntryView>::empty() + spec_direct_files(
                        children@,
                        self.spec_desc(),
                    ) =~= spec_direct_files(children@, self.spec_desc()));
                }
                while i < n
                    invariant
                        i <= n,
                        n == children.len(),
                        children@ == self.spec_dir().spec_children(),
                        self.spec_desc() == self.desc@,
                        entries_view(out@) + spec_direct_files(
                            children@.skip(i as int),
                            self.spec_desc(),
                        ) =~= spec_direct_files(children@, self.spec_desc()),
                    decreases n - i,
                {
                    proof {
                        assert(children@.skip(i as int)[0] == children@[i as int]);
                        assert(children@.skip(i as int).drop_first() =~= children@.skip(
                            i as int + 1,
                        ));
                    }
                    let ghost pre = entries_view(out@);
                    let ghost d = self.spec_desc();
                    match &children[i] {
                        FsNode::File { name, .. } => {
                            match match_file_name(self.desc, name.as_str()) {
                                Some(caps) => {
                                    let mut path: Vec<String> = Vec::new();
                                    path.push(name.clone());
                                    let ne = TreeReaderEntry { path, captures: caps };
                                    proof {
                                        assert(ne@.path =~= seq![name@]);
                                        assert(ne@ =~= (EntryView {
                                            path: seq![name@],
                                            captures: spec_match_file(
                                                d,
                                                children@[i as int].spec_name(),
                                            )->Some_0,
                                        }));
                                    }
                                    out.push(ne);
                                    proof {
                                        assert(entries_view(out@) =~= pre.push(ne@));
                                        assert(pre.push(ne@) =~= pre + seq![ne@]);
                                        assert((pre + seq![ne@]) + spec_direct_files(
                                            children@.skip(i as int + 1),
                                            d,
                                        ) =~= pre + (seq![ne@] + spec_direct_files(
                                            children@.skip(i as int + 1),
                                            d,
                                        )));
                                    }
                                },
                                None => {
                                    proof {
                                        assert(Seq::<EntryView>::empty() + spec_direct_files(
                                            children@.skip(i as int + 1),
                                            d,
                                        ) =~= spec_direct_files(children@.skip(i as int + 1), d));
                                    }
                                },
                            }
                        },
                        FsNode::Dir { .. } => {
                            proof {
                                assert(Seq::<EntryView>::empty() + spec_direct_files(
                                    children@.skip(i as int + 1),
                                    d,
                                ) =~= spec_direct_files(children@.skip(i as int + 1), d));
                            }
                        },
                    }
                    i = i + 1;
                }
                proof {
                    assert(children@.skip(n as int) =~= Seq::<FsNode>::empty());
                    assert(entries_view(out@) + Seq::<EntryView>::empty() =~= entries_view(out@));
                }
                out
            },
            _ => {
                proof {
                    assert(self.spec_dir().spec_children() =~= Seq::<FsNode>::empty());
                    assert(entries_view(out@) =~= Seq::<EntryView>::empty());
                }
                out
            },
        }
    }

    /// The direct children of the traversal root that match a prefix of the
    /// grammar as directory names, in listing order.
    pub fn get_dir_entries(&self) -> (r: Vec<TreeReaderEntry>)
        ensures
            entries_view(r@) == spec_direct_dirs(
                self.spec_dir().spec_children(),
                self.spec_desc(),
            ),
    {
        let mut out: Vec<TreeReaderEntry> = Vec::new();
        let dir: &'a FsNode = self.dir;
        match dir {
            FsNode::Dir { entries: Some(children), .. } => {
                let n = children.len();
                let mut i: usize = 0;
                proof {
                    assert(children@.skip(0) =~= children@);
                    assert(entries_view(out@) =~= Seq::<EntryView>::empty());
                    assert(Seq::<EntryView>::empty() + spec_direct_dirs(
                        children@,
                        self.spec_desc(),
                    ) =~= spec_direct_dirs(children@, self.spec_desc()));
                }
                while i < n
                    invariant
                        i <= n,
                        n == children.len(),
                        children@ == self.spec_dir().spec_children(),
                        self.spec_desc() == self.desc@,
                        entries_view(out@) + spec_direct_dirs(
                            children@.skip(i as int),
                            self.spec_desc(),
                        ) =~= spec_direct_dirs(children@, self.spec_desc()),
                    decreases n - i,
                {
                    proof {
                        assert(children@.skip(i as int)[0] == children@[i as int]);
                        assert(children@.skip(i as int).drop_first() =~= children@.skip(
                            i as int + 1,
                        ));
                    }
                    let ghost pre = entries_view(out@);
                    let ghost d = self.spec_desc();
                    match &children[i] {
                        FsNode::Dir { name, .. } => {
                            match match_dir_name(self.desc, name.as_str()) {
                                Some(caps) => {
                                    let mut path: Vec<String> = Vec::new();
                                    path.push(name.clone());
                                    let ne = TreeReaderEntry { path, captures: caps };
                                    proof {
                                        assert(ne@.path =~= seq![name@]);
                                        assert(ne@ =~= (EntryView {
                                            path: seq![name@],
                                            captures: spec_match_dir(
                                                d,
                                                children@[i as int].spec_name(),
                                            )->Some_0,
                                        }));
                                    }
                                    out.push(ne);
                                    proof {
                                        assert(entries_view(out@) =~= pre.push(ne@));
                                        assert(pre.push(ne@) =~= pre + seq![ne@]);
                                        assert((pre + seq![ne@]) + spec_direct_dirs(
                                            children@.skip(i as int + 1),
                                            d,
                                        ) =~= pre + (seq![ne@] + spec_direct_dirs(
                                            children@.skip(i as int + 1),
                                            d,
                                        )));
                                    }
                                },
                                None => {
                                    proof {
                                        assert(Seq::<EntryView>::empty() + spec_direct_dirs(
                                            children@.skip(i as int + 1),
                                            d,
                                        ) =~= spec_direct_dirs(children@.skip(i as int + 1), d));
                                    }
                                },
                            }
                        },
                        FsNode::File { .. } => {
                            proof {
                                assert(Seq::<EntryView>::empty() + spec_direct_dirs(
                                    children@.skip(i as int + 1),
                                    d,
                                ) =~= spec_direct_dirs(children@.skip(i as int + 1), d));
                            }
                        },
                    }
                    i = i + 1;
                }
                proof {
                    assert(children@.skip(n as int) =~= Seq::<FsNode>::empty());
                    assert(entries_view(out@) + Seq::<EntryView>::empty() =~= entries_view(out@));
                }
                out
            },
            _ => {
                proof {
                    assert(self.spec_dir().spec_children() =~= Seq::<FsNode>::empty());
                    assert(entries_view(out@) =~= Seq::<EntryView>::empty());
                }
                out
            },
        }
    }

    /// File-entries mode: every file anywhere beneath the root whose logical
    /// token sequence fully matches the grammar, with ancestor captures
    /// prepended to each entry's own.
    pub fn get_file_entries_recursive(&self) -> (r: Vec<TreeReaderEntry>)
        ensures
            entries_view(r@) == spec_file_entries(self.spec_dir(), self.spec_desc()),
        decreases self.spec_dir(),
    {
        let mut entries = self.get_file_entries();
        let dir: &'a FsNode = self.dir;
        match dir {
            FsNode::Dir { entries: Some(children), .. } => {
                let n = children.len();
                let mut i: usize = 0;
                proof {
                    assert(children@.skip(0) =~= children@);
                }
                while i < n
                    invariant
                        i <= n,
                        n == children.len(),
                        self.spec_dir() matches FsNode::Dir { entries: Some(cs), .. } && cs@
                            == children@,
                        children@ == self.spec_dir().spec_children(),
                        self.spec_desc() == self.desc@,
                        entries_view(entries@) + spec_descend_files(
                            children@.skip(i as int),
                            self.spec_desc(),
                        ) =~= spec_file_entries(self.spec_dir(), self.spec_desc()),
                    decreases n - i,
                {
                    proof {
                        assert(children@.skip(i as int)[0] == children@[i as int]);
                        assert(children@.skip(i as int).drop_first() =~= children@.skip(
                            i as int + 1,
                        ));
                    }
                    let ghost pre = entries_view(entries@);
                    let ghost d = self.spec_desc();
                    let child: &'a FsNode = &children[i];
                    match child {
                        FsNode::Dir { name, .. } => {
                            match match_dir_name(self.desc, name.as_str()) {
                                Some(dcaps) => {
                                    let toks = split_char(name.as_str(), '-');
                                    let k = toks.len();
                                    proof {
                                        assert(spec_match_dir(d, name@) is Some);
                                        assert(toks.deep_view() == spec_split(name@, '-'));
                                        assert(k <= self.desc@.len());
                                    }
                                    let sub_desc: &'a [TreeReaderNode] = &self.desc[k..self.desc.len()];
                                    let reader = TreeReader { dir: child, desc: sub_desc };
                                    proof {
                                        let node = self.spec_dir();
                                        assert(decreases_to!(node => node->Dir_entries));
                                        assert(decreases_to!(node->Dir_entries => node->Dir_entries->Some_0));
                                        assert(decreases_to!(node->Dir_entries->Some_0 => node->Dir_entries->Some_0@));
                                        assert(node->Dir_entries->Some_0@ == children@);
                                        assert(decreases_to!(children@ => children@[i as int]));
                                        assert(decreases_to!(node => children@[i as int]));
                                    }
                                    let sub = reader.get_file_entries_recursive();
                                    let mut add = prepended_entries(name, &dcaps, sub);
                                    proof {
                                        assert(sub_desc@ =~= d.skip(k as int));
                                        assert(entries_view(add@) == spec_prepend(
                                            name@,
                                            dcaps.0.deep_view(),
                                            spec_file_entries(children@[i as int], d.skip(k as int)),
                                        ));
                                    }
                                    let ghost addv = entries_view(add@);
                                    entries.append(&mut add);
                                    proof {
                                        assert(entries_view(entries@) =~= pre + addv);
                                        assert((pre + addv) + spec_descend_files(
                                            children@.skip(i as int + 1),
                                            d,
                                        ) =~= pre + (addv + spec_descend_files(
                                            children@.skip(i as int + 1),
                                            d,
                                        )));
                                    }
                                },
                                None => {
                                    proof {
                                        assert(Seq::<EntryView>::empty() + spec_descend_files(
                                            children@.skip(i as int + 1),
                                            d,
                                        ) =~= spec_descend_files(children@.skip(i as int + 1), d));
                                    }
                                },
                            }
                        },
                        FsNode::File { .. } => {
                            proof {
                                assert(Seq::<EntryView>::empty() + spec_descend_files(
                                    children@.skip(i as int + 1),
                                    d,
                                ) =~= spec_descend_files(children@.skip(i as int + 1), d));
                            }
                        },
                    }
                    i = i + 1;
                }
                proof {
                    assert(children@.skip(n as int) =~= Seq::<FsNode>::empty());
                    assert(entries_view(entries@) + Seq::<EntryView>::empty() =~= entries_view(
                        entries@,
                    ));
                }
                entries
            },
            _ => {
                proof {
                    assert(entries_view(entries@) =~= Seq::<EntryView>::empty());
                }
                entries
            },
        }
    }

    /// Directory-entries mode: directories themselves as terminal entries,
    /// keeping only those whose capture count equals the grammar's expected
    /// total.
    pub fn get_dir_entries_recursive(&self) -> (r: Vec<TreeReaderEntry>)
        ensures
            entries_view(r@) == spec_dir_entries(self.spec_dir(), self.spec_desc()),
        decreases self.spec_dir(),
    {
        let all = self.get_dir_entries();
        let mut entries = keep_expected_entries(all, self.desc);
        let dir: &'a FsNode = self.dir;
        match dir {
            FsNode::Dir { entries: Some(children), .. } => {
                let n = children.len();
                let mut i: usize = 0;
                proof {
                    assert(children@.skip(0) =~= children@);
                }
                while i < n
                    invariant
                        i <= n,
                        n == children.len(),
                        self.spec_dir() matches FsNode::Dir { entries: Some(cs), .. } && cs@
                            == children@,
                        children@ == self.spec_dir().spec_children(),
                        self.spec_desc() == self.desc@,
                        entries_view(entries@) + spec_descend_dirs(
                            children@.skip(i as int),
                            self.spec_desc(),
                        ) =~= spec_dir_entries(self.spec_dir(), self.spec_desc()),
                    decreases n - i,
                {
                    proof {
                        assert(children@.skip(i as int)[0] == children@[i as int]);
                        assert(children@.skip(i as int).drop_first() =~= children@.skip(
                            i as int + 1,
                        ));
                    }
                    let ghost pre = entries_view(entries@);
                    let ghost d = self.spec_desc();
                    let child: &'a FsNode = &children[i];
                    match child {
                        FsNode::Dir { name, .. } => {
                            match match_dir_name(self.desc, name.as_str()) {
                                Some(dcaps) => {
                                    let toks = split_char(name.as_str(), '-');
                                    let k = toks.len();
                                    proof {
                                        assert(spec_match_dir(d, name@) is Some);
                                        assert(toks.deep_view() == spec_split(name@, '-'));
                                        assert(k <= self.desc@.len());
                                    }
                                    let sub_desc: &'a [TreeReaderNode] = &self.desc[k..self.desc.len()];
                                    let reader = TreeReader { dir: child, desc: sub_desc };
                                    proof {
                                        let node = self.spec_dir();
                                        assert(decreases_to!(node => node->Dir_entries));
                                        assert(decreases_to!(node->Dir_entries => node->Dir_entries->Some_0));
                                        assert(decreases_to!(node->Dir_entries->Some_0 => node->Dir_entries->Some_0@));
                                        assert(node->Dir_entries->Some_0@ == children@);
                                        assert(decreases_to!(children@ => children@[i as int]));
                                        assert(decreases_to!(node => children@[i as int]));
                                    }
                                    let sub = reader.get_dir_entries_recursive();
                                    let with_ancestor = prepended_entries(name, &dcaps, sub);
                                    let mut add = keep_expected_entries(with_ancestor, self.desc);
                                    proof {
                                        assert(sub_desc@ =~= d.skip(k as int));
                                        assert(entries_view(add@) == spec_keep_expected(
                                            spec_prepend(
                                                name@,
                                                dcaps.0.deep_view(),
                                                spec_dir_entries(
                                                    children@[i as int],
                                                    d.skip(k as int),
                                                ),
                                            ),
                                            spec_expected_captures(d),
                                        ));
                                    }
                                    let ghost addv = entries_view(add@);
                                    entries.append(&mut add);
                                    proof {
                                        assert(entries_view(entries@) =~= pre + addv);
                                        assert((pre + addv) + spec_descend_dirs(
                                            children@.skip(i as int + 1),
                                            d,
                                        ) =~= pre + (addv + spec_descend_dirs(
                                            children@.skip(i as int + 1),
                                            d,
                                        )));
                                    }
                                },
                                None => {
                                    proof {
                                        assert(Seq::<EntryView>::empty() + spec_descend_dirs(
                                            children@.skip(i as int + 1),
                                            d,
                                        ) =~= spec_descend_dirs(children@.skip(i as int + 1), d));
                                    }
                                },
                            }
                        },
                        FsNode::File { .. } => {
                            proof {
                                assert(Seq::<EntryView>::empty() + spec_descend_dirs(
                                    children@.skip(i as int + 1),
                                    d,
                                ) =~= spec_descend_dirs(children@.skip(i as int + 1), d));
                            }
                        },
                    }
                    i = i + 1;
                }
                proof {
                    assert(children@.skip(n as int) =~= Seq::<FsNode>::empty());
                    assert(entries_view(entries@) + Seq::<EntryView>::empty() =~= entries_view(
                        entries@,
                    ));
                }
                entries
            },
            _ => {
                proof {
                    assert(entries_view(entries@) =~= Seq::<EntryView>::empty());
                }
                entries
            },
        }
    }
}


/// Law: re-running file-entries mode against an unmodified tree yields the
/// same entries: the mode is a function of the tree and the grammar alone,
/// so two runs agree pairwise and hence as unordered collections.
pub proof fn lemma_file_traversal_deterministic(
    r1: Seq<TreeReaderEntry>,
    r2: Seq<TreeReaderEntry>,
    node: FsNode,
    desc: Seq<TreeReaderNode>,
)
    requires
        entries_view(r1) == spec_file_entries(node, desc),
        entries_view(r2) == spec_file_entries(node, desc),
    ensures
        entries_view(r1) == entries_view(r2),
        entries_view(r1).to_multiset() == entries_view(r2).to_multiset(),
{
}

/// Law: re-running directory-entries mode against an unmodified tree yields
/// the same entries.
pub proof fn lemma_dir_traversal_deterministic(
    r1: Seq<TreeReaderEntry>,
    r2: Seq<TreeReaderEntry>,
    node: FsNode,
    desc: Seq<TreeReaderNode>,
)
    requires
        entries_view(r1) == spec_dir_entries(node, desc),
        entries_view(r2) == spec_dir_entries(node, desc),
    ensures
        entries_view(r1) == entries_view(r2),
        entries_view(r1).to_multiset() == entries_view(r2).to_multiset(),
{
}

/// Whether no segment of the entry's path begins with the escape marker.
pub open spec fn entry_unescaped(e: EntryView) -> bool {
    forall|s: int| 0 <= s < e.path.len() ==> !spec_escaped(#[trigger] e.path[s])
}

/// Whether every entry's path is free of escaped segments.
pub open spec fn all_unescaped(es: Seq<EntryView>) -> bool {
    forall|i: int| 0 <= i < es.len() ==> entry_unescaped(#[trigger] es[i])
}

proof fn lemma_all_unescaped_concat(a: Seq<EntryView>, b: Seq<EntryView>)
    requires
        all_unescaped(a),
        all_unescaped(b),
    ensures
        all_unescaped(a + b),
{
    assert forall|i: int| 0 <= i < (a + b).len() implies entry_unescaped(#[trigger] (a + b)[i]) by {
        if i < a.len() {
            assert(entry_unescaped(a[i]));
        } else {
            assert(entry_unescaped(b[i - a.len()]));
        }
    }
}

proof fn lemma_prepend_unescaped(seg: Seq<char>, caps: Seq<Seq<char>>, es: Seq<EntryView>)
    requires
        !spec_escaped(seg),
        all_unescaped(es),
    ensures
        all_unescaped(spec_prepend(seg, caps, es)),
{
    let m = spec_prepend(seg, caps, es);
    assert forall|i: int| 0 <= i < m.len() implies entry_unescaped(#[trigger] m[i]) by {
        assert(entry_unescaped(es[i]));
        assert forall|s: int| 0 <= s < m[i].path.len() implies !spec_escaped(
            #[trigger] m[i].path[s],
        ) by {
            if s > 0 {
                assert(m[i].path[s] == es[i].path[s - 1]);
            }
        }
    }
}

proof fn lemma_keep_expected_unescaped(es: Seq<EntryView>, n: nat)
    requires
        all_unescaped(es),
    ensures
        all_unescaped(spec_keep_expected(es, n)),
    decreases es.len(),
{
    if es.len() > 0 {
        assert(entry_unescaped(es[0]));
        assert(all_unescaped(es.drop_first()));
        lemma_keep_expected_unescaped(es.drop_first(), n);
        if es[0].captures.len() == n {
            lemma_all_unescaped_concat(seq![es[0]], spec_keep_expected(es.drop_first(), n));
        } else {
            lemma_all_unescaped_concat(seq![], spec_keep_expected(es.drop_first(), n));
        }
    }
}

proof fn lemma_direct_files_unescaped(children: Seq<FsNode>, desc: Seq<TreeReaderNode>)
    ensures
        all_unescaped(spec_direct_files(children, desc)),
    decreases children.len(),
{
    if children.len() > 0 {
        lemma_direct_files_unescaped(children.drop_first(), desc);
        let head: Seq<EntryView> = match children[0] {
            FsNode::File { name, .. } => match spec_match_file(desc, name@) {
                Some(caps) => seq![EntryView { path: seq![name@], captures: caps }],
                None => seq![],
            },
            FsNode::Dir { .. } => seq![],
        };
        assert(all_unescaped(head));
        lemma_all_unescaped_concat(head, spec_direct_files(children.drop_first(), desc));
    }
}

proof fn lemma_direct_dirs_unescaped(children: Seq<FsNode>, desc: Seq<TreeReaderNode>)
    ensures
        all_unescaped(spec_direct_dirs(children, desc)),
    decreases children.len(),
{
    if children.len() > 0 {
        lemma_direct_dirs_unescaped(children.drop_first(), desc);
        let head: Seq<EntryView> = match children[0] {
            FsNode::Dir { name, .. } => match spec_match_dir(desc, name@) {
                Some(caps) => seq![EntryView { path: seq![name@], captures: caps }],
                None => seq![],
            },
            FsNode::File { .. } => seq![],
        };
        assert(all_unescaped(head));
        lemma_all_unescaped_concat(head, spec_direct_dirs(children.drop_first(), desc));
    }
}

proof fn lemma_file_entries_unescaped(node: FsNode, desc: Seq<TreeReaderNode>)
    ensures
        all_unescaped(spec_file_entries(node, desc)),
    decreases node, 1int,
{
    match node {
        FsNode::Dir { entries: Some(children), .. } => {
            lemma_direct_files_unescaped(children@, desc);
            lemma_descend_files_unescaped(children@, desc);
            lemma_all_unescaped_concat(
                spec_direct_files(children@, desc),
                spec_descend_files(children@, desc),
            );
        },
        _ => {},
    }
}

proof fn lemma_descend_files_unescaped(children: Seq<FsNode>, desc: Seq<TreeReaderNode>)
    ensures
        all_unescaped(spec_descend_files(children, desc)),
    decreases children, 0int,
{
    if children.len() > 0 {
        lemma_descend_files_unescaped(children.drop_first(), desc);
        let head: Seq<EntryView> = match children[0] {
            FsNode::Dir { name, .. } => match spec_match_dir(desc, name@) {
                Some(dcaps) => {
                    let k = spec_split(name@, '-').len() as int;
                    spec_prepend(name@, dcaps, spec_file_entries(children[0], desc.skip(k)))
                },
                None => seq![],
            },
            FsNode::File { .. } => seq![],
        };
        match children[0] {
            FsNode::Dir { name, .. } => {
                if spec_match_dir(desc, name@) is Some {
                    let k = spec_split(name@, '-').len() as int;
                    lemma_file_entries_unescaped(children[0], desc.skip(k));
                    lemma_prepend_unescaped(
                        name@,
                        spec_match_dir(desc, name@)->Some_0,
                        spec_file_entries(children[0], desc.skip(k)),
                    );
                }
            },
            FsNode::File { .. } => {},
        }
        assert(all_unescaped(head));
        lemma_all_unescaped_concat(head, spec_descend_files(children.drop_first(), desc));
    }
}

proof fn lemma_dir_entries_unescaped(node: FsNode, desc: Seq<TreeReaderNode>)
    ensures
        all_unescaped(spec_dir_entries(node, desc)),
    decreases node, 1int,
{
    match node {
        FsNode::Dir { entries: Some(children), .. } => {
            lemma_direct_dirs_unescaped(children@, desc);
            lemma_keep_expected_unescaped(
                spec_direct_dirs(children@, desc),
                spec_expected_captures(desc),
            );
            lemma_descend_dirs_unescaped(children@, desc);
            lemma_all_unescaped_concat(
                spec_keep_expected(spec_direct_dirs(children@, desc), spec_expected_captures(desc)),
                spec_descend_dirs(children@, desc),
            );
        },
        _ => {},
    }
}

proof fn lemma_descend_dirs_unescaped(children: Seq<FsNode>, desc: Seq<TreeReaderNode>)
    ensures
        all_unescaped(spec_descend_dirs(children, desc)),
    decreases children, 0int,
{
    if children.len() > 0 {
        lemma_descend_dirs_unescaped(children.drop_first(), desc);
        let head: Seq<EntryView> = match children[0] {
            FsNode::Dir { name, .. } => match spec_match_dir(desc, name@) {
                Some(dcaps) => {
                    let k = spec_split(name@, '-').len() as int;
                    spec_keep_expected(
                        spec_prepend(name@, dcaps, spec_dir_entries(children[0], desc.skip(k))),
                        spec_expected_captures(desc),
                    )
                },
                None => seq![],
            },
            FsNode::File { .. } => seq![],
        };
        match children[0] {
            FsNode::Dir { name, .. } => {
                if spec_match_dir(desc, name@) is Some {
                    let k = spec_split(name@, '-').len() as int;
                    lemma_dir_entries_unescaped(children[0], desc.skip(k));
                    lemma_prepend_unescaped(
                        name@,
                        spec_match_dir(desc, name@)->Some_0,
                        spec_dir_entries(children[0], desc.skip(k)),
                    );
                    lemma_keep_expected_unescaped(
                        spec_prepend(
                            name@,
                            spec_match_dir(desc, name@)->Some_0,
                            spec_dir_entries(children[0], desc.skip(k)),
                        ),
                        spec_expected_captures(desc),
                    );
                }
            },
            FsNode::File { .. } => {},
        }
        assert(all_unescaped(head));
        lemma_all_unescaped_concat(head, spec_descend_dirs(children.drop_first(), desc));
    }
}

/// Law: best effort on access failure. A directory whose listing could not
/// be read contributes no entries: in both traversal modes, the entries of
/// a listing holding such a directory are exactly the entries of the same
/// listing with that directory removed, so sibling subtrees are unaffected.
/// (In directory-entries mode the unreadable directory's own name can still
/// be reported as a direct entry, exactly as a readable one's would be:
/// listing it needs only its parent.)
pub proof fn lemma_unreadable_dir_contributes_nothing(
    children: Seq<FsNode>,
    desc: Seq<TreeReaderNode>,
    m: int,
)
    requires
        0 <= m < children.len(),
        children[m] matches FsNode::Dir { entries: None, .. },
    ensures
        spec_direct_files(children, desc) == spec_direct_files(children.remove(m), desc),
        spec_descend_files(children, desc) == spec_descend_files(children.remove(m), desc),
        spec_descend_dirs(children, desc) == spec_descend_dirs(children.remove(m), desc),
    decreases children.len(),
{
    if m == 0 {
        assert(children.remove(0) =~= children.drop_first());
        match children[0] {
            FsNode::Dir { name, .. } => {
                assert(spec_file_entries(children[0], desc.skip(spec_split(name@, '-').len() as int))
                    =~= Seq::<EntryView>::empty());
                assert(spec_dir_entries(children[0], desc.skip(spec_split(name@, '-').len() as int))
                    =~= Seq::<EntryView>::empty());
                match spec_match_dir(desc, name@) {
                    Some(dcaps) => {
                        let k = spec_split(name@, '-').len() as int;
                        assert(spec_prepend(name@, dcaps, Seq::<EntryView>::empty()) =~= Seq::<
                            EntryView,
                        >::empty());
                    },
                    None => {},
                }
            },
            FsNode::File { .. } => {},
        }
        assert(Seq::<EntryView>::empty() + spec_direct_files(children.drop_first(), desc)
            =~= spec_direct_files(children.drop_first(), desc));
        assert(Seq::<EntryView>::empty() + spec_descend_files(children.drop_first(), desc)
            =~= spec_descend_files(children.drop_first(), desc));
        assert(Seq::<EntryView>::empty() + spec_descend_dirs(children.drop_first(), desc)
            =~= spec_descend_dirs(children.drop_first(), desc));
    } else {
        assert(children.drop_first()[m - 1] == children[m]);
        lemma_unreadable_dir_contributes_nothing(children.drop_first(), desc, m - 1);
        assert(children.remove(m)[0] == children[0]);
        assert(children.remove(m).drop_first() =~= children.drop_first().remove(m - 1));
    }
}

/// Law: a path segment beginning with the escape marker is excluded from
/// matching at every depth, in both traversal modes: no produced entry has
/// an escaped segment anywhere in its path.
pub proof fn lemma_escaped_excluded_everywhere(node: FsNode, desc: Seq<TreeReaderNode>)
    ensures
        all_unescaped(spec_file_entries(node, desc)),
        all_unescaped(spec_dir_entries(node, desc)),
{
    lemma_file_entries_unescaped(node, desc);
    lemma_dir_entries_unescaped(node, desc);
}

} // verus!




