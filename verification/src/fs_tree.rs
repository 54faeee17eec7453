//! An in-memory snapshot of a directory tree. The matcher and the
//! description readers work on this value; whoever builds it decides what
//! part of a real filesystem it reflects. A directory whose listing failed,
//! or a file whose contents could not be read, is kept in the snapshot with
//! that fact recorded, so traversal can degrade to an empty result for that
//! subtree instead of failing.

use vstd::prelude::*;

verus! {

/// One node of a tree snapshot.
pub enum FsNode {
    /// A file. `contents` is `None` when the file could not be read.
    File { name: String, contents: Option<String> },
    /// A directory. `entries` is `None` when its listing could not be read.
    Dir { name: String, entries: Option<Vec<FsNode>> },
}

impl FsNode {
    /// The node's own name, as a sequence of characters.
    pub open spec fn spec_name(self) -> Seq<char> {
        match self {
            FsNode::File { name, .. } => name@,
            FsNode::Dir { name, .. } => name@,
        }
    }

    /// The node's direct children; empty for a file or an unreadable
    /// directory.
    pub open spec fn spec_children(self) -> Seq<FsNode> {
        match self {
            FsNode::Dir { entries: Some(children), .. } => children@,
            _ => Seq::empty(),
        }
    }

    /// Whether the node is a directory with a readable listing.
    pub open spec fn spec_readable_dir(self) -> bool {
        self matches FsNode::Dir { entries: Some(_), .. }
    }

    /// The node's own name.
    pub fn name(&self) -> (r: &String)
        ensures
            r@ == self.spec_name(),
    {
        match self {
            FsNode::File { name, .. } => name,
            FsNode::Dir { name, .. } => name,
        }
    }

    /// Whether the node is a directory.
    pub fn is_dir(&self) -> (r: bool)
        ensures
            r == (self matches FsNode::Dir { .. }),
    {
        match self {
            FsNode::Dir { .. } => true,
            FsNode::File { .. } => false,
        }
    }
}

/// The first child of `nodes` with the given name, if any.
pub open spec fn spec_find_child(nodes: Seq<FsNode>, name: Seq<char>) -> Option<FsNode>
    decreases nodes.len(),
{
    if nodes.len() == 0 {
        None
    } else if nodes[0].spec_name() == name {
        Some(nodes[0])
    } else {
        spec_find_child(nodes.drop_first(), name)
    }
}

/// The node reached from `node` by following the path segments
/// `path[from..]`, stepping into readable directories by child name.
pub open spec fn spec_tree_get(node: FsNode, path: Seq<Seq<char>>, from: int) -> Option<FsNode>
    decreases path.len() - from,
{
    if from >= path.len() || from < 0 {
        Some(node)
    } else {
        match spec_find_child(node.spec_children(), path[from]) {
            Some(child) => spec_tree_get(child, path, from + 1),
            None => None,
        }
    }
}

/// The first child of `nodes` named `name`, if any.
pub fn find_child<'a>(nodes: &'a Vec<FsNode>, name: &str) -> (r: Option<&'a FsNode>)
    ensures
        (match r {
            Some(c) => spec_find_child(nodes@, name@) == Some(*c),
            None => spec_find_child(nodes@, name@) is None,
        }),
{
    let n = nodes.len();
    let mut i: usize = 0;
    proof {
        assert(nodes@.skip(0) =~= nodes@);
    }
    while i < n
        invariant
            i <= n,
            n == nodes.len(),
            spec_find_child(nodes@, name@) == spec_find_child(nodes@.skip(i as int), name@),
        decreases n - i,
    {
        proof {
            assert(nodes@.skip(i as int)[0] == nodes@[i as int]);
            assert(nodes@.skip(i as int).drop_first() =~= nodes@.skip(i as int + 1));
        }
        if crate::strings::str_eq(nodes[i].name().as_str(), name) {
            return Some(&nodes[i]);
        }
        i = i + 1;
    }
    proof {
        assert(nodes@.skip(n as int) =~= Seq::<FsNode>::empty());
    }
    None
}

/// Follows the path segments `path[from..]` down from `node`.
pub fn tree_get<'a>(node: &'a FsNode, path: &Vec<String>, from: usize) -> (r: Option<&'a FsNode>)
    requires
        from <= path.len(),
    ensures
        (match r {
            Some(c) => spec_tree_get(*node, path.deep_view(), from as int) == Some(*c),
            None => spec_tree_get(*node, path.deep_view(), from as int) is None,
        }),
    decreases path.len() - from,
{
    if from == path.len() {
        return Some(node);
    }
    match node {
        FsNode::Dir { entries: Some(children), .. } => {
            proof {
                assert(path.deep_view()[from as int] == path@[from as int]@);
            }
            match find_child(children, path[from].as_str()) {
                Some(child) => tree_get(child, path, from + 1),
                None => None,
            }
        },
        _ => {
            proof {
                assert(node.spec_children() =~= Seq::<FsNode>::empty());
            }
            None
        },
    }
}

/// Whether the path names a node in the snapshot.
pub fn tree_exists(node: &FsNode, path: &Vec<String>) -> (r: bool)
    ensures
        r == (spec_tree_get(*node, path.deep_view(), 0) is Some),
{
    match tree_get(node, path, 0) {
        Some(_) => true,
        None => false,
    }
}

/// The contents of the file at `path`, when the path names a readable file.
pub fn tree_read_file<'a>(node: &'a FsNode, path: &Vec<String>) -> (r: Result<
    &'a String,
    crate::error::Error,
>)
    ensures
        (match r {
            Ok(s) => spec_tree_get(*node, path.deep_view(), 0) matches Some(f) && f matches
                FsNode::File { contents: Some(c), .. } && c@ == s@,
            Err(_) => !(spec_tree_get(*node, path.deep_view(), 0) matches Some(f) && f matches
                FsNode::File { contents: Some(_), .. }),
        }),
{
    match tree_get(node, path, 0) {
        Some(found) => match found {
            FsNode::File { contents: Some(c), .. } => Ok(c),
            FsNode::File { contents: None, .. } => Err(
                crate::error::Error::Unreadable { path: path.clone() },
            ),
            FsNode::Dir { .. } => Err(crate::error::Error::NotAFile { path: path.clone() }),
        },
        None => Err(crate::error::Error::Missing { path: path.clone() }),
    }
}

} // verus!
