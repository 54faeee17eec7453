//! Listing one directory of a tree snapshot, filtered by entry kind.

use vstd::prelude::*;

use crate::error::Error;
use crate::fs_tree::FsNode;

verus! {

/// Which entries a listing keeps.
#[derive(Debug, Clone, Copy)]
pub enum ReadDirOptions {
    Files,
    Directories,
    Both,
}

impl ReadDirOptions {
    /// Whether the listing keeps this node.
    pub open spec fn spec_admits(self, node: FsNode) -> bool {
        match self {
            ReadDirOptions::Files => node matches FsNode::File { .. },
            ReadDirOptions::Directories => node matches FsNode::Dir { .. },
            ReadDirOptions::Both => true,
        }
    }

    fn admits(&self, node: &FsNode) -> (r: bool)
        ensures
            r == self.spec_admits(*node),
    {
        match self {
            ReadDirOptions::Files => !node.is_dir(),
            ReadDirOptions::Directories => node.is_dir(),
            ReadDirOptions::Both => true,
        }
    }
}

/// The kind of one listed entry.
#[derive(Debug, Clone, Copy, PartialEq, Eq, Structural)]
pub enum ReadDirEntryType {
    File,
    Directory,
}

impl ReadDirEntryType {
    /// Whether the entry is a file.
    pub fn is_file(&self) -> (r: bool)
        ensures
            r == (self is File),
    {
        *self == ReadDirEntryType::File
    }

    /// Whether the entry is a directory.
    pub fn is_dir(&self) -> (r: bool)
        ensures
            r == (self is Directory),
    {
        *self == ReadDirEntryType::Directory
    }
}

/// The kind a node is listed as.
pub open spec fn spec_entry_type(node: FsNode) -> ReadDirEntryType {
    match node {
        FsNode::File { .. } => ReadDirEntryType::File,
        FsNode::Dir { .. } => ReadDirEntryType::Directory,
    }
}

/// One listed entry: the child's name, its path below the listed directory,
/// and its kind.
#[derive(Debug, Clone)]
pub struct ReadDirEntry {
    pub file_name: String,
    pub path: Vec<String>,
    pub entry_type: ReadDirEntryType,
}

/// The mathematical content of one listed entry.
#[verifier::ext_equal]
pub struct ReadDirEntryView {
    pub file_name: Seq<char>,
    pub path: Seq<Seq<char>>,
    pub entry_type: ReadDirEntryType,
}

impl View for ReadDirEntry {
    type V = ReadDirEntryView;

    open spec fn view(&self) -> ReadDirEntryView {
        ReadDirEntryView {
            file_name: self.file_name@,
            path: self.path.deep_view(),
            entry_type: self.entry_type,
        }
    }
}

/// The views of a sequence of listed entries.
pub open spec fn listing_view(es: Seq<ReadDirEntry>) -> Seq<ReadDirEntryView> {
    es.map_values(|e: ReadDirEntry| e.view())
}

/// The admitted children, in listing order.
pub open spec fn spec_listing(children: Seq<FsNode>, options: ReadDirOptions) -> Seq<
    ReadDirEntryView,
>
    decreases children.len(),
{
    if children.len() == 0 {
        Seq::empty()
    } else {
        let head: Seq<ReadDirEntryView> = if options.spec_admits(children[0]) {
            seq![
                ReadDirEntryView {
                    file_name: children[0].spec_name(),
                    path: seq![children[0].spec_name()],
                    entry_type: spec_entry_type(children[0]),
                },
            ]
        } else {
            seq![]
        };
        head + spec_listing(children.drop_first(), options)
    }
}

/// Lists the direct children of `dir`, keeping those the options admit. A
/// file, or a directory whose listing could not be read, yields an error.
pub fn read_dir(dir: &FsNode, options: ReadDirOptions) -> (r: Result<Vec<ReadDirEntry>, Error>)
    ensures
        (match r {
            Ok(list) => dir.spec_readable_dir() && listing_view(list@) == spec_listing(
                dir.spec_children(),
                options,
            ),
            Err(_) => !dir.spec_readable_dir(),
        }),
{
    let children: &Vec<FsNode> = match dir {
        FsNode::Dir { entries: Some(children), .. } => children,
        FsNode::Dir { entries: None, .. } => {
            let mut path: Vec<String> = Vec::new();
            path.push(dir.name().clone());
            return Err(Error::Unreadable { path });
        },
        FsNode::File { .. } => {
            let mut path: Vec<String> = Vec::new();
            path.push(dir.name().clone());
            return Err(Error::NotADirectory { path });
        },
    };
    let mut out: Vec<ReadDirEntry> = Vec::new();
    let n = children.len();
    let mut i: usize = 0;
    proof {
        assert(children@.skip(0) =~= children@);
        assert(listing_view(out@) =~= Seq::<ReadDirEntryView>::empty());
        assert(Seq::<ReadDirEntryView>::empty() + spec_listing(children@, options) =~= spec_listing(
            children@,
            options,
        ));
    }
    while i < n
        invariant
            i <= n,
            n == children.len(),
            children@ == dir.spec_children(),
            listing_view(out@) + spec_listing(children@.skip(i as int), options) =~= spec_listing(
                children@,
                options,
            ),
        decreases n - i,
    {
        proof {
            assert(children@.skip(i as int)[0] == children@[i as int]);
            assert(children@.skip(i as int).drop_first() =~= children@.skip(i as int + 1));
        }
        let ghost pre = listing_view(out@);
        let child = &children[i];
        if options.admits(child) {
            let name = child.name().clone();
            let mut path: Vec<String> = Vec::new();
            path.push(child.name().clone());
            let ne = ReadDirEntry {
                file_name: name,
                path,
                entry_type: if child.is_dir() {
                    ReadDirEntryType::Directory
                } else {
                    ReadDirEntryType::File
                },
            };
            proof {
                assert(ne@.path =~= seq![children@[i as int].spec_name()]);
                assert(ne@ =~= (ReadDirEntryView {
                    file_name: children@[i as int].spec_name(),
                    path: seq![children@[i as int].spec_name()],
                    entry_type: spec_entry_type(children@[i as int]),
                }));
            }
            out.push(ne);
            proof {
                assert(listing_view(out@) =~= pre.push(ne@));
                assert(pre.push(ne@) =~= pre + seq![ne@]);
                assert((pre + seq![ne@]) + spec_listing(children@.skip(i as int + 1), options)
                    =~= pre + (seq![ne@] + spec_listing(children@.skip(i as int + 1), options)));
            }
        } else {
            proof {
                assert(Seq::<ReadDirEntryView>::empty() + spec_listing(
                    children@.skip(i as int + 1),
                    options,
                ) =~= spec_listing(children@.skip(i as int + 1), options));
            }
        }
        i = i + 1;
    }
    proof {
        assert(children@.skip(n as int) =~= Seq::<FsNode>::empty());
        assert(listing_view(out@) + Seq::<ReadDirEntryView>::empty() =~= listing_view(out@));
    }
    Ok(out)
}

} // verus!
