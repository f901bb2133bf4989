//! A directory tree held in memory: what a scan of the snapshot store found.

use crate::text::{
    file_name, file_name_of, is_name, lemma_name_stands_alone, parent_dir, parent_of, text_eq,
    trim_path, trimmed_path,
};
use vstd::prelude::*;

verus! {

/// One entry of a scanned directory, with what lies below it.
#[derive(Debug)]
pub enum FsNode {
    /// A regular file and its length in bytes.
    File { name: String, len: u64 },
    /// A directory and its entries, in the order the scan met them.
    Dir { name: String, children: Vec<FsNode> },
    /// A symbolic link and the text it points to; never followed by a scan.
    Link { name: String, target: String },
    /// Anything else: sockets, devices, entries that could not be classified.
    Other { name: String },
}

/// The entry of the directory at `dir` that a link in it with the target
/// `target` leads to, by name: the last component of the target, where
/// the target is written from the directory itself, with nothing or `.`
/// before that component, or is the absolute path of an entry of `dir`.
/// Separators and `.` components at the end of the target count for
/// nothing. Any other target leads out of the directory, where the scan
/// of the directory does not reach, and so to no entry.
pub open spec fn led_to(dir: Seq<char>, target: Seq<char>) -> Option<Seq<char>> {
    match (file_name_of(target), parent_of(target)) {
        (Some(name), Some(above)) => if above.len() == 0 || above == seq!['.'] || (above[0] == '/'
            && above == trimmed_path(dir)) {
            Some(name)
        } else {
            None
        },
        _ => None,
    }
}

/// Names the entry of the directory at `dir` that a link with the target
/// `target` leads to.
pub fn link_entry(dir: &str, target: &str) -> (r: Option<String>)
    ensures
        match r {
            Some(name) => led_to(dir@, target@) == Some(name@),
            None => led_to(dir@, target@) is None,
        },
{
    let name = match file_name(target) {
        Some(name) => name,
        None => {
            return None;
        },
    };
    let above = match parent_dir(target) {
        Some(above) => above,
        None => {
            return None;
        },
    };
    proof {
        reveal_strlit(".");
        assert("."@ =~= seq!['.']);
    }
    if above.as_str().unicode_len() == 0 || text_eq(above.as_str(), ".") {
        return Some(name);
    }
    if above.as_str().get_char(0) == '/' && text_eq(above.as_str(), trim_path(dir).as_str()) {
        Some(name)
    } else {
        None
    }
}

/// A link whose target is a bare name leads to the entry of that name.
pub proof fn lemma_name_leads_to_itself(dir: Seq<char>, name: Seq<char>)
    requires
        is_name(name),
    ensures
        led_to(dir, name) == Some(name),
{
    lemma_name_stands_alone(name);
}

impl FsNode {
    /// The entry's own name, without any directory part.
    pub open spec fn label(self) -> Seq<char> {
        match self {
            FsNode::File { name, .. } => name@,
            FsNode::Dir { name, .. } => name@,
            FsNode::Link { name, .. } => name@,
            FsNode::Other { name } => name@,
        }
    }

    /// The entries of a directory; empty for everything else.
    pub open spec fn entries(self) -> Seq<FsNode> {
        match self {
            FsNode::Dir { children, .. } => children@,
            _ => Seq::empty(),
        }
    }

    /// Total length of the regular files at or below this entry. Links and
    /// special entries count for nothing and are not followed.
    pub open spec fn bytes(self) -> nat
        decreases self, 0nat,
    {
        match self {
            FsNode::File { len, .. } => len as nat,
            FsNode::Dir { children, .. } => Self::bytes_of(children@, children@.len()),
            _ => 0,
        }
    }

    /// Total length of the regular files at or below the first `upto` entries.
    pub open spec fn bytes_of(nodes: Seq<FsNode>, upto: nat) -> nat
        decreases nodes, upto,
    {
        if upto == 0 || upto > nodes.len() {
            0
        } else {
            Self::bytes_of(nodes, (upto - 1) as nat) + nodes[upto - 1].bytes()
        }
    }

    /// The position of the first of `nodes`, from `from` on, that goes by
    /// `name`.
    pub open spec fn first_named(nodes: Seq<FsNode>, name: Seq<char>, from: nat) -> Option<int>
        decreases nodes.len() - from,
    {
        if from >= nodes.len() {
            None
        } else if nodes[from as int].label() == name {
            Some(from as int)
        } else {
            Self::first_named(nodes, name, from + 1)
        }
    }

    /// The first entry of this directory that goes by `name`.
    pub open spec fn lookup(self, name: Seq<char>) -> Option<FsNode> {
        match Self::first_named(self.entries(), name, 0) {
            Some(i) => Some(self.entries()[i]),
            None => None,
        }
    }

    /// What `name` leads to inside this directory, which stands at the
    /// path `dir`: the entry of that name or, where that is a link, the
    /// entry that the link leads to. Returned with the name it finally
    /// goes by. A link is followed once, and only to an entry of the same
    /// directory that is no link itself.
    pub open spec fn resolve(self, dir: Seq<char>, name: Seq<char>) -> Option<(Seq<char>, FsNode)> {
        match self.lookup(name) {
            None => None,
            Some(FsNode::Link { target, .. }) => match led_to(dir, target@) {
                None => None,
                Some(entry) => match self.lookup(entry) {
                    Some(node) => if node is Link {
                        None
                    } else {
                        Some((entry, node))
                    },
                    None => None,
                },
            },
            Some(node) => Some((name, node)),
        }
    }

    /// Finds the first entry of this directory that goes by `name`.
    pub fn find(&self, name: &str) -> (r: Option<&FsNode>)
        ensures
            r == match self.lookup(name@) {
                Some(node) => Some(&node),
                None => None,
            },
    {
        match self {
            FsNode::Dir { children, .. } => {
                let mut i: usize = 0;
                while i < children.len()
                    invariant
                        i <= children.len(),
                        self.entries() == children@,
                        Self::first_named(children@, name@, 0) == Self::first_named(
                            children@,
                            name@,
                            i as nat,
                        ),
                    decreases children.len() - i,
                {
                    if text_eq(children[i].name(), name) {
                        return Some(&children[i]);
                    }
                    i = i + 1;
                }
                None
            },
            _ => None,
        }
    }

    /// Follows `name` inside this directory as `resolve` describes.
    pub fn follow(&self, dir: &str, name: &str) -> (r: Option<(String, &FsNode)>)
        ensures
            match r {
                Some((last, node)) => self.resolve(dir@, name@) == Some((last@, *node)),
                None => self.resolve(dir@, name@) is None,
            },
    {
        match self.find(name) {
            None => None,
            Some(FsNode::Link { target, .. }) => match link_entry(dir, target.as_str()) {
                None => None,
                Some(entry) => match self.find(entry.as_str()) {
                    Some(FsNode::Link { .. }) => None,
                    Some(node) => Some((entry, node)),
                    None => None,
                },
            },
            Some(node) => Some((String::from_str(name), node)),
        }
    }

    /// The entry's own name.
    pub fn name(&self) -> (r: &str)
        ensures
            r@ == self.label(),
    {
        match self {
            FsNode::File { name, .. } => name.as_str(),
            FsNode::Dir { name, .. } => name.as_str(),
            FsNode::Link { name, .. } => name.as_str(),
            FsNode::Other { name } => name.as_str(),
        }
    }

    /// The total of `bytes`, or `None` when it does not fit in 64 bits.
    pub fn size(&self) -> (r: Option<u64>)
        ensures
            r == (if self.bytes() <= u64::MAX { Some(self.bytes() as u64) } else { None }),
        decreases self,
    {
        match self {
            FsNode::File { len, .. } => Some(*len),
            FsNode::Dir { children, .. } => {
                let mut total: u64 = 0;
                let mut i: usize = 0;
                while i < children.len()
                    invariant
                        i <= children.len(),
                        total == Self::bytes_of(children@, i as nat),
                        self is Dir,
                        self->children == *children,
                    decreases children.len() - i,
                {
                    proof {
                        vstd::std_specs::vec::axiom_vec_index_decreases(*children, i as int);
                        assert(decreases_to!(*children => children[i as int]));
                        assert(decreases_to!(*self => *children));
                    }
                    let part = children[i].size();
                    match part {
                        None => {
                            proof {
                                Self::lemma_bytes_of_monotone(children@, (i + 1) as nat, children@.len());
                            }
                            return None;
                        },
                        Some(p) => {
                            if p > u64::MAX - total {
                                proof {
                                    Self::lemma_bytes_of_monotone(children@, (i + 1) as nat, children@.len());
                                }
                                return None;
                            }
                            total = total + p;
                        },
                    }
                    i = i + 1;
                }
                Some(total)
            },
            _ => Some(0),
        }
    }

    /// Adding further entries never lowers the total.
    pub proof fn lemma_bytes_of_monotone(nodes: Seq<FsNode>, a: nat, b: nat)
        requires
            a <= b <= nodes.len(),
        ensures
            Self::bytes_of(nodes, a) <= Self::bytes_of(nodes, b),
        decreases b,
    {
        if a < b {
            Self::lemma_bytes_of_monotone(nodes, a, (b - 1) as nat);
        }
    }
}

} // verus!
