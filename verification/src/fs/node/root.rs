//! The root node.

use vstd::prelude::*;

use crate::config::Config;
use crate::fs::attr::{make_dir_attr, spec_dir_attr, FileAttr};
use crate::fs::dentry::DirEntry;
use crate::ROOT_INO;

verus! {

/// The root of the tree.
pub struct Root {
    /// The attributes of the node, computed at construction.
    pub attr: FileAttr,
    /// The directory entries of the node, one per configured account,
    /// computed at first listing and cached for the node's lifetime.
    pub entries: Option<Vec<DirEntry>>,
}

impl Root {
    /// Creates a new root node, stamped with `now_ms`.
    pub fn new(config: &Config, now_ms: u64) -> (r: Root)
        ensures
            r.attr == spec_dir_attr(ROOT_INO, *config, now_ms),
            r.entries is None,
    {
        Root { attr: make_dir_attr(ROOT_INO, config, now_ms), entries: None }
    }

    /// The attributes of the node.
    pub fn attr(&self) -> (a: FileAttr)
        ensures
            a == self.attr,
    {
        self.attr
    }
}

/// What a freshly built root listing looks like: one directory entry per
/// configured account, in configuration order, each backed by a newly
/// allocated account node committed to the arena.
pub open spec fn accounts_materialized(
    old_ns: crate::fs::node::NodeSet,
    new_ns: crate::fs::node::NodeSet,
    accounts: Seq<(String, crate::config::Account)>,
    es: Seq<DirEntry>,
) -> bool {
    &&& es.len() == accounts.len()
    &&& forall|i: int|
        0 <= i < es.len() ==> {
            &&& (#[trigger] es[i]).name@ == accounts[i].0@
            &&& es[i].file_type == crate::fs::dentry::FileType::Directory
            &&& old_ns.spec_get(es[i].inode) is None
            &&& new_ns.spec_get(es[i].inode) matches Some(crate::fs::node::Node::Account(a))
                && a.ino == es[i].inode && a.id.spec_account() == accounts[i].0@ && a.attr is None
                && a.entries is None
        }
}

/// Creates the directory entries of the root node, allocating one account
/// node per configured account and committing each to the arena.
pub fn make_entries(
    nodes: &mut crate::fs::node::NodeSet,
    accounts: &Vec<(String, crate::config::Account)>,
) -> (r: Vec<DirEntry>)
    ensures
        accounts_materialized(*old(nodes), *final(nodes), accounts@, r@),
        forall|j: crate::Inode|
            old(nodes).spec_get(j) is Some ==> final(nodes).spec_get(j) == old(nodes).spec_get(j),
{
    let mut es: Vec<DirEntry> = Vec::new();
    let mut i: usize = 0;
    while i < accounts.len()
        invariant
            i <= accounts@.len(),
            es@.len() == i,
            forall|k: int|
                0 <= k < i ==> {
                    &&& (#[trigger] es@[k]).name@ == accounts@[k].0@
                    &&& es@[k].file_type == crate::fs::dentry::FileType::Directory
                    &&& old(nodes).spec_get(es@[k].inode) is None
                    &&& nodes.spec_get(es@[k].inode) matches Some(
                        crate::fs::node::Node::Account(a),
                    ) && a.ino == es@[k].inode && a.id.spec_account() == accounts@[k].0@
                        && a.attr is None && a.entries is None
                },
            forall|j: crate::Inode|
                old(nodes).spec_get(j) is Some ==> nodes.spec_get(j) == old(nodes).spec_get(j),
        decreases accounts@.len() - i,
    {
        let name = &accounts[i].0;
        let ghost pre = *nodes;
        let vid = nodes.vacant_ino();
        let h = nodes.allocate(
            crate::fs::node::Node::new_account(
                vid,
                crate::onepassword::id::Account::new(name.as_str()),
            ),
        );
        proof {
            pre.lemma_lowest_free_unique(vid, h.spec_ino());
        }
        let ino = h.persist();
        es.push(DirEntry { inode: ino, name: name.clone(), file_type: crate::fs::dentry::FileType::Directory });
        i += 1;
    }
    es
}

} // verus!
