//! An account node: the first level of the tree.

use vstd::prelude::*;

use crate::fs::attr::FileAttr;
use crate::fs::dentry::DirEntry;
use crate::onepassword::id;
use crate::Inode;

verus! {

/// An account node.
pub struct Account {
    /// The inode number of the node.
    pub ino: Inode,
    /// The ID of the account.
    pub id: id::Account,
    /// The attributes of the node, computed lazily once.
    pub attr: Option<FileAttr>,
    /// The directory entries of the node, one per configured vault,
    /// computed at first listing and cached for the node's lifetime.
    pub entries: Option<Vec<DirEntry>>,
}

impl Account {
    /// Creates a new account node.
    pub fn new(ino: Inode, id: id::Account) -> (r: Account)
        ensures
            r.ino == ino,
            r.id == id,
            r.attr is None,
            r.entries is None,
    {
        Account { ino, id, attr: None, entries: None }
    }
}

/// What a freshly built account listing looks like: one directory entry per
/// configured vault under the account, in configuration order, each backed
/// by a newly allocated vault node committed to the arena.
pub open spec fn vaults_materialized(
    old_ns: crate::fs::node::NodeSet,
    new_ns: crate::fs::node::NodeSet,
    account_id: id::Account,
    vaults: Seq<(String, crate::config::Vault)>,
    es: Seq<DirEntry>,
) -> bool {
    &&& es.len() == vaults.len()
    &&& forall|i: int|
        0 <= i < es.len() ==> {
            &&& (#[trigger] es[i]).name@ == vaults[i].0@
            &&& es[i].file_type == crate::fs::dentry::FileType::Directory
            &&& old_ns.spec_get(es[i].inode) is None
            &&& new_ns.spec_get(es[i].inode) matches Some(crate::fs::node::Node::Vault(v))
                && v.ino == es[i].inode && v.id.spec_account() == account_id.spec_account()
                && v.id.spec_vault() == vaults[i].0@ && v.attr is None
                && v.entries.spec_value()@ =~= Seq::<
                (String, crate::fs::node::vault::SecretHandler),
            >::empty() && v.entries.spec_last_update() is None
        }
}

/// Creates the directory entries of an account node, allocating one vault
/// node per configured vault and committing each to the arena.
pub fn make_entries(
    nodes: &mut crate::fs::node::NodeSet,
    account_id: &id::Account,
    vaults: &Vec<(String, crate::config::Vault)>,
) -> (r: Vec<DirEntry>)
    ensures
        vaults_materialized(*old(nodes), *final(nodes), *account_id, vaults@, r@),
        forall|j: Inode|
            old(nodes).spec_get(j) is Some ==> final(nodes).spec_get(j) == old(nodes).spec_get(j),
{
    let mut es: Vec<DirEntry> = Vec::new();
    let mut i: usize = 0;
    while i < vaults.len()
        invariant
            i <= vaults@.len(),
            es@.len() == i,
            forall|k: int|
                0 <= k < i ==> {
                    &&& (#[trigger] es@[k]).name@ == vaults@[k].0@
                    &&& es@[k].file_type == crate::fs::dentry::FileType::Directory
                    &&& old(nodes).spec_get(es@[k].inode) is None
                    &&& nodes.spec_get(es@[k].inode) matches Some(crate::fs::node::Node::Vault(v))
                        && v.ino == es@[k].inode && v.id.spec_account()
                        == account_id.spec_account() && v.id.spec_vault() == vaults@[k].0@
                        && v.attr is None && v.entries.spec_value()@ =~= Seq::<
                        (String, crate::fs::node::vault::SecretHandler),
                    >::empty() && v.entries.spec_last_update() is None
                },
            forall|j: Inode|
                old(nodes).spec_get(j) is Some ==> nodes.spec_get(j) == old(nodes).spec_get(j),
        decreases vaults@.len() - i,
    {
        let name = &vaults[i].0;
        let ghost pre = *nodes;
        let vid = nodes.vacant_ino();
        let h = nodes.allocate(
            crate::fs::node::Node::new_vault(vid, id::Vault::new(account_id, name.as_str())),
        );
        proof {
            pre.lemma_lowest_free_unique(vid, h.spec_ino());
        }
        let ino = h.persist();
        es.push(DirEntry { inode: ino, name: name.clone(), file_type: crate::fs::dentry::FileType::Directory });
        i += 1;
    }
    es
}

} // verus!
