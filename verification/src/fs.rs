//! The filesystem state: the inode arena, the directory-handle arena and
//! the configuration, plus the refresh entry points the caller drives.

pub mod attr;
pub mod dentry;
pub mod node;
pub mod slab;
pub mod syscalls;

use vstd::prelude::*;

use crate::config::Config;
use crate::onepassword::id;
use crate::onepassword::types;
use crate::fs::attr::spec_dir_attr;
use crate::fs::node::{Node, NodeSet};
use crate::fs::slab::Item;
use crate::{FileHandle, Inode, ROOT_INO};

verus! {

/// What listing a directory does to the arena and returns: the exact
/// outcome of `dir_entries`, per node kind, relating the arena before
/// (`pre_ns`) and after (`post_ns`).
pub open spec fn listing_post(
    pre_ns: NodeSet,
    post_ns: NodeSet,
    config: Config,
    ino: Inode,
    r: Result<Seq<dentry::DirEntry>, crate::Errno>,
) -> bool {
    &&& (forall|j: Inode|
        j != ino && pre_ns.spec_get(j) is Some ==> post_ns.spec_get(j) == pre_ns.spec_get(j))
    &&& match pre_ns.spec_get(ino) {
            None => r == Err::<Seq<dentry::DirEntry>, crate::Errno>(crate::Errno::NoEnt)
                && post_ns == pre_ns,
            Some(n) => match n {
                Node::Dummy => r == Err::<Seq<dentry::DirEntry>, crate::Errno>(
                    crate::Errno::NoEnt,
                ) && post_ns == pre_ns,
                Node::Field(_) | Node::Link(_) => r == Err::<
                    Seq<dentry::DirEntry>,
                    crate::Errno,
                >(crate::Errno::NotDir) && post_ns == pre_ns,
                Node::Vault(v) => (r matches Ok(es) && es == dentry::dedup_names(
                    node::vault::raw_vault_entries(v.entries.spec_value()@),
                )) && post_ns == pre_ns,
                Node::Secret(s) => (r matches Ok(es) && es == node::secret::raw_field_entries(
                    s.entries.spec_value()@,
                )) && post_ns == pre_ns,
                Node::Root(x) => match x.entries {
                    Some(es0) => (r matches Ok(es) && es == es0@) && post_ns == pre_ns,
                    None => {
                        &&& r matches Ok(es)
                        &&& node::root::accounts_materialized(
                            pre_ns,
                            post_ns,
                            config.accounts@,
                            es,
                        )
                        &&& match post_ns.spec_get(ino) {
                            Some(Node::Root(x2)) => {
                                &&& x2.attr == x.attr
                                &&& match x2.entries {
                                    Some(es2) => es2@ == es,
                                    None => false,
                                }
                            },
                            _ => false,
                        }
                    },
                },
                Node::Account(a) => match a.entries {
                    Some(es0) => (r matches Ok(es) && es == es0@) && post_ns == pre_ns,
                    None => {
                        &&& r matches Ok(es)
                        &&& node::account::vaults_materialized(
                            pre_ns,
                            post_ns,
                            a.id,
                            (match crate::util::keymap::spec_get(
                                config.accounts@,
                                a.id.spec_account(),
                            ) {
                                Some(ca) => ca.vaults@,
                                None => Seq::empty(),
                            }),
                            es,
                        )
                        &&& match post_ns.spec_get(ino) {
                            Some(Node::Account(a2)) => {
                                &&& a2.ino == a.ino
                                &&& a2.id == a.id
                                &&& a2.attr == a.attr
                                &&& match a2.entries {
                                    Some(es2) => es2@ == es,
                                    None => false,
                                }
                            },
                            _ => false,
                        }
                    },
                },
            },
        }
}

/// The filesystem.
pub struct Fs {
    /// The configuration the tree was built from.
    pub config: Config,
    /// The arena owning every node.
    pub nodes: NodeSet,
    /// The arena holding snapshotted listings for open directory handles.
    pub slab: Vec<Option<Item>>,
}

impl Fs {
    /// The directory-handle slots.
    pub open spec fn spec_slab(self) -> Seq<Option<Item>> {
        self.slab@
    }

    /// The item stored under handle `fh`, if any.
    pub open spec fn spec_slab_get(self, fh: FileHandle) -> Option<Item> {
        if (fh as int) < self.spec_slab().len() {
            self.spec_slab()[fh as int]
        } else {
            None
        }
    }

    /// Whether `fh` is the lowest free directory-handle slot.
    pub open spec fn slab_is_lowest_free(self, fh: FileHandle) -> bool {
        self.spec_slab_get(fh) is None && (forall|j: FileHandle|
            j < fh ==> self.spec_slab_get(j) is Some)
    }

    /// Creates a new filesystem over `config`.
    ///
    /// Slot 0 holds the dummy node; the root node sits at its well-known
    /// inode, with its attributes stamped with `now_ms`.
    pub fn new(config: Config, now_ms: u64) -> (fs: Fs)
        ensures
            fs.config == config,
            fs.spec_slab().len() == 0,
            fs.nodes.spec_get(0) matches Some(d) && d is Dummy,
            fs.nodes.spec_get(ROOT_INO) matches Some(n) && n matches Node::Root(r) && r.attr
                == spec_dir_attr(ROOT_INO, config, now_ms) && r.entries is None,
            forall|i: Inode| i > ROOT_INO ==> fs.nodes.spec_get(i) is None,
    {
        let mut nodes = NodeSet::new();
        let d = nodes.allocate(Node::new_dummy());
        proof {
            if d.spec_ino() != 0 {
                assert(nodes.spec_get(0) is Some);
            }
        }
        let _ = d.persist();
        let r = nodes.allocate(Node::new_root(&config, now_ms));
        proof {
            if r.spec_ino() != 1 {
                if r.spec_ino() == 0 {
                } else {
                    assert(nodes.spec_get(1) is Some);
                }
            }
        }
        let _ = r.persist();
        Fs { config, nodes, slab: Vec::new() }
    }

    /// Stores `item` in the lowest free directory-handle slot.
    pub fn slab_alloc(&mut self, item: Item) -> (fh: FileHandle)
        ensures
            old(self).slab_is_lowest_free(fh),
            final(self).spec_slab_get(fh) == Some(item),
            forall|j: FileHandle|
                j != fh ==> final(self).spec_slab_get(j) == old(self).spec_slab_get(j),
            final(self).nodes == old(self).nodes,
            final(self).config == old(self).config,
    {
        let mut i: usize = 0;
        while i < self.slab.len()
            invariant
                i <= self.spec_slab().len(),
                forall|j: int| 0 <= j < i ==> self.spec_slab()[j] is Some,
                self.spec_slab() == old(self).spec_slab(),
                self.nodes == old(self).nodes,
                self.config == old(self).config,
            decreases self.spec_slab().len() - i,
        {
            if self.slab[i].is_none() {
                self.slab[i] = Some(item);
                return i as u64;
            }
            i += 1;
        }
        self.slab.push(Some(item));
        (self.slab.len() - 1) as u64
    }

    /// Gets the item stored under handle `fh`.
    pub fn slab_get(&self, fh: FileHandle) -> (r: Option<&Item>)
        ensures
            match self.spec_slab_get(fh) {
                Some(item) => r matches Some(p) && *p == item,
                None => r is None,
            },
    {
        if fh < self.slab.len() as u64 {
            match &self.slab[fh as usize] {
                Some(item) => Some(item),
                None => None,
            }
        } else {
            None
        }
    }

    /// Lists the directory under `ino`: the current entries of a root,
    /// account, vault or secret node.
    ///
    /// Root and account listings are materialized at first call, allocating
    /// their child nodes for good, and cached for the node's lifetime.
    /// Vault and secret listings are computed from the current child maps;
    /// refreshing those maps is the caller's business, before this call.
    pub fn dir_entries(&mut self, ino: Inode) -> (r: Result<Vec<dentry::DirEntry>, crate::Errno>)
        ensures
            final(self).config == old(self).config,
            final(self).spec_slab() == old(self).spec_slab(),
            listing_post(
                old(self).nodes,
                final(self).nodes,
                old(self).config,
                ino,
                (match r {
                    Ok(es) => Ok::<Seq<dentry::DirEntry>, crate::Errno>(es@),
                    Err(e) => Err::<Seq<dentry::DirEntry>, crate::Errno>(e),
                }),
            ),
    {
        // directories whose listing already exists are handled in place
        let build_root: bool = match self.nodes.get(ino) {
            None => {
                return Err(crate::Errno::NoEnt);
            },
            Some(node) => match node {
                Node::Dummy => {
                    return Err(crate::Errno::NoEnt);
                },
                Node::Field(_) | Node::Link(_) => {
                    return Err(crate::Errno::NotDir);
                },
                Node::Vault(v) => {
                    return Ok(node::vault::vault_dir_entries(v.entries.value()));
                },
                Node::Secret(s) => {
                    return Ok(node::secret::secret_dir_entries(s.entries.value()));
                },
                Node::Root(x) => match &x.entries {
                    Some(es) => {
                        return Ok(dentry::clone_entries(es));
                    },
                    None => true,
                },
                Node::Account(a) => match &a.entries {
                    Some(es) => {
                        return Ok(dentry::clone_entries(es));
                    },
                    None => false,
                },
            },
        };
        // first listing of the root or an account node: materialize and cache
        let taken = self.nodes.take(ino);
        if build_root {
            match taken {
                Node::Root(mut x) => {
                    let es = node::root::make_entries(&mut self.nodes, &self.config.accounts);
                    let r = dentry::clone_entries(&es);
                    x.entries = Some(es);
                    self.nodes.put(ino, Node::Root(x));
                    Ok(r)
                },
                _ => {
                    proof {
                        assert(false);
                    }
                    Err(crate::Errno::NoEnt)
                },
            }
        } else {
            match taken {
                Node::Account(mut a) => {
                    let es = match crate::util::keymap::find_index(
                        &self.config.accounts,
                        a.id.account(),
                    ) {
                        Some(i) => node::account::make_entries(
                            &mut self.nodes,
                            &a.id,
                            &self.config.accounts[i].1.vaults,
                        ),
                        None => Vec::new(),
                    };
                    let r = dentry::clone_entries(&es);
                    a.entries = Some(es);
                    self.nodes.put(ino, Node::Account(a));
                    Ok(r)
                },
                _ => {
                    proof {
                        assert(false);
                    }
                    Err(crate::Errno::NoEnt)
                },
            }
        }
    }

    /// Vacates the directory-handle slot under `fh`, if occupied.
    pub fn slab_free(&mut self, fh: FileHandle)
        ensures
            final(self).spec_slab_get(fh) is None,
            forall|j: FileHandle|
                j != fh ==> final(self).spec_slab_get(j) == old(self).spec_slab_get(j),
            final(self).nodes == old(self).nodes,
            final(self).config == old(self).config,
    {
        if fh < self.slab.len() as u64 {
            self.slab[fh as usize] = None;
        }
    }
}


/// What the caller must fetch from the external data source before the
/// stale node under an inode can serve a listing.
pub enum FetchRequest {
    /// List the secrets of the vault with this ID.
    ListSecrets(id::Vault),
    /// Get the secret with this ID, fields included.
    GetSecret(id::Secret),
}

impl Fs {
    /// Names the fetch a request touching `ino` needs first: vault and
    /// secret listings are refreshed when stale, everything else never
    /// fetches.
    ///
    /// Two attempts within the cache duration of each other ask for at most
    /// one fetch: after a refresh is applied, this returns nothing until
    /// the cache duration has elapsed.
    pub fn refresh_target(&self, ino: Inode, now_ms: u64) -> (r: Option<FetchRequest>)
        ensures
            match self.nodes.spec_get(ino) {
                Some(Node::Vault(v)) => if v.entries.spec_stale(
                    self.config.cache_duration_ms,
                    now_ms,
                ) {
                    r matches Some(FetchRequest::ListSecrets(vid)) && vid == v.id
                } else {
                    r is None
                },
                Some(Node::Secret(s)) => if s.entries.spec_stale(
                    self.config.cache_duration_ms,
                    now_ms,
                ) {
                    r matches Some(FetchRequest::GetSecret(sid)) && sid == s.id
                } else {
                    r is None
                },
                _ => r is None,
            },
    {
        match self.nodes.get(ino) {
            Some(Node::Vault(v)) => {
                if v.entries.stale(self.config.cache_duration_ms, now_ms) {
                    Some(FetchRequest::ListSecrets(v.id.clone()))
                } else {
                    None
                }
            },
            Some(Node::Secret(s)) => {
                if s.entries.stale(self.config.cache_duration_ms, now_ms) {
                    Some(FetchRequest::GetSecret(s.id.clone()))
                } else {
                    None
                }
            },
            _ => None,
        }
    }

    /// Applies the outcome of a secret-listing fetch to the vault under
    /// `ino`.
    ///
    /// A failed fetch leaves the whole tree untouched - the refresh time
    /// included, so the next attempt retries immediately - and surfaces as
    /// an I/O failure.  A successful fetch reconciles the vault's child map
    /// as `refresh_vault_entries` describes and records `now_ms` as its
    /// refresh time.
    pub fn refresh_vault(
        &mut self,
        ino: Inode,
        fetched: Result<Vec<types::SecretMetadata>, ()>,
        now_ms: u64,
    ) -> (r: Result<(), crate::Errno>)
        ensures
            final(self).config == old(self).config,
            final(self).spec_slab() == old(self).spec_slab(),
            match fetched {
                Err(_) => r == Err::<(), crate::Errno>(crate::Errno::Io) && *final(self) == *old(
                    self,
                ),
                Ok(listing) => match old(self).nodes.spec_get(ino) {
                    Some(Node::Vault(v0)) => {
                        if crate::util::keymap::uniq_keys(v0.entries.spec_value()@)
                            && node::vault::handler_refs_ok(
                            old(self).nodes,
                            v0.entries.spec_value()@,
                            ino,
                        ) {
                            &&& r == Ok::<(), crate::Errno>(())
                            &&& (match final(self).nodes.spec_get(ino) {
                                Some(Node::Vault(v1)) => {
                                    &&& v1.ino == v0.ino
                                    &&& v1.id == v0.id
                                    &&& v1.attr == v0.attr
                                    &&& v1.entries.spec_last_update() == Some(now_ms)
                                    &&& node::vault::reconciled(
                                        old(self).nodes,
                                        final(self).nodes,
                                        v0.id,
                                        v0.entries.spec_value()@,
                                        listing@,
                                        v1.entries.spec_value()@,
                                        ino,
                                    )
                                },
                                _ => false,
                            })
                        } else {
                            r == Err::<(), crate::Errno>(crate::Errno::Io) && final(self).nodes
                                == old(self).nodes
                        }
                    },
                    _ => r == Err::<(), crate::Errno>(crate::Errno::NoEnt) && final(self).nodes
                        == old(self).nodes,
                },
            },
    {
        let listing = match fetched {
            Ok(listing) => listing,
            Err(_) => {
                return Err(crate::Errno::Io);
            },
        };
        let is_vault = match self.nodes.get(ino) {
            Some(Node::Vault(_)) => true,
            _ => false,
        };
        if !is_vault {
            return Err(crate::Errno::NoEnt);
        }
        if node::vault::refresh_vault_entries(
            &mut self.nodes,
            &self.config,
            ino,
            &listing,
            now_ms,
        ) {
            Ok(())
        } else {
            Err(crate::Errno::Io)
        }
    }

    /// Applies the outcome of a secret fetch to the secret under `ino`.
    ///
    /// A failed fetch leaves the whole tree untouched - the refresh time
    /// included, so the next attempt retries immediately - and surfaces as
    /// an I/O failure.  A successful fetch replaces the secret's metadata
    /// and reconciles its field map as `refresh_secret_entries` describes,
    /// recording `now_ms` as its refresh time.
    pub fn refresh_secret(
        &mut self,
        ino: Inode,
        fetched: Result<types::Secret, ()>,
        now_ms: u64,
    ) -> (r: Result<(), crate::Errno>)
        ensures
            final(self).config == old(self).config,
            final(self).spec_slab() == old(self).spec_slab(),
            match fetched {
                Err(_) => r == Err::<(), crate::Errno>(crate::Errno::Io) && *final(self) == *old(
                    self,
                ),
                Ok(data) => match old(self).nodes.spec_get(ino) {
                    Some(Node::Secret(s0)) => {
                        if crate::util::keymap::uniq_keys(s0.entries.spec_value()@)
                            && node::secret::handler_refs_ok(
                            old(self).nodes,
                            s0.entries.spec_value()@,
                            ino,
                        ) {
                            &&& r == Ok::<(), crate::Errno>(())
                            &&& (match final(self).nodes.spec_get(ino) {
                                Some(Node::Secret(s1)) => {
                                    &&& s1.ino == s0.ino
                                    &&& s1.id == s0.id
                                    &&& s1.metadata == data.metadata
                                    &&& s1.entries.spec_last_update() == Some(now_ms)
                                    &&& node::secret::reconciled(
                                        old(self).nodes,
                                        final(self).nodes,
                                        ino,
                                        data.metadata,
                                        s0.entries.spec_value()@,
                                        data.fields@,
                                        s1.entries.spec_value()@,
                                    )
                                },
                                _ => false,
                            })
                        } else {
                            r == Err::<(), crate::Errno>(crate::Errno::Io) && final(self).nodes
                                == old(self).nodes
                        }
                    },
                    _ => r == Err::<(), crate::Errno>(crate::Errno::NoEnt) && final(self).nodes
                        == old(self).nodes,
                },
            },
    {
        let data = match fetched {
            Ok(data) => data,
            Err(_) => {
                return Err(crate::Errno::Io);
            },
        };
        let is_secret = match self.nodes.get(ino) {
            Some(Node::Secret(_)) => true,
            _ => false,
        };
        if !is_secret {
            return Err(crate::Errno::NoEnt);
        }
        if node::secret::refresh_secret_entries(
            &mut self.nodes,
            &self.config,
            ino,
            &data,
            now_ms,
        ) {
            Ok(())
        } else {
            Err(crate::Errno::Io)
        }
    }
}

} // verus!
