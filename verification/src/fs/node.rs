//! The node model and the inode arena.

pub mod account;
pub mod field;
pub mod link;
pub mod root;
pub mod secret;
pub mod vault;

use vstd::prelude::*;

use crate::config::Config;
use crate::fs::attr::{make_dir_attr, spec_dir_attr, FileAttr};
use crate::onepassword::id;
use crate::onepassword::types::SecretMetadata;
use crate::Inode;
use crate::ROOT_INO;

verus! {

/// A node in the filesystem tree.
pub enum Node {
    /// A dummy node: the placeholder for inode 0, also returned when a
    /// lookup does not resolve.
    Dummy,
    /// The root node.
    Root(root::Root),
    /// An account node: the first level of the tree.
    Account(account::Account),
    /// A vault node: the second level of the tree.
    Vault(vault::Vault),
    /// A secret node: the third level of the tree.
    Secret(secret::Secret),
    /// A secret-field node: the fourth level of the tree.
    Field(field::Field),
    /// A link node: a symlink to another node.
    Link(link::Link),
}

/// What `Node::attr` returns for a node, given the owning secret's times for
/// a field node.
pub open spec fn spec_attr_result(
    n: Node,
    owner_times: (u64, u64),
    config: Config,
    now_ms: u64,
) -> Option<FileAttr> {
    match n {
        Node::Dummy => None,
        Node::Root(x) => Some(x.attr),
        Node::Account(a) => Some(
            match a.attr {
                Some(at) => at,
                None => spec_dir_attr(a.ino, config, now_ms),
            },
        ),
        Node::Vault(v) => Some(
            match v.attr {
                Some(at) => at,
                None => spec_dir_attr(v.ino, config, now_ms),
            },
        ),
        Node::Secret(s) => Some(secret::spec_secret_attr(s, config)),
        Node::Field(f) => Some(
            field::spec_field_attr(f, config, owner_times.0, owner_times.1),
        ),
        Node::Link(l) => Some(l.attr),
    }
}

impl Node {
    /// Creates a new dummy node.
    pub fn new_dummy() -> (n: Node)
        ensures
            n is Dummy,
    {
        Node::Dummy
    }

    /// Creates a new root node.
    pub fn new_root(config: &Config, now_ms: u64) -> (n: Node)
        ensures
            n matches Node::Root(r) && r.attr == spec_dir_attr(ROOT_INO, *config, now_ms)
                && r.entries is None,
    {
        Node::Root(root::Root::new(config, now_ms))
    }

    /// Creates a new account node.
    pub fn new_account(ino: Inode, id: id::Account) -> (n: Node)
        ensures
            n matches Node::Account(a) && a.ino == ino && a.id == id && a.attr is None
                && a.entries is None,
    {
        Node::Account(account::Account::new(ino, id))
    }

    /// Creates a new vault node.
    pub fn new_vault(ino: Inode, id: id::Vault) -> (n: Node)
        ensures
            n matches Node::Vault(v) && v.ino == ino && v.id == id && v.attr is None
                && v.entries.spec_value()@ =~= Seq::<(String, vault::SecretHandler)>::empty()
                && v.entries.spec_last_update() is None,
    {
        Node::Vault(vault::Vault::new(ino, id))
    }

    /// Creates a new secret node.
    pub fn new_secret(ino: Inode, id: id::Secret, meta: SecretMetadata) -> (n: Node)
        ensures
            n matches Node::Secret(s) && s.ino == ino && s.id == id && s.metadata == meta
                && s.entries.spec_value()@ =~= Seq::<(String, secret::FieldHandler)>::empty()
                && s.entries.spec_last_update() is None,
    {
        Node::Secret(secret::Secret::new(ino, id, meta))
    }

    /// Creates a new field node.
    pub fn new_field(
        ino: Inode,
        secret_ino: Inode,
        data: secret::FieldValue,
        trim: bool,
    ) -> (n: Node)
        ensures
            n matches Node::Field(f) && f.ino == ino && f.secret_ino == secret_ino && f.data
                == data && f.trim == trim,
    {
        Node::Field(field::Field::new(ino, secret_ino, data, trim))
    }

    /// Creates a new link node.
    pub fn new_link(ino: Inode, target: &str, attr: &FileAttr) -> (n: Node)
        ensures
            n matches Node::Link(l) && l.target@ == target@ && l.attr == (FileAttr {
                ino,
                size: vstd::string::StringSliceAdditionalSpecFns::spec_bytes(target).len() as u64,
                kind: crate::fs::dentry::FileType::Symlink,
                ..*attr
            }),
    {
        Node::Link(link::Link::new(ino, target, attr))
    }

    /// Returns the filesystem attributes of the node, or nothing for the
    /// dummy node.
    ///
    /// Account and vault nodes compute their attributes at first call,
    /// stamped with `now_ms`, and cache them; a field node's timestamps come
    /// from its owning secret's metadata, handed in as `owner_times`.
    pub fn attr(&mut self, config: &Config, now_ms: u64, owner_times: (u64, u64)) -> (r: Option<
        FileAttr,
    >)
        ensures
            r == spec_attr_result(*old(self), owner_times, *config, now_ms),
            *final(self) == (match *old(self) {
                Node::Account(a) => Node::Account(
                    account::Account { attr: r, ..a },
                ),
                Node::Vault(v) => Node::Vault(vault::Vault { attr: r, ..v }),
                _ => *old(self),
            }),
    {
        match self {
            Node::Dummy => None,
            Node::Root(x) => Some(x.attr()),
            Node::Account(a) => {
                if a.attr.is_none() {
                    a.attr = Some(make_dir_attr(a.ino, config, now_ms));
                }
                a.attr
            },
            Node::Vault(v) => {
                if v.attr.is_none() {
                    v.attr = Some(make_dir_attr(v.ino, config, now_ms));
                }
                v.attr
            },
            Node::Secret(s) => Some(s.attr(config)),
            Node::Field(f) => Some(f.attr(config, owner_times.0, owner_times.1)),
            Node::Link(l) => Some(l.attr()),
        }
    }
}

/// The arena that owns every node's storage, addressed by inode.
///
/// The allocator always assigns the lowest free slot.
pub struct NodeSet {
    slots: Vec<Option<Node>>,
}

impl NodeSet {
    /// The stored slots: occupied ones hold a node.
    pub closed spec fn spec_slots(self) -> Seq<Option<Node>> {
        self.slots@
    }

    /// The node stored under `ino`, if any.
    pub open spec fn spec_get(self, ino: Inode) -> Option<Node> {
        if (ino as int) < self.spec_slots().len() {
            self.spec_slots()[ino as int]
        } else {
            None
        }
    }

    /// Whether `ino` is occupied.
    pub open spec fn contains_ino(self, ino: Inode) -> bool {
        self.spec_get(ino) is Some
    }

    /// Whether `ino` is the lowest free slot.
    pub open spec fn is_lowest_free(self, ino: Inode) -> bool {
        self.spec_get(ino) is None && (forall|j: Inode| j < ino ==> self.spec_get(j) is Some)
    }

    /// Two lowest free slots are the same slot.
    pub proof fn lemma_lowest_free_unique(self, a: Inode, b: Inode)
        requires
            self.is_lowest_free(a),
            self.is_lowest_free(b),
        ensures
            a == b,
    {
        if a < b {
            assert(self.spec_get(a) is Some);
        }
        if b < a {
            assert(self.spec_get(b) is Some);
        }
    }

    /// Deletion frees identity: a vacated slot below which everything is
    /// occupied is exactly the slot the next allocation assigns, so a freed
    /// inode may be reused by a later entity.
    pub proof fn lemma_freed_slot_reused(self, ino: Inode)
        requires
            self.spec_get(ino) is None,
            forall|j: Inode| j < ino ==> self.spec_get(j) is Some,
        ensures
            self.is_lowest_free(ino),
    {
    }

    /// Creates a new, empty arena.
    pub fn new() -> (s: NodeSet)
        ensures
            s.spec_slots().len() == 0,
            forall|i: Inode| s.spec_get(i) is None,
    {
        NodeSet { slots: Vec::new() }
    }

    /// The lowest free inode: the one `alloc` would assign.
    pub fn vacant_ino(&self) -> (r: Inode)
        ensures
            self.is_lowest_free(r),
    {
        let mut i: usize = 0;
        while i < self.slots.len()
            invariant
                i <= self.spec_slots().len(),
                forall|j: int| 0 <= j < i ==> self.spec_slots()[j] is Some,
            decreases self.spec_slots().len() - i,
        {
            if self.slots[i].is_none() {
                return i as u64;
            }
            i += 1;
        }
        self.slots.len() as u64
    }

    /// Stores `node` in the lowest free slot and returns a handler bound to
    /// its inode.
    pub fn allocate(&mut self, node: Node) -> (h: Handler)
        ensures
            old(self).is_lowest_free(h.spec_ino()),
            final(self).spec_get(h.spec_ino()) == Some(node),
            forall|i: Inode| i != h.spec_ino() ==> final(self).spec_get(i) == old(self).spec_get(
                i,
            ),
    {
        let ino = self.vacant_ino();
        let n = self.slots.len();
        if ino < n as u64 {
            let i = ino as usize;
            proof {
                assert(i as int == ino as int);
            }
            self.slots[i] = Some(node);
        } else {
            proof {
                if ino != n as u64 {
                    assert(self.spec_get(n as u64) is Some);
                }
                assert(ino as int == n as int);
            }
            self.slots.push(Some(node));
        }
        Handler { ino }
    }

    /// Gets the node stored under `ino`.
    ///
    /// An absent or vacant slot gives nothing; callers treat that the same
    /// way as a stored dummy node, so "not found" stays a normal value.
    pub fn get(&self, ino: Inode) -> (r: Option<&Node>)
        ensures
            match self.spec_get(ino) {
                Some(n) => r matches Some(p) && *p == n,
                None => r is None,
            },
    {
        if ino < self.slots.len() as u64 {
            match &self.slots[ino as usize] {
                Some(n) => Some(n),
                None => None,
            }
        } else {
            None
        }
    }

    /// Vacates the slot under `ino`, if occupied.
    pub fn free(&mut self, ino: Inode)
        ensures
            final(self).spec_get(ino) is None,
            forall|i: Inode| i != ino ==> final(self).spec_get(i) == old(self).spec_get(i),
    {
        if ino < self.slots.len() as u64 {
            self.slots[ino as usize] = None;
        }
    }

    /// Moves the node under `ino` out, leaving a dummy node in its place so
    /// the slot stays occupied; gives a dummy node for an absent slot.
    pub fn take(&mut self, ino: Inode) -> (n: Node)
        ensures
            match old(self).spec_get(ino) {
                Some(m) => n == m && final(self).spec_get(ino) == Some(Node::Dummy) && (forall|
                    i: Inode,
                |
                    i != ino ==> final(self).spec_get(i) == old(self).spec_get(i)),
                None => n is Dummy && *final(self) == *old(self),
            },
    {
        if ino < self.slots.len() as u64 {
            let i = ino as usize;
            if self.slots[i].is_some() {
                let mut tmp: Option<Node> = Some(Node::new_dummy());
                let slot = &mut self.slots[i];
                core::mem::swap(slot, &mut tmp);
                match tmp {
                    Some(n) => n,
                    None => Node::new_dummy(),
                }
            } else {
                Node::new_dummy()
            }
        } else {
            Node::new_dummy()
        }
    }

    /// Writes `node` back into the occupied slot under `ino`.
    pub fn put(&mut self, ino: Inode, node: Node)
        requires
            old(self).contains_ino(ino),
        ensures
            final(self).spec_get(ino) == Some(node),
            forall|i: Inode| i != ino ==> final(self).spec_get(i) == old(self).spec_get(i),
    {
        let n = self.slots.len();
        let i = ino as usize;
        proof {
            assert((ino as int) < (n as int));
            assert(i as int == ino as int);
        }
        self.slots[i] = Some(node);
    }

    /// Allocates a link node aliasing the entity whose attributes are
    /// `attr`, committed to the arena for good; returns its inode.
    pub fn alloc_link(&mut self, target: &str, attr: &FileAttr) -> (aino: Inode)
        ensures
            old(self).spec_get(aino) is None,
            (match final(self).spec_get(aino) {
                Some(Node::Link(l)) => l.target@ == target@ && l.attr == (FileAttr {
                    ino: aino,
                    size: vstd::string::StringSliceAdditionalSpecFns::spec_bytes(
                        target,
                    ).len() as u64,
                    kind: crate::fs::dentry::FileType::Symlink,
                    ..*attr
                }),
                _ => false,
            }),
            forall|i: Inode| i != aino ==> final(self).spec_get(i) == old(self).spec_get(i),
    {
        let vid = self.vacant_ino();
        let ghost pre = *self;
        let h = self.allocate(Node::new_link(vid, target, attr));
        proof {
            pre.lemma_lowest_free_unique(vid, h.spec_ino());
        }
        h.persist()
    }

    /// Replaces the metadata of the secret node under `ino`, in place; does
    /// nothing when the slot holds anything else.
    pub fn update_secret_metadata(&mut self, ino: Inode, meta: SecretMetadata)
        ensures
            match old(self).spec_get(ino) {
                Some(Node::Secret(s0)) => final(self).spec_get(ino) == Some(
                    Node::Secret(secret::Secret { metadata: meta, ..s0 }),
                ) && (forall|i: Inode|
                    i != ino ==> final(self).spec_get(i) == old(self).spec_get(i)),
                _ => forall|i: Inode| final(self).spec_get(i) == old(self).spec_get(i),
            },
    {
        if ino < self.slots.len() as u64 {
            match &mut self.slots[ino as usize] {
                Some(Node::Secret(s)) => {
                    s.update_metadata(meta);
                },
                _ => {},
            }
        }
    }

    /// Replaces the value of the field node under `ino`, in place; does
    /// nothing when the slot holds anything else.
    pub fn set_field_value(&mut self, ino: Inode, value: String)
        ensures
            match old(self).spec_get(ino) {
                Some(Node::Field(f0)) => final(self).spec_get(ino) == Some(
                    Node::Field(field::Field { data: secret::FieldValue(value), ..f0 }),
                ) && (forall|i: Inode|
                    i != ino ==> final(self).spec_get(i) == old(self).spec_get(i)),
                _ => forall|i: Inode| final(self).spec_get(i) == old(self).spec_get(i),
            },
    {
        if ino < self.slots.len() as u64 {
            match &mut self.slots[ino as usize] {
                Some(Node::Field(f)) => {
                    f.data = secret::FieldValue(value);
                },
                _ => {},
            }
        }
    }

    /// Replaces the child map of the vault node under `ino` and records
    /// `now_ms` as its refresh time; does nothing when the slot holds
    /// anything else.
    pub fn set_vault_entries(
        &mut self,
        ino: Inode,
        entries: Vec<(String, vault::SecretHandler)>,
        now_ms: u64,
    )
        ensures
            match old(self).spec_get(ino) {
                Some(Node::Vault(v0)) => {
                    &&& (match final(self).spec_get(ino) {
                        Some(Node::Vault(v1)) => {
                            &&& v1.ino == v0.ino
                            &&& v1.id == v0.id
                            &&& v1.attr == v0.attr
                            &&& v1.entries.spec_value() == entries
                            &&& v1.entries.spec_last_update() == Some(now_ms)
                        },
                        _ => false,
                    })
                    &&& forall|i: Inode|
                        i != ino ==> final(self).spec_get(i) == old(self).spec_get(i)
                },
                _ => forall|i: Inode| final(self).spec_get(i) == old(self).spec_get(i),
            },
    {
        if ino < self.slots.len() as u64 {
            match &mut self.slots[ino as usize] {
                Some(Node::Vault(v)) => {
                    v.entries.set(entries, now_ms);
                },
                _ => {},
            }
        }
    }

    /// Replaces the child map of the secret node under `ino` and records
    /// `now_ms` as its refresh time; does nothing when the slot holds
    /// anything else.
    pub fn set_secret_entries(
        &mut self,
        ino: Inode,
        entries: Vec<(String, secret::FieldHandler)>,
        now_ms: u64,
    )
        ensures
            match old(self).spec_get(ino) {
                Some(Node::Secret(s0)) => {
                    &&& (match final(self).spec_get(ino) {
                        Some(Node::Secret(s1)) => {
                            &&& s1.ino == s0.ino
                            &&& s1.id == s0.id
                            &&& s1.metadata == s0.metadata
                            &&& s1.entries.spec_value() == entries
                            &&& s1.entries.spec_last_update() == Some(now_ms)
                        },
                        _ => false,
                    })
                    &&& forall|i: Inode|
                        i != ino ==> final(self).spec_get(i) == old(self).spec_get(i)
                },
                _ => forall|i: Inode| final(self).spec_get(i) == old(self).spec_get(i),
            },
    {
        if ino < self.slots.len() as u64 {
            match &mut self.slots[ino as usize] {
                Some(Node::Secret(s)) => {
                    s.entries.set(entries, now_ms);
                },
                _ => {},
            }
        }
    }

    /// The times a field node under this arena derives its attributes from:
    /// those of its owning secret's metadata.
    pub open spec fn spec_owner_times(self, n: Node) -> (u64, u64) {
        match n {
            Node::Field(f) => match self.spec_get(f.secret_ino) {
                Some(Node::Secret(s)) => (s.metadata.created_at_ms, s.metadata.updated_at_ms),
                _ => (0u64, 0u64),
            },
            _ => (0u64, 0u64),
        }
    }

    /// Returns the attributes of the node under `ino`, or nothing when the
    /// slot is absent or holds the dummy node.
    ///
    /// Lazily computed attributes are cached into the node.
    pub fn attr_of(&mut self, ino: Inode, config: &Config, now_ms: u64) -> (r: Option<FileAttr>)
        ensures
            r == (match old(self).spec_get(ino) {
                Some(n) => spec_attr_result(
                    n,
                    old(self).spec_owner_times(n),
                    *config,
                    now_ms,
                ),
                None => None::<FileAttr>,
            }),
            forall|i: Inode| i != ino ==> final(self).spec_get(i) == old(self).spec_get(i),
            match old(self).spec_get(ino) {
                Some(Node::Account(a)) => final(self).spec_get(ino) == Some(
                    Node::Account(account::Account { attr: r, ..a }),
                ),
                Some(Node::Vault(v)) => final(self).spec_get(ino) == Some(
                    Node::Vault(vault::Vault { attr: r, ..v }),
                ),
                _ => final(self).spec_get(ino) == old(self).spec_get(ino),
            },
    {
        let owner: Option<Inode> = match self.get(ino) {
            Some(Node::Field(f)) => Some(f.secret_ino),
            _ => None,
        };
        let times: (u64, u64) = match owner {
            Some(sino) => match self.get(sino) {
                Some(Node::Secret(s)) => (s.metadata.created_at_ms, s.metadata.updated_at_ms),
                _ => (0, 0),
            },
            None => (0, 0),
        };
        if ino < self.slots.len() as u64 {
            match &mut self.slots[ino as usize] {
                Some(node) => node.attr(config, now_ms, times),
                None => None,
            }
        } else {
            None
        }
    }
}

/// A handler for a node: a claim on the slot the node was allocated into.
///
/// The caller decides the slot's fate: `persist` commits it to the arena for
/// good, `release` vacates it.
pub struct Handler {
    ino: Inode,
}

impl Handler {
    /// The inode of the node.
    pub closed spec fn spec_ino(self) -> Inode {
        self.ino
    }

    /// Returns the inode of the node.
    pub fn ino(&self) -> (r: Inode)
        ensures
            r == self.spec_ino(),
    {
        self.ino
    }

    /// Returns a reference to the node, when its slot is still occupied.
    pub fn node<'a>(&self, nodes: &'a NodeSet) -> (r: Option<&'a Node>)
        ensures
            match nodes.spec_get(self.spec_ino()) {
                Some(n) => r matches Some(p) && *p == n,
                None => r is None,
            },
    {
        nodes.get(self.ino)
    }

    /// Commits the node to the arena; consumes the handler and returns the
    /// inode.
    pub fn persist(self) -> (r: Inode)
        ensures
            r == self.spec_ino(),
    {
        self.ino
    }

    /// Gives the slot back to the arena; the counterpart of dropping an
    /// unpersisted claim.
    pub fn release(self, nodes: &mut NodeSet)
        ensures
            final(nodes).spec_get(self.spec_ino()) is None,
            forall|i: Inode|
                i != self.spec_ino() ==> final(nodes).spec_get(i) == old(nodes).spec_get(i),
    {
        nodes.free(self.ino);
    }
}

} // verus!
