//! A vault node: the second level of the tree, and the reconciliation of its
//! secrets against freshly fetched listings.

use vstd::prelude::*;
use vstd::string::*;

use crate::fs::attr::FileAttr;
use crate::fs::dentry::{dedup_entries, dedup_names, DirEntry, FileType};
use crate::onepassword::id;
use crate::onepassword::types::SecretMetadata;
use crate::util::strings::{replace_slashes, replaced_slashes};
use crate::util::throttle::Throttle;
use crate::Inode;

verus! {

/// A vault node.
pub struct Vault {
    /// The inode number of the node.
    pub ino: Inode,
    /// The ID of the vault.
    pub id: id::Vault,
    /// The attributes of the node, computed lazily once.
    pub attr: Option<FileAttr>,
    /// The secret handlers of the vault, keyed by secret ID.
    pub entries: Throttle<Vec<(String, SecretHandler)>>,
}

/// A secret handler: the secret node's inode and, when present, the alias
/// entry pointing at it.
pub struct SecretHandler {
    /// The inode of the secret node.
    pub ino: Inode,
    /// The alias name and the inode of its link node, if present.
    pub alias: Option<(String, Inode)>,
}

impl Clone for SecretHandler {
    fn clone(&self) -> (r: Self)
        ensures
            r == *self,
    {
        SecretHandler {
            ino: self.ino,
            alias: match &self.alias {
                Some((name, ino)) => Some((name.clone(), *ino)),
                None => None,
            },
        }
    }
}

impl Vault {
    /// The current directory entries of the vault: its secret map's
    /// listing, deduplicated by name.  Refreshing the map first is the
    /// caller's business.
    pub fn entries(&self) -> (r: Vec<DirEntry>)
        ensures
            r@ == dedup_names(raw_vault_entries(self.entries.spec_value()@)),
    {
        vault_dir_entries(self.entries.value())
    }

    /// Creates a new vault node with a stale, empty secret map.
    pub fn new(ino: Inode, id: id::Vault) -> (r: Vault)
        ensures
            r.ino == ino,
            r.id == id,
            r.attr is None,
            r.entries.spec_value()@ =~= Seq::<(String, SecretHandler)>::empty(),
            r.entries.spec_last_update() is None,
    {
        Vault { ino, id, attr: None, entries: Throttle::new_stale(Vec::new()) }
    }
}

/// The directory entries one secret handler contributes: its canonical
/// entry and, when present, its alias entry.
pub open spec fn entry_group(p: (String, SecretHandler)) -> Seq<DirEntry> {
    let base = seq![
        DirEntry { inode: p.1.ino, name: p.0, file_type: FileType::Directory },
    ];
    match p.1.alias {
        Some((n, aino)) => base.push(
            DirEntry { inode: aino, name: n, file_type: FileType::Symlink },
        ),
        None => base,
    }
}

/// The raw listing of a secret map, before name deduplication.
pub open spec fn raw_vault_entries(m: Seq<(String, SecretHandler)>) -> Seq<DirEntry>
    decreases m.len(),
{
    if m.len() == 0 {
        Seq::empty()
    } else {
        entry_group(m[0]) + raw_vault_entries(m.drop_first())
    }
}

/// The raw listing grows by one group per appended handler.
pub proof fn lemma_raw_vault_push(m: Seq<(String, SecretHandler)>, p: (String, SecretHandler))
    ensures
        raw_vault_entries(m.push(p)) == raw_vault_entries(m) + entry_group(p),
    decreases m.len(),
{
    if m.len() == 0 {
        assert(m.push(p)[0] == p);
        assert(m.push(p).drop_first() =~= Seq::<(String, SecretHandler)>::empty());
        assert(entry_group(p) + raw_vault_entries(Seq::empty()) =~= entry_group(p));
        assert(raw_vault_entries(m) + entry_group(p) =~= entry_group(p));
    } else {
        assert(m.push(p)[0] == m[0]);
        assert(m.push(p).drop_first() =~= m.drop_first().push(p));
        lemma_raw_vault_push(m.drop_first(), p);
        assert(entry_group(m[0]) + (raw_vault_entries(m.drop_first()) + entry_group(p))
            =~= (entry_group(m[0]) + raw_vault_entries(m.drop_first())) + entry_group(p));
    }
}

/// Builds the directory listing of a vault's secret map: one directory
/// entry per secret plus one symlink entry per alias, deduplicated by name
/// with the last applied entry winning.
pub fn vault_dir_entries(m: &Vec<(String, SecretHandler)>) -> (r: Vec<DirEntry>)
    ensures
        r@ == dedup_names(raw_vault_entries(m@)),
{
    let mut raw: Vec<DirEntry> = Vec::new();
    let mut i: usize = 0;
    while i < m.len()
        invariant
            i <= m@.len(),
            raw@ == raw_vault_entries(m@.take(i as int)),
        decreases m@.len() - i,
    {
        let ghost prev = m@.take(i as int);
        raw.push(
            DirEntry { inode: m[i].1.ino, name: m[i].0.clone(), file_type: FileType::Directory },
        );
        match &m[i].1.alias {
            Some((aname, aino)) => {
                raw.push(DirEntry { inode: *aino, name: aname.clone(), file_type: FileType::Symlink });
            },
            None => {},
        }
        proof {
            assert(m@.take(i + 1) =~= prev.push(m@[i as int]));
            lemma_raw_vault_push(prev, m@[i as int]);
            assert(raw@ =~= raw_vault_entries(prev) + entry_group(m@[i as int]));
        }
        i += 1;
    }
    proof {
        assert(m@.take(m@.len() as int) =~= m@);
    }
    dedup_entries(raw)
}

/// The alias name derived from a secret's title, if any: the title with `/`
/// replaced by `_`, unless the title is empty.
pub open spec fn spec_make_alias_name(title: Seq<char>) -> Option<Seq<char>> {
    if title.len() == 0 {
        None
    } else {
        Some(replaced_slashes(title))
    }
}

/// Creates an alias name for a title.
pub fn make_alias_name(title: &str) -> (r: Option<String>)
    ensures
        match r {
            Some(s) => spec_make_alias_name(title@) == Some(s@),
            None => spec_make_alias_name(title@) is None,
        },
{
    if title.unicode_len() == 0 {
        None
    } else {
        Some(replace_slashes(title))
    }
}

/// The alias a secret is entitled to: the name derived from its title,
/// unless that name equals the canonical ID.
pub open spec fn spec_eligible_alias(title: Seq<char>, id: Seq<char>) -> Option<Seq<char>> {
    match spec_make_alias_name(title) {
        Some(n) => if n == id {
            None
        } else {
            Some(n)
        },
        None => None,
    }
}

/// Derives the alias name a secret is entitled to, if any.
pub fn eligible_alias(title: &str, id: &str) -> (r: Option<String>)
    ensures
        match r {
            Some(n) => spec_eligible_alias(title@, id@) == Some(n@),
            None => spec_eligible_alias(title@, id@) is None,
        },
{
    match make_alias_name(title) {
        Some(n) => {
            if crate::util::strings::str_eq(n.as_str(), id) {
                None
            } else {
                Some(n)
            }
        },
        None => None,
    }
}

/// Alias eligibility: a secret is entitled to an alias exactly when its
/// title is non-empty and the slash-mangled title differs from the
/// canonical ID; the alias, when present, is that mangled title.
pub proof fn lemma_alias_eligibility(title: Seq<char>, id: Seq<char>)
    ensures
        spec_eligible_alias(title, id) is None <==> (title.len() == 0 || replaced_slashes(title)
            == id),
        spec_eligible_alias(title, id) matches Some(n) ==> n == replaced_slashes(title) && n
            != id,
{
}

/// Whether some fetched metadata carries ID `k`.
pub open spec fn listing_has(l: Seq<SecretMetadata>, k: Seq<char>) -> bool {
    exists|i: int| 0 <= i < l.len() && (#[trigger] l[i]).id@ == k
}

/// The last fetched metadata carrying ID `k`; duplicates in a listing are
/// resolved in favour of the later occurrence.
pub open spec fn listing_last(l: Seq<SecretMetadata>, k: Seq<char>) -> SecretMetadata
    decreases l.len(),
{
    if l.len() == 0 {
        vstd::pervasive::arbitrary()
    } else if l.last().id@ == k {
        l.last()
    } else {
        listing_last(l.drop_last(), k)
    }
}

proof fn lemma_listing_take_step(l: Seq<SecretMetadata>, t: int)
    requires
        0 <= t < l.len(),
    ensures
        forall|k: Seq<char>|
            #[trigger] listing_has(l.take(t + 1), k) <==> (listing_has(l.take(t), k) || k
                == l[t].id@),
        forall|k: Seq<char>|
            #[trigger] listing_last(l.take(t + 1), k) == (if l[t].id@ == k {
                l[t]
            } else {
                listing_last(l.take(t), k)
            }),
{
    let pre = l.take(t);
    let cur = l.take(t + 1);
    assert(cur.drop_last() =~= pre);
    assert(cur.last() == l[t]);
    assert forall|k: Seq<char>|
        #[trigger] listing_has(cur, k) <==> (listing_has(pre, k) || k == l[t].id@) by {
        if listing_has(cur, k) {
            let i = choose|i: int| 0 <= i < cur.len() && (#[trigger] cur[i]).id@ == k;
            if i < t {
                assert(pre[i].id@ == k);
            }
        }
        if listing_has(pre, k) {
            let i = choose|i: int| 0 <= i < pre.len() && (#[trigger] pre[i]).id@ == k;
            assert(cur[i].id@ == k);
        }
        if k == l[t].id@ {
            assert(cur[t].id@ == k);
        }
    }
}

/// Builds an index of a fetched listing by secret ID; of entries sharing an
/// ID, the later one wins.
pub fn index_secrets(listing: &Vec<SecretMetadata>) -> (r: Vec<(String, SecretMetadata)>)
    ensures
        crate::util::keymap::uniq_keys(r@),
        forall|k: Seq<char>|
            #[trigger] crate::util::keymap::has_key(r@, k) <==> listing_has(listing@, k),
        forall|k: Seq<char>|
            #[trigger] crate::util::keymap::has_key(r@, k) ==> crate::util::keymap::spec_get(
                r@,
                k,
            ) == Some(listing_last(listing@, k)),
{
    let mut r: Vec<(String, SecretMetadata)> = Vec::new();
    let mut t: usize = 0;
    proof {
        assert(listing@.take(0) =~= Seq::<SecretMetadata>::empty());
    }
    while t < listing.len()
        invariant
            t <= listing@.len(),
            crate::util::keymap::uniq_keys(r@),
            forall|k: Seq<char>|
                #[trigger] crate::util::keymap::has_key(r@, k) <==> listing_has(
                    listing@.take(t as int),
                    k,
                ),
            forall|k: Seq<char>|
                #[trigger] crate::util::keymap::has_key(r@, k)
                    ==> crate::util::keymap::spec_get(r@, k) == Some(
                    listing_last(listing@.take(t as int), k),
                ),
        decreases listing@.len() - t,
    {
        let ghost prev = r@;
        let meta = &listing[t];
        let key = meta.id.clone();
        proof {
            lemma_listing_take_step(listing@, t as int);
        }
        match crate::util::keymap::find_index(&r, key.as_str()) {
            Some(i) => {
                r[i] = (key, meta.clone());
                proof {
                    assert forall|k: Seq<char>| true implies {
                        &&& (#[trigger] crate::util::keymap::has_key(r@, k)
                            <==> crate::util::keymap::has_key(prev, k))
                        &&& (crate::util::keymap::has_key(r@, k)
                            ==> crate::util::keymap::spec_get(r@, k) == (if k == key@ {
                            Some(listing@[t as int])
                        } else {
                            crate::util::keymap::spec_get(prev, k)
                        }))
                    } by {
                        crate::util::keymap::lemma_get_update(
                            prev,
                            i as int,
                            (key, listing@[t as int]),
                            k,
                        );
                        if k == key@ {
                            crate::util::keymap::lemma_get_index(prev, i as int);
                        }
                    }
                }
            },
            None => {
                r.push((key, meta.clone()));
                proof {
                    assert forall|k: Seq<char>| true implies {
                        &&& (#[trigger] crate::util::keymap::has_key(r@, k) <==> (
                        crate::util::keymap::has_key(prev, k) || k == key@))
                        &&& (crate::util::keymap::has_key(r@, k)
                            ==> crate::util::keymap::spec_get(r@, k) == (if k == key@
                            && !crate::util::keymap::has_key(prev, k) {
                            Some(listing@[t as int])
                        } else {
                            crate::util::keymap::spec_get(prev, k)
                        }))
                    } by {
                        crate::util::keymap::lemma_get_push(prev, (key, listing@[t as int]), k);
                    }
                    crate::util::keymap::lemma_has_key_index(prev, key@);
                }
            },
        }
        t += 1;
    }
    proof {
        assert(listing@.take(listing@.len() as int) =~= listing@);
    }
    r
}

/// Whether `ino` is the node or alias inode of some handler of `m`.
pub open spec fn map_references(m: Seq<(String, SecretHandler)>, ino: Inode) -> bool {
    exists|j: int|
        0 <= j < m.len() && ({
            let h = (#[trigger] m[j]).1;
            h.ino == ino || (match h.alias {
                Some((_, a)) => a == ino,
                None => false,
            })
        })
}

/// No two handlers share any inode, and neither a handler with itself.
pub open spec fn refs_disjoint(a: SecretHandler, b: SecretHandler) -> bool {
    &&& a.ino != b.ino
    &&& (match a.alias {
        Some((_, aa)) => aa != b.ino && (match b.alias {
            Some((_, ab)) => aa != ab,
            None => true,
        }),
        None => true,
    })
    &&& (match b.alias {
        Some((_, ab)) => ab != a.ino,
        None => true,
    })
}

/// The ownership discipline a child map observes: every referenced inode is
/// occupied in `ns`, none is the enclosing node's own inode `except`, no
/// handler aliases its own node, and no two handlers share an inode.
pub open spec fn handler_refs_ok(
    ns: crate::fs::node::NodeSet,
    m: Seq<(String, SecretHandler)>,
    except: crate::Inode,
) -> bool {
    &&& (forall|j: int|
        0 <= j < m.len() ==> ({
            let h = (#[trigger] m[j]).1;
            &&& ns.spec_get(h.ino) is Some
            &&& h.ino != except
            &&& (match h.alias {
                Some((_, a)) => ns.spec_get(a) is Some && a != h.ino && a != except,
                None => true,
            })
        }))
    &&& (forall|x: int, y: int|
        0 <= x < m.len() && 0 <= y < m.len() && x != y ==> refs_disjoint(
            (#[trigger] m[x]).1,
            (#[trigger] m[y]).1,
        ))
}

/// Tests whether two handlers share any inode.
pub fn refs_disjoint_exec(a: &SecretHandler, b: &SecretHandler) -> (r: bool)
    ensures
        r == refs_disjoint(*a, *b),
{
    let mut r = a.ino != b.ino;
    match &a.alias {
        Some((_, aa)) => {
            if *aa == b.ino {
                r = false;
            }
            match &b.alias {
                Some((_, ab)) => {
                    if *aa == *ab {
                        r = false;
                    }
                },
                None => {},
            }
        },
        None => {},
    }
    match &b.alias {
        Some((_, ab)) => {
            if *ab == a.ino {
                r = false;
            }
        },
        None => {},
    }
    r
}

/// Tests the ownership discipline of a child map at run time.
pub fn check_handler_refs(
    nodes: &crate::fs::node::NodeSet,
    m: &Vec<(String, SecretHandler)>,
    except: crate::Inode,
) -> (r: bool)
    ensures
        r == handler_refs_ok(*nodes, m@, except),
{
    let mut x: usize = 0;
    while x < m.len()
        invariant
            x <= m@.len(),
            forall|j: int|
                0 <= j < x ==> ({
                    let h = (#[trigger] m@[j]).1;
                    &&& nodes.spec_get(h.ino) is Some
                    &&& h.ino != except
                    &&& (match h.alias {
                        Some((_, a)) => nodes.spec_get(a) is Some && a != h.ino && a != except,
                        None => true,
                    })
                }),
            forall|a: int, b: int|
                0 <= a < x && 0 <= b < x && a != b ==> refs_disjoint(
                    (#[trigger] m@[a]).1,
                    (#[trigger] m@[b]).1,
                ),
        decreases m@.len() - x,
    {
        let h = &m[x].1;
        if nodes.get(h.ino).is_none() || h.ino == except {
            return false;
        }
        match &h.alias {
            Some((_, a)) => {
                if nodes.get(*a).is_none() || *a == h.ino || *a == except {
                    return false;
                }
            },
            None => {},
        }
        let mut y: usize = 0;
        while y < x
            invariant
                y <= x < m@.len(),
                *h == m@[x as int].1,
                forall|b: int|
                    0 <= b < y ==> refs_disjoint((#[trigger] m@[b]).1, m@[x as int].1)
                        && refs_disjoint(m@[x as int].1, (#[trigger] m@[b]).1),
        decreases x - y,
        {
            let d1 = refs_disjoint_exec(&m[y].1, h);
            let d2 = refs_disjoint_exec(h, &m[y].1);
            if !d1 || !d2 {
                proof {
                    assert(!refs_disjoint(m@[y as int].1, m@[x as int].1) || !refs_disjoint(
                        m@[x as int].1,
                        m@[y as int].1,
                    ));
                    assert(!handler_refs_ok(*nodes, m@, except));
                }
                return false;
            }
            proof {
                assert(refs_disjoint(m@[y as int].1, m@[x as int].1));
                assert(refs_disjoint(m@[x as int].1, m@[y as int].1));
            }
            y += 1;
        }
        x += 1;
    }
    true
}

/// What reconciliation guarantees for the key `k` of the listing.
pub open spec fn key_reconciled(
    pre: crate::fs::node::NodeSet,
    post: crate::fs::node::NodeSet,
    vault_id: id::Vault,
    m0: Seq<(String, SecretHandler)>,
    l: Seq<SecretMetadata>,
    m1: Seq<(String, SecretHandler)>,
    k: Seq<char>,
) -> bool {
    match crate::util::keymap::spec_get(m1, k) {
        Some(h1) => {
            let meta = listing_last(l, k);
            let desired = spec_eligible_alias(meta.title@, k);
            match crate::util::keymap::spec_get(m0, k) {
                Some(h0) => {
                    // an updated entry keeps its inode; the metadata is
                    // written into the secret node in place
                    &&& h1.ino == h0.ino
                    &&& (match pre.spec_get(h0.ino) {
                        Some(crate::fs::node::Node::Secret(s0)) => post.spec_get(h0.ino) == Some(
                            crate::fs::node::Node::Secret(
                                crate::fs::node::secret::Secret { metadata: meta, ..s0 },
                            ),
                        ),
                        _ => true,
                    })
                    &&& (match desired {
                        Some(n) => match h0.alias {
                            // rename in place: the alias inode is kept
                            Some((_, a0)) => match h1.alias {
                                Some((n1, a1)) => n1@ == n && a1 == a0,
                                None => false,
                            },
                            // an alias newly becomes valid, on a fresh inode
                            None => match h1.alias {
                                Some((n1, a1)) => n1@ == n && (pre.spec_get(a1) is None
                                    || map_references(m0, a1)),
                                None => false,
                            },
                        },
                        None => h1.alias is None,
                    })
                },
                None => {
                    // a created entry gets a fresh secret node
                    &&& (pre.spec_get(h1.ino) is None || map_references(m0, h1.ino))
                    &&& (match post.spec_get(h1.ino) {
                        Some(crate::fs::node::Node::Secret(s)) => {
                            &&& s.ino == h1.ino
                            &&& s.metadata == meta
                            &&& s.id.spec_account() == vault_id.spec_account()
                            &&& s.id.spec_vault() == vault_id.spec_vault()
                            &&& s.id.spec_secret() == k
                            &&& s.entries.spec_value()@ =~= Seq::<
                                (String, crate::fs::node::secret::FieldHandler),
                            >::empty()
                            &&& s.entries.spec_last_update() is None
                        },
                        _ => false,
                    })
                    &&& (match desired {
                        Some(n) => match h1.alias {
                            Some((n1, a1)) => n1@ == n && (pre.spec_get(a1) is None
                                || map_references(m0, a1)),
                            None => false,
                        },
                        None => h1.alias is None,
                    })
                },
            }
        },
        None => false,
    }
}

/// What reconciling a vault's child map `m0` against a fetched listing `l`
/// does: the new map `m1` is keyed exactly by the listing's IDs, surviving
/// entries keep their inodes and take the fresh metadata, deleted entries'
/// nodes are freed (their slot numbers may be reused by this very refresh),
/// created entries get fresh nodes, aliases follow the eligibility rules,
/// and every node not owned by the map is untouched (`except` is the
/// enclosing vault's own inode).
pub open spec fn reconciled(
    pre: crate::fs::node::NodeSet,
    post: crate::fs::node::NodeSet,
    vault_id: id::Vault,
    m0: Seq<(String, SecretHandler)>,
    l: Seq<SecretMetadata>,
    m1: Seq<(String, SecretHandler)>,
    except: crate::Inode,
) -> bool {
    &&& crate::util::keymap::uniq_keys(m1)
    &&& (forall|k: Seq<char>|
        #[trigger] crate::util::keymap::has_key(m1, k) <==> listing_has(l, k))
    &&& (forall|k: Seq<char>|
        #[trigger] listing_has(l, k) ==> key_reconciled(pre, post, vault_id, m0, l, m1, k))
    &&& (forall|x: int|
        0 <= x < m0.len() && !listing_has(l, (#[trigger] m0[x]).0@) ==> ({
            &&& (post.spec_get(m0[x].1.ino) is None || map_references(m1, m0[x].1.ino))
            &&& (match m0[x].1.alias {
                Some((_, a)) => post.spec_get(a) is None || map_references(m1, a),
                None => true,
            })
        }))
    &&& (forall|i: crate::Inode|
        i != except && pre.spec_get(i) is Some && !map_references(m0, i)
            ==> #[trigger] post.spec_get(i) == pre.spec_get(i))
}

/// Inode stability under update: a secret surviving a refresh keeps its
/// inode; only its alias entry may change, appear or disappear.
pub proof fn lemma_inode_stability(
    pre: crate::fs::node::NodeSet,
    post: crate::fs::node::NodeSet,
    vault_id: id::Vault,
    m0: Seq<(String, SecretHandler)>,
    l: Seq<SecretMetadata>,
    m1: Seq<(String, SecretHandler)>,
    except: crate::Inode,
    k: Seq<char>,
)
    requires
        reconciled(pre, post, vault_id, m0, l, m1, except),
        crate::util::keymap::has_key(m0, k),
        listing_has(l, k),
    ensures
        match (crate::util::keymap::spec_get(m0, k), crate::util::keymap::spec_get(m1, k)) {
            (Some(h0), Some(h1)) => h1.ino == h0.ino,
            _ => false,
        },
{
    assert(key_reconciled(pre, post, vault_id, m0, l, m1, k));
}

/// Deletion frees identity: a secret that disappears from the fetched
/// listing has its inode vacated, so it no longer resolves - unless the
/// very same refresh already reused the slot for a new entry of the map.
pub proof fn lemma_deletion_frees(
    pre: crate::fs::node::NodeSet,
    post: crate::fs::node::NodeSet,
    vault_id: id::Vault,
    m0: Seq<(String, SecretHandler)>,
    l: Seq<SecretMetadata>,
    m1: Seq<(String, SecretHandler)>,
    except: crate::Inode,
    x: int,
)
    requires
        reconciled(pre, post, vault_id, m0, l, m1, except),
        0 <= x < m0.len(),
        !listing_has(l, m0[x].0@),
    ensures
        post.spec_get(m0[x].1.ino) is None || map_references(m1, m0[x].1.ino),
{
}

/// Copies a child map.
fn clone_map(m: &Vec<(String, SecretHandler)>) -> (r: Vec<(String, SecretHandler)>)
    ensures
        r@ == m@,
{
    let mut r: Vec<(String, SecretHandler)> = Vec::new();
    let mut i: usize = 0;
    while i < m.len()
        invariant
            i <= m@.len(),
            r@ == m@.take(i as int),
        decreases m@.len() - i,
    {
        r.push((m[i].0.clone(), m[i].1.clone()));
        proof {
            assert(r@ =~= m@.take(i + 1));
        }
        i += 1;
    }
    proof {
        assert(m@.take(m@.len() as int) =~= m@);
    }
    r
}

/// Reconciles the child map of the vault node under `ino` against a fetched
/// listing: entries absent from the listing are deleted and their nodes
/// freed, surviving entries are updated in place with their inode
/// preserved, entries new to the listing get freshly allocated nodes, and
/// aliases follow the eligibility rules throughout.  Records `now_ms` as
/// the map's refresh time.
///
/// Returns false, changing nothing, when the slot does not hold a vault or
/// the map's ownership discipline does not hold of the arena; neither
/// arises in a tree built through this crate's own operations.
#[verifier::rlimit(100)]
pub fn refresh_vault_entries(
    nodes: &mut crate::fs::node::NodeSet,
    config: &crate::config::Config,
    ino: crate::Inode,
    listing: &Vec<SecretMetadata>,
    now_ms: u64,
) -> (ok: bool)
    ensures
        match old(nodes).spec_get(ino) {
            Some(crate::fs::node::Node::Vault(v0)) => {
                if crate::util::keymap::uniq_keys(v0.entries.spec_value()@) && handler_refs_ok(
                    *old(nodes),
                    v0.entries.spec_value()@,
                    ino,
                ) {
                    &&& ok
                    &&& (match final(nodes).spec_get(ino) {
                        Some(crate::fs::node::Node::Vault(v1)) => {
                            &&& v1.ino == v0.ino
                            &&& v1.id == v0.id
                            &&& v1.attr == v0.attr
                            &&& v1.entries.spec_last_update() == Some(now_ms)
                            &&& reconciled(
                                *old(nodes),
                                *final(nodes),
                                v0.id,
                                v0.entries.spec_value()@,
                                listing@,
                                v1.entries.spec_value()@,
                                ino,
                            )
                        },
                        _ => false,
                    })
                } else {
                    !ok && *final(nodes) == *old(nodes)
                }
            },
            _ => !ok && *final(nodes) == *old(nodes),
        },
{
    // probe the vault and copy what reconciliation needs
    let probe: Option<(Vec<(String, SecretHandler)>, id::Vault)> = match nodes.get(ino) {
        Some(crate::fs::node::Node::Vault(v)) => Some(
            (clone_map(v.entries.value()), v.id.clone()),
        ),
        _ => None,
    };
    let (m0, vault_id) = match probe {
        Some(p) => p,
        None => {
            return false;
        },
    };
    if !crate::util::keymap::check_uniq(&m0) {
        return false;
    }
    if !check_handler_refs(nodes, &m0, ino) {
        return false;
    }
    let lm = index_secrets(listing);

    let ghost ns0 = *nodes;
    let ghost l = listing@;
    let ghost m0g = m0@;
    let ghost lmg = lm@;

    let mut m1: Vec<(String, SecretHandler)> = Vec::new();

    // deletion phase: free the nodes of entries absent from the listing
    let mut j: usize = 0;
    while j < m0.len()
        invariant
            j <= m0g.len(),
            m0@ == m0g,
            crate::util::keymap::uniq_keys(m0g),
            handler_refs_ok(ns0, m0g, ino),
            crate::util::keymap::uniq_keys(lmg),
            lm@ == lmg,
            forall|k: Seq<char>|
                #[trigger] crate::util::keymap::has_key(lmg, k) <==> listing_has(l, k),
            // deleted entries seen so far are freed
            forall|x: int|
                0 <= x < j && !listing_has(l, (#[trigger] m0g[x]).0@) ==> ({
                    &&& nodes.spec_get(m0g[x].1.ino) is None
                    &&& (match m0g[x].1.alias {
                        Some((_, a)) => nodes.spec_get(a) is None,
                        None => true,
                    })
                }),
            // surviving entries are untouched
            forall|x: int|
                0 <= x < m0g.len() && listing_has(l, (#[trigger] m0g[x]).0@) ==> ({
                    &&& nodes.spec_get(m0g[x].1.ino) == ns0.spec_get(m0g[x].1.ino)
                    &&& (match m0g[x].1.alias {
                        Some((_, a)) => nodes.spec_get(a) == ns0.spec_get(a),
                        None => true,
                    })
                }),
            // everything not owned by the old map is untouched
            forall|i: crate::Inode|
                !map_references(m0g, i) ==> #[trigger] nodes.spec_get(i) == ns0.spec_get(i),
        decreases m0g.len() - j,
    {
        let ghost pre_iter = *nodes;
        let survives = crate::util::keymap::find_index(&lm, m0[j].0.as_str()).is_some();
        if !survives {
            let h = m0[j].1.clone();
            proof {
                assert(map_references(m0g, h.ino));
                assert forall|x: int|
                    0 <= x < m0g.len() && x != j implies refs_disjoint(
                    m0g[x].1,
                    m0g[j as int].1,
                ) by {}
                match m0g[j as int].1.alias {
                    Some((_, a)) => {
                        assert(map_references(m0g, a));
                        assert(a != m0g[j as int].1.ino);
                    },
                    None => {},
                }
            }
            nodes.free(h.ino);
            match &h.alias {
                Some((_, a0)) => {
                    nodes.free(*a0);
                },
                None => {},
            }
        }
        proof {
            assert forall|x: int|
                0 <= x < j + 1 && !listing_has(l, (#[trigger] m0g[x]).0@) implies ({
                &&& nodes.spec_get(m0g[x].1.ino) is None
                &&& (match m0g[x].1.alias {
                    Some((_, a)) => nodes.spec_get(a) is None,
                    None => true,
                })
            }) by {
                if x == j as int {
                    if survives {
                        assert(crate::util::keymap::has_key(lmg, m0g[j as int].0@));
                        assert(false);
                    } else {
                        assert(nodes.spec_get(m0g[j as int].1.ino) is None);
                        match m0g[j as int].1.alias {
                            Some((_, a)) => {
                                assert(nodes.spec_get(a) is None);
                            },
                            None => {},
                        }
                    }
                } else {
                    assert(pre_iter.spec_get(m0g[x].1.ino) is None);
                    if !survives {
                        assert(refs_disjoint(m0g[x].1, m0g[j as int].1));
                    }
                    assert(nodes.spec_get(m0g[x].1.ino) is None);
                    match m0g[x].1.alias {
                        Some((_, a)) => {
                            assert(pre_iter.spec_get(a) is None);
                            assert(nodes.spec_get(a) is None);
                        },
                        None => {},
                    }
                }
            }
        }
        j += 1;
    }

    // update phase: write fresh metadata into surviving entries and keep
    // their aliases in step with the new titles
    let mut u: usize = 0;
    while u < m0.len()
        invariant
            u <= m0g.len(),
            m0@ == m0g,
            crate::util::keymap::uniq_keys(m0g),
            handler_refs_ok(ns0, m0g, ino),
            crate::util::keymap::uniq_keys(lmg),
            lm@ == lmg,
            forall|k: Seq<char>|
                #[trigger] crate::util::keymap::has_key(lmg, k) <==> listing_has(l, k),
            forall|k: Seq<char>|
                #[trigger] crate::util::keymap::has_key(lmg, k)
                    ==> crate::util::keymap::spec_get(lmg, k) == Some(listing_last(l, k)),
            // the new map so far holds exactly the processed survivors
            crate::util::keymap::uniq_keys(m1@),
            forall|k: Seq<char>|
                #[trigger] crate::util::keymap::has_key(m1@, k) <==> (
                crate::util::keymap::has_key(m0g.take(u as int), k) && listing_has(l, k)),
            forall|k: Seq<char>|
                crate::util::keymap::has_key(m1@, k) ==> #[trigger] key_reconciled(
                    ns0,
                    *nodes,
                    vault_id,
                    m0g,
                    l,
                    m1@,
                    k,
                ),
            // deleted entries stay freed, unless a slot was already reused
            forall|x: int|
                0 <= x < m0g.len() && !listing_has(l, (#[trigger] m0g[x]).0@) ==> ({
                    &&& (nodes.spec_get(m0g[x].1.ino) is None || map_references(
                        m1@,
                        m0g[x].1.ino,
                    ))
                    &&& (match m0g[x].1.alias {
                        Some((_, a)) => nodes.spec_get(a) is None || map_references(m1@, a),
                        None => true,
                    })
                }),
            // unprocessed survivors are untouched
            forall|x: int|
                u <= x < m0g.len() && listing_has(l, (#[trigger] m0g[x]).0@) ==> ({
                    &&& nodes.spec_get(m0g[x].1.ino) == ns0.spec_get(m0g[x].1.ino)
                    &&& (match m0g[x].1.alias {
                        Some((_, a)) => nodes.spec_get(a) == ns0.spec_get(a),
                        None => true,
                    })
                }),
            forall|i: crate::Inode|
                !map_references(m0g, i) && ns0.spec_get(i) is Some ==> #[trigger] nodes.spec_get(
                    i,
                ) == ns0.spec_get(i),
        decreases m0g.len() - u,
    {
        let ghost pre_iter = *nodes;
        let ghost m1_prev = m1@;
        let key = m0[u].0.clone();
        let h0 = m0[u].1.clone();
        proof {
            crate::util::keymap::lemma_get_index(m0g, u as int);
            assert forall|x: int|
                0 <= x < m0g.len() && x != u implies refs_disjoint(
                m0g[x].1,
                m0g[u as int].1,
            ) by {}
            assert(!crate::util::keymap::has_key(m0g.take(u as int), m0g[u as int].0@)) by {
                if crate::util::keymap::has_key(m0g.take(u as int), m0g[u as int].0@) {
                    crate::util::keymap::lemma_has_key_index(
                        m0g.take(u as int),
                        m0g[u as int].0@,
                    );
                }
            }
            assert(!crate::util::keymap::has_key(m1_prev, m0g[u as int].0@));
        }
        match crate::util::keymap::find_index(&lm, key.as_str()) {
            Some(li) => {
                let meta = lm[li].1.clone();
                nodes.update_secret_metadata(h0.ino, meta.clone());
                let alias: Option<(String, crate::Inode)> = match eligible_alias(
                    meta.title.as_str(),
                    key.as_str(),
                ) {
                    Some(n) => match &h0.alias {
                        // rename in place, keeping the existing link node
                        Some((_, a0)) => Some((n, *a0)),
                        // the alias newly became valid
                        None => {
                            let attr = crate::fs::node::secret::metadata_attr(
                                h0.ino,
                                &meta,
                                config,
                            );
                            let aino = nodes.alloc_link(key.as_str(), &attr);
                            Some((n, aino))
                        },
                    },
                    None => {
                        match &h0.alias {
                            // the alias is no longer valid
                            Some((_, a0)) => {
                                nodes.free(*a0);
                            },
                            None => {},
                        }
                        None
                    },
                };
                m1.push((key, SecretHandler { ino: h0.ino, alias }));
                proof {
                    assert forall|k2: Seq<char>| true implies {
                        &&& (#[trigger] crate::util::keymap::has_key(m1@, k2) == (
                        crate::util::keymap::has_key(m1_prev, k2) || k2 == m0g[u as int].0@))
                        &&& (k2 != m0g[u as int].0@ ==> crate::util::keymap::spec_get(m1@, k2)
                            == crate::util::keymap::spec_get(m1_prev, k2))
                    } by {
                        crate::util::keymap::lemma_get_push(
                            m1_prev,
                            m1@.last(),
                            k2,
                        );
                    }
                    crate::util::keymap::lemma_get_push(
                        m1_prev,
                        m1@.last(),
                        m0g[u as int].0@,
                    );
                    crate::util::keymap::lemma_uniq_push(m1_prev, m1@.last());
                }
            },
            None => {},
        }
        proof {
            assert forall|k2: Seq<char>|
                crate::util::keymap::has_key(m1@, k2) implies #[trigger] key_reconciled(
                ns0,
                *nodes,
                vault_id,
                m0g,
                l,
                m1@,
                k2,
            ) by {
                if crate::util::keymap::has_key(m1_prev, k2) {
                    assert(key_reconciled(ns0, pre_iter, vault_id, m0g, l, m1_prev, k2));
                    assert(crate::util::keymap::spec_get(m1@, k2)
                        == crate::util::keymap::spec_get(m1_prev, k2));
                    assert(k2 != m0g[u as int].0@);
                    crate::util::keymap::lemma_get_take(m0g, u as int, k2);
                    let x = crate::util::keymap::lemma_get_witness(m0g, k2);
                    assert(x != u);
                    assert(refs_disjoint(m0g[x].1, m0g[u as int].1));
                } else {
                    // the entry pushed this iteration
                    assert(k2 == m0g[u as int].0@);
                    assert(crate::util::keymap::has_key(lmg, k2));
                }
            }
            assert forall|x: int|
                0 <= x < m0g.len() && !listing_has(l, (#[trigger] m0g[x]).0@) implies ({
                &&& (nodes.spec_get(m0g[x].1.ino) is None || map_references(m1@, m0g[x].1.ino))
                &&& (match m0g[x].1.alias {
                    Some((_, a)) => nodes.spec_get(a) is None || map_references(m1@, a),
                    None => true,
                })
            }) by {
                if x != u {
                    assert(refs_disjoint(m0g[x].1, m0g[u as int].1));
                }
                if map_references(m1_prev, m0g[x].1.ino) {
                    let w = choose|w: int|
                        0 <= w < m1_prev.len() && ({
                            let hh = (#[trigger] m1_prev[w]).1;
                            hh.ino == m0g[x].1.ino || (match hh.alias {
                                Some((_, aa)) => aa == m0g[x].1.ino,
                                None => false,
                            })
                        });
                    assert(m1@[w] == m1_prev[w]);
                }
                match m0g[x].1.alias {
                    Some((_, a)) => {
                        if map_references(m1_prev, a) {
                            let w = choose|w: int|
                                0 <= w < m1_prev.len() && ({
                                    let hh = (#[trigger] m1_prev[w]).1;
                                    hh.ino == a || (match hh.alias {
                                        Some((_, aa)) => aa == a,
                                        None => false,
                                    })
                                });
                            assert(m1@[w] == m1_prev[w]);
                        }
                    },
                    None => {},
                }
                if m1@.len() > m1_prev.len() {
                    assert(m1@[m1@.len() - 1] == m1@.last());
                }
            }
        }
        proof {
            assert(m0g.take(u + 1) =~= m0g.take(u as int).push(m0g[u as int]));
            assert forall|k2: Seq<char>| true implies (#[trigger] crate::util::keymap::has_key(
                m0g.take(u + 1),
                k2,
            ) == (crate::util::keymap::has_key(m0g.take(u as int), k2) || k2
                == m0g[u as int].0@)) by {
                crate::util::keymap::lemma_get_push(
                    m0g.take(u as int),
                    m0g[u as int],
                    k2,
                );
            }
            assert forall|k2: Seq<char>| #[trigger] crate::util::keymap::has_key(m1@, k2) <==> (
            crate::util::keymap::has_key(m0g.take(u + 1), k2) && listing_has(l, k2)) by {
                if k2 == m0g[u as int].0@ {
                    assert(crate::util::keymap::has_key(lmg, k2) <==> listing_has(l, k2));
                }
            }
        }
        u += 1;
    }
    proof {
        assert(m0g.take(m0g.len() as int) =~= m0g);
    }

    // creation phase: allocate nodes for entries new to the listing
    let mut t: usize = 0;
    proof {
        assert(lmg.take(0) =~= Seq::<(String, SecretMetadata)>::empty());
    }
    while t < lm.len()
        invariant
            t <= lmg.len(),
            m0@ == m0g,
            crate::util::keymap::uniq_keys(m0g),
            handler_refs_ok(ns0, m0g, ino),
            crate::util::keymap::uniq_keys(lmg),
            lm@ == lmg,
            forall|k: Seq<char>|
                #[trigger] crate::util::keymap::has_key(lmg, k) <==> listing_has(l, k),
            forall|k: Seq<char>|
                #[trigger] crate::util::keymap::has_key(lmg, k)
                    ==> crate::util::keymap::spec_get(lmg, k) == Some(listing_last(l, k)),
            crate::util::keymap::uniq_keys(m1@),
            forall|k: Seq<char>|
                #[trigger] crate::util::keymap::has_key(m1@, k) <==> ((
                crate::util::keymap::has_key(m0g, k) && listing_has(l, k)) || (
                crate::util::keymap::has_key(lmg.take(t as int), k)
                    && !crate::util::keymap::has_key(m0g, k))),
            forall|k: Seq<char>|
                crate::util::keymap::has_key(m1@, k) ==> #[trigger] key_reconciled(
                    ns0,
                    *nodes,
                    vault_id,
                    m0g,
                    l,
                    m1@,
                    k,
                ),
            forall|x: int|
                0 <= x < m0g.len() && !listing_has(l, (#[trigger] m0g[x]).0@) ==> ({
                    &&& (nodes.spec_get(m0g[x].1.ino) is None || map_references(
                        m1@,
                        m0g[x].1.ino,
                    ))
                    &&& (match m0g[x].1.alias {
                        Some((_, a)) => nodes.spec_get(a) is None || map_references(m1@, a),
                        None => true,
                    })
                }),
            forall|i: crate::Inode|
                !map_references(m0g, i) && ns0.spec_get(i) is Some ==> #[trigger] nodes.spec_get(
                    i,
                ) == ns0.spec_get(i),
        decreases lmg.len() - t,
    {
        let ghost pre_iter = *nodes;
        let ghost m1_prev = m1@;
        let key = lm[t].0.clone();
        proof {
            crate::util::keymap::lemma_get_index(lmg, t as int);
            assert(!crate::util::keymap::has_key(lmg.take(t as int), lmg[t as int].0@)) by {
                if crate::util::keymap::has_key(lmg.take(t as int), lmg[t as int].0@) {
                    crate::util::keymap::lemma_has_key_index(
                        lmg.take(t as int),
                        lmg[t as int].0@,
                    );
                }
            }
        }
        let is_new = match crate::util::keymap::find_index(&m0, key.as_str()) {
            Some(_) => false,
            None => true,
        };
        if is_new {
            let meta = lm[t].1.clone();
            let secret_id = id::Secret::new(&vault_id, key.as_str());
            let vid = nodes.vacant_ino();
            let ghost pre_alloc = *nodes;
            let h = nodes.allocate(
                crate::fs::node::Node::new_secret(vid, secret_id, meta.clone()),
            );
            proof {
                pre_alloc.lemma_lowest_free_unique(vid, h.spec_ino());
            }
            let sino = h.persist();
            let alias: Option<(String, crate::Inode)> = match eligible_alias(
                meta.title.as_str(),
                key.as_str(),
            ) {
                Some(n) => {
                    let attr = crate::fs::node::secret::metadata_attr(sino, &meta, config);
                    let aino = nodes.alloc_link(key.as_str(), &attr);
                    Some((n, aino))
                },
                None => None,
            };
            m1.push((key, SecretHandler { ino: sino, alias }));
            proof {
                assert forall|k2: Seq<char>| true implies {
                    &&& (#[trigger] crate::util::keymap::has_key(m1@, k2) == (
                    crate::util::keymap::has_key(m1_prev, k2) || k2 == lmg[t as int].0@))
                    &&& (k2 != lmg[t as int].0@ ==> crate::util::keymap::spec_get(m1@, k2)
                        == crate::util::keymap::spec_get(m1_prev, k2))
                } by {
                    crate::util::keymap::lemma_get_push(
                        m1_prev,
                        m1@.last(),
                        k2,
                    );
                }
                crate::util::keymap::lemma_get_push(
                    m1_prev,
                    m1@.last(),
                    lmg[t as int].0@,
                );
                crate::util::keymap::lemma_uniq_push(m1_prev, m1@.last());
            }
        }
        proof {
            assert forall|k2: Seq<char>|
                crate::util::keymap::has_key(m1@, k2) implies #[trigger] key_reconciled(
                ns0,
                *nodes,
                vault_id,
                m0g,
                l,
                m1@,
                k2,
            ) by {
                if crate::util::keymap::has_key(m1_prev, k2) {
                    assert(key_reconciled(ns0, pre_iter, vault_id, m0g, l, m1_prev, k2));
                    assert(crate::util::keymap::spec_get(m1@, k2)
                        == crate::util::keymap::spec_get(m1_prev, k2));
                } else {
                    assert(k2 == lmg[t as int].0@);
                    assert(crate::util::keymap::has_key(lmg, k2));
                    assert(!crate::util::keymap::has_key(m0g, k2));
                }
            }
            assert forall|x: int|
                0 <= x < m0g.len() && !listing_has(l, (#[trigger] m0g[x]).0@) implies ({
                &&& (nodes.spec_get(m0g[x].1.ino) is None || map_references(m1@, m0g[x].1.ino))
                &&& (match m0g[x].1.alias {
                    Some((_, a)) => nodes.spec_get(a) is None || map_references(m1@, a),
                    None => true,
                })
            }) by {
                if map_references(m1_prev, m0g[x].1.ino) {
                    let w = choose|w: int|
                        0 <= w < m1_prev.len() && ({
                            let hh = (#[trigger] m1_prev[w]).1;
                            hh.ino == m0g[x].1.ino || (match hh.alias {
                                Some((_, aa)) => aa == m0g[x].1.ino,
                                None => false,
                            })
                        });
                    assert(m1@[w] == m1_prev[w]);
                }
                match m0g[x].1.alias {
                    Some((_, a)) => {
                        if map_references(m1_prev, a) {
                            let w = choose|w: int|
                                0 <= w < m1_prev.len() && ({
                                    let hh = (#[trigger] m1_prev[w]).1;
                                    hh.ino == a || (match hh.alias {
                                        Some((_, aa)) => aa == a,
                                        None => false,
                                    })
                                });
                            assert(m1@[w] == m1_prev[w]);
                        }
                    },
                    None => {},
                }
                if m1@.len() > m1_prev.len() {
                    assert(m1@[m1@.len() - 1] == m1@.last());
                }
            }
        }
        proof {
            assert(lmg.take(t + 1) =~= lmg.take(t as int).push(lmg[t as int]));
            assert forall|k2: Seq<char>| true implies (#[trigger] crate::util::keymap::has_key(
                lmg.take(t + 1),
                k2,
            ) == (crate::util::keymap::has_key(lmg.take(t as int), k2) || k2
                == lmg[t as int].0@)) by {
                crate::util::keymap::lemma_get_push(
                    lmg.take(t as int),
                    lmg[t as int],
                    k2,
                );
            }
        }
        t += 1;
    }
    proof {
        assert(lmg.take(lmg.len() as int) =~= lmg);
    }

    // record the new map and the refresh time
    let ghost ns_mid = *nodes;
    let ghost m1g = m1@;
    proof {
        assert(!map_references(m0g, ino));
        assert(ns_mid.spec_get(ino) == ns0.spec_get(ino));
    }
    nodes.set_vault_entries(ino, m1, now_ms);
    proof {
        assert forall|k2: Seq<char>|
            listing_has(l, k2) implies #[trigger] key_reconciled(
            ns0,
            *nodes,
            vault_id,
            m0g,
            l,
            m1g,
            k2,
        ) by {
            assert(crate::util::keymap::has_key(m1g, k2));
            assert(key_reconciled(ns0, ns_mid, vault_id, m0g, l, m1g, k2));
            match crate::util::keymap::spec_get(m0g, k2) {
                Some(h0k) => {
                    assert(crate::util::keymap::has_key(m0g, k2));
                    let x = crate::util::keymap::lemma_get_witness(m0g, k2);
                    assert(m0g[x].1.ino != ino);
                },
                None => {
                    let h1 = crate::util::keymap::spec_get(m1g, k2).unwrap();
                    assert(ns_mid.spec_get(h1.ino) is Some);
                },
            }
        }
        assert forall|x: int|
            0 <= x < m0g.len() && !listing_has(l, (#[trigger] m0g[x]).0@) implies ({
            &&& (nodes.spec_get(m0g[x].1.ino) is None || map_references(m1g, m0g[x].1.ino))
            &&& (match m0g[x].1.alias {
                Some((_, a)) => nodes.spec_get(a) is None || map_references(m1g, a),
                None => true,
            })
        }) by {
            assert(m0g[x].1.ino != ino);
        }
    }
    true
}

} // verus!
