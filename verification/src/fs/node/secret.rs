//! A secret node: the third level of the tree, and the reconciliation of its
//! fields against freshly fetched data.

use vstd::prelude::*;
use vstd::string::*;

use crate::config::Config;
use crate::fs::attr::FileAttr;
use crate::fs::node::field::Field;
use crate::fs::dentry::{DirEntry, FileType};
use crate::onepassword::id;
use crate::onepassword::types::{SecretField, SecretMetadata};
use crate::util::strings::{replace_slashes, replaced_slashes};
use crate::util::throttle::Throttle;
use crate::Inode;

verus! {

/// A secret node.
pub struct Secret {
    /// The inode number of the node.
    pub ino: Inode,
    /// The ID of the secret.
    pub id: id::Secret,
    /// The metadata of the secret, updated in place on refresh.
    pub metadata: SecretMetadata,
    /// The field handlers of the secret, keyed by field ID.
    pub entries: Throttle<Vec<(String, FieldHandler)>>,
}

/// A field handler: the field node's inode and, when present, the alias
/// entry pointing at it.
pub struct FieldHandler {
    /// The inode of the field node.
    pub ino: Inode,
    /// The alias name and the inode of its link node, if present.
    pub alias: Option<(String, Inode)>,
}

impl Clone for FieldHandler {
    fn clone(&self) -> (r: Self)
        ensures
            r == *self,
    {
        FieldHandler {
            ino: self.ino,
            alias: match &self.alias {
                Some((name, ino)) => Some((name.clone(), *ino)),
                None => None,
            },
        }
    }
}

/// The value of a field.
pub struct FieldValue(pub String);

impl FieldValue {
    /// The value of the field.
    pub fn value(&self) -> (r: &str)
        ensures
            r@ == self.0@,
    {
        self.0.as_str()
    }
}

impl Clone for FieldValue {
    fn clone(&self) -> (r: Self)
        ensures
            r == *self,
    {
        FieldValue(self.0.clone())
    }
}

impl Secret {
    /// Creates a new secret node with a stale, empty field map.
    pub fn new(ino: Inode, id: id::Secret, meta: SecretMetadata) -> (r: Secret)
        ensures
            r.ino == ino,
            r.id == id,
            r.metadata == meta,
            r.entries.spec_value()@ =~= Seq::<(String, FieldHandler)>::empty(),
            r.entries.spec_last_update() is None,
    {
        Secret { ino, id, metadata: meta, entries: Throttle::new_stale(Vec::new()) }
    }

    /// The attributes of the node, derived from its current metadata.
    pub fn attr(&self, config: &Config) -> (a: FileAttr)
        ensures
            a == spec_secret_attr(*self, *config),
    {
        FileAttr {
            ino: self.ino,
            size: 512,
            blocks: 0,
            atime_ms: self.metadata.updated_at_ms,
            mtime_ms: self.metadata.updated_at_ms,
            ctime_ms: self.metadata.updated_at_ms,
            crtime_ms: self.metadata.created_at_ms,
            kind: FileType::Directory,
            perm: config.dir_mode,
            nlink: 1,
            uid: config.uid,
            gid: config.gid,
            rdev: 0,
            flags: 0,
            blksize: 512,
        }
    }

    /// The current directory entries of the secret: its field map's
    /// listing.  Refreshing the map first is the caller's business.
    pub fn entries(&self) -> (r: Vec<DirEntry>)
        ensures
            r@ == raw_field_entries(self.entries.spec_value()@),
    {
        secret_dir_entries(self.entries.value())
    }

    /// Replaces the metadata of the secret in place.
    ///
    /// Used when a refresh of the enclosing vault supplies newer metadata;
    /// the inode and the field map are untouched.
    pub fn update_metadata(&mut self, meta: SecretMetadata)
        ensures
            *final(self) == (Secret { metadata: meta, ..*old(self) }),
    {
        self.metadata = meta;
    }
}

/// The attributes a secret node with the given inode and metadata shows: a
/// directory whose times come from the metadata.
pub open spec fn spec_secret_attr_parts(ino: Inode, meta: SecretMetadata, config: Config) -> FileAttr {
    FileAttr {
        ino,
        size: 512,
        blocks: 0,
        atime_ms: meta.updated_at_ms,
        mtime_ms: meta.updated_at_ms,
        ctime_ms: meta.updated_at_ms,
        crtime_ms: meta.created_at_ms,
        kind: FileType::Directory,
        perm: config.dir_mode,
        nlink: 1,
        uid: config.uid,
        gid: config.gid,
        rdev: 0,
        flags: 0,
        blksize: 512,
    }
}

/// The attributes of a secret node.
pub open spec fn spec_secret_attr(s: Secret, config: Config) -> FileAttr {
    spec_secret_attr_parts(s.ino, s.metadata, config)
}

/// Computes the attributes a secret node with the given inode and metadata
/// shows, without the node at hand.
pub fn metadata_attr(ino: Inode, meta: &SecretMetadata, config: &Config) -> (a: FileAttr)
    ensures
        a == spec_secret_attr_parts(ino, *meta, *config),
{
    FileAttr {
        ino,
        size: 512,
        blocks: 0,
        atime_ms: meta.updated_at_ms,
        mtime_ms: meta.updated_at_ms,
        ctime_ms: meta.updated_at_ms,
        crtime_ms: meta.created_at_ms,
        kind: FileType::Directory,
        perm: config.dir_mode,
        nlink: 1,
        uid: config.uid,
        gid: config.gid,
        rdev: 0,
        flags: 0,
        blksize: 512,
    }
}

/// The directory entries one field handler contributes: its canonical
/// entry and, when present, its alias entry.
pub open spec fn entry_group(p: (String, FieldHandler)) -> Seq<DirEntry> {
    let base = seq![
        DirEntry { inode: p.1.ino, name: p.0, file_type: FileType::RegularFile },
    ];
    match p.1.alias {
        Some((n, aino)) => base.push(
            DirEntry { inode: aino, name: n, file_type: FileType::Symlink },
        ),
        None => base,
    }
}

/// The listing of a field map.  Unlike a vault's, it is not deduplicated.
pub open spec fn raw_field_entries(m: Seq<(String, FieldHandler)>) -> Seq<DirEntry>
    decreases m.len(),
{
    if m.len() == 0 {
        Seq::empty()
    } else {
        entry_group(m[0]) + raw_field_entries(m.drop_first())
    }
}

/// The listing grows by one group per appended handler.
pub proof fn lemma_raw_field_push(m: Seq<(String, FieldHandler)>, p: (String, FieldHandler))
    ensures
        raw_field_entries(m.push(p)) == raw_field_entries(m) + entry_group(p),
    decreases m.len(),
{
    if m.len() == 0 {
        assert(m.push(p)[0] == p);
        assert(m.push(p).drop_first() =~= Seq::<(String, FieldHandler)>::empty());
        assert(entry_group(p) + raw_field_entries(Seq::empty()) =~= entry_group(p));
        assert(raw_field_entries(m) + entry_group(p) =~= entry_group(p));
    } else {
        assert(m.push(p)[0] == m[0]);
        assert(m.push(p).drop_first() =~= m.drop_first().push(p));
        lemma_raw_field_push(m.drop_first(), p);
        assert(entry_group(m[0]) + (raw_field_entries(m.drop_first()) + entry_group(p))
            =~= (entry_group(m[0]) + raw_field_entries(m.drop_first())) + entry_group(p));
    }
}

/// Builds the directory listing of a secret's field map: one regular-file
/// entry per field plus one symlink entry per alias.
pub fn secret_dir_entries(m: &Vec<(String, FieldHandler)>) -> (r: Vec<DirEntry>)
    ensures
        r@ == raw_field_entries(m@),
{
    let mut raw: Vec<DirEntry> = Vec::new();
    let mut i: usize = 0;
    while i < m.len()
        invariant
            i <= m@.len(),
            raw@ == raw_field_entries(m@.take(i as int)),
        decreases m@.len() - i,
    {
        let ghost prev = m@.take(i as int);
        raw.push(
            DirEntry { inode: m[i].1.ino, name: m[i].0.clone(), file_type: FileType::RegularFile },
        );
        match &m[i].1.alias {
            Some((aname, aino)) => {
                raw.push(DirEntry { inode: *aino, name: aname.clone(), file_type: FileType::Symlink });
            },
            None => {},
        }
        proof {
            assert(m@.take(i + 1) =~= prev.push(m@[i as int]));
            lemma_raw_field_push(prev, m@[i as int]);
            assert(raw@ =~= raw_field_entries(prev) + entry_group(m@[i as int]));
        }
        i += 1;
    }
    proof {
        assert(m@.take(m@.len() as int) =~= m@);
    }
    raw
}

/// `s` with everything up to and including its `n`-th `/` dropped; `s`
/// itself when it has fewer than `n` slashes.
pub open spec fn skip_past_slashes(s: Seq<char>, n: nat) -> Seq<char>
    decreases s.len(),
{
    if n == 0 {
        s
    } else if s.len() == 0 {
        s
    } else if s[0] == '/' {
        skip_past_slashes(s.drop_first(), (n - 1) as nat)
    } else {
        skip_past_slashes(s.drop_first(), n)
    }
}

/// The alias name derived from a field's source reference, if any.
///
/// The reference has the shape `op://<account>/<vault>/<item>/<field>`; the
/// alias joins the segments after the fourth `/` with `_`.  No alias is
/// derived from an empty reference or from one that ends with `/`.
pub open spec fn spec_field_alias(r: Seq<char>) -> Option<Seq<char>> {
    if r.len() == 0 || r[r.len() - 1] == '/' {
        None
    } else {
        Some(replaced_slashes(skip_past_slashes(r, 4)))
    }
}

/// Returns the alias name of a field, derived from its source reference.
pub fn field_alias(reference: &str) -> (r: Option<String>)
    ensures
        match r {
            Some(s) => spec_field_alias(reference@) == Some(s@),
            None => spec_field_alias(reference@) is None,
        },
{
    let n = reference.unicode_len();
    if n == 0 {
        return None;
    }
    if reference.get_char(n - 1) == '/' {
        return None;
    }

    let mut i: usize = 0;
    let mut seen: usize = 0;
    proof {
        assert(reference@.skip(0) =~= reference@);
    }
    while i < n && seen < 4
        invariant
            i <= n,
            seen <= 4,
            n == reference@.len(),
            skip_past_slashes(reference@, 4) == skip_past_slashes(
                reference@.skip(i as int),
                (4 - seen) as nat,
            ),
        decreases n - i,
    {
        let ghost suffix = reference@.skip(i as int);
        proof {
            assert(suffix[0] == reference@[i as int]);
            assert(suffix.drop_first() =~= reference@.skip(i + 1));
        }
        if reference.get_char(i) == '/' {
            seen += 1;
        }
        i += 1;
    }
    let tail = reference.substring_char(i, n);
    proof {
        if seen == 4 {
            assert(skip_past_slashes(reference@.skip(i as int), 0) == reference@.skip(i as int));
        } else {
            assert(i == n);
            assert(reference@.skip(i as int) =~= Seq::<char>::empty());
        }
        assert(tail@ == reference@.skip(i as int));
    }
    Some(replace_slashes(tail))
}

/// The value a fetched field carries: its value when present, empty
/// otherwise.
pub open spec fn spec_field_value(f: SecretField) -> Seq<char> {
    match f.value {
        Some(v) => v@,
        None => Seq::empty(),
    }
}

/// Whether some fetched field carries the (non-empty) ID `k`; fields with
/// an empty ID are invalid and ignored.
pub open spec fn field_listing_has(fl: Seq<SecretField>, k: Seq<char>) -> bool {
    k.len() != 0 && (exists|i: int| 0 <= i < fl.len() && (#[trigger] fl[i]).id@ == k)
}

/// The last fetched field carrying ID `k`.
pub open spec fn field_listing_last(fl: Seq<SecretField>, k: Seq<char>) -> SecretField
    decreases fl.len(),
{
    if fl.len() == 0 {
        vstd::pervasive::arbitrary()
    } else if fl.last().id@ == k {
        fl.last()
    } else {
        field_listing_last(fl.drop_last(), k)
    }
}

proof fn lemma_field_take_step(fl: Seq<SecretField>, t: int)
    requires
        0 <= t < fl.len(),
    ensures
        forall|k: Seq<char>|
            #[trigger] field_listing_has(fl.take(t + 1), k) <==> (field_listing_has(
                fl.take(t),
                k,
            ) || (k == fl[t].id@ && k.len() != 0)),
        forall|k: Seq<char>|
            #[trigger] field_listing_last(fl.take(t + 1), k) == (if fl[t].id@ == k {
                fl[t]
            } else {
                field_listing_last(fl.take(t), k)
            }),
{
    let pre = fl.take(t);
    let cur = fl.take(t + 1);
    assert(cur.drop_last() =~= pre);
    assert(cur.last() == fl[t]);
    assert forall|k: Seq<char>|
        #[trigger] field_listing_has(cur, k) <==> (field_listing_has(pre, k) || (k == fl[t].id@
            && k.len() != 0)) by {
        if field_listing_has(cur, k) {
            let i = choose|i: int| 0 <= i < cur.len() && (#[trigger] cur[i]).id@ == k;
            if i < t {
                assert(pre[i].id@ == k);
            }
        }
        if field_listing_has(pre, k) {
            let i = choose|i: int| 0 <= i < pre.len() && (#[trigger] pre[i]).id@ == k;
            assert(cur[i].id@ == k);
        }
        if k == fl[t].id@ && k.len() != 0 {
            assert(cur[t].id@ == k);
        }
    }
}

/// Builds an index of the fetched fields by field ID, dropping fields with
/// an empty ID; of fields sharing an ID, the later one wins.
pub fn index_fields(fields: &Vec<SecretField>) -> (r: Vec<(String, SecretField)>)
    ensures
        crate::util::keymap::uniq_keys(r@),
        forall|k: Seq<char>|
            #[trigger] crate::util::keymap::has_key(r@, k) <==> field_listing_has(fields@, k),
        forall|k: Seq<char>|
            #[trigger] crate::util::keymap::has_key(r@, k) ==> crate::util::keymap::spec_get(
                r@,
                k,
            ) == Some(field_listing_last(fields@, k)),
{
    let mut r: Vec<(String, SecretField)> = Vec::new();
    let mut t: usize = 0;
    proof {
        assert(fields@.take(0) =~= Seq::<SecretField>::empty());
    }
    while t < fields.len()
        invariant
            t <= fields@.len(),
            crate::util::keymap::uniq_keys(r@),
            forall|k: Seq<char>|
                #[trigger] crate::util::keymap::has_key(r@, k) <==> field_listing_has(
                    fields@.take(t as int),
                    k,
                ),
            forall|k: Seq<char>|
                #[trigger] crate::util::keymap::has_key(r@, k)
                    ==> crate::util::keymap::spec_get(r@, k) == Some(
                    field_listing_last(fields@.take(t as int), k),
                ),
        decreases fields@.len() - t,
    {
        let ghost prev = r@;
        let field = &fields[t];
        proof {
            lemma_field_take_step(fields@, t as int);
        }
        if field.id.as_str().unicode_len() == 0 {
            t += 1;
            continue;
        }
        let key = field.id.clone();
        match crate::util::keymap::find_index(&r, key.as_str()) {
            Some(i) => {
                r[i] = (key, field.clone());
                proof {
                    assert forall|k: Seq<char>| true implies {
                        &&& (#[trigger] crate::util::keymap::has_key(r@, k)
                            <==> crate::util::keymap::has_key(prev, k))
                        &&& (crate::util::keymap::has_key(r@, k)
                            ==> crate::util::keymap::spec_get(r@, k) == (if k
                            == fields@[t as int].id@ {
                            Some(fields@[t as int])
                        } else {
                            crate::util::keymap::spec_get(prev, k)
                        }))
                    } by {
                        crate::util::keymap::lemma_get_update(
                            prev,
                            i as int,
                            (key, fields@[t as int]),
                            k,
                        );
                        if k == fields@[t as int].id@ {
                            crate::util::keymap::lemma_get_index(prev, i as int);
                        }
                    }
                }
            },
            None => {
                r.push((key, field.clone()));
                proof {
                    assert forall|k: Seq<char>| true implies {
                        &&& (#[trigger] crate::util::keymap::has_key(r@, k) <==> (
                        crate::util::keymap::has_key(prev, k) || k == fields@[t as int].id@))
                        &&& (crate::util::keymap::has_key(r@, k)
                            ==> crate::util::keymap::spec_get(r@, k) == (if k
                            == fields@[t as int].id@ && !crate::util::keymap::has_key(prev, k) {
                            Some(fields@[t as int])
                        } else {
                            crate::util::keymap::spec_get(prev, k)
                        }))
                    } by {
                        crate::util::keymap::lemma_get_push(prev, (key, fields@[t as int]), k);
                    }
                    crate::util::keymap::lemma_has_key_index(prev, fields@[t as int].id@);
                    crate::util::keymap::lemma_uniq_push(prev, (key, fields@[t as int]));
                }
            },
        }
        t += 1;
    }
    proof {
        assert(fields@.take(fields@.len() as int) =~= fields@);
    }
    r
}

/// Whether `ino` is the node or alias inode of some handler of `m`.
pub open spec fn map_references(m: Seq<(String, FieldHandler)>, ino: Inode) -> bool {
    exists|j: int|
        0 <= j < m.len() && ({
            let h = (#[trigger] m[j]).1;
            h.ino == ino || (match h.alias {
                Some((_, a)) => a == ino,
                None => false,
            })
        })
}

/// No two handlers share any inode, and neither a handler with itself.
pub open spec fn refs_disjoint(a: FieldHandler, b: FieldHandler) -> bool {
    &&& a.ino != b.ino
    &&& (match a.alias {
        Some((_, aa)) => aa != b.ino && (match b.alias {
            Some((_, ab)) => aa != ab,
            None => true,
        }),
        None => true,
    })
    &&& (match b.alias {
        Some((_, ab)) => ab != a.ino,
        None => true,
    })
}

/// The ownership discipline a field map observes, mirroring the vault's.
pub open spec fn handler_refs_ok(
    ns: crate::fs::node::NodeSet,
    m: Seq<(String, FieldHandler)>,
    except: Inode,
) -> bool {
    &&& (forall|j: int|
        0 <= j < m.len() ==> ({
            let h = (#[trigger] m[j]).1;
            &&& ns.spec_get(h.ino) is Some
            &&& h.ino != except
            &&& (match h.alias {
                Some((_, a)) => ns.spec_get(a) is Some && a != h.ino && a != except,
                None => true,
            })
        }))
    &&& (forall|x: int, y: int|
        0 <= x < m.len() && 0 <= y < m.len() && x != y ==> refs_disjoint(
            (#[trigger] m[x]).1,
            (#[trigger] m[y]).1,
        ))
}

/// Tests whether two handlers share any inode.
pub fn refs_disjoint_exec(a: &FieldHandler, b: &FieldHandler) -> (r: bool)
    ensures
        r == refs_disjoint(*a, *b),
{
    let mut r = a.ino != b.ino;
    match &a.alias {
        Some((_, aa)) => {
            if *aa == b.ino {
                r = false;
            }
            match &b.alias {
                Some((_, ab)) => {
                    if *aa == *ab {
                        r = false;
                    }
                },
                None => {},
            }
        },
        None => {},
    }
    match &b.alias {
        Some((_, ab)) => {
            if *ab == a.ino {
                r = false;
            }
        },
        None => {},
    }
    r
}

/// Tests the ownership discipline of a field map at run time.
pub fn check_handler_refs(
    nodes: &crate::fs::node::NodeSet,
    m: &Vec<(String, FieldHandler)>,
    except: Inode,
) -> (r: bool)
    ensures
        r == handler_refs_ok(*nodes, m@, except),
{
    let mut x: usize = 0;
    while x < m.len()
        invariant
            x <= m@.len(),
            forall|j: int|
                0 <= j < x ==> ({
                    let h = (#[trigger] m@[j]).1;
                    &&& nodes.spec_get(h.ino) is Some
                    &&& h.ino != except
                    &&& (match h.alias {
                        Some((_, a)) => nodes.spec_get(a) is Some && a != h.ino && a != except,
                        None => true,
                    })
                }),
            forall|a: int, b: int|
                0 <= a < x && 0 <= b < x && a != b ==> refs_disjoint(
                    (#[trigger] m@[a]).1,
                    (#[trigger] m@[b]).1,
                ),
        decreases m@.len() - x,
    {
        let h = &m[x].1;
        if nodes.get(h.ino).is_none() || h.ino == except {
            return false;
        }
        match &h.alias {
            Some((_, a)) => {
                if nodes.get(*a).is_none() || *a == h.ino || *a == except {
                    return false;
                }
            },
            None => {},
        }
        let mut y: usize = 0;
        while y < x
            invariant
                y <= x < m@.len(),
                *h == m@[x as int].1,
                forall|b: int|
                    0 <= b < y ==> refs_disjoint((#[trigger] m@[b]).1, m@[x as int].1)
                        && refs_disjoint(m@[x as int].1, (#[trigger] m@[b]).1),
            decreases x - y,
        {
            let d1 = refs_disjoint_exec(&m[y].1, h);
            let d2 = refs_disjoint_exec(h, &m[y].1);
            if !d1 || !d2 {
                proof {
                    assert(!refs_disjoint(m@[y as int].1, m@[x as int].1) || !refs_disjoint(
                        m@[x as int].1,
                        m@[y as int].1,
                    ));
                    assert(!handler_refs_ok(*nodes, m@, except));
                }
                return false;
            }
            proof {
                assert(refs_disjoint(m@[y as int].1, m@[x as int].1));
                assert(refs_disjoint(m@[x as int].1, m@[y as int].1));
            }
            y += 1;
        }
        x += 1;
    }
    true
}

/// The alias a field is entitled to: the name derived from its source
/// reference, unless that name equals the canonical field ID.
pub open spec fn spec_eligible_field_alias(reference: Seq<char>, id: Seq<char>) -> Option<
    Seq<char>,
> {
    match spec_field_alias(reference) {
        Some(n) => if n == id {
            None
        } else {
            Some(n)
        },
        None => None,
    }
}

/// Derives the alias name a field is entitled to, if any.
pub fn eligible_field_alias(reference: &str, id: &str) -> (r: Option<String>)
    ensures
        match r {
            Some(n) => spec_eligible_field_alias(reference@, id@) == Some(n@),
            None => spec_eligible_field_alias(reference@, id@) is None,
        },
{
    match field_alias(reference) {
        Some(n) => {
            if crate::util::strings::str_eq(n.as_str(), id) {
                None
            } else {
                Some(n)
            }
        },
        None => None,
    }
}

/// Alias eligibility for fields: a field is entitled to an alias exactly
/// when its reference is non-empty, does not end with a slash, and the
/// name joined from the segments after the fourth slash differs from the
/// canonical field ID; the alias, when present, is that joined name.
pub proof fn lemma_field_alias_eligibility(reference: Seq<char>, id: Seq<char>)
    ensures
        spec_eligible_field_alias(reference, id) is None <==> (reference.len() == 0
            || reference[reference.len() - 1] == '/' || crate::util::strings::replaced_slashes(
            skip_past_slashes(reference, 4),
        ) == id),
        spec_eligible_field_alias(reference, id) matches Some(n)
            ==> n == crate::util::strings::replaced_slashes(skip_past_slashes(reference, 4)) && n
            != id,
{
}

/// What reconciliation guarantees for the field ID `k` of the fetched data.
pub open spec fn key_reconciled(
    pre: crate::fs::node::NodeSet,
    post: crate::fs::node::NodeSet,
    owner_ino: Inode,
    owner_meta: SecretMetadata,
    m0: Seq<(String, FieldHandler)>,
    fl: Seq<SecretField>,
    m1: Seq<(String, FieldHandler)>,
    k: Seq<char>,
) -> bool {
    match crate::util::keymap::spec_get(m1, k) {
        Some(h1) => {
            let field = field_listing_last(fl, k);
            match crate::util::keymap::spec_get(m0, k) {
                Some(h0) => {
                    // an updated entry keeps its handler whole - a field's
                    // alias is fixed at creation time - and the new value is
                    // written into the field node in place
                    &&& h1 == h0
                    &&& (match pre.spec_get(h0.ino) {
                        Some(crate::fs::node::Node::Field(f0)) => match post.spec_get(h0.ino) {
                            Some(crate::fs::node::Node::Field(f)) => {
                                &&& f.ino == f0.ino
                                &&& f.secret_ino == f0.secret_ino
                                &&& f.trim == f0.trim
                                &&& f.data.0@ == spec_field_value(field)
                            },
                            _ => false,
                        },
                        _ => true,
                    })
                },
                None => {
                    // a created entry gets a fresh field node
                    &&& (pre.spec_get(h1.ino) is None || map_references(m0, h1.ino))
                    &&& (match post.spec_get(h1.ino) {
                        Some(crate::fs::node::Node::Field(f)) => {
                            &&& f.ino == h1.ino
                            &&& f.secret_ino == owner_ino
                            &&& f.data.0@ == spec_field_value(field)
                            &&& f.trim == (k == "notesPlain"@)
                        },
                        _ => false,
                    })
                    &&& (match spec_eligible_field_alias(field.reference@, k) {
                        Some(n) => match h1.alias {
                            Some((n1, a1)) => n1@ == n && (pre.spec_get(a1) is None
                                || map_references(m0, a1)),
                            None => false,
                        },
                        None => h1.alias is None,
                    })
                },
            }
        },
        None => false,
    }
}

/// What reconciling a secret's field map `m0` against fetched fields `fl`
/// does, mirroring the vault-level reconciliation; field aliases are never
/// renamed in place, only created with their field and dropped with it.
pub open spec fn reconciled(
    pre: crate::fs::node::NodeSet,
    post: crate::fs::node::NodeSet,
    owner_ino: Inode,
    owner_meta: SecretMetadata,
    m0: Seq<(String, FieldHandler)>,
    fl: Seq<SecretField>,
    m1: Seq<(String, FieldHandler)>,
) -> bool {
    &&& crate::util::keymap::uniq_keys(m1)
    &&& (forall|k: Seq<char>|
        #[trigger] crate::util::keymap::has_key(m1, k) <==> field_listing_has(fl, k))
    &&& (forall|k: Seq<char>|
        #[trigger] field_listing_has(fl, k) ==> key_reconciled(
            pre,
            post,
            owner_ino,
            owner_meta,
            m0,
            fl,
            m1,
            k,
        ))
    &&& (forall|x: int|
        0 <= x < m0.len() && !field_listing_has(fl, (#[trigger] m0[x]).0@) ==> ({
            &&& (post.spec_get(m0[x].1.ino) is None || map_references(m1, m0[x].1.ino))
            &&& (match m0[x].1.alias {
                Some((_, a)) => post.spec_get(a) is None || map_references(m1, a),
                None => true,
            })
        }))
    &&& (forall|i: Inode|
        i != owner_ino && pre.spec_get(i) is Some && !map_references(m0, i)
            ==> #[trigger] post.spec_get(i) == pre.spec_get(i))
}

/// Copies a field map.
fn clone_map(m: &Vec<(String, FieldHandler)>) -> (r: Vec<(String, FieldHandler)>)
    ensures
        r@ == m@,
{
    let mut r: Vec<(String, FieldHandler)> = Vec::new();
    let mut i: usize = 0;
    while i < m.len()
        invariant
            i <= m@.len(),
            r@ == m@.take(i as int),
        decreases m@.len() - i,
    {
        r.push((m[i].0.clone(), m[i].1.clone()));
        proof {
            assert(r@ =~= m@.take(i + 1));
        }
        i += 1;
    }
    proof {
        assert(m@.take(m@.len() as int) =~= m@);
    }
    r
}

/// Reconciles the secret node under `ino` against freshly fetched data:
/// its metadata is replaced in place, fields absent from the data are
/// deleted and their nodes freed, surviving fields take the fetched value
/// in place with both their inode and their alias untouched, new fields
/// get freshly allocated nodes with their alias fixed at creation, and
/// `now_ms` is recorded as the field map's refresh time.
///
/// Returns false, changing nothing, when the slot does not hold a secret
/// or the map's ownership discipline does not hold of the arena; neither
/// arises in a tree built through this crate's own operations.
#[verifier::rlimit(100)]
pub fn refresh_secret_entries(
    nodes: &mut crate::fs::node::NodeSet,
    config: &Config,
    ino: Inode,
    data: &crate::onepassword::types::Secret,
    now_ms: u64,
) -> (ok: bool)
    ensures
        match old(nodes).spec_get(ino) {
            Some(crate::fs::node::Node::Secret(s0)) => {
                if crate::util::keymap::uniq_keys(s0.entries.spec_value()@) && handler_refs_ok(
                    *old(nodes),
                    s0.entries.spec_value()@,
                    ino,
                ) {
                    &&& ok
                    &&& (match final(nodes).spec_get(ino) {
                        Some(crate::fs::node::Node::Secret(s1)) => {
                            &&& s1.ino == s0.ino
                            &&& s1.id == s0.id
                            &&& s1.metadata == data.metadata
                            &&& s1.entries.spec_last_update() == Some(now_ms)
                            &&& reconciled(
                                *old(nodes),
                                *final(nodes),
                                ino,
                                data.metadata,
                                s0.entries.spec_value()@,
                                data.fields@,
                                s1.entries.spec_value()@,
                            )
                        },
                        _ => false,
                    })
                } else {
                    !ok && *final(nodes) == *old(nodes)
                }
            },
            _ => !ok && *final(nodes) == *old(nodes),
        },
{
    // probe the secret and copy what reconciliation needs
    let probe: Option<Vec<(String, FieldHandler)>> = match nodes.get(ino) {
        Some(crate::fs::node::Node::Secret(s)) => Some(clone_map(s.entries.value())),
        _ => None,
    };
    let m0 = match probe {
        Some(p) => p,
        None => {
            return false;
        },
    };
    if !crate::util::keymap::check_uniq(&m0) {
        return false;
    }
    if !check_handler_refs(nodes, &m0, ino) {
        return false;
    }
    let lm = index_fields(&data.fields);

    let ghost pre0 = *nodes;
    // the fetched metadata replaces the secret's own, in place
    nodes.update_secret_metadata(ino, data.metadata.clone());

    let ghost ns0 = *nodes;
    let ghost fl = data.fields@;
    let ghost m0g = m0@;
    let ghost lmg = lm@;
    let owner_meta = &data.metadata;

    let mut m1: Vec<(String, FieldHandler)> = Vec::new();

    // deletion phase: free the nodes of fields absent from the fetched data
    let mut j: usize = 0;
    while j < m0.len()
        invariant
            j <= m0g.len(),
            m0@ == m0g,
            crate::util::keymap::uniq_keys(m0g),
            handler_refs_ok(ns0, m0g, ino),
            crate::util::keymap::uniq_keys(lmg),
            lm@ == lmg,
            forall|k: Seq<char>|
                #[trigger] crate::util::keymap::has_key(lmg, k) <==> field_listing_has(fl, k),
            forall|x: int|
                0 <= x < j && !field_listing_has(fl, (#[trigger] m0g[x]).0@) ==> ({
                    &&& nodes.spec_get(m0g[x].1.ino) is None
                    &&& (match m0g[x].1.alias {
                        Some((_, a)) => nodes.spec_get(a) is None,
                        None => true,
                    })
                }),
            forall|x: int|
                0 <= x < m0g.len() && field_listing_has(fl, (#[trigger] m0g[x]).0@) ==> ({
                    &&& nodes.spec_get(m0g[x].1.ino) == ns0.spec_get(m0g[x].1.ino)
                    &&& (match m0g[x].1.alias {
                        Some((_, a)) => nodes.spec_get(a) == ns0.spec_get(a),
                        None => true,
                    })
                }),
            forall|i: Inode|
                !map_references(m0g, i) ==> #[trigger] nodes.spec_get(i) == ns0.spec_get(i),
        decreases m0g.len() - j,
    {
        let ghost pre_iter = *nodes;
        let survives = crate::util::keymap::find_index(&lm, m0[j].0.as_str()).is_some();
        if !survives {
            let h = m0[j].1.clone();
            proof {
                assert(map_references(m0g, h.ino));
                assert forall|x: int|
                    0 <= x < m0g.len() && x != j implies refs_disjoint(
                    m0g[x].1,
                    m0g[j as int].1,
                ) by {}
                match m0g[j as int].1.alias {
                    Some((_, a)) => {
                        assert(map_references(m0g, a));
                        assert(a != m0g[j as int].1.ino);
                    },
                    None => {},
                }
            }
            nodes.free(h.ino);
            match &h.alias {
                Some((_, a0)) => {
                    nodes.free(*a0);
                },
                None => {},
            }
        }
        proof {
            assert forall|x: int|
                0 <= x < j + 1 && !field_listing_has(fl, (#[trigger] m0g[x]).0@) implies ({
                &&& nodes.spec_get(m0g[x].1.ino) is None
                &&& (match m0g[x].1.alias {
                    Some((_, a)) => nodes.spec_get(a) is None,
                    None => true,
                })
            }) by {
                if x == j as int {
                    if survives {
                        assert(crate::util::keymap::has_key(lmg, m0g[j as int].0@));
                        assert(false);
                    } else {
                        assert(nodes.spec_get(m0g[j as int].1.ino) is None);
                        match m0g[j as int].1.alias {
                            Some((_, a)) => {
                                assert(nodes.spec_get(a) is None);
                            },
                            None => {},
                        }
                    }
                } else {
                    assert(pre_iter.spec_get(m0g[x].1.ino) is None);
                    if !survives {
                        assert(refs_disjoint(m0g[x].1, m0g[j as int].1));
                    }
                    assert(nodes.spec_get(m0g[x].1.ino) is None);
                    match m0g[x].1.alias {
                        Some((_, a)) => {
                            assert(pre_iter.spec_get(a) is None);
                            assert(nodes.spec_get(a) is None);
                        },
                        None => {},
                    }
                }
            }
        }
        j += 1;
    }

    // update phase: write the fetched values into surviving fields
    let mut u: usize = 0;
    while u < m0.len()
        invariant
            u <= m0g.len(),
            m0@ == m0g,
            crate::util::keymap::uniq_keys(m0g),
            handler_refs_ok(ns0, m0g, ino),
            crate::util::keymap::uniq_keys(lmg),
            lm@ == lmg,
            forall|k: Seq<char>|
                #[trigger] crate::util::keymap::has_key(lmg, k) <==> field_listing_has(fl, k),
            forall|k: Seq<char>|
                #[trigger] crate::util::keymap::has_key(lmg, k)
                    ==> crate::util::keymap::spec_get(lmg, k) == Some(
                    field_listing_last(fl, k),
                ),
            crate::util::keymap::uniq_keys(m1@),
            forall|k: Seq<char>|
                #[trigger] crate::util::keymap::has_key(m1@, k) <==> (
                crate::util::keymap::has_key(m0g.take(u as int), k) && field_listing_has(
                    fl,
                    k,
                )),
            forall|k: Seq<char>|
                crate::util::keymap::has_key(m1@, k) ==> #[trigger] key_reconciled(
                    ns0,
                    *nodes,
                    ino,
                    data.metadata,
                    m0g,
                    fl,
                    m1@,
                    k,
                ),
            forall|x: int|
                0 <= x < m0g.len() && !field_listing_has(fl, (#[trigger] m0g[x]).0@) ==> ({
                    &&& (nodes.spec_get(m0g[x].1.ino) is None || map_references(
                        m1@,
                        m0g[x].1.ino,
                    ))
                    &&& (match m0g[x].1.alias {
                        Some((_, a)) => nodes.spec_get(a) is None || map_references(m1@, a),
                        None => true,
                    })
                }),
            forall|x: int|
                u <= x < m0g.len() && field_listing_has(fl, (#[trigger] m0g[x]).0@) ==> ({
                    &&& nodes.spec_get(m0g[x].1.ino) == ns0.spec_get(m0g[x].1.ino)
                    &&& (match m0g[x].1.alias {
                        Some((_, a)) => nodes.spec_get(a) == ns0.spec_get(a),
                        None => true,
                    })
                }),
            forall|i: Inode|
                !map_references(m0g, i) && ns0.spec_get(i) is Some ==> #[trigger] nodes.spec_get(
                    i,
                ) == ns0.spec_get(i),
        decreases m0g.len() - u,
    {
        let ghost pre_iter = *nodes;
        let ghost m1_prev = m1@;
        let key = m0[u].0.clone();
        let h0 = m0[u].1.clone();
        proof {
            crate::util::keymap::lemma_get_index(m0g, u as int);
            assert forall|x: int|
                0 <= x < m0g.len() && x != u implies refs_disjoint(
                m0g[x].1,
                m0g[u as int].1,
            ) by {}
            assert(!crate::util::keymap::has_key(m0g.take(u as int), m0g[u as int].0@)) by {
                if crate::util::keymap::has_key(m0g.take(u as int), m0g[u as int].0@) {
                    crate::util::keymap::lemma_has_key_index(
                        m0g.take(u as int),
                        m0g[u as int].0@,
                    );
                }
            }
            assert(!crate::util::keymap::has_key(m1_prev, m0g[u as int].0@));
        }
        match crate::util::keymap::find_index(&lm, key.as_str()) {
            Some(li) => {
                let field = lm[li].1.clone();
                let value = match &field.value {
                    Some(v) => v.clone(),
                    None => String::new(),
                };
                nodes.set_field_value(h0.ino, value);
                m1.push((key, h0.clone()));
                proof {
                    assert forall|k2: Seq<char>| true implies {
                        &&& (#[trigger] crate::util::keymap::has_key(m1@, k2) == (
                        crate::util::keymap::has_key(m1_prev, k2) || k2 == m0g[u as int].0@))
                        &&& (k2 != m0g[u as int].0@ ==> crate::util::keymap::spec_get(m1@, k2)
                            == crate::util::keymap::spec_get(m1_prev, k2))
                    } by {
                        crate::util::keymap::lemma_get_push(m1_prev, m1@.last(), k2);
                    }
                    crate::util::keymap::lemma_get_push(
                        m1_prev,
                        m1@.last(),
                        m0g[u as int].0@,
                    );
                    crate::util::keymap::lemma_uniq_push(m1_prev, m1@.last());
                }
            },
            None => {},
        }
        proof {
            assert forall|k2: Seq<char>|
                crate::util::keymap::has_key(m1@, k2) implies #[trigger] key_reconciled(
                ns0,
                *nodes,
                ino,
                data.metadata,
                m0g,
                fl,
                m1@,
                k2,
            ) by {
                if crate::util::keymap::has_key(m1_prev, k2) {
                    assert(key_reconciled(
                        ns0,
                        pre_iter,
                        ino,
                        data.metadata,
                        m0g,
                        fl,
                        m1_prev,
                        k2,
                    ));
                    assert(crate::util::keymap::spec_get(m1@, k2)
                        == crate::util::keymap::spec_get(m1_prev, k2));
                    assert(k2 != m0g[u as int].0@);
                    crate::util::keymap::lemma_get_take(m0g, u as int, k2);
                    let x = crate::util::keymap::lemma_get_witness(m0g, k2);
                    assert(x != u);
                    assert(refs_disjoint(m0g[x].1, m0g[u as int].1));
                } else {
                    assert(k2 == m0g[u as int].0@);
                    assert(crate::util::keymap::has_key(lmg, k2));
                }
            }
            assert forall|x: int|
                0 <= x < m0g.len() && !field_listing_has(fl, (#[trigger] m0g[x]).0@) implies ({
                &&& (nodes.spec_get(m0g[x].1.ino) is None || map_references(m1@, m0g[x].1.ino))
                &&& (match m0g[x].1.alias {
                    Some((_, a)) => nodes.spec_get(a) is None || map_references(m1@, a),
                    None => true,
                })
            }) by {
                if x != u {
                    assert(refs_disjoint(m0g[x].1, m0g[u as int].1));
                }
                if map_references(m1_prev, m0g[x].1.ino) {
                    let w = choose|w: int|
                        0 <= w < m1_prev.len() && ({
                            let hh = (#[trigger] m1_prev[w]).1;
                            hh.ino == m0g[x].1.ino || (match hh.alias {
                                Some((_, aa)) => aa == m0g[x].1.ino,
                                None => false,
                            })
                        });
                    assert(m1@[w] == m1_prev[w]);
                }
                match m0g[x].1.alias {
                    Some((_, a)) => {
                        if map_references(m1_prev, a) {
                            let w = choose|w: int|
                                0 <= w < m1_prev.len() && ({
                                    let hh = (#[trigger] m1_prev[w]).1;
                                    hh.ino == a || (match hh.alias {
                                        Some((_, aa)) => aa == a,
                                        None => false,
                                    })
                                });
                            assert(m1@[w] == m1_prev[w]);
                        }
                    },
                    None => {},
                }
                if m1@.len() > m1_prev.len() {
                    assert(m1@[m1@.len() - 1] == m1@.last());
                }
            }
            assert(m0g.take(u + 1) =~= m0g.take(u as int).push(m0g[u as int]));
            assert forall|k2: Seq<char>| true implies (#[trigger] crate::util::keymap::has_key(
                m0g.take(u + 1),
                k2,
            ) == (crate::util::keymap::has_key(m0g.take(u as int), k2) || k2
                == m0g[u as int].0@)) by {
                crate::util::keymap::lemma_get_push(m0g.take(u as int), m0g[u as int], k2);
            }
            assert forall|k2: Seq<char>| #[trigger] crate::util::keymap::has_key(m1@, k2) <==> (
            crate::util::keymap::has_key(m0g.take(u + 1), k2) && field_listing_has(fl, k2)) by {
                if k2 == m0g[u as int].0@ {
                    assert(crate::util::keymap::has_key(lmg, k2) <==> field_listing_has(
                        fl,
                        k2,
                    ));
                }
            }
        }
        u += 1;
    }
    proof {
        assert(m0g.take(m0g.len() as int) =~= m0g);
    }

    // creation phase: allocate nodes for fields new to the fetched data
    let mut t: usize = 0;
    proof {
        assert(lmg.take(0) =~= Seq::<(String, SecretField)>::empty());
    }
    while t < lm.len()
        invariant
            t <= lmg.len(),
            m0@ == m0g,
            crate::util::keymap::uniq_keys(m0g),
            handler_refs_ok(ns0, m0g, ino),
            crate::util::keymap::uniq_keys(lmg),
            lm@ == lmg,
            forall|k: Seq<char>|
                #[trigger] crate::util::keymap::has_key(lmg, k) <==> field_listing_has(fl, k),
            forall|k: Seq<char>|
                #[trigger] crate::util::keymap::has_key(lmg, k)
                    ==> crate::util::keymap::spec_get(lmg, k) == Some(
                    field_listing_last(fl, k),
                ),
            crate::util::keymap::uniq_keys(m1@),
            forall|k: Seq<char>|
                #[trigger] crate::util::keymap::has_key(m1@, k) <==> ((
                crate::util::keymap::has_key(m0g, k) && field_listing_has(fl, k)) || (
                crate::util::keymap::has_key(lmg.take(t as int), k)
                    && !crate::util::keymap::has_key(m0g, k))),
            forall|k: Seq<char>|
                crate::util::keymap::has_key(m1@, k) ==> #[trigger] key_reconciled(
                    ns0,
                    *nodes,
                    ino,
                    data.metadata,
                    m0g,
                    fl,
                    m1@,
                    k,
                ),
            forall|x: int|
                0 <= x < m0g.len() && !field_listing_has(fl, (#[trigger] m0g[x]).0@) ==> ({
                    &&& (nodes.spec_get(m0g[x].1.ino) is None || map_references(
                        m1@,
                        m0g[x].1.ino,
                    ))
                    &&& (match m0g[x].1.alias {
                        Some((_, a)) => nodes.spec_get(a) is None || map_references(m1@, a),
                        None => true,
                    })
                }),
            forall|i: Inode|
                !map_references(m0g, i) && ns0.spec_get(i) is Some ==> #[trigger] nodes.spec_get(
                    i,
                ) == ns0.spec_get(i),
        decreases lmg.len() - t,
    {
        let ghost pre_iter = *nodes;
        let ghost m1_prev = m1@;
        let key = lm[t].0.clone();
        proof {
            crate::util::keymap::lemma_get_index(lmg, t as int);
            assert(!crate::util::keymap::has_key(lmg.take(t as int), lmg[t as int].0@)) by {
                if crate::util::keymap::has_key(lmg.take(t as int), lmg[t as int].0@) {
                    crate::util::keymap::lemma_has_key_index(
                        lmg.take(t as int),
                        lmg[t as int].0@,
                    );
                }
            }
        }
        let is_new = match crate::util::keymap::find_index(&m0, key.as_str()) {
            Some(_) => false,
            None => true,
        };
        if is_new {
            let field = lm[t].1.clone();
            let value = match &field.value {
                Some(v) => v.clone(),
                None => String::new(),
            };
            let trim = crate::util::strings::str_eq(key.as_str(), "notesPlain");
            let vid = nodes.vacant_ino();
            let ghost pre_alloc = *nodes;
            let fnode = Field::new(vid, ino, FieldValue(value), trim);
            let attr = fnode.attr(config, owner_meta.created_at_ms, owner_meta.updated_at_ms);
            let h = nodes.allocate(crate::fs::node::Node::Field(fnode));
            proof {
                pre_alloc.lemma_lowest_free_unique(vid, h.spec_ino());
            }
            let fino = h.persist();
            let alias: Option<(String, Inode)> = match eligible_field_alias(
                field.reference.as_str(),
                key.as_str(),
            ) {
                Some(n) => {
                    let aino = nodes.alloc_link(key.as_str(), &attr);
                    Some((n, aino))
                },
                None => None,
            };
            m1.push((key, FieldHandler { ino: fino, alias }));
            proof {
                assert forall|k2: Seq<char>| true implies {
                    &&& (#[trigger] crate::util::keymap::has_key(m1@, k2) == (
                    crate::util::keymap::has_key(m1_prev, k2) || k2 == lmg[t as int].0@))
                    &&& (k2 != lmg[t as int].0@ ==> crate::util::keymap::spec_get(m1@, k2)
                        == crate::util::keymap::spec_get(m1_prev, k2))
                } by {
                    crate::util::keymap::lemma_get_push(m1_prev, m1@.last(), k2);
                }
                crate::util::keymap::lemma_get_push(
                    m1_prev,
                    m1@.last(),
                    lmg[t as int].0@,
                );
                crate::util::keymap::lemma_uniq_push(m1_prev, m1@.last());
            }
        }
        proof {
            assert forall|k2: Seq<char>|
                crate::util::keymap::has_key(m1@, k2) implies #[trigger] key_reconciled(
                ns0,
                *nodes,
                ino,
                data.metadata,
                m0g,
                fl,
                m1@,
                k2,
            ) by {
                if crate::util::keymap::has_key(m1_prev, k2) {
                    assert(key_reconciled(
                        ns0,
                        pre_iter,
                        ino,
                        data.metadata,
                        m0g,
                        fl,
                        m1_prev,
                        k2,
                    ));
                    assert(crate::util::keymap::spec_get(m1@, k2)
                        == crate::util::keymap::spec_get(m1_prev, k2));
                } else {
                    assert(k2 == lmg[t as int].0@);
                    assert(crate::util::keymap::has_key(lmg, k2));
                    assert(!crate::util::keymap::has_key(m0g, k2));
                }
            }
            assert forall|x: int|
                0 <= x < m0g.len() && !field_listing_has(fl, (#[trigger] m0g[x]).0@) implies ({
                &&& (nodes.spec_get(m0g[x].1.ino) is None || map_references(m1@, m0g[x].1.ino))
                &&& (match m0g[x].1.alias {
                    Some((_, a)) => nodes.spec_get(a) is None || map_references(m1@, a),
                    None => true,
                })
            }) by {
                if map_references(m1_prev, m0g[x].1.ino) {
                    let w = choose|w: int|
                        0 <= w < m1_prev.len() && ({
                            let hh = (#[trigger] m1_prev[w]).1;
                            hh.ino == m0g[x].1.ino || (match hh.alias {
                                Some((_, aa)) => aa == m0g[x].1.ino,
                                None => false,
                            })
                        });
                    assert(m1@[w] == m1_prev[w]);
                }
                match m0g[x].1.alias {
                    Some((_, a)) => {
                        if map_references(m1_prev, a) {
                            let w = choose|w: int|
                                0 <= w < m1_prev.len() && ({
                                    let hh = (#[trigger] m1_prev[w]).1;
                                    hh.ino == a || (match hh.alias {
                                        Some((_, aa)) => aa == a,
                                        None => false,
                                    })
                                });
                            assert(m1@[w] == m1_prev[w]);
                        }
                    },
                    None => {},
                }
                if m1@.len() > m1_prev.len() {
                    assert(m1@[m1@.len() - 1] == m1@.last());
                }
            }
            assert(lmg.take(t + 1) =~= lmg.take(t as int).push(lmg[t as int]));
            assert forall|k2: Seq<char>| true implies (#[trigger] crate::util::keymap::has_key(
                lmg.take(t + 1),
                k2,
            ) == (crate::util::keymap::has_key(lmg.take(t as int), k2) || k2
                == lmg[t as int].0@)) by {
                crate::util::keymap::lemma_get_push(lmg.take(t as int), lmg[t as int], k2);
            }
        }
        t += 1;
    }
    proof {
        assert(lmg.take(lmg.len() as int) =~= lmg);
    }

    // record the new map and the refresh time
    let ghost ns_mid = *nodes;
    let ghost m1g = m1@;
    proof {
        assert(!map_references(m0g, ino));
        assert(ns_mid.spec_get(ino) == ns0.spec_get(ino));
    }
    nodes.set_secret_entries(ino, m1, now_ms);
    proof {
        assert forall|k2: Seq<char>|
            field_listing_has(fl, k2) implies #[trigger] key_reconciled(
            pre0,
            *nodes,
            ino,
            data.metadata,
            m0g,
            fl,
            m1g,
            k2,
        ) by {
            assert(crate::util::keymap::has_key(m1g, k2));
            assert(key_reconciled(ns0, ns_mid, ino, data.metadata, m0g, fl, m1g, k2));
            match crate::util::keymap::spec_get(m0g, k2) {
                Some(h0k) => {
                    assert(crate::util::keymap::has_key(m0g, k2));
                    let x = crate::util::keymap::lemma_get_witness(m0g, k2);
                    assert(m0g[x].1.ino != ino);
                },
                None => {
                    let h1 = crate::util::keymap::spec_get(m1g, k2).unwrap();
                    assert(ns_mid.spec_get(h1.ino) is Some);
                    assert(ns0.spec_get(ino) is Some);
                },
            }
        }
        assert forall|x: int|
            0 <= x < m0g.len() && !field_listing_has(fl, (#[trigger] m0g[x]).0@) implies ({
            &&& (nodes.spec_get(m0g[x].1.ino) is None || map_references(m1g, m0g[x].1.ino))
            &&& (match m0g[x].1.alias {
                Some((_, a)) => nodes.spec_get(a) is None || map_references(m1g, a),
                None => true,
            })
        }) by {
            assert(m0g[x].1.ino != ino);
        }
    }
    true
}

} // verus!
