//! Directory entries, used when listing and scanning directories.

use vstd::prelude::*;

use crate::Inode;

verus! {

/// The kind of a filesystem entity.
#[derive(Clone, Copy, PartialEq, Eq, Structural, Debug)]
pub enum FileType {
    /// A directory.
    Directory,
    /// A regular file.
    RegularFile,
    /// A symbolic link.
    Symlink,
}

/// A directory entry.
pub struct DirEntry {
    /// The inode the entry points at.
    pub inode: Inode,
    /// The name of the entry within its directory.
    pub name: String,
    /// The kind of the entity the entry points at.
    pub file_type: FileType,
}

impl Clone for DirEntry {
    fn clone(&self) -> (r: Self)
        ensures
            r == *self,
    {
        DirEntry { inode: self.inode, name: self.name.clone(), file_type: self.file_type }
    }
}

/// Whether some entry of `s` is named `n`.
pub open spec fn contains_name(s: Seq<DirEntry>, n: Seq<char>) -> bool {
    exists|i: int| 0 <= i < s.len() && s[i].name@ == n
}

/// `s` with every entry dropped that a later entry shadows by name: of the
/// entries sharing a name, only the last applied one remains.
pub open spec fn dedup_names(s: Seq<DirEntry>) -> Seq<DirEntry>
    decreases s.len(),
{
    if s.len() == 0 {
        s
    } else {
        let rest = dedup_names(s.drop_first());
        if contains_name(s.drop_first(), s[0].name@) {
            rest
        } else {
            seq![s[0]] + rest
        }
    }
}

/// Every name of the input survives deduplication, and no other appears.
pub proof fn lemma_dedup_membership(s: Seq<DirEntry>)
    ensures
        forall|n: Seq<char>| contains_name(dedup_names(s), n) <==> contains_name(s, n),
    decreases s.len(),
{
    if s.len() == 0 {
    } else {
        lemma_dedup_membership(s.drop_first());
        let rest = dedup_names(s.drop_first());
        assert forall|n: Seq<char>| contains_name(dedup_names(s), n) <==> contains_name(s, n) by {
            if contains_name(s, n) {
                let i = choose|i: int| 0 <= i < s.len() && s[i].name@ == n;
                if i > 0 {
                    assert(s.drop_first()[i - 1].name@ == n);
                    assert(contains_name(s.drop_first(), n));
                } else {
                    if contains_name(s.drop_first(), s[0].name@) {
                        assert(contains_name(s.drop_first(), n));
                    } else {
                        assert(dedup_names(s)[0].name@ == n);
                    }
                }
                if contains_name(s.drop_first(), n) {
                    let j = choose|j: int|
                        0 <= j < rest.len() && rest[j].name@ == n;
                    if contains_name(s.drop_first(), s[0].name@) {
                        assert(dedup_names(s)[j].name@ == n);
                    } else {
                        assert(dedup_names(s)[j + 1].name@ == n);
                    }
                }
            }
            if contains_name(dedup_names(s), n) {
                let i = choose|i: int|
                    0 <= i < dedup_names(s).len() && dedup_names(s)[i].name@ == n;
                if contains_name(s.drop_first(), s[0].name@) {
                    assert(rest[i].name@ == n);
                    assert(contains_name(rest, n));
                    assert(contains_name(s.drop_first(), n));
                    let j = choose|j: int|
                        0 <= j < s.drop_first().len() && s.drop_first()[j].name@ == n;
                    assert(s[j + 1].name@ == n);
                } else {
                    if i == 0 {
                        assert(s[0].name@ == n);
                    } else {
                        assert(rest[i - 1].name@ == n);
                        assert(contains_name(rest, n));
                        assert(contains_name(s.drop_first(), n));
                        let j = choose|j: int|
                            0 <= j < s.drop_first().len() && s.drop_first()[j].name@ == n;
                        assert(s[j + 1].name@ == n);
                    }
                }
            }
        }
    }
}

/// After deduplication no two entries share a name.
pub proof fn lemma_dedup_unique_names(s: Seq<DirEntry>)
    ensures
        forall|i: int, j: int|
            0 <= i < j < dedup_names(s).len() ==> dedup_names(s)[i].name@ != dedup_names(
                s,
            )[j].name@,
    decreases s.len(),
{
    if s.len() == 0 {
    } else {
        lemma_dedup_unique_names(s.drop_first());
        lemma_dedup_membership(s.drop_first());
        let rest = dedup_names(s.drop_first());
        if contains_name(s.drop_first(), s[0].name@) {
        } else {
            assert(!contains_name(rest, s[0].name@));
            assert forall|i: int, j: int|
                0 <= i < j < dedup_names(s).len() implies dedup_names(s)[i].name@ != dedup_names(
                s,
            )[j].name@ by {
                if i == 0 {
                    assert(dedup_names(s)[j] == rest[j - 1]);
                    if dedup_names(s)[0].name@ == rest[j - 1].name@ {
                        assert(contains_name(rest, s[0].name@));
                    }
                } else {
                    assert(dedup_names(s)[i] == rest[i - 1]);
                    assert(dedup_names(s)[j] == rest[j - 1]);
                }
            }
        }
    }
}

/// Whether no later entry of `s` shares a name with the one at `j`.
pub open spec fn is_last_of_its_name(s: Seq<DirEntry>, j: int) -> bool {
    forall|l: int| j < l < s.len() ==> s[l].name@ != s[j].name@
}

/// Every surviving entry is the last of its name in the input, kept in
/// the input's order.
pub proof fn lemma_dedup_last_wins(s: Seq<DirEntry>)
    ensures
        forall|i: int|
            #![trigger dedup_names(s)[i]]
            0 <= i < dedup_names(s).len() ==> (exists|j: int|
                0 <= j < s.len() && #[trigger] s[j] == dedup_names(s)[i] && is_last_of_its_name(
                    s,
                    j,
                )),
    decreases s.len(),
{
    if s.len() == 0 {
    } else {
        lemma_dedup_last_wins(s.drop_first());
        let rest = dedup_names(s.drop_first());
        assert forall|i: int|
            #![trigger dedup_names(s)[i]]
            0 <= i < dedup_names(s).len() implies (exists|j: int|
            0 <= j < s.len() && #[trigger] s[j] == dedup_names(s)[i] && is_last_of_its_name(
            s,
            j,
        )) by {
            let keeps_head = !contains_name(s.drop_first(), s[0].name@);
            if keeps_head && i == 0 {
                assert(dedup_names(s)[0] == s[0]);
                assert(forall|l: int| 0 < l < s.len() ==> (#[trigger] s[l]).name@ != s[0].name@) by {
                    assert(forall|l: int|
                        0 < l < s.len() ==> s.drop_first()[l - 1] == s[l]);
                }
                assert(is_last_of_its_name(s, 0));
                assert(s[0] == dedup_names(s)[i] && is_last_of_its_name(s, 0));
            } else {
                let i2 = if keeps_head {
                    i - 1
                } else {
                    i
                };
                assert(dedup_names(s)[i] == rest[i2]);
                let j2 = choose|j2: int|
                    0 <= j2 < s.drop_first().len() && #[trigger] s.drop_first()[j2] == rest[i2]
                        && is_last_of_its_name(s.drop_first(), j2);
                assert(s[j2 + 1] == rest[i2]);
                assert(forall|l: int| j2 + 1 < l < s.len() ==> (#[trigger] s[l]).name@ != s[j2 + 1].name@)
                    by {
                    assert(forall|l: int|
                        j2 + 1 < l < s.len() ==> s.drop_first()[l - 1] == s[l]);
                }
                assert(is_last_of_its_name(s, j2 + 1));
                assert(s[j2 + 1] == dedup_names(s)[i] && is_last_of_its_name(s, j2 + 1));
            }
        }
    }
}

/// Copies a listing.
pub fn clone_entries(es: &Vec<DirEntry>) -> (r: Vec<DirEntry>)
    ensures
        r@ == es@,
{
    let mut r: Vec<DirEntry> = Vec::new();
    let mut i: usize = 0;
    while i < es.len()
        invariant
            i <= es@.len(),
            r@ == es@.take(i as int),
        decreases es@.len() - i,
    {
        r.push(es[i].clone());
        proof {
            assert(r@ =~= es@.take(i + 1));
        }
        i += 1;
    }
    proof {
        assert(es@.take(es@.len() as int) =~= es@);
    }
    r
}

/// Drops every entry that a later entry shadows by name.
pub fn dedup_entries(es: Vec<DirEntry>) -> (r: Vec<DirEntry>)
    ensures
        r@ == dedup_names(es@),
{
    let mut r: Vec<DirEntry> = Vec::new();
    let mut i: usize = 0;
    proof {
        assert(es@.skip(0) =~= es@);
    }
    while i < es.len()
        invariant
            i <= es@.len(),
            r@ + dedup_names(es@.skip(i as int)) == dedup_names(es@),
        decreases es@.len() - i,
    {
        let ghost suffix = es@.skip(i as int);
        proof {
            assert(suffix[0] == es@[i as int]);
            assert(suffix.drop_first() =~= es@.skip(i + 1));
        }
        // does a later entry shadow this one?
        let mut shadowed = false;
        let mut j: usize = i + 1;
        while j < es.len()
            invariant
                i < j <= es@.len(),
                i < es@.len(),
                shadowed <==> (exists|l: int| i < l < j && es@[l].name@ == es@[i as int].name@),
            decreases es@.len() - j,
        {
            if crate::util::strings::str_eq(es[j].name.as_str(), es[i].name.as_str()) {
                shadowed = true;
            }
            j += 1;
        }
        proof {
            assert(shadowed <==> contains_name(suffix.drop_first(), suffix[0].name@)) by {
                if shadowed {
                    let l = choose|l: int|
                        i < l < es@.len() && es@[l].name@ == es@[i as int].name@;
                    assert(suffix.drop_first()[l - i - 1].name@ == suffix[0].name@);
                }
                if contains_name(suffix.drop_first(), suffix[0].name@) {
                    let l = choose|l: int|
                        0 <= l < suffix.drop_first().len() && suffix.drop_first()[l].name@
                            == suffix[0].name@;
                    assert(es@[l + i + 1].name@ == es@[i as int].name@);
                }
            }
        }
        if !shadowed {
            r.push(es[i].clone());
            proof {
                assert(r@ =~= (r@.drop_last()).push(es@[i as int]));
                assert((r@.drop_last()) + (seq![es@[i as int]] + dedup_names(suffix.drop_first()))
                    =~= r@ + dedup_names(suffix.drop_first()));
            }
        }
        i += 1;
    }
    proof {
        assert(es@.skip(es@.len() as int) =~= Seq::<DirEntry>::empty());
        assert(r@ + Seq::<DirEntry>::empty() =~= r@);
    }
    r
}

} // verus!
