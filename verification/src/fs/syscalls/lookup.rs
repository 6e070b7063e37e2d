use vstd::prelude::*;

use crate::fs::dentry::DirEntry;
use crate::fs::{listing_post, Fs};
use crate::util::strings::str_eq;
use crate::{Errno, Inode};

verus! {

/// The inode of the first entry named `name`, if any.
pub open spec fn spec_scan(s: Seq<DirEntry>, name: Seq<char>) -> Option<Inode>
    decreases s.len(),
{
    if s.len() == 0 {
        None
    } else if s[0].name@ == name {
        Some(s[0].inode)
    } else {
        spec_scan(s.drop_first(), name)
    }
}

proof fn lemma_scan_index(s: Seq<DirEntry>, i: int)
    requires
        0 <= i < s.len(),
        forall|j: int| 0 <= j < i ==> s[j].name@ != s[i].name@,
    ensures
        spec_scan(s, s[i].name@) == Some(s[i].inode),
    decreases i,
{
    if i == 0 {
    } else {
        assert(s[0].name@ != s[i].name@);
        assert(s.drop_first()[i - 1] == s[i]);
        assert(forall|j: int|
            0 <= j < i - 1 ==> #[trigger] s.drop_first()[j].name@ != s[i].name@) by {
            assert(forall|j: int| 0 <= j < i - 1 ==> s.drop_first()[j] == s[j + 1]);
        }
        lemma_scan_index(s.drop_first(), i - 1);
    }
}

proof fn lemma_scan_none(s: Seq<DirEntry>, name: Seq<char>)
    requires
        forall|i: int| 0 <= i < s.len() ==> s[i].name@ != name,
    ensures
        spec_scan(s, name) is None,
    decreases s.len(),
{
    if s.len() == 0 {
    } else {
        assert(forall|i: int|
            0 <= i < s.drop_first().len() ==> #[trigger] s.drop_first()[i].name@ != name) by {
            assert(forall|i: int|
                0 <= i < s.drop_first().len() ==> s.drop_first()[i] == s[i + 1]);
        }
        lemma_scan_none(s.drop_first(), name);
    }
}

/// Scans a listing for an entry with the given name and returns its inode,
/// or "no such entry" when no entry matches.
pub fn scan_entries(name: &str, entries: &Vec<DirEntry>) -> (r: Result<Inode, Errno>)
    ensures
        r == (match spec_scan(entries@, name@) {
            Some(i) => Ok::<Inode, Errno>(i),
            None => Err::<Inode, Errno>(Errno::NoEnt),
        }),
{
    let mut i: usize = 0;
    while i < entries.len()
        invariant
            i <= entries@.len(),
            forall|j: int| 0 <= j < i ==> (#[trigger] entries@[j]).name@ != name@,
        decreases entries@.len() - i,
    {
        if str_eq(entries[i].name.as_str(), name) {
            proof {
                lemma_scan_index(entries@, i as int);
            }
            return Ok(entries[i].inode);
        }
        i += 1;
    }
    proof {
        lemma_scan_none(entries@, name@);
    }
    Err(Errno::NoEnt)
}

/// Implements the `lookup` syscall: resolves a directory entry by name
/// under the parent inode, listing the parent as `dir_entries` does and
/// scanning the listing.
pub fn lookup(fs: &mut Fs, parent: Inode, name: &str) -> (r: Result<Inode, Errno>)
    ensures
        final(fs).config == old(fs).config,
        final(fs).spec_slab() == old(fs).spec_slab(),
        exists|listing: Result<Seq<DirEntry>, Errno>|
            {
                &&& #[trigger] listing_post(
                    old(fs).nodes,
                    final(fs).nodes,
                    old(fs).config,
                    parent,
                    listing,
                )
                &&& r == (match listing {
                    Ok(es) => match spec_scan(es, name@) {
                        Some(i) => Ok::<Inode, Errno>(i),
                        None => Err::<Inode, Errno>(Errno::NoEnt),
                    },
                    Err(e) => Err::<Inode, Errno>(e),
                })
            },
{
    match fs.dir_entries(parent) {
        Ok(es) => scan_entries(name, &es),
        Err(e) => Err(e),
    }
}

} // verus!
