use vstd::prelude::*;

use crate::fs::dentry::DirEntry;
use crate::fs::slab::Item;
use crate::fs::{listing_post, Fs};
use crate::{Errno, FileHandle, Inode};

verus! {

/// Implements the `opendir` syscall: lists the directory under `ino` as
/// `dir_entries` does and snapshots the listing into the directory-handle
/// arena.
///
/// The snapshot is a point-in-time view: later refreshes do not perturb an
/// open handle.
pub fn opendir(fs: &mut Fs, ino: Inode) -> (r: Result<FileHandle, Errno>)
    ensures
        final(fs).config == old(fs).config,
        match r {
            Err(e) => {
                &&& listing_post(
                    old(fs).nodes,
                    final(fs).nodes,
                    old(fs).config,
                    ino,
                    Err::<Seq<DirEntry>, Errno>(e),
                )
                &&& final(fs).spec_slab() == old(fs).spec_slab()
            },
            Ok(fh) => exists|es: Seq<DirEntry>|
                {
                    &&& #[trigger] listing_post(
                        old(fs).nodes,
                        final(fs).nodes,
                        old(fs).config,
                        ino,
                        Ok::<Seq<DirEntry>, Errno>(es),
                    )
                    &&& old(fs).slab_is_lowest_free(fh)
                    &&& match final(fs).spec_slab_get(fh) {
                        Some(Item::DirectoryEntries(d, list)) => d == ino && list@ == es,
                        None => false,
                    }
                    &&& forall|j: FileHandle|
                        j != fh ==> final(fs).spec_slab_get(j) == old(fs).spec_slab_get(j)
                },
        },
{
    let ghost pre = *fs;
    match fs.dir_entries(ino) {
        Ok(es) => {
            let ghost esv = es@;
            let ghost mid = *fs;
            let fh = fs.slab_alloc(Item::DirectoryEntries(ino, es));
            proof {
                assert(listing_post(pre.nodes, fs.nodes, pre.config, ino, Ok::<
                    Seq<DirEntry>,
                    Errno,
                >(esv)));
                assert(pre.slab_is_lowest_free(fh)) by {
                    assert(forall|j: FileHandle|
                        pre.spec_slab_get(j) == mid.spec_slab_get(j));
                }
            }
            Ok(fh)
        },
        Err(e) => Err(e),
    }
}

/// Implements the `readdir` syscall: reads the snapshot stored under the
/// handle from `offset` onward, pairing each entry with its continuation
/// offset, after checking that the handle was opened against this inode.
pub fn readdir(fs: &Fs, ino: Inode, fh: FileHandle, offset: usize) -> (r: Result<
    Vec<(u64, DirEntry)>,
    Errno,
>)
    ensures
        match fs.spec_slab_get(fh) {
            Some(Item::DirectoryEntries(d, list)) => if d == ino {
                match r {
                    Ok(v) => {
                        &&& v@.len() == (if offset <= list@.len() {
                            list@.len() - offset
                        } else {
                            0
                        })
                        &&& forall|i: int|
                            0 <= i < v@.len() ==> #[trigger] v@[i] == (
                            (offset + i + 1) as u64,
                            list@[offset + i],
                            )
                    },
                    Err(_) => false,
                }
            } else {
                r == Err::<Vec<(u64, DirEntry)>, Errno>(Errno::BadF)
            },
            None => r == Err::<Vec<(u64, DirEntry)>, Errno>(Errno::BadF),
        },
{
    let list = match fs.slab_get(fh) {
        Some(Item::DirectoryEntries(d, list)) => {
            if *d == ino {
                list
            } else {
                return Err(Errno::BadF);
            }
        },
        None => {
            return Err(Errno::BadF);
        },
    };
    let mut out: Vec<(u64, DirEntry)> = Vec::new();
    if offset > list.len() {
        return Ok(out);
    }
    let mut i: usize = offset;
    while i < list.len()
        invariant
            offset <= i <= list@.len(),
            out@.len() == i - offset,
            forall|k: int|
                0 <= k < out@.len() ==> #[trigger] out@[k] == (
                (offset + k + 1) as u64,
                list@[offset + k],
                ),
        decreases list@.len() - i,
    {
        out.push(((i + 1) as u64, list[i].clone()));
        i += 1;
    }
    Ok(out)
}

/// Implements the `releasedir` syscall: frees the handle's slot, after
/// checking that the handle was opened against this inode.
pub fn releasedir(fs: &mut Fs, ino: Inode, fh: FileHandle) -> (r: Result<(), Errno>)
    ensures
        final(fs).config == old(fs).config,
        final(fs).nodes == old(fs).nodes,
        match old(fs).spec_slab_get(fh) {
            Some(Item::DirectoryEntries(d, _)) => if d == ino {
                &&& r == Ok::<(), Errno>(())
                &&& final(fs).spec_slab_get(fh) is None
                &&& forall|j: FileHandle|
                    j != fh ==> final(fs).spec_slab_get(j) == old(fs).spec_slab_get(j)
            } else {
                r == Err::<(), Errno>(Errno::BadF) && *final(fs) == *old(fs)
            },
            None => r == Err::<(), Errno>(Errno::BadF) && *final(fs) == *old(fs),
        },
{
    let ok = match fs.slab_get(fh) {
        Some(Item::DirectoryEntries(d, _)) => *d == ino,
        None => false,
    };
    if ok {
        fs.slab_free(fh);
        Ok(())
    } else {
        Err(Errno::BadF)
    }
}

} // verus!
