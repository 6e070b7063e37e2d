//! Items held in the directory-handle arena.

use vstd::prelude::*;

use crate::fs::dentry::DirEntry;

verus! {

/// A slab item.
pub enum Item {
    /// A snapshotted directory listing: the inode it was taken of and the
    /// entries at that point in time.
    DirectoryEntries(u64, Vec<DirEntry>),
}

} // verus!
