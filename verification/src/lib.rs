//! A read-only virtual filesystem over a remote secret-management service.
//!
//! The tree is accounts -> vaults -> secrets -> fields, addressed by inode
//! numbers.  The library owns the inode arena, the node model, the throttled
//! caches and the reconciliation of cached children against freshly fetched
//! listings; the host protocol layer and the external data-source client live
//! outside and exchange plain values with these functions.

use vstd::prelude::*;

pub mod config;
pub mod fs;
pub mod onepassword;
pub mod util;

verus! {

/// A stable numeric identity for a filesystem entity.
pub type Inode = u64;

/// A handle to an open directory listing.
pub type FileHandle = u64;

/// The inode of the filesystem root; inode 0 is the always-invalid dummy.
pub const ROOT_INO: u64 = 1;

/// POSIX-style outcome codes surfaced at the syscall boundary.
#[derive(Clone, Copy, PartialEq, Eq, Structural, Debug)]
pub enum Errno {
    /// No such entry.
    NoEnt,
    /// Input/output failure while talking to the data source.
    Io,
    /// The target is a directory.
    IsDir,
    /// The target is not a directory.
    NotDir,
    /// A numeric argument cannot be represented.
    Inval,
    /// A directory handle is stale or mismatched.
    BadF,
}

} // verus!
