//! Filesystem attributes, as plain values.

use vstd::prelude::*;

use crate::config::Config;
use crate::fs::dentry::FileType;
use crate::Inode;

verus! {

/// The attributes of a filesystem entity.
///
/// Timestamps are milliseconds; the host protocol layer converts them to its
/// own calendar type.
#[derive(Clone, Copy, PartialEq, Eq, Structural, Debug)]
pub struct FileAttr {
    /// The inode of the entity.
    pub ino: Inode,
    /// The apparent size in bytes.
    pub size: u64,
    /// The number of blocks allocated.
    pub blocks: u64,
    /// Last access time, in milliseconds.
    pub atime_ms: u64,
    /// Last modification time, in milliseconds.
    pub mtime_ms: u64,
    /// Last status change time, in milliseconds.
    pub ctime_ms: u64,
    /// Creation time, in milliseconds.
    pub crtime_ms: u64,
    /// The kind of the entity.
    pub kind: FileType,
    /// Permission bits.
    pub perm: u16,
    /// Number of hard links.
    pub nlink: u32,
    /// Owner user ID.
    pub uid: u32,
    /// Owner group ID.
    pub gid: u32,
    /// Device number, for special files.
    pub rdev: u32,
    /// Extra flags.
    pub flags: u32,
    /// Preferred block size.
    pub blksize: u32,
}

/// The attributes of a directory node, stamped with `now_ms`.
pub open spec fn spec_dir_attr(ino: Inode, config: Config, now_ms: u64) -> FileAttr {
    FileAttr {
        ino,
        size: 512,
        blocks: 0,
        atime_ms: now_ms,
        mtime_ms: now_ms,
        ctime_ms: now_ms,
        crtime_ms: now_ms,
        kind: FileType::Directory,
        perm: config.dir_mode,
        nlink: 1,
        uid: config.uid,
        gid: config.gid,
        rdev: 0,
        flags: 0,
        blksize: 512,
    }
}

/// Creates the attributes of a directory node.
pub fn make_dir_attr(ino: Inode, config: &Config, now_ms: u64) -> (a: FileAttr)
    ensures
        a == spec_dir_attr(ino, *config, now_ms),
{
    FileAttr {
        ino,
        size: 512,
        blocks: 0,
        atime_ms: now_ms,
        mtime_ms: now_ms,
        ctime_ms: now_ms,
        crtime_ms: now_ms,
        kind: FileType::Directory,
        perm: config.dir_mode,
        nlink: 1,
        uid: config.uid,
        gid: config.gid,
        rdev: 0,
        flags: 0,
        blksize: 512,
    }
}

} // verus!
