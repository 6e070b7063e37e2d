//! A field node: the fourth level of the tree, a readable file.

use vstd::prelude::*;
use vstd::math::min;

use crate::config::Config;
use crate::fs::attr::FileAttr;
use crate::fs::dentry::FileType;
use crate::Inode;

use super::secret::FieldValue;

verus! {

/// The byte that opens a markdown fence.
pub open spec fn fence_byte() -> u8 {
    96
}

/// A node representing a secret field.
pub struct Field {
    /// The inode number of the node.
    pub ino: Inode,
    /// The inode of the owning secret, whose metadata supplies this node's
    /// timestamps.
    pub secret_ino: Inode,
    /// The value of the field, updated in place on refresh.
    pub data: FieldValue,
    /// Whether to strip a leading markdown fence when reading.
    ///
    /// Set only for the conventional notes field, whose value might be
    /// stored as a markdown code block.
    pub trim: bool,
}

impl Field {
    /// Creates a new field node.
    pub fn new(ino: Inode, secret_ino: Inode, data: FieldValue, trim: bool) -> (r: Field)
        ensures
            r.ino == ino,
            r.secret_ino == secret_ino,
            r.data == data,
            r.trim == trim,
    {
        Field { ino, secret_ino, data, trim }
    }

    /// The bytes a read of this field sees: the UTF-8 encoding of the value,
    /// with a leading three-byte fence stripped when trimming is on.
    pub open spec fn spec_visible_bytes(self) -> Seq<u8> {
        let b = vstd::utf8::encode_utf8(self.data.0@);
        if self.trim && b.len() >= 3 && b[0] == fence_byte() && b[1] == fence_byte() && b[2]
            == fence_byte() {
            b.skip(3)
        } else {
            b
        }
    }

    /// The attributes of the node.
    ///
    /// The size is the byte length of the untrimmed value; the timestamps
    /// come from the owning secret's metadata, handed in by the caller.
    pub fn attr(&self, config: &Config, created_at_ms: u64, updated_at_ms: u64) -> (a: FileAttr)
        ensures
            a == spec_field_attr(*self, *config, created_at_ms, updated_at_ms),
    {
        let size = self.data.0.as_str().as_bytes().len() as u64;
        FileAttr {
            ino: self.ino,
            size,
            blocks: 0,
            atime_ms: updated_at_ms,
            mtime_ms: updated_at_ms,
            ctime_ms: updated_at_ms,
            crtime_ms: created_at_ms,
            kind: FileType::RegularFile,
            perm: config.file_mode,
            nlink: 1,
            uid: config.uid,
            gid: config.gid,
            rdev: 0,
            flags: 0,
            blksize: 512,
        }
    }

    /// Reads the window `[min(len, offset), min(len, offset + size))` of the
    /// visible bytes.
    pub fn read(&self, offset: u64, size: u32) -> (r: Vec<u8>)
        requires
            offset < 0x8000000000000000,
        ensures
            r@ == (self.spec_visible_bytes().subrange(
                min(self.spec_visible_bytes().len() as int, offset as int),
                min(self.spec_visible_bytes().len() as int, offset as int + size as int),
            )),
    {
        let bytes = self.data.0.as_str().as_bytes();
        let len = bytes.len();
        let trim_active = self.trim && len >= 3 && bytes[0] == 96 && bytes[1] == 96 && bytes[2]
            == 96;
        let base: usize = if trim_active {
            3
        } else {
            0
        };
        let vis_len = len - base;
        let ghost visible = self.spec_visible_bytes();
        proof {
            assert(visible =~= bytes@.skip(base as int));
        }

        let start: u64 = if offset < vis_len as u64 {
            offset
        } else {
            vis_len as u64
        };
        let end_sum: u64 = offset + size as u64;
        let end: u64 = if end_sum < vis_len as u64 {
            end_sum
        } else {
            vis_len as u64
        };

        let mut out: Vec<u8> = Vec::new();
        let mut i: u64 = start;
        while i < end
            invariant
                start <= i <= end,
                end <= vis_len as u64,
                vis_len + base == len,
                len == bytes@.len(),
                visible == bytes@.skip(base as int),
                visible.len() == vis_len,
                out@ == visible.subrange(start as int, i as int),
            decreases end - i,
        {
            out.push(bytes[base + i as usize]);
            proof {
                assert(visible[i as int] == bytes@[base + i as int]);
                assert(out@ =~= visible.subrange(start as int, i + 1));
            }
            i += 1;
        }
        out
    }
}

/// The attributes of a field node.
pub open spec fn spec_field_attr(
    f: Field,
    config: Config,
    created_at_ms: u64,
    updated_at_ms: u64,
) -> FileAttr {
    FileAttr {
        ino: f.ino,
        size: vstd::utf8::encode_utf8(f.data.0@).len() as u64,
        blocks: 0,
        atime_ms: updated_at_ms,
        mtime_ms: updated_at_ms,
        ctime_ms: updated_at_ms,
        crtime_ms: created_at_ms,
        kind: FileType::RegularFile,
        perm: config.file_mode,
        nlink: 1,
        uid: config.uid,
        gid: config.gid,
        rdev: 0,
        flags: 0,
        blksize: 512,
    }
}

} // verus!
