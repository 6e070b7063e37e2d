//! A symbolic-link node.

use vstd::prelude::*;
use vstd::string::StringSliceAdditionalSpecFns;

use crate::fs::attr::FileAttr;
use crate::fs::dentry::FileType;
use crate::Inode;

verus! {

/// A symbolic link to another node.
pub struct Link {
    /// The target of the link.
    pub target: String,
    /// The attributes of the link, precomputed at construction.
    pub attr: FileAttr,
}

impl Link {
    /// Creates a new link node.
    ///
    /// The attributes are copied from the aliased entity, with the kind
    /// forced to symlink and the size set to the byte length of the target.
    pub fn new(ino: Inode, target: &str, attr: &FileAttr) -> (r: Link)
        ensures
            r.target@ == target@,
            r.attr == (FileAttr {
                ino,
                size: target.spec_bytes().len() as u64,
                kind: FileType::Symlink,
                ..*attr
            }),
    {
        Link {
            target: target.to_owned(),
            attr: FileAttr {
                ino,
                size: target.as_bytes().len() as u64,
                kind: FileType::Symlink,
                ..*attr
            },
        }
    }

    /// The attributes of the node.
    pub fn attr(&self) -> (a: FileAttr)
        ensures
            a == self.attr,
    {
        self.attr
    }

    /// The target of the link.
    pub fn target(&self) -> (r: &str)
        ensures
            r@ == self.target@,
    {
        self.target.as_str()
    }
}

} // verus!
