use vstd::prelude::*;

use crate::fs::Fs;
use crate::{Errno, Inode};

verus! {

/// Implements the `getattr` syscall: reads the attributes of the entity
/// with the given inode, or fails with "no such entry" when the inode does
/// not resolve.
pub fn getattr(fs: &mut Fs, ino: Inode, now_ms: u64) -> (r: Result<
    crate::fs::attr::FileAttr,
    Errno,
>)
    ensures
        r == (match old(fs).nodes.spec_get(ino) {
            Some(n) => match crate::fs::node::spec_attr_result(
                n,
                old(fs).nodes.spec_owner_times(n),
                old(fs).config,
                now_ms,
            ) {
                Some(a) => Ok::<crate::fs::attr::FileAttr, Errno>(a),
                None => Err::<crate::fs::attr::FileAttr, Errno>(Errno::NoEnt),
            },
            None => Err::<crate::fs::attr::FileAttr, Errno>(Errno::NoEnt),
        }),
        final(fs).config == old(fs).config,
        final(fs).spec_slab() == old(fs).spec_slab(),
        forall|i: Inode| i != ino ==> final(fs).nodes.spec_get(i) == old(fs).nodes.spec_get(i),
{
    match fs.nodes.attr_of(ino, &fs.config, now_ms) {
        Some(a) => Ok(a),
        None => Err(Errno::NoEnt),
    }
}

} // verus!
