use vstd::prelude::*;
use vstd::math::min;

use crate::fs::node::Node;
use crate::fs::Fs;
use crate::{Errno, Inode};

verus! {

/// Implements the `read` syscall: reads a byte window of a field's value.
///
/// Only field nodes are readable; directories fail with "is a directory",
/// links are read through `read_link` instead, and a negative offset cannot
/// be represented.
pub fn read(fs: &Fs, ino: Inode, offset: i64, size: u32) -> (r: Result<Vec<u8>, Errno>)
    ensures
        match fs.nodes.spec_get(ino) {
            None => r == Err::<Vec<u8>, Errno>(Errno::NoEnt),
            Some(n) => match n {
                Node::Dummy => r == Err::<Vec<u8>, Errno>(Errno::NoEnt),
                Node::Link(_) => r == Err::<Vec<u8>, Errno>(Errno::Io),
                Node::Field(f) => if offset < 0 {
                    r == Err::<Vec<u8>, Errno>(Errno::Inval)
                } else {
                    match r {
                        Ok(v) => v@ == f.spec_visible_bytes().subrange(
                            min(f.spec_visible_bytes().len() as int, offset as int),
                            min(
                                f.spec_visible_bytes().len() as int,
                                offset as int + size as int,
                            ),
                        ),
                        Err(_) => false,
                    }
                },
                _ => r == Err::<Vec<u8>, Errno>(Errno::IsDir),
            },
        },
{
    match fs.nodes.get(ino) {
        None => Err(Errno::NoEnt),
        Some(node) => match node {
            Node::Dummy => Err(Errno::NoEnt),
            Node::Field(f) => {
                if offset < 0 {
                    Err(Errno::Inval)
                } else {
                    Ok(f.read(offset as u64, size))
                }
            },
            // links are resolved through `read_link` instead
            Node::Link(_) => Err(Errno::Io),
            _ => Err(Errno::IsDir),
        },
    }
}

/// Implements the `readlink` syscall: reads the target of a symbolic link.
pub fn read_link(fs: &Fs, ino: Inode) -> (r: Result<String, Errno>)
    ensures
        match fs.nodes.spec_get(ino) {
            None => r == Err::<String, Errno>(Errno::NoEnt),
            Some(n) => match n {
                Node::Dummy => r == Err::<String, Errno>(Errno::NoEnt),
                Node::Link(l) => r matches Ok(t) && t@ == l.target@,
                _ => r == Err::<String, Errno>(Errno::Io),
            },
        },
{
    match fs.nodes.get(ino) {
        None => Err(Errno::NoEnt),
        Some(node) => match node {
            Node::Dummy => Err(Errno::NoEnt),
            Node::Link(l) => Ok(l.target.clone()),
            _ => Err(Errno::Io),
        },
    }
}

} // verus!
