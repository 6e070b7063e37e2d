//! The syscall dispatch layer: stateless translations of inode- and
//! handle-based requests into node operations and POSIX-style outcomes.

mod getattr;
mod lookup;
mod opendir;
mod read;

pub use getattr::getattr;
pub use lookup::{lookup, scan_entries, spec_scan};
pub use opendir::{opendir, readdir, releasedir};
pub use read::{read, read_link};
