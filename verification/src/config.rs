//! The configuration the tree is built from, as plain values.
//!
//! Loading a configuration file is the caller's business; the tree only
//! needs the resolved numbers and the static account-to-vault mapping.

use vstd::prelude::*;

verus! {

/// An account to expose, and the vaults to expose under it.
pub struct Account {
    /// The account ID at the data source.
    pub id: String,
    /// The vaults to expose under this account, keyed by display name.
    pub vaults: Vec<(String, Vault)>,
}

/// A vault to expose.
pub struct Vault {
    /// The vault ID at the data source.
    pub id: String,
}

/// Configuration of the external data-source client.
pub struct OnePassword {
    /// The command to run to reach the data source.
    pub cmd: String,
}

/// The filesystem configuration object.
pub struct Config {
    /// The user ID that owns files in the filesystem.
    pub uid: u32,
    /// The group ID that owns files in the filesystem.
    pub gid: u32,
    /// The mode for directories in the filesystem.
    pub dir_mode: u16,
    /// The mode for files in the filesystem.
    pub file_mode: u16,
    /// How long fetched data stays fresh, in milliseconds.
    pub cache_duration_ms: u64,
    /// The accounts to expose, keyed by display name.
    pub accounts: Vec<(String, Account)>,
    /// Data-source client configuration.
    pub op: OnePassword,
}

/// The default owner user and group ID.
pub fn default_uid_gid() -> (r: u32)
    ensures
        r == 0,
{
    0
}

/// The default mode for directories.
pub fn default_dir_mode() -> (r: u16)
    ensures
        r == 0o500,
{
    0o500
}

/// The default mode for files.
pub fn default_file_mode() -> (r: u16)
    ensures
        r == 0o400,
{
    0o400
}

/// The default cache duration: five seconds.
pub fn default_cache_duration() -> (r: u64)
    ensures
        r == 5000,
{
    5000
}

/// The default data-source command.
pub fn default_op_cmd() -> (r: String)
    ensures
        r@ == "op"@,
{
    String::from_str("op")
}

} // verus!
