use secretfs::config::{Account, Config, OnePassword, Vault};
use secretfs::fs::dentry::FileType;
use secretfs::fs::syscalls::{getattr, lookup, opendir, read, read_link, readdir, releasedir};
use secretfs::fs::Fs;
use secretfs::onepassword::types::{Secret, SecretField, SecretMetadata};
use secretfs::Errno;
use secretfs::ROOT_INO;

fn test_config() -> Config {
    Config {
        uid: 1000,
        gid: 1000,
        dir_mode: 0o500,
        file_mode: 0o400,
        cache_duration_ms: 5000,
        accounts: vec![(
            "personal".to_string(),
            Account {
                id: "ACME".to_string(),
                vaults: vec![("main".to_string(), Vault { id: "V1".to_string() })],
            },
        )],
        op: OnePassword { cmd: "op".to_string() },
    }
}

fn meta(id: &str, title: &str) -> SecretMetadata {
    SecretMetadata {
        id: id.to_string(),
        title: title.to_string(),
        version: 1,
        category: "LOGIN".to_string(),
        created_at_ms: 1_000,
        updated_at_ms: 2_000,
    }
}

fn field(id: &str, reference: &str, value: Option<&str>) -> SecretField {
    SecretField {
        id: id.to_string(),
        reference: reference.to_string(),
        value: value.map(|v| v.to_string()),
    }
}

/// Builds the tree and resolves the single configured vault's inode.
fn setup_vault(fs: &mut Fs) -> u64 {
    let account = lookup(fs, ROOT_INO, "personal").unwrap();
    lookup(fs, account, "main").unwrap()
}

#[test]
fn root_lists_accounts_and_accounts_list_vaults() {
    let mut fs = Fs::new(test_config(), 500);
    let fh = opendir(&mut fs, ROOT_INO).unwrap();
    let entries = readdir(&fs, ROOT_INO, fh, 0).unwrap();
    assert_eq!(entries.len(), 1);
    assert_eq!(entries[0].1.name, "personal");
    assert!(matches!(entries[0].1.file_type, FileType::Directory));
    assert_eq!(entries[0].0, 1);
    releasedir(&mut fs, ROOT_INO, fh).unwrap();

    let account = lookup(&mut fs, ROOT_INO, "personal").unwrap();
    let vault = lookup(&mut fs, account, "main").unwrap();
    let attr = getattr(&mut fs, vault, 900).unwrap();
    assert_eq!(attr.ino, vault);
    assert!(matches!(attr.kind, FileType::Directory));
    assert_eq!(attr.perm, 0o500);
    assert_eq!(attr.uid, 1000);
}

#[test]
fn unknown_names_and_inodes_are_not_found() {
    let mut fs = Fs::new(test_config(), 500);
    assert_eq!(lookup(&mut fs, ROOT_INO, "nope"), Err(Errno::NoEnt));
    assert_eq!(getattr(&mut fs, 999, 500), Err(Errno::NoEnt));
    assert_eq!(getattr(&mut fs, 0, 500), Err(Errno::NoEnt));
}

#[test]
fn vault_refresh_creates_secrets_and_aliases() {
    let mut fs = Fs::new(test_config(), 500);
    let vault = setup_vault(&mut fs);
    assert!(fs.refresh_target(vault, 1_000).is_some());
    fs.refresh_vault(vault, Ok(vec![meta("s1", "My Login")]), 1_000)
        .unwrap();

    let s1 = lookup(&mut fs, vault, "s1").unwrap();
    let alias = lookup(&mut fs, vault, "My Login").unwrap();
    assert_ne!(s1, alias);
    // the alias is a symlink to the canonical name
    assert_eq!(read_link(&fs, alias).unwrap(), "s1");
    let attr = getattr(&mut fs, alias, 1_100).unwrap();
    assert!(matches!(attr.kind, FileType::Symlink));
    assert_eq!(attr.size, 2);
    // the secret's times come from its metadata
    let sattr = getattr(&mut fs, s1, 1_100).unwrap();
    assert_eq!(sattr.crtime_ms, 1_000);
    assert_eq!(sattr.mtime_ms, 2_000);
}

#[test]
fn inode_stable_under_title_change() {
    let mut fs = Fs::new(test_config(), 500);
    let vault = setup_vault(&mut fs);
    fs.refresh_vault(vault, Ok(vec![meta("s1", "Old Title")]), 1_000)
        .unwrap();
    let ino_before = lookup(&mut fs, vault, "s1").unwrap();
    let alias_before = lookup(&mut fs, vault, "Old Title").unwrap();

    // identity unchanged, title changed: the secret keeps its inode and the
    // alias is renamed in place, keeping its own inode too
    fs.refresh_vault(vault, Ok(vec![meta("s1", "New Title")]), 7_000)
        .unwrap();
    assert_eq!(lookup(&mut fs, vault, "s1").unwrap(), ino_before);
    assert_eq!(lookup(&mut fs, vault, "Old Title"), Err(Errno::NoEnt));
    assert_eq!(lookup(&mut fs, vault, "New Title").unwrap(), alias_before);
}

#[test]
fn deletion_frees_identity_and_slot_is_reused() {
    let mut fs = Fs::new(test_config(), 500);
    let vault = setup_vault(&mut fs);
    fs.refresh_vault(vault, Ok(vec![meta("s1", "")]), 1_000).unwrap();
    let ino = lookup(&mut fs, vault, "s1").unwrap();

    // the secret disappears from the listing: its inode stops resolving
    fs.refresh_vault(vault, Ok(vec![]), 7_000).unwrap();
    assert_eq!(getattr(&mut fs, ino, 7_100), Err(Errno::NoEnt));
    assert_eq!(lookup(&mut fs, vault, "s1"), Err(Errno::NoEnt));

    // a brand-new secret may reuse the freed slot number
    fs.refresh_vault(vault, Ok(vec![meta("s2", "")]), 13_000).unwrap();
    assert_eq!(lookup(&mut fs, vault, "s2").unwrap(), ino);
}

#[test]
fn throttle_gates_fetches_and_failure_retries() {
    let mut fs = Fs::new(test_config(), 500);
    let vault = setup_vault(&mut fs);
    // never refreshed: a fetch is due
    assert!(fs.refresh_target(vault, 1_000).is_some());
    fs.refresh_vault(vault, Ok(vec![]), 1_000).unwrap();
    // within the cache duration: no second fetch
    assert!(fs.refresh_target(vault, 2_000).is_none());
    assert!(fs.refresh_target(vault, 5_999).is_none());
    // after it elapsed: due again
    assert!(fs.refresh_target(vault, 6_000).is_some());
    // a failed fetch leaves the refresh time untouched, so the next
    // attempt retries immediately
    assert_eq!(fs.refresh_vault(vault, Err(()), 6_000), Err(Errno::Io));
    assert!(fs.refresh_target(vault, 6_001).is_some());
}

#[test]
fn directory_snapshot_isolation() {
    let mut fs = Fs::new(test_config(), 500);
    let vault = setup_vault(&mut fs);
    fs.refresh_vault(vault, Ok(vec![meta("s1", "")]), 1_000).unwrap();

    let fh = opendir(&mut fs, vault).unwrap();
    let before = readdir(&fs, vault, fh, 0).unwrap();
    assert_eq!(before.len(), 1);

    // a refresh adds a new entry while the handle is open
    fs.refresh_vault(vault, Ok(vec![meta("s1", ""), meta("s2", "")]), 7_000)
        .unwrap();

    // the open handle still serves the pre-refresh snapshot
    let still = readdir(&fs, vault, fh, 0).unwrap();
    assert_eq!(still.len(), 1);
    assert_eq!(still[0].1.name, "s1");
    releasedir(&mut fs, vault, fh).unwrap();

    // only a fresh handle observes the new entry
    let fh2 = opendir(&mut fs, vault).unwrap();
    let after = readdir(&fs, vault, fh2, 0).unwrap();
    assert_eq!(after.len(), 2);
    releasedir(&mut fs, vault, fh2).unwrap();
}

#[test]
fn title_equal_to_canonical_id_yields_no_alias() {
    let mut fs = Fs::new(test_config(), 500);
    let vault = setup_vault(&mut fs);
    // created with an ineligible title: no alias entry
    fs.refresh_vault(vault, Ok(vec![meta("s1", "s1")]), 1_000).unwrap();
    let fh = opendir(&mut fs, vault).unwrap();
    assert_eq!(readdir(&fs, vault, fh, 0).unwrap().len(), 1);
    releasedir(&mut fs, vault, fh).unwrap();

    // the title becomes eligible: an alias appears
    fs.refresh_vault(vault, Ok(vec![meta("s1", "nice")]), 7_000).unwrap();
    assert!(lookup(&mut fs, vault, "nice").is_ok());

    // and becomes ineligible again: the alias is dropped
    fs.refresh_vault(vault, Ok(vec![meta("s1", "s1")]), 13_000).unwrap();
    assert_eq!(lookup(&mut fs, vault, "nice"), Err(Errno::NoEnt));
    let fh = opendir(&mut fs, vault).unwrap();
    assert_eq!(readdir(&fs, vault, fh, 0).unwrap().len(), 1);
    releasedir(&mut fs, vault, fh).unwrap();
}

#[test]
fn alias_collision_keeps_one_entry() {
    let mut fs = Fs::new(test_config(), 500);
    let vault = setup_vault(&mut fs);
    // the second secret's alias collides with the first one's canonical name
    fs.refresh_vault(vault, Ok(vec![meta("x", ""), meta("y", "x")]), 1_000)
        .unwrap();
    let fh = opendir(&mut fs, vault).unwrap();
    let entries = readdir(&fs, vault, fh, 0).unwrap();
    let named_x: Vec<_> = entries.iter().filter(|(_, e)| e.name == "x").collect();
    assert_eq!(named_x.len(), 1);
    // the alias was applied after the canonical entry, so it wins
    assert!(matches!(named_x[0].1.file_type, FileType::Symlink));
    releasedir(&mut fs, vault, fh).unwrap();
}

fn one_secret(fields: Vec<SecretField>) -> Secret {
    Secret { metadata: meta("s1", "My Login"), fields }
}

fn setup_secret(fs: &mut Fs, fields: Vec<SecretField>) -> u64 {
    let vault = setup_vault(fs);
    fs.refresh_vault(vault, Ok(vec![meta("s1", "My Login")]), 1_000)
        .unwrap();
    let s1 = lookup(fs, vault, "s1").unwrap();
    fs.refresh_secret(s1, Ok(one_secret(fields)), 1_000).unwrap();
    s1
}

#[test]
fn read_windows_a_field_value() {
    let mut fs = Fs::new(test_config(), 500);
    let s1 = setup_secret(
        &mut fs,
        vec![field("password", "op://ACME/V1/s1/password", Some("hello"))],
    );
    let f = lookup(&mut fs, s1, "password").unwrap();
    assert_eq!(read(&fs, f, 0, 100).unwrap(), b"hello".to_vec());
    assert_eq!(read(&fs, f, 2, 10).unwrap(), b"llo".to_vec());
    assert_eq!(read(&fs, f, 10, 5).unwrap(), Vec::<u8>::new());
    assert_eq!(read(&fs, f, -1, 5), Err(Errno::Inval));
    let attr = getattr(&mut fs, f, 2_000).unwrap();
    assert_eq!(attr.size, 5);
    assert!(matches!(attr.kind, FileType::RegularFile));
    assert_eq!(attr.perm, 0o400);
}

#[test]
fn notes_field_strips_a_leading_fence() {
    let mut fs = Fs::new(test_config(), 500);
    let s1 = setup_secret(
        &mut fs,
        vec![
            field("notesPlain", "op://ACME/V1/s1/notesPlain", Some("```abc")),
            field("other", "", Some("```abc")),
        ],
    );
    let notes = lookup(&mut fs, s1, "notesPlain").unwrap();
    // trimming applies only to the conventional notes field
    assert_eq!(read(&fs, notes, 0, 100).unwrap(), b"abc".to_vec());
    // the size still reports the untrimmed value
    assert_eq!(getattr(&mut fs, notes, 2_000).unwrap().size, 6);
    let other = lookup(&mut fs, s1, "other").unwrap();
    assert_eq!(read(&fs, other, 0, 100).unwrap(), b"```abc".to_vec());
}

#[test]
fn field_aliases_come_from_references() {
    let mut fs = Fs::new(test_config(), 500);
    let s1 = setup_secret(
        &mut fs,
        vec![field("password", "op://ACME/V1/s1/password", Some("pw"))],
    );
    let alias = lookup(&mut fs, s1, "s1_password").unwrap();
    assert_eq!(read_link(&fs, alias).unwrap(), "password");
    // a field whose ID is empty is ignored entirely
    let mut fs2 = Fs::new(test_config(), 500);
    let s1b = setup_secret(&mut fs2, vec![field("", "op://ACME/V1/s1/x", Some("v"))]);
    let fh = opendir(&mut fs2, s1b).unwrap();
    assert_eq!(readdir(&fs2, s1b, fh, 0).unwrap().len(), 0);
}

#[test]
fn field_value_updated_in_place() {
    let mut fs = Fs::new(test_config(), 500);
    let s1 = setup_secret(
        &mut fs,
        vec![field("password", "op://ACME/V1/s1/password", Some("old"))],
    );
    let f = lookup(&mut fs, s1, "password").unwrap();
    fs.refresh_secret(
        s1,
        Ok(one_secret(vec![field(
            "password",
            "op://ACME/V1/s1/password",
            Some("new"),
        )])),
        7_000,
    )
    .unwrap();
    // same inode, new value
    assert_eq!(lookup(&mut fs, s1, "password").unwrap(), f);
    assert_eq!(read(&fs, f, 0, 100).unwrap(), b"new".to_vec());
}

#[test]
fn wrong_kind_operations_fail() {
    let mut fs = Fs::new(test_config(), 500);
    let s1 = setup_secret(
        &mut fs,
        vec![field("password", "op://ACME/V1/s1/password", Some("pw"))],
    );
    let f = lookup(&mut fs, s1, "password").unwrap();
    let alias = lookup(&mut fs, s1, "s1_password").unwrap();
    // directories cannot be read; links are resolved via readlink
    assert_eq!(read(&fs, ROOT_INO, 0, 10), Err(Errno::IsDir));
    assert_eq!(read(&fs, alias, 0, 10), Err(Errno::Io));
    assert_eq!(read(&fs, 999, 0, 10), Err(Errno::NoEnt));
    // only links resolve through readlink
    assert_eq!(read_link(&fs, f), Err(Errno::Io));
    assert_eq!(read_link(&fs, 999), Err(Errno::NoEnt));
    // files are not directories
    assert_eq!(lookup(&mut fs, f, "x"), Err(Errno::NotDir));
    assert_eq!(opendir(&mut fs, f), Err(Errno::NotDir));
}

#[test]
fn bad_directory_handles_are_rejected() {
    let mut fs = Fs::new(test_config(), 500);
    let fh = opendir(&mut fs, ROOT_INO).unwrap();
    // a handle is bound to the inode it was opened against
    assert!(matches!(readdir(&fs, 42, fh, 0), Err(Errno::BadF)));
    assert_eq!(releasedir(&mut fs, 42, fh), Err(Errno::BadF));
    releasedir(&mut fs, ROOT_INO, fh).unwrap();
    // a released handle is gone
    assert!(matches!(readdir(&fs, ROOT_INO, fh, 0), Err(Errno::BadF)));
    assert_eq!(releasedir(&mut fs, ROOT_INO, fh), Err(Errno::BadF));
}

#[test]
fn readdir_honours_continuation_offsets() {
    let mut fs = Fs::new(test_config(), 500);
    let vault = setup_vault(&mut fs);
    fs.refresh_vault(
        vault,
        Ok(vec![meta("a", ""), meta("b", ""), meta("c", "")]),
        1_000,
    )
    .unwrap();
    let fh = opendir(&mut fs, vault).unwrap();
    let all = readdir(&fs, vault, fh, 0).unwrap();
    assert_eq!(all.len(), 3);
    assert_eq!(all[0].0, 1);
    assert_eq!(all[2].0, 3);
    // resuming at a continuation offset yields the remainder
    let rest = readdir(&fs, vault, fh, all[0].0 as usize).unwrap();
    assert_eq!(rest.len(), 2);
    assert_eq!(rest[0].1.name, all[1].1.name);
    // at the end the listing is empty
    assert_eq!(readdir(&fs, vault, fh, 3).unwrap().len(), 0);
    releasedir(&mut fs, vault, fh).unwrap();
}
