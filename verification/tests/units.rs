use secretfs::fs::node::secret::{field_alias, FieldValue};
use secretfs::fs::node::vault::{eligible_alias, make_alias_name};
use secretfs::util::diff::diff;
use secretfs::util::strings::{contains_str, replace_slashes, str_eq};
use secretfs::util::throttle::Throttle;

#[test]
fn str_eq_compares_by_characters() {
    assert!(str_eq("", ""));
    assert!(str_eq("abc", "abc"));
    assert!(!str_eq("abc", "abd"));
    assert!(!str_eq("abc", "ab"));
    assert!(str_eq("naïve", "naïve"));
}

#[test]
fn contains_str_scans_the_vector() {
    let v = vec!["a".to_string(), "b".to_string()];
    assert!(contains_str(&v, "a"));
    assert!(contains_str(&v, "b"));
    assert!(!contains_str(&v, "c"));
}

#[test]
fn replace_slashes_rewrites_only_slashes() {
    assert_eq!(replace_slashes("a/b/c"), "a_b_c");
    assert_eq!(replace_slashes("abc"), "abc");
    assert_eq!(replace_slashes(""), "");
    assert_eq!(replace_slashes("//"), "__");
}

#[test]
fn diff_splits_three_ways() {
    let a = vec!["a".to_string(), "b".to_string(), "c".to_string()];
    let b = vec!["b".to_string(), "c".to_string(), "d".to_string()];
    let (a_only, both, b_only) = diff(&a, &b);
    assert_eq!(a_only, vec!["a".to_string()]);
    assert_eq!(both, vec!["b".to_string(), "c".to_string()]);
    assert_eq!(b_only, vec!["d".to_string()]);
}

#[test]
fn diff_of_disjoint_sets() {
    let a = vec!["a".to_string()];
    let b = vec!["b".to_string()];
    let (a_only, both, b_only) = diff(&a, &b);
    assert_eq!(a_only, vec!["a".to_string()]);
    assert!(both.is_empty());
    assert_eq!(b_only, vec!["b".to_string()]);
}

#[test]
fn alias_name_empty_title_is_ineligible() {
    assert_eq!(make_alias_name(""), None);
}

#[test]
fn alias_name_replaces_slashes() {
    assert_eq!(make_alias_name("a/b"), Some("a_b".to_string()));
    assert_eq!(make_alias_name("plain"), Some("plain".to_string()));
}

#[test]
fn alias_equal_to_canonical_id_is_ineligible() {
    assert_eq!(eligible_alias("secret1", "secret1"), None);
    assert_eq!(eligible_alias("", "secret1"), None);
    assert_eq!(eligible_alias("a/b", "secret1"), Some("a_b".to_string()));
}

#[test]
fn field_alias_degenerate_references() {
    // an empty reference or one that ends with a slash yields no alias
    assert_eq!(field_alias(""), None);
    assert_eq!(field_alias("op://acct/vault/item/"), None);
    // fewer than four slashes leaves nothing after the fourth
    assert_eq!(field_alias("abc"), Some("".to_string()));
}

#[test]
fn field_alias_joins_trailing_segments() {
    assert_eq!(
        field_alias("op://acct/vault/item/field"),
        Some("item_field".to_string())
    );
    assert_eq!(
        field_alias("op://acct/vault/item/section/field"),
        Some("item_section_field".to_string())
    );
}

#[test]
fn field_value_exposes_its_string() {
    let v = FieldValue("hello".to_string());
    assert_eq!(v.value(), "hello");
}

#[test]
fn throttle_gates_by_age() {
    let t: Throttle<u32> = Throttle::new(7, 1000);
    assert_eq!(*t.value(), 7);
    // fresh within the cache duration
    assert!(!t.stale(5000, 1000));
    assert!(!t.stale(5000, 5999));
    // stale once the duration elapsed
    assert!(t.stale(5000, 6000));
    // never-refreshed is unconditionally stale
    let s: Throttle<u32> = Throttle::new_stale(0);
    assert!(s.stale(5000, 0));
}

#[test]
fn throttle_try_refresh_runs_only_when_stale() {
    let mut t: Throttle<u32> = Throttle::new(1, 1000);
    // fresh: the closure is not invoked
    let ok = t.try_refresh(5000, 2000, |_v: &u32| (99, true));
    assert!(ok);
    assert_eq!(*t.value(), 1);
    // stale: the closure runs and its value is stored
    let ok = t.try_refresh(5000, 6000, |v: &u32| (*v + 1, true));
    assert!(ok);
    assert_eq!(*t.value(), 2);
    // the refresh time was recorded: fresh again
    assert!(!t.stale(5000, 6001));
}

#[test]
fn throttle_failed_refresh_keeps_value_and_retries() {
    let mut t: Throttle<u32> = Throttle::new(1, 1000);
    let ok = t.try_refresh(5000, 7000, |_v: &u32| (99, false));
    assert!(!ok);
    // value untouched and still stale, so the next attempt retries at once
    assert_eq!(*t.value(), 1);
    assert!(t.stale(5000, 7001));
}
