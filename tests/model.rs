use rvault::error::VaultError;
use rvault::model::{SecretEntry, VaultData};

fn entry(v: &str, t: u64) -> SecretEntry {
    SecretEntry { value: v.to_string(), created_at: t }
}

#[test]
fn new_map_is_empty() {
    let d = VaultData::new();
    assert!(d.is_empty());
    assert!(d.keys().is_empty());
    assert!(d.get("db").is_none());
}

#[test]
fn insert_then_get() {
    let mut d = VaultData::new();
    d.insert_new("db".to_string(), entry("s3cr3t", 1700000000)).unwrap();
    assert!(!d.is_empty());
    assert!(d.contains_key("db"));
    assert_eq!(d.get("db"), Some(&entry("s3cr3t", 1700000000)));
    assert_eq!(d.keys(), vec!["db".to_string()]);
}

#[test]
fn insert_of_present_key_is_refused() {
    let mut d = VaultData::new();
    d.insert_new("db".to_string(), entry("one", 1)).unwrap();
    assert_eq!(d.insert_new("db".to_string(), entry("two", 2)), Err(VaultError::DuplicateKey));
    assert_eq!(d.get("db"), Some(&entry("one", 1)));
    assert_eq!(d.keys().len(), 1);
}

#[test]
fn remove_takes_entry_out() {
    let mut d = VaultData::new();
    d.insert_new("a".to_string(), entry("x", 1)).unwrap();
    d.insert_new("b".to_string(), entry("y", 2)).unwrap();
    d.insert_new("c".to_string(), entry("z", 3)).unwrap();
    assert_eq!(d.remove("b"), Ok(entry("y", 2)));
    assert!(!d.contains_key("b"));
    assert_eq!(d.get("a"), Some(&entry("x", 1)));
    assert_eq!(d.get("c"), Some(&entry("z", 3)));
    let mut keys = d.keys();
    keys.sort();
    assert_eq!(keys, vec!["a".to_string(), "c".to_string()]);
}

#[test]
fn remove_of_absent_key_is_refused() {
    let mut d = VaultData::new();
    d.insert_new("a".to_string(), entry("x", 1)).unwrap();
    assert_eq!(d.remove("zz"), Err(VaultError::MissingKey));
    assert_eq!(d.keys(), vec!["a".to_string()]);
}

#[test]
fn duplicate_copies_fields() {
    let e = entry("v", 42);
    assert_eq!(e.duplicate(), e);
}
