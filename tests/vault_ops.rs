use vault_cli::vault::{AddOutcome, DeleteOutcome, PasswordEntry, PasswordVault};

fn triples(v: &[&PasswordEntry]) -> Vec<(String, String, String)> {
    v.iter()
        .map(|e| (e.service().to_string(), e.username().to_string(), e.password().to_string()))
        .collect()
}

#[test]
fn new_vault_is_empty_and_current() {
    let v = PasswordVault::new();
    assert_eq!(v.version(), 1);
    assert!(v.entries().is_empty());
    assert!(v.get(None, None).is_empty());
}

#[test]
fn add_then_get_by_service() {
    let mut v = PasswordVault::new();
    assert_eq!(v.add("github", "alice", "p@ss"), AddOutcome::Added);
    let got = v.get(Some("github".to_string()), None);
    assert_eq!(triples(&got), vec![("github".to_string(), "alice".to_string(), "p@ss".to_string())]);
}

#[test]
fn duplicate_add_keeps_first_password() {
    let mut v = PasswordVault::new();
    assert_eq!(v.add("github", "alice", "first"), AddOutcome::Added);
    assert_eq!(v.add("github", "alice", "second"), AddOutcome::AlreadyPresent);
    let got = v.get(Some("github".to_string()), Some("alice".to_string()));
    assert_eq!(got.len(), 1);
    assert_eq!(got[0].password(), "first");
    assert_eq!(v.entries().len(), 1);
}

#[test]
fn delete_then_lookup_is_empty() {
    let mut v = PasswordVault::new();
    v.add("github", "alice", "p@ss");
    v.add("github", "bob", "pw");
    assert_eq!(v.delete("github", "alice"), DeleteOutcome::Deleted);
    assert!(v.get(Some("github".to_string()), Some("alice".to_string())).is_empty());
    assert_eq!(v.get(None, None).len(), 1);
    assert_eq!(v.delete("github", "alice"), DeleteOutcome::NotFound);
}

#[test]
fn delete_then_readd() {
    let mut v = PasswordVault::new();
    v.add("github", "alice", "p@ss");
    assert_eq!(v.delete("github", "alice"), DeleteOutcome::Deleted);
    assert_eq!(v.add("github", "alice", "new"), AddOutcome::Added);
    let got = v.get(Some("github".to_string()), Some("alice".to_string()));
    assert_eq!(got[0].password(), "new");
}

#[test]
fn get_filters_and_keeps_order() {
    let mut v = PasswordVault::new();
    v.add("github", "alice", "1");
    v.add("mail", "alice", "2");
    v.add("github", "bob", "3");
    let all = triples(&v.get(None, Some("alice".to_string())));
    assert_eq!(all.len(), 3);
    let gh = triples(&v.get(Some("github".to_string()), None));
    assert_eq!(gh.iter().map(|t| t.1.as_str()).collect::<Vec<_>>(), vec!["alice", "bob"]);
    assert!(v.get(Some("GitHub".to_string()), None).is_empty());
    assert!(v.get(Some("github".to_string()), Some("carol".to_string())).is_empty());
}

#[test]
fn pair_key_has_no_delimiter_collision() {
    let mut v = PasswordVault::new();
    assert_eq!(v.add("a|b", "c", "1"), AddOutcome::Added);
    assert_eq!(v.add("a", "b|c", "2"), AddOutcome::Added);
    assert_eq!(v.get(None, None).len(), 2);
}

#[test]
fn from_parts_checks_version_and_pairs() {
    let ok = PasswordVault::from_parts(1, vec![PasswordEntry::new("s", "u", "p")]);
    assert!(ok.is_some());
    assert!(PasswordVault::from_parts(2, vec![]).is_none());
    let dup = vec![PasswordEntry::new("s", "u", "p"), PasswordEntry::new("s", "u", "q")];
    assert!(PasswordVault::from_parts(1, dup).is_none());
}

#[test]
fn entry_wipe_empties_strings() {
    let mut e = PasswordEntry::new("svc", "user", "secret");
    e.wipe();
    assert_eq!(e.service(), "");
    assert_eq!(e.username(), "");
    assert_eq!(e.password(), "");
}

#[test]
fn vault_wipe_removes_everything() {
    let mut v = PasswordVault::new();
    v.add("a", "b", "c");
    v.wipe();
    assert!(v.get(None, None).is_empty());
}
