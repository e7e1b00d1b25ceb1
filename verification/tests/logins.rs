//! The login/token gate: issue, validity window, revocation, renaming.

use wu::logins::UserLogins;

#[test]
fn token_valid_within_window() {
    let mut gate = UserLogins::new();
    let token = gate.add("admin", 1000);
    assert_eq!(token.chars().count(), 32);
    assert!(token.chars().all(|c| c.is_ascii_alphanumeric()));
    assert!(gate.valid("admin", &token, 1000));
    assert!(gate.valid("admin", &token, 1000 + 3599));
    assert!(!gate.valid("admin", &token, 1000 + 3600));
    assert!(!gate.valid("admin", &token, 1000 + 3601));
}

#[test]
fn clock_rollback_counts_as_expired() {
    let mut gate = UserLogins::new();
    let token = gate.add("admin", 1000);
    assert!(!gate.valid("admin", &token, 999));
}

#[test]
fn wrong_token_or_user_is_invalid() {
    let mut gate = UserLogins::new();
    let token = gate.add("admin", 1000);
    assert!(!gate.valid("admin", "notthetoken", 1000));
    assert!(!gate.valid("other", &token, 1000));
}

#[test]
fn several_tokens_coexist() {
    let mut gate = UserLogins::new();
    let t1 = gate.add("admin", 1000);
    let t2 = gate.add("admin", 2000);
    assert!(gate.valid("admin", &t1, 2500));
    assert!(gate.valid("admin", &t2, 2500));
}

#[test]
fn issuing_purges_expired_tokens() {
    let mut gate = UserLogins::new();
    let old = gate.add("admin", 1000);
    let fresh = gate.add("admin", 1000 + 4000);
    assert!(!gate.valid("admin", &old, 1000 + 4000));
    assert!(gate.valid("admin", &fresh, 1000 + 4000));
}

#[test]
fn remove_revokes_one_token() {
    let mut gate = UserLogins::new();
    let t1 = gate.add("admin", 1000);
    let t2 = gate.add("admin", 1000);
    gate.remove("admin", &t1, 1001);
    assert!(!gate.valid("admin", &t1, 1001));
    assert!(gate.valid("admin", &t2, 1001));
}

#[test]
fn remove_user_revokes_all() {
    let mut gate = UserLogins::new();
    let t1 = gate.add("admin", 1000);
    gate.remove_user("admin");
    assert!(!gate.valid("admin", &t1, 1000));
}

#[test]
fn rename_preserves_tokens_and_ends_old_name() {
    let mut gate = UserLogins::new();
    let token = gate.add("admin", 1000);
    gate.rename("admin", "root".to_string());
    assert!(gate.valid("root", &token, 1000 + 3599));
    assert!(!gate.valid("root", &token, 1000 + 3601));
    assert!(!gate.valid("admin", &token, 1000));
}

#[test]
fn check_unexpired_window() {
    assert!(UserLogins::check_unexpired(1000, 1000 + 3599));
    assert!(!UserLogins::check_unexpired(1000, 1000 + 3600));
    assert!(!UserLogins::check_unexpired(1000, 999));
}

#[test]
fn remove_expired_drops_only_expired() {
    let mut list = vec![
        ("old".to_string(), 0u64),
        ("new".to_string(), 5000u64),
    ];
    UserLogins::remove_expired(&mut list, 5001);
    assert_eq!(list, vec![("new".to_string(), 5000u64)]);
}
