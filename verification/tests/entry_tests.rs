use password_manager::entry::{PasswordEntry, ValidationError};

fn entry(u: &str, p: &str, l: &str) -> PasswordEntry {
    PasswordEntry::new(u.to_string(), p.to_string(), l.to_string()).unwrap()
}

#[test]
fn new_rejects_empty_username() {
    let r = PasswordEntry::new("".to_string(), "p".to_string(), "place".to_string());
    assert!(matches!(r, Err(ValidationError::EmptyUsername)));
}

#[test]
fn new_rejects_empty_password() {
    let r = PasswordEntry::new("u".to_string(), "".to_string(), "place".to_string());
    assert!(matches!(r, Err(ValidationError::EmptyPassword)));
}

#[test]
fn new_rejects_empty_place() {
    let r = PasswordEntry::new("u".to_string(), "p".to_string(), "".to_string());
    assert!(matches!(r, Err(ValidationError::EmptyPlace)));
}

#[test]
fn new_rejects_blank_after_trim() {
    let r = PasswordEntry::new("   ".to_string(), "p".to_string(), "place".to_string());
    assert!(matches!(r, Err(ValidationError::EmptyUsername)));
    let r = PasswordEntry::new("u".to_string(), " \t ".to_string(), "place".to_string());
    assert!(matches!(r, Err(ValidationError::EmptyPassword)));
}

#[test]
fn new_trims_surrounding_whitespace() {
    let e = entry(" u ", " p ", " place ");
    assert_eq!(e.username(), "u");
    assert_eq!(e.password(), "p");
    assert_eq!(e.place(), "place");
}

#[test]
fn new_keeps_inner_whitespace() {
    let e = entry("a b", "p w", "my place");
    assert_eq!(e.username(), "a b");
    assert_eq!(e.password(), "p w");
    assert_eq!(e.place(), "my place");
}

#[test]
fn validate_always_ok_for_constructed() {
    let e = entry("alice", "pw1", "mail");
    assert!(e.validate().is_ok());
}

#[test]
fn update_replaces_only_supplied_fields() {
    let mut e = entry("alice", "pw1", "mail");
    let r = e.update(None, Some(" pw2 ".to_string()), None);
    assert!(r.is_ok());
    assert_eq!(e.username(), "alice");
    assert_eq!(e.password(), "pw2");
    assert_eq!(e.place(), "mail");
}

#[test]
fn update_rejects_blank_field_and_keeps_old_record() {
    let mut e = entry("alice", "pw1", "mail");
    let r = e.update(Some("  ".to_string()), Some("x".to_string()), None);
    assert!(matches!(r, Err(ValidationError::EmptyUsername)));
    assert_eq!(e.username(), "alice");
    assert_eq!(e.password(), "pw1");
    assert_eq!(e.place(), "mail");
}

#[test]
fn update_all_fields() {
    let mut e = entry("alice", "pw1", "mail");
    let r = e.update(
        Some("bob".to_string()),
        Some("pw2".to_string()),
        Some("bank".to_string()),
    );
    assert!(r.is_ok());
    assert_eq!(e.username(), "bob");
    assert_eq!(e.password(), "pw2");
    assert_eq!(e.place(), "bank");
}

#[test]
fn validation_error_messages() {
    assert_eq!(
        ValidationError::EmptyUsername.message(),
        "Username cannot be empty"
    );
    assert_eq!(
        ValidationError::EmptyPassword.message(),
        "Password cannot be empty"
    );
    assert_eq!(ValidationError::EmptyPlace.message(), "Place cannot be empty");
}

#[test]
fn entry_equality_is_by_fields() {
    let a = entry("alice", "pw1", "mail");
    let b = entry(" alice ", "pw1", "mail");
    let c = entry("bob", "pw1", "mail");
    assert_eq!(a, b);
    assert_ne!(a, c);
}
