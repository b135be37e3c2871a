use password_manager::codec::encode_entry;
use password_manager::crypto::FileCrypto;
use password_manager::entry::PasswordEntry;
use password_manager::vault::{lines, parse_vault, render_vault};

fn entry(u: &str, p: &str, l: &str) -> PasswordEntry {
    PasswordEntry::new(u.to_string(), p.to_string(), l.to_string()).unwrap()
}

// Empty vault: empty text yields an empty collection, without error.
#[test]
fn empty_content_yields_no_entries() {
    let crypto = FileCrypto::new("S1");
    assert!(parse_vault(&crypto, "").is_empty());
}

// End-to-end: save then reload under the same secret gives back the
// same records in the same order.
#[test]
fn render_then_parse_restores_entries_in_order() {
    let crypto = FileCrypto::new("S1");
    let entries = vec![entry("alice", "pw1", "mail"), entry("bob", "pw2", "bank")];
    let content = render_vault(&crypto, &entries).unwrap();
    let reopened = FileCrypto::new("S1");
    let loaded = parse_vault(&reopened, &content);
    assert_eq!(loaded, entries);
}

// Reopening with a different secret authenticates no line: zero
// records, not a fatal error.
#[test]
fn wrong_secret_recovers_nothing() {
    let crypto = FileCrypto::new("S1");
    let entries = vec![entry("alice", "pw1", "mail"), entry("bob", "pw2", "bank")];
    let content = render_vault(&crypto, &entries).unwrap();
    let other = FileCrypto::new("S2");
    assert!(parse_vault(&other, &content).is_empty());
}

// Partial corruption: a file with valid and malformed lines loads
// exactly the valid records, in original order.
#[test]
fn malformed_lines_are_skipped_in_order() {
    let crypto = FileCrypto::new("S1");
    let a = entry("alice", "pw1", "mail");
    let b = entry("bob", "pw2", "bank");
    let c = entry("carol", "pw3", "shop");
    let la = encode_entry(&crypto, &a).unwrap();
    let lb = encode_entry(&crypto, &b).unwrap();
    let lc = encode_entry(&crypto, &c).unwrap();
    let mut tampered = lb.clone();
    tampered.insert(4, 'A');
    let content = format!(
        "not base64 at all\n{}\n\n{}\n{}\nAQID\n{}\n",
        la, tampered, lb, lc
    );
    let loaded = parse_vault(&crypto, &content);
    assert_eq!(loaded, vec![a, b, c]);
}

#[test]
fn rendered_content_is_one_line_per_entry() {
    let crypto = FileCrypto::new("S1");
    let entries = vec![entry("alice", "pw1", "mail"), entry("bob", "pw2", "bank")];
    let content = render_vault(&crypto, &entries).unwrap();
    assert!(content.ends_with('\n'));
    assert_eq!(content.lines().count(), 2);
}

#[test]
fn render_of_no_entries_is_empty_text() {
    let crypto = FileCrypto::new("S1");
    let content = render_vault(&crypto, &Vec::new()).unwrap();
    assert_eq!(content, "");
}

#[test]
fn lines_splits_like_str_lines() {
    let cases = [
        "",
        "a",
        "a\n",
        "a\nb",
        "a\r\nb\n",
        "a\n\nb",
        "\n",
        "a\n\r",
    ];
    for case in cases {
        let got = lines(case);
        let want: Vec<String> = case.lines().map(|s| s.to_string()).collect();
        assert_eq!(got, want, "case {:?}", case);
    }
}
