use base64::Engine;
use password_manager::codec::{decode_entry, encode_entry};
use password_manager::crypto::FileCrypto;
use password_manager::entry::PasswordEntry;

fn entry(u: &str, p: &str, l: &str) -> PasswordEntry {
    PasswordEntry::new(u.to_string(), p.to_string(), l.to_string()).unwrap()
}

// Round trip: decoding an encoded record gives the record back.
#[test]
fn encode_decode_round_trip() {
    let crypto = FileCrypto::new("S1");
    let e = entry("alice", "pw1", "mail");
    let line = encode_entry(&crypto, &e).unwrap();
    let back = decode_entry(&crypto, &line).unwrap();
    assert_eq!(back, e);
}

#[test]
fn round_trip_with_separator_lookalikes_in_fields() {
    let crypto = FileCrypto::new("S1");
    let e = entry("a\tb", "p:w,x", "c\nd");
    let line = encode_entry(&crypto, &e).unwrap();
    let back = decode_entry(&crypto, &line).unwrap();
    assert_eq!(back, e);
}

#[test]
fn round_trip_with_non_ascii_fields() {
    let crypto = FileCrypto::new("S1");
    let e = entry("ülrich", "pässwörd", "bücherei");
    let line = encode_entry(&crypto, &e).unwrap();
    let back = decode_entry(&crypto, &line).unwrap();
    assert_eq!(back, e);
}

#[test]
fn decode_under_wrong_key_fails() {
    let a = FileCrypto::new("S1");
    let b = FileCrypto::new("S2");
    let line = encode_entry(&a, &entry("alice", "pw1", "mail")).unwrap();
    assert!(decode_entry(&b, &line).is_none());
}

// Tamper detection: flipping any single byte of the envelope makes
// decoding fail; it never yields a wrong but valid-looking record.
#[test]
fn flipping_any_envelope_byte_breaks_decode() {
    let crypto = FileCrypto::new("S1");
    let e = entry("alice", "pw1", "mail");
    let line = encode_entry(&crypto, &e).unwrap();
    let engine = &base64::engine::general_purpose::STANDARD;
    let envelope = engine.decode(&line).unwrap();
    for i in 0..envelope.len() {
        let mut tampered = envelope.clone();
        tampered[i] ^= 0x01;
        let tampered_line = engine.encode(&tampered);
        assert!(
            decode_entry(&crypto, &tampered_line).is_none(),
            "byte {} flipped but the line still decoded",
            i
        );
    }
}

#[test]
fn truncated_envelope_fails_decode() {
    let crypto = FileCrypto::new("S1");
    let line = encode_entry(&crypto, &entry("alice", "pw1", "mail")).unwrap();
    let engine = &base64::engine::general_purpose::STANDARD;
    let envelope = engine.decode(&line).unwrap();
    for keep in 0..envelope.len() {
        let cut = engine.encode(&envelope[..keep]);
        assert!(decode_entry(&crypto, &cut).is_none());
    }
}

#[test]
fn garbage_line_fails_decode() {
    let crypto = FileCrypto::new("S1");
    assert!(decode_entry(&crypto, "@@@not-base64@@@").is_none());
    assert!(decode_entry(&crypto, "").is_none());
}
