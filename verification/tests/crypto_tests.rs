use aes_gcm::aead::Aead;
use aes_gcm::KeyInit;
use base64::Engine;
use password_manager::crypto::{CryptoError, FileCrypto};
use sha2::Digest;

#[test]
fn encrypt_decrypt_round_trip() {
    let crypto = FileCrypto::new("S1");
    let line = crypto.encrypt_to_string(b"hello world").unwrap();
    let back = crypto.decrypt_from_string(&line).unwrap();
    assert_eq!(back, b"hello world".to_vec());
}

#[test]
fn encrypt_empty_plaintext_round_trip() {
    let crypto = FileCrypto::new("S1");
    let line = crypto.encrypt_to_string(b"").unwrap();
    let back = crypto.decrypt_from_string(&line).unwrap();
    assert_eq!(back, Vec::<u8>::new());
}

#[test]
fn same_secret_decrypts_across_engines() {
    let a = FileCrypto::new("S1");
    let b = FileCrypto::new("S1");
    let line = a.encrypt_to_string(b"data").unwrap();
    assert_eq!(b.decrypt_from_string(&line).unwrap(), b"data".to_vec());
}

#[test]
fn wrong_secret_fails_authentication() {
    let a = FileCrypto::new("S1");
    let b = FileCrypto::new("S2");
    let line = a.encrypt_to_string(b"data").unwrap();
    let r = b.decrypt_from_string(&line);
    assert!(matches!(r, Err(CryptoError::AuthenticationFailed)));
}

#[test]
fn invalid_base64_is_encoding_error() {
    let crypto = FileCrypto::new("S1");
    let r = crypto.decrypt_from_string("not base64 !!!");
    assert!(matches!(r, Err(CryptoError::EncodingError)));
}

#[test]
fn short_envelope_is_too_short() {
    let crypto = FileCrypto::new("S1");
    let short = base64::engine::general_purpose::STANDARD.encode([1u8, 2, 3]);
    let r = crypto.decrypt_from_string(&short);
    assert!(matches!(r, Err(CryptoError::EnvelopeTooShort)));
}

// The critical nonce law: encrypting the same plaintext twice under the
// same key must not produce the same envelope bytes.
#[test]
fn nonce_is_fresh_per_encryption() {
    let crypto = FileCrypto::new("S1");
    let a = crypto.encrypt_to_string(b"same plaintext").unwrap();
    let b = crypto.encrypt_to_string(b"same plaintext").unwrap();
    assert_ne!(a, b);
}

// Decrypt a line by hand with the outside crates themselves: the key
// is the SHA-256 digest of the secret, the envelope is base64 text of
// nonce || ciphertext || tag.
#[test]
fn line_decrypts_with_raw_primitives() {
    let crypto = FileCrypto::new("S1");
    let line = crypto.encrypt_to_string(b"payload bytes").unwrap();

    let key = sha2::Sha256::digest(b"S1");
    let envelope = base64::engine::general_purpose::STANDARD
        .decode(&line)
        .unwrap();
    assert_eq!(envelope.len(), 12 + b"payload bytes".len() + 16);
    let cipher = aes_gcm::Aes256Gcm::new_from_slice(&key).unwrap();
    let nonce = <&aes_gcm::Nonce<aes_gcm::aead::consts::U12>>::try_from(&envelope[..12]).unwrap();
    let plaintext = cipher.decrypt(nonce, &envelope[12..]).unwrap();
    assert_eq!(plaintext, b"payload bytes".to_vec());
}

#[test]
fn error_messages() {
    assert_eq!(CryptoError::EnvelopeTooShort.message(), "Data too short");
    assert_eq!(CryptoError::AuthenticationFailed.message(), "Decryption failed");
    assert_eq!(CryptoError::EncodingError.message(), "Invalid base64");
    assert_eq!(CryptoError::BackendFailure.message(), "Encryption failed");
}
