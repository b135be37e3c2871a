//! Key derivation and the authenticated encryption engine.
//!
//! The key is the SHA-256 digest of the master secret; one stored line
//! is the base64 text of an envelope `nonce || ciphertext || tag`,
//! sealed with AES-256-GCM under a fresh random nonce per encryption.
//! The outside primitives stand behind trusted wrappers; everything
//! around them is verified.

use aes_gcm::KeyInit;
use base64::Engine;
use sha2::Digest;
use vstd::prelude::*;

verus! {

/// Errors of the encryption engine and line codec.
#[derive(Clone, Copy, Debug, PartialEq, Eq, Structural)]
pub enum CryptoError {
    /// The envelope is shorter than one nonce; nothing can be split off.
    EnvelopeTooShort,
    /// Tag verification failed: wrong key, corruption or tampering.
    /// The engine deliberately does not distinguish these.
    AuthenticationFailed,
    /// The line is not valid base64 text.
    EncodingError,
    /// The backend refused to encrypt or no randomness was available.
    BackendFailure,
}

impl CryptoError {
    /// A human-readable description of the error.
    pub fn message(&self) -> (r: &'static str)
        ensures
            r@ == match self {
                CryptoError::EnvelopeTooShort => "Data too short"@,
                CryptoError::AuthenticationFailed => "Decryption failed"@,
                CryptoError::EncodingError => "Invalid base64"@,
                CryptoError::BackendFailure => "Encryption failed"@,
            },
    {
        match self {
            CryptoError::EnvelopeTooShort => "Data too short",
            CryptoError::AuthenticationFailed => "Decryption failed",
            CryptoError::EncodingError => "Invalid base64",
            CryptoError::BackendFailure => "Encryption failed",
        }
    }
}

/// The number of bytes in an AES-256-GCM nonce.
pub const NONCE_LEN: usize = 12;

/// The number of bytes in an AES-256-GCM authentication tag.
pub const TAG_LEN: usize = 16;

/// The SHA-256 digest of `data`.
pub uninterp spec fn sha256_of(data: Seq<u8>) -> Seq<u8>;

/// Relies on sha2's `Sha256`: the digest is a function of the input
/// bytes alone, 32 bytes long.
#[verifier::external_body]
fn sha256(data: &[u8]) -> (r: Vec<u8>)
    ensures
        r@ == sha256_of(data@),
        r@.len() == 32,
{
    sha2::Sha256::digest(data).to_vec()
}

/// The AES-256-GCM ciphertext-with-tag for `plaintext` under `key` and
/// `nonce`.
pub uninterp spec fn gcm_seal(key: Seq<u8>, nonce: Seq<u8>, plaintext: Seq<u8>) -> Seq<u8>;

/// The plaintext that AES-256-GCM decryption recovers from `ciphertext`
/// under `key` and `nonce`, or `None` if tag verification fails.
pub uninterp spec fn gcm_open(key: Seq<u8>, nonce: Seq<u8>, ciphertext: Seq<u8>) -> Option<Seq<u8>>;

/// Relies on aes-gcm's `Aes256Gcm` encryption: the result is a function
/// of key, nonce and plaintext alone, appends one 16-byte tag, and
/// decrypting it under the same key and nonce gives the plaintext back.
#[verifier::external_body]
fn aes_gcm_seal(key: &[u8], nonce: &[u8], plaintext: &[u8]) -> (r: Option<Vec<u8>>)
    requires
        key@.len() == 32,
        nonce@.len() == 12,
    ensures
        (match r {
            Some(ct) => {
                &&& ct@ == gcm_seal(key@, nonce@, plaintext@)
                &&& ct@.len() == plaintext@.len() + 16
                &&& gcm_open(key@, nonce@, ct@) == Some(plaintext@)
            },
            None => true,
        }),
{
    let cipher = match aes_gcm::Aes256Gcm::new_from_slice(key) {
        Ok(c) => c,
        Err(_) => return None,
    };
    let nonce = match <&aes_gcm::Nonce<aes_gcm::aead::consts::U12>>::try_from(nonce) {
        Ok(n) => n,
        Err(_) => return None,
    };
    aes_gcm::aead::Aead::encrypt(&cipher, nonce, plaintext).ok()
}

/// Relies on aes-gcm's `Aes256Gcm` decryption: it returns the plaintext
/// exactly when tag verification succeeds, and fails for a wrong key,
/// corruption or tampering.
#[verifier::external_body]
fn aes_gcm_open(key: &[u8], nonce: &[u8], ciphertext: &[u8]) -> (r: Option<Vec<u8>>)
    requires
        key@.len() == 32,
        nonce@.len() == 12,
    ensures
        (match r {
            Some(pt) => gcm_open(key@, nonce@, ciphertext@) == Some(pt@),
            None => gcm_open(key@, nonce@, ciphertext@) is None,
        }),
{
    let cipher = match aes_gcm::Aes256Gcm::new_from_slice(key) {
        Ok(c) => c,
        Err(_) => return None,
    };
    let nonce = match <&aes_gcm::Nonce<aes_gcm::aead::consts::U12>>::try_from(nonce) {
        Ok(n) => n,
        Err(_) => return None,
    };
    aes_gcm::aead::Aead::decrypt(&cipher, nonce, ciphertext).ok()
}

/// Relies on the system randomness behind crypto-common's `Generate`:
/// nothing is assumed of the value beyond its length, and two calls
/// may (and almost surely do) differ.
#[verifier::external_body]
fn generate_nonce() -> (r: Option<Vec<u8>>)
    ensures
        (match r {
            Some(n) => n@.len() == 12,
            None => true,
        }),
{
    let nonce: Option<aes_gcm::Nonce<aes_gcm::aead::consts::U12>> =
        aes_gcm::aead::Generate::try_generate().ok();
    nonce.map(|n| n.to_vec())
}

/// Text that can stand as one line of the vault file: non-empty, with
/// no line break or carriage return anywhere in it.
pub open spec fn line_clean(l: Seq<char>) -> bool {
    &&& l.len() > 0
    &&& forall|i: int| 0 <= i < l.len() ==> l[i] != '\n' && l[i] != '\r'
}

/// The base64 text (standard alphabet, padded) of `data`.
pub uninterp spec fn b64_of(data: Seq<u8>) -> Seq<char>;

/// The bytes that base64 decoding recovers from `text`, or `None` if
/// `text` is not valid base64.
pub uninterp spec fn b64_parse_of(text: Seq<char>) -> Option<Seq<u8>>;

/// Relies on base64's `STANDARD` engine: encoding is a function of the
/// input alone, uses four characters of the base64 alphabet (never a
/// line break) per three input bytes, and decodes back to the input.
#[verifier::external_body]
fn b64_encode(data: &[u8]) -> (r: String)
    requires
        data@.len() <= usize::MAX / 4,
    ensures
        r@ == b64_of(data@),
        r@.len() == 4 * ((data@.len() + 2) / 3),
        b64_parse_of(r@) == Some(data@),
        forall|i: int| 0 <= i < r@.len() ==> r@[i] != '\n' && r@[i] != '\r',
{
    base64::engine::general_purpose::STANDARD.encode(data)
}

/// Relies on base64's `STANDARD` engine: decoding succeeds exactly on
/// valid base64 text and is a function of the text alone.
#[verifier::external_body]
fn b64_decode(text: &str) -> (r: Option<Vec<u8>>)
    ensures
        (match r {
            Some(data) => b64_parse_of(text@) == Some(data@),
            None => b64_parse_of(text@) is None,
        }),
{
    base64::engine::general_purpose::STANDARD.decode(text).ok()
}

/// The authenticated-encryption engine: owns the symmetric key derived
/// from the master secret for the lifetime of the session.
pub struct FileCrypto {
    key: Vec<u8>,
}

impl FileCrypto {
    /// The derived key is always exactly 32 bytes.
    #[verifier::type_invariant]
    spec fn key_wf(self) -> bool {
        self.key@.len() == 32
    }

    /// The symmetric key this engine encrypts and decrypts with.
    pub closed spec fn key(self) -> Seq<u8> {
        self.key@
    }

    /// The key derived from a master secret: the SHA-256 digest of its
    /// UTF-8 bytes.
    pub open spec fn derived_key_spec(secret: Seq<char>) -> Seq<u8> {
        sha256_of(vstd::utf8::encode_utf8(secret))
    }

    /// Derives the symmetric key from the master secret.
    /// Deterministic, so the same secret re-opens the vault in a later
    /// session.
    pub fn new(master_password: &str) -> (r: Self)
        ensures
            r.key() == Self::derived_key_spec(master_password@),
    {
        FileCrypto { key: sha256(master_password.as_bytes()) }
    }

    /// What decrypting one stored line yields under `key`: the
    /// recovered plaintext, or the exact error.
    pub open spec fn decrypt_line_spec(key: Seq<u8>, line: Seq<char>) -> Result<
        Seq<u8>,
        CryptoError,
    > {
        match b64_parse_of(line) {
            None => Err(CryptoError::EncodingError),
            Some(envelope) => if envelope.len() < 12 {
                Err(CryptoError::EnvelopeTooShort)
            } else {
                match gcm_open(key, envelope.take(12), envelope.skip(12)) {
                    Some(pt) => Ok(pt),
                    None => Err(CryptoError::AuthenticationFailed),
                }
            },
        }
    }

    /// Encrypts `data` under a fresh random nonce and returns the
    /// base64 line of the envelope `nonce || ciphertext || tag`: a
    /// self-contained 12-byte nonce, the ciphertext, and a 16-byte
    /// tag. On success, decrypting the returned line under the same
    /// key recovers exactly `data`; it fails only when the backend or
    /// the randomness source does.
    pub fn encrypt_to_string(&self, data: &[u8]) -> (r: Result<String, CryptoError>)
        ensures
            (match r {
                Ok(line) => {
                    &&& Self::decrypt_line_spec(self.key(), line@) == Ok::<
                        Seq<u8>,
                        CryptoError,
                    >(data@)
                    &&& line_clean(line@)
                    &&& match b64_parse_of(line@) {
                        Some(envelope) => envelope.len() == 12 + data@.len() + 16,
                        None => false,
                    }
                },
                Err(e) => e == CryptoError::BackendFailure,
            }),
    {
        proof {
            use_type_invariant(self);
        }
        // The envelope must stay within the length the base64 engine
        // accepts without overflowing its output-size computation.
        if data.len() > usize::MAX / 4 - (NONCE_LEN + TAG_LEN) {
            return Err(CryptoError::BackendFailure);
        }
        let nonce = match generate_nonce() {
            Some(n) => n,
            None => return Err(CryptoError::BackendFailure),
        };
        let sealed = match aes_gcm_seal(self.key.as_slice(), nonce.as_slice(), data) {
            Some(s) => s,
            None => return Err(CryptoError::BackendFailure),
        };
        let ghost nonce_bytes = nonce@;
        let ghost sealed_bytes = sealed@;
        let mut envelope = nonce;
        let mut sealed = sealed;
        envelope.append(&mut sealed);
        let line = b64_encode(envelope.as_slice());
        proof {
            assert(envelope@.take(12) =~= nonce_bytes);
            assert(envelope@.skip(12) =~= sealed_bytes);
        }
        Ok(line)
    }

    /// Decodes a base64 line, splits off the nonce, and decrypts the
    /// rest, verifying the authentication tag. Returns exactly what
    /// [`FileCrypto::decrypt_line_spec`] says for this key and line.
    pub fn decrypt_from_string(&self, encoded: &str) -> (r: Result<Vec<u8>, CryptoError>)
        ensures
            (match r {
                Ok(pt) => Self::decrypt_line_spec(self.key(), encoded@) == Ok::<
                    Seq<u8>,
                    CryptoError,
                >(pt@),
                Err(e) => Self::decrypt_line_spec(self.key(), encoded@) == Err::<
                    Seq<u8>,
                    CryptoError,
                >(e),
            }),
    {
        proof {
            use_type_invariant(self);
        }
        let combined = match b64_decode(encoded) {
            Some(c) => c,
            None => return Err(CryptoError::EncodingError),
        };
        if combined.len() < NONCE_LEN {
            return Err(CryptoError::EnvelopeTooShort);
        }
        let nonce = vstd::slice::slice_subrange(combined.as_slice(), 0, NONCE_LEN);
        let encrypted = vstd::slice::slice_subrange(combined.as_slice(), NONCE_LEN, combined.len());
        match aes_gcm_open(self.key.as_slice(), nonce, encrypted) {
            Some(pt) => Ok(pt),
            None => Err(CryptoError::AuthenticationFailed),
        }
    }
}

} // verus!
