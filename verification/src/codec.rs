//! The record codec: one credential record to and from one stored line.
//!
//! The plaintext payload is self-delimiting — each of the three fields
//! is preceded by its byte length, so field content never collides
//! with a separator — and the whole payload is sealed as one envelope,
//! coupling the three fields under a single authentication tag.

use crate::crypto::{line_clean, CryptoError, FileCrypto};
use crate::entry::{EntryView, PasswordEntry};
use crate::text::lemma_trim_of_trimmed;
use vstd::bytes::{
    lemma_auto_spec_u64_to_from_le_bytes, spec_u64_from_le_bytes, spec_u64_to_le_bytes,
    u64_from_le_bytes, u64_to_le_bytes,
};
use vstd::prelude::*;
use vstd::slice::{slice_subrange, slice_to_vec};
use vstd::utf8::{decode_utf8, encode_utf8, encode_utf8_decode_utf8, encode_utf8_valid_utf8,
    valid_utf8};

verus! {

/// The plaintext payload of one record: each field preceded by its
/// byte length, eight bytes little-endian.
pub open spec fn pack_spec(a: Seq<u8>, b: Seq<u8>, c: Seq<u8>) -> Seq<u8> {
    spec_u64_to_le_bytes(a.len() as u64) + a + spec_u64_to_le_bytes(b.len() as u64) + b
        + spec_u64_to_le_bytes(c.len() as u64) + c
}

/// One length-prefixed field off the front of `p`: the field and the
/// remainder, or `None` if `p` is too short.
pub open spec fn read_field_spec(p: Seq<u8>) -> Option<(Seq<u8>, Seq<u8>)> {
    if p.len() < 8 {
        None
    } else {
        let n = spec_u64_from_le_bytes(p.take(8)) as int;
        if p.len() - 8 < n {
            None
        } else {
            Some((p.subrange(8, 8 + n), p.skip(8 + n)))
        }
    }
}

/// The three fields of a payload, exactly consumed, or `None` for any
/// malformed payload.
pub open spec fn unpack_spec(p: Seq<u8>) -> Option<(Seq<u8>, Seq<u8>, Seq<u8>)> {
    match read_field_spec(p) {
        None => None,
        Some((a, r1)) => match read_field_spec(r1) {
            None => None,
            Some((b, r2)) => match read_field_spec(r2) {
                None => None,
                Some((c, r3)) => if r3.len() == 0 {
                    Some((a, b, c))
                } else {
                    None
                },
            },
        },
    }
}

proof fn lemma_read_field_of_pack(a: Seq<u8>, rest: Seq<u8>)
    requires
        a.len() <= u64::MAX,
    ensures
        read_field_spec(spec_u64_to_le_bytes(a.len() as u64) + a + rest) == Some((a, rest)),
{
    lemma_auto_spec_u64_to_from_le_bytes();
    let p = spec_u64_to_le_bytes(a.len() as u64) + a + rest;
    assert(p.take(8) =~= spec_u64_to_le_bytes(a.len() as u64));
    assert(p.subrange(8, 8 + a.len() as int) =~= a);
    assert(p.skip(8 + a.len() as int) =~= rest);
}

/// Unpacking inverts packing: the payload format is unambiguous.
pub proof fn lemma_unpack_pack(a: Seq<u8>, b: Seq<u8>, c: Seq<u8>)
    requires
        a.len() <= u64::MAX,
        b.len() <= u64::MAX,
        c.len() <= u64::MAX,
    ensures
        unpack_spec(pack_spec(a, b, c)) == Some((a, b, c)),
{
    let tail_b = spec_u64_to_le_bytes(b.len() as u64) + b + (spec_u64_to_le_bytes(c.len() as u64)
        + c);
    let tail_c = spec_u64_to_le_bytes(c.len() as u64) + c;
    assert(pack_spec(a, b, c) =~= spec_u64_to_le_bytes(a.len() as u64) + a + tail_b);
    lemma_read_field_of_pack(a, tail_b);
    lemma_read_field_of_pack(b, tail_c);
    assert(tail_c =~= spec_u64_to_le_bytes(c.len() as u64) + c + Seq::<u8>::empty());
    lemma_read_field_of_pack(c, Seq::<u8>::empty());
}

/// Packs the three fields, each preceded by its byte length.
fn pack_fields(a: &[u8], b: &[u8], c: &[u8]) -> (r: Vec<u8>)
    ensures
        r@ == pack_spec(a@, b@, c@),
{
    let mut out: Vec<u8> = Vec::new();
    let mut la = u64_to_le_bytes(a.len() as u64);
    out.append(&mut la);
    out.extend_from_slice(a);
    let mut lb = u64_to_le_bytes(b.len() as u64);
    out.append(&mut lb);
    out.extend_from_slice(b);
    let mut lc = u64_to_le_bytes(c.len() as u64);
    out.append(&mut lc);
    out.extend_from_slice(c);
    proof {
        assert(out@ =~= pack_spec(a@, b@, c@));
    }
    out
}

/// Reads one length-prefixed field off the front of `p`.
fn read_field<'a>(p: &'a [u8]) -> (r: Option<(Vec<u8>, &'a [u8])>)
    ensures
        (match r {
            Some(f) => read_field_spec(p@) == Some((f.0@, f.1@)),
            None => read_field_spec(p@) is None,
        }),
{
    if p.len() < 8 {
        return None;
    }
    let prefix = slice_subrange(p, 0, 8);
    proof {
        assert(prefix@ =~= p@.take(8));
    }
    let n64 = u64_from_le_bytes(prefix);
    if n64 > (p.len() - 8) as u64 {
        return None;
    }
    let n = n64 as usize;
    let field = slice_to_vec(slice_subrange(p, 8, 8 + n));
    let rest = slice_subrange(p, 8 + n, p.len());
    Some((field, rest))
}

/// Splits a payload into its three fields, or `None` for any malformed
/// payload.
fn unpack_fields(p: &[u8]) -> (r: Option<(Vec<u8>, Vec<u8>, Vec<u8>)>)
    ensures
        (match r {
            Some(f) => unpack_spec(p@) == Some((f.0@, f.1@, f.2@)),
            None => unpack_spec(p@) is None,
        }),
{
    let (a, r1) = match read_field(p) {
        Some(f) => f,
        None => return None,
    };
    let (b, r2) = match read_field(r1) {
        Some(f) => f,
        None => return None,
    };
    let (c, r3) = match read_field(r2) {
        Some(f) => f,
        None => return None,
    };
    if r3.len() != 0 {
        return None;
    }
    Some((a, b, c))
}

/// Relies on std's `String::from_utf8`: it succeeds exactly on valid
/// UTF-8 input and returns the string those bytes encode.
#[verifier::external_body]
fn bytes_to_string(bytes: Vec<u8>) -> (r: Option<String>)
    ensures
        (match r {
            Some(s) => valid_utf8(bytes@) && s@ == decode_utf8(bytes@),
            None => !valid_utf8(bytes@),
        }),
{
    String::from_utf8(bytes).ok()
}

/// The record one decrypted payload describes: three length-prefixed
/// UTF-8 fields that form a valid entry.
pub open spec fn payload_to_entry_spec(payload: Seq<u8>) -> Option<EntryView> {
    match unpack_spec(payload) {
        None => None,
        Some((ub, pb, lb)) => if valid_utf8(ub) && valid_utf8(pb) && valid_utf8(lb) {
            match PasswordEntry::new_spec(decode_utf8(ub), decode_utf8(pb), decode_utf8(lb)) {
                Ok(e) => Some(e),
                Err(_) => None,
            }
        } else {
            None
        },
    }
}

/// The record one stored line holds under `key`, or `None` if the line
/// fails base64 decoding, tag verification, payload parsing, UTF-8
/// decoding or field validation.
pub open spec fn decode_line_spec(key: Seq<u8>, line: Seq<char>) -> Option<EntryView> {
    match FileCrypto::decrypt_line_spec(key, line) {
        Ok(payload) => payload_to_entry_spec(payload),
        Err(_) => None,
    }
}

/// Encodes one record as one storable line: the three fields packed,
/// sealed under a fresh nonce, and base64-encoded. On success the
/// returned line decodes back to exactly this record under the same
/// key.
pub fn encode_entry(crypto: &FileCrypto, entry: &PasswordEntry) -> (r: Result<String, CryptoError>)
    ensures
        (match r {
            Ok(line) => decode_line_spec(crypto.key(), line@) == Some(entry@) && line_clean(
                line@,
            ),
            Err(e) => e == CryptoError::BackendFailure,
        }),
{
    proof {
        use_type_invariant(entry);
    }
    let ub = entry.username().as_bytes();
    let pb = entry.password().as_bytes();
    let lb = entry.place().as_bytes();
    let payload = pack_fields(ub, pb, lb);
    let line = match crypto.encrypt_to_string(payload.as_slice()) {
        Ok(l) => l,
        Err(e) => return Err(e),
    };
    proof {
        vstd::slice::axiom_spec_len(ub);
        vstd::slice::axiom_spec_len(pb);
        vstd::slice::axiom_spec_len(lb);
        lemma_unpack_pack(ub@, pb@, lb@);
        encode_utf8_valid_utf8(entry@.username);
        encode_utf8_valid_utf8(entry@.password);
        encode_utf8_valid_utf8(entry@.place);
        encode_utf8_decode_utf8(entry@.username);
        encode_utf8_decode_utf8(entry@.password);
        encode_utf8_decode_utf8(entry@.place);
        lemma_trim_of_trimmed(entry@.username);
        lemma_trim_of_trimmed(entry@.password);
        lemma_trim_of_trimmed(entry@.place);
    }
    Ok(line)
}

/// Decodes one stored line back into a record, or `None` if any step
/// fails; a failing line is reported only for itself, never as a fatal
/// error.
pub fn decode_entry(crypto: &FileCrypto, line: &str) -> (r: Option<PasswordEntry>)
    ensures
        (match r {
            Some(e) => decode_line_spec(crypto.key(), line@) == Some(e@),
            None => decode_line_spec(crypto.key(), line@) is None,
        }),
{
    let payload = match crypto.decrypt_from_string(line) {
        Ok(p) => p,
        Err(_) => return None,
    };
    let (ub, pb, lb) = match unpack_fields(payload.as_slice()) {
        Some(f) => f,
        None => return None,
    };
    let username = match bytes_to_string(ub) {
        Some(s) => s,
        None => return None,
    };
    let password = match bytes_to_string(pb) {
        Some(s) => s,
        None => return None,
    };
    let place = match bytes_to_string(lb) {
        Some(s) => s,
        None => return None,
    };
    match PasswordEntry::new(username, password, place) {
        Ok(e) => Some(e),
        Err(_) => None,
    }
}

} // verus!
