//! The cryptographic capabilities the ledger relies on, each behind a small
//! trusted wrapper: hashing, signing, signature verification, randomness for
//! coinbase uniqueness, hex encoding, and UTF-8 decoding of stored strings.

use p256::ecdsa::signature::{Signer, Verifier};
use sha2::Digest;
use vstd::prelude::*;

verus! {

use vstd::utf8::{decode_utf8, valid_utf8};

/// What SHA-256 returns for a byte sequence; a function of the input alone.
pub uninterp spec fn sha256_of(data: Seq<u8>) -> Seq<u8>;

/// What deterministic (RFC 6979) ECDSA P-256 signing returns for a secret key
/// and a message; a function of the two alone.
pub uninterp spec fn ecdsa_sign_of(secret_key: Seq<u8>, message: Seq<u8>) -> Seq<u8>;

/// Whether deterministic ECDSA P-256 signing succeeds for a secret key and
/// a message; a function of the two alone, since both the key check and
/// the RFC 6979 derivation are deterministic.
pub uninterp spec fn p256_sign_ok(secret_key: Seq<u8>, message: Seq<u8>) -> bool;

/// Whether ECDSA P-256 verification accepts a public key, a signature and a
/// message; a function of the three alone.
pub uninterp spec fn ecdsa_verifies(public_key: Seq<u8>, signature: Seq<u8>, message: Seq<u8>) -> bool;

/// The lowercase hex digit for a value below sixteen.
pub open spec fn hex_char(n: u8) -> char {
    if n == 0 { '0' } else if n == 1 { '1' } else if n == 2 { '2' } else if n == 3 { '3' }
    else if n == 4 { '4' } else if n == 5 { '5' } else if n == 6 { '6' } else if n == 7 { '7' }
    else if n == 8 { '8' } else if n == 9 { '9' } else if n == 10 { 'a' } else if n == 11 { 'b' }
    else if n == 12 { 'c' } else if n == 13 { 'd' } else if n == 14 { 'e' } else { 'f' }
}

/// The lowercase hex encoding of a byte sequence: two digits per byte,
/// high nibble first.
pub open spec fn hex_lower_of(data: Seq<u8>) -> Seq<char> {
    Seq::new(
        2 * data.len(),
        |i: int| if i % 2 == 0 { hex_char(data[i / 2] >> 4) } else { hex_char(data[i / 2] & 0xf) },
    )
}

/// Relies on sha2::Sha256::digest: the SHA-256 digest of the input,
/// 32 bytes, a function of the input alone.
#[verifier::external_body]
pub(crate) fn sha256_digest(data: &[u8]) -> (r: Vec<u8>)
    ensures
        r@ == sha256_of(data@),
        r@.len() == 32,
{
    sha2::Sha256::digest(data).to_vec()
}

/// Relies on p256::ecdsa::SigningKey::{from_slice, try_sign}: invalid
/// secret-key bytes are rejected, and the whole computation is
/// deterministic (RFC 6979 over SHA-256 of the message), so both whether
/// signing succeeds and the signature it yields are functions of key and
/// message alone.
#[verifier::external_body]
pub(crate) fn ecdsa_p256_sign(secret_key: &[u8], message: &[u8]) -> (r: Option<Vec<u8>>)
    ensures
        r is Some <==> p256_sign_ok(secret_key@, message@),
        r matches Some(sig) ==> sig@ == ecdsa_sign_of(secret_key@, message@),
{
    let key = match p256::ecdsa::SigningKey::from_slice(secret_key) {
        Ok(k) => k,
        Err(_) => return None,
    };
    let sig: p256::ecdsa::Signature = match key.try_sign(message) {
        Ok(s) => s,
        Err(_) => return None,
    };
    Some(sig.to_bytes().to_vec())
}

/// Relies on p256::ecdsa::VerifyingKey::{from_sec1_bytes, verify} and
/// p256::ecdsa::Signature::from_slice: acceptance is a function of the key,
/// signature and message bytes alone; malformed key or signature bytes are
/// never accepted.
#[verifier::external_body]
pub(crate) fn ecdsa_p256_verify(public_key: &[u8], signature: &[u8], message: &[u8]) -> (r: bool)
    ensures
        r == ecdsa_verifies(public_key@, signature@, message@),
{
    let key = match p256::ecdsa::VerifyingKey::from_sec1_bytes(public_key) {
        Ok(k) => k,
        Err(_) => return false,
    };
    let sig = match p256::ecdsa::Signature::from_slice(signature) {
        Ok(s) => s,
        Err(_) => return false,
    };
    key.verify(message, &sig).is_ok()
}

/// Relies on uuid::Uuid::new_v4: a freshly drawn random 16-byte value.
/// Nothing is assumed about which bytes come back.
#[verifier::external_body]
pub(crate) fn random_signature_seed() -> (r: Vec<u8>)
    ensures
        r@.len() == 16,
{
    uuid::Uuid::new_v4().as_bytes().to_vec()
}

/// Relies on data_encoding::HEXLOWER.encode: two lowercase hex digits per
/// input byte, high nibble first.
#[verifier::external_body]
pub(crate) fn hex_encode(data: &[u8]) -> (r: String)
    ensures
        r@ == hex_lower_of(data@),
{
    data_encoding::HEXLOWER.encode(data)
}

/// Relies on std's String::from_utf8: it succeeds exactly on valid UTF-8 and
/// returns the string those bytes encode.
#[verifier::external_body]
pub(crate) fn string_from_utf8(bytes: Vec<u8>) -> (r: Option<String>)
    ensures
        r matches Some(s) ==> valid_utf8(bytes@) && s@ == decode_utf8(bytes@),
        r is None ==> !valid_utf8(bytes@),
{
    match String::from_utf8(bytes) {
        Ok(s) => Some(s),
        Err(_) => None,
    }
}

} // verus!
