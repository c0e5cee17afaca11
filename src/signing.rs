//! ECDSA P-256 signatures: verifying, signing, and key ids.
use crate::digest::{sha256_hex, sha256_text};
use p256::ecdsa::signature::{Signer, Verifier};
use vstd::prelude::*;

verus! {

/// Whether `sig` (the 64-byte `r || s` form) is a valid ECDSA P-256 /
/// SHA-256 signature of `msg` under the SEC1-encoded public key `key`.
pub uninterp spec fn p256_accepts(key: Seq<u8>, msg: Seq<u8>, sig: Seq<u8>) -> bool;

/// The deterministic (RFC 6979) ECDSA P-256 / SHA-256 signature of `msg`
/// under the big-endian secret scalar `secret`, or `None` when `secret` is not
/// a valid scalar.
pub uninterp spec fn p256_signature(secret: Seq<u8>, msg: Seq<u8>) -> Option<Seq<u8>>;

/// The SEC1 encoding of the public key of the secret scalar
/// `secret`, or `None` when `secret` is not a valid scalar.
pub uninterp spec fn p256_public_key(secret: Seq<u8>) -> Option<Seq<u8>>;

/// Relies on `p256::ecdsa::VerifyingKey::verify`, after
/// `VerifyingKey::from_sec1_bytes` and `Signature::from_slice`: a key or a
/// signature that does not decode is no valid signature.
#[verifier::external_body]
pub(crate) fn verify_signature(key: &[u8], msg: &[u8], sig: &[u8]) -> (r: bool)
    ensures
        r == p256_accepts(key@, msg@, sig@),
{
    match (p256::ecdsa::VerifyingKey::from_sec1_bytes(key), p256::ecdsa::Signature::from_slice(sig)) {
        (Ok(k), Ok(s)) => k.verify(msg, &s).is_ok(),
        _ => false,
    }
}

/// Relies on `p256::ecdsa::SigningKey::try_sign` (deterministic, RFC 6979),
/// after `SigningKey::from_slice`.
#[verifier::external_body]
pub(crate) fn sign_message(secret: &[u8], msg: &[u8]) -> (r: Option<Vec<u8>>)
    ensures
        r is Some <==> p256_signature(secret@, msg@) is Some,
        r is Some ==> r->0@ == p256_signature(secret@, msg@)->0,
{
    let key = p256::ecdsa::SigningKey::from_slice(secret).ok()?;
    let sig: p256::ecdsa::Signature = key.try_sign(msg).ok()?;
    Some(sig.to_bytes().to_vec())
}

/// Relies on `p256::ecdsa::SigningKey::verifying_key` and
/// `VerifyingKey::to_sec1_bytes`, after `SigningKey::from_slice`.
#[verifier::external_body]
pub(crate) fn public_key_of(secret: &[u8]) -> (r: Option<Vec<u8>>)
    ensures
        r is Some <==> p256_public_key(secret@) is Some,
        r is Some ==> r->0@ == p256_public_key(secret@)->0,
{
    let key = p256::ecdsa::SigningKey::from_slice(secret).ok()?;
    Some(key.verifying_key().to_sec1_bytes().to_vec())
}

/// The id of a public key: the digest of its encoding.
pub open spec fn key_id_spec(key: Seq<u8>) -> Seq<char> {
    sha256_text(key)
}

/// Computes the id of a public key.
pub fn key_id(key: &[u8]) -> (r: String)
    ensures
        r@ == key_id_spec(key@),
{
    sha256_hex(key)
}

} // verus!
