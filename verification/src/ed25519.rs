//! Ed25519 as the library uses it: a 32-byte seed gives a 32-byte public key
//! and signs messages with 64-byte signatures.
//!
//! The arithmetic is not part of what this library proves. Its results are
//! given names here, and the three functions below say how the calls relate to
//! those names.

use signatory::ed25519::{Signature, SigningKey, VerifyingKey};
use signatory::signature::{Signer, Verifier};
use vstd::prelude::*;

verus! {

/// The length of a seed.
pub const SEED_LEN: usize = 32;

/// The length of a public key.
pub const PUBLIC_KEY_LEN: usize = 32;

/// The length of a signature.
pub const SIGNATURE_LEN: usize = 64;

/// The public key that belongs to `seed`.
pub uninterp spec fn ed25519_public_key(seed: Seq<u8>) -> Seq<u8>;

/// The signature of `msg` under `seed`.
pub uninterp spec fn ed25519_signature(seed: Seq<u8>, msg: Seq<u8>) -> Seq<u8>;

/// Whether `signature` is accepted for `msg` under `public_key`.
pub uninterp spec fn ed25519_accepts(public_key: Seq<u8>, msg: Seq<u8>, signature: Seq<u8>) -> bool;

/// Calls `SigningKey::from_bytes`, then `verifying_key` and `to_bytes` on the
/// key.
///
/// Taken on trust: exactly the seeds of 32 bytes are accepted, and the result
/// is the named public key of the seed, 32 bytes long.
#[verifier::external_body]
pub(crate) fn public_key_of(seed: &[u8]) -> (r: Option<Vec<u8>>)
    ensures
        r is Some <==> seed@.len() == SEED_LEN,
        r matches Some(pk) ==> pk@ == ed25519_public_key(seed@) && pk@.len() == PUBLIC_KEY_LEN,
{
    match SigningKey::from_bytes(seed) {
        Ok(key) => Some(key.verifying_key().to_bytes().to_vec()),
        Err(_) => None,
    }
}

/// Calls `SigningKey::from_bytes`, then `try_sign` on the key and `to_bytes`
/// on the signature.
///
/// Taken on trust: exactly the seeds of 32 bytes are accepted and signing
/// then succeeds; the result is the named signature, 64 bytes long; and that
/// signature is accepted for the message under the seed's public key.
#[verifier::external_body]
pub(crate) fn sign_with(seed: &[u8], msg: &[u8]) -> (r: Option<Vec<u8>>)
    ensures
        r is Some <==> seed@.len() == SEED_LEN,
        r matches Some(sig) ==> sig@ == ed25519_signature(seed@, msg@) && sig@.len()
            == SIGNATURE_LEN && ed25519_accepts(ed25519_public_key(seed@), msg@, sig@),
{
    match SigningKey::from_bytes(seed) {
        Ok(key) => match key.try_sign(msg) {
            Ok(sig) => Some(sig.to_bytes().to_vec()),
            Err(_) => None,
        },
        Err(_) => None,
    }
}

/// Calls `VerifyingKey::from_bytes`, `Signature::from_slice` and `verify`.
///
/// Taken on trust: the result is the named acceptance, which needs a public
/// key of 32 bytes and a signature of 64.
#[verifier::external_body]
pub(crate) fn accepts(public_key: &[u8], msg: &[u8], signature: &[u8]) -> (ok: bool)
    ensures
        ok == ed25519_accepts(public_key@, msg@, signature@),
        ok ==> public_key@.len() == PUBLIC_KEY_LEN && signature@.len() == SIGNATURE_LEN,
{
    match (VerifyingKey::from_bytes(public_key), Signature::from_slice(signature)) {
        (Ok(key), Ok(sig)) => key.verify(msg, &sig).is_ok(),
        _ => false,
    }
}

} // verus!
