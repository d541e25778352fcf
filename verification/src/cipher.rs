//! AES-128-GCM-SIV, the cipher that seals a seed: 16-byte key, 12-byte nonce,
//! no associated data, a 16-byte tag behind the ciphertext.
//!
//! The cipher itself is not part of what this library proves. Its results
//! are given names here, and the two functions below say how the calls relate
//! to those names.

use aead::generic_array::GenericArray;
use aead::{Aead, KeyInit};
use aes_gcm_siv::Aes128GcmSiv;
use crate::wire::view_opt;
use vstd::prelude::*;

verus! {

/// The longest plaintext the cipher takes, in bytes.
pub const PLAINTEXT_MAX: u64 = 0x10_0000_0000;

/// The length of the tag that sealing adds.
pub const TAG_LEN: usize = 16;

/// What sealing `plaintext` under `key` and `nonce` gives: ciphertext and
/// tag, or nothing where the cipher refuses the plaintext.
pub uninterp spec fn aes_gcm_siv_seal(key: Seq<u8>, nonce: Seq<u8>, plaintext: Seq<u8>) -> Option<
    Seq<u8>,
>;

/// What opening `sealed` under `key` and `nonce` gives: the plaintext, or
/// nothing where the tag does not match.
pub uninterp spec fn aes_gcm_siv_open(key: Seq<u8>, nonce: Seq<u8>, sealed: Seq<u8>) -> Option<
    Seq<u8>,
>;

/// Calls `Aes128GcmSiv::encrypt` with an empty associated data.
///
/// Taken on trust: the result is the named sealing of the arguments; the
/// cipher refuses only a plaintext longer than `PLAINTEXT_MAX`; what it
/// returns is sixteen bytes longer than the plaintext; and opening it under
/// the same key and nonce gives the plaintext back.
#[verifier::external_body]
pub(crate) fn seal(key: &[u8; 16], nonce: &[u8; 12], plaintext: &[u8]) -> (r: Option<Vec<u8>>)
    ensures
        view_opt(r) == aes_gcm_siv_seal(key@, nonce@, plaintext@),
        r is Some <==> plaintext@.len() <= PLAINTEXT_MAX,
        r matches Some(c) ==> c@.len() == plaintext@.len() + TAG_LEN && aes_gcm_siv_open(
            key@,
            nonce@,
            c@,
        ) == Some(plaintext@),
{
    let cipher = Aes128GcmSiv::new(GenericArray::from_slice(key));
    cipher.encrypt(GenericArray::from_slice(nonce), plaintext).ok()
}

/// Calls `Aes128GcmSiv::decrypt` with an empty associated data.
///
/// Taken on trust: the result is the named opening of the arguments, and a
/// plaintext that comes back is sixteen bytes shorter than what was opened.
#[verifier::external_body]
pub(crate) fn open(key: &[u8; 16], nonce: &[u8; 12], sealed: &[u8]) -> (r: Option<Vec<u8>>)
    ensures
        view_opt(r) == aes_gcm_siv_open(key@, nonce@, sealed@),
        r matches Some(p) ==> p@.len() + TAG_LEN == sealed@.len(),
{
    let cipher = Aes128GcmSiv::new(GenericArray::from_slice(key));
    cipher.decrypt(GenericArray::from_slice(nonce), sealed).ok()
}

} // verus!
