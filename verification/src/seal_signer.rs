//! The sealed signer: an Ed25519 seed encrypted under a key that only the
//! enclave which sealed it can derive again, together with what is needed to
//! ask for that key.
//!
//! A sealed signer never changes. Whoever holds it can ask the enclave to
//! sign with it; nobody outside the enclave can read the seed.

use crate::cipher::{aes_gcm_siv_open, aes_gcm_siv_seal, open, seal, TAG_LEN};
use crate::ed25519::{
    accepts, ed25519_accepts, ed25519_public_key, ed25519_signature, public_key_of, sign_with,
    PUBLIC_KEY_LEN, SEED_LEN, SIGNATURE_LEN,
};
use crate::error::{is_error, Error, ErrorKind};
use crate::protocol::{Decode, Encode};
use crate::seal_data::{
    is_key_request, lemma_parse_seal_data, lemma_parse_seal_data_canonical,
    lemma_ser_seal_data_len, parse_seal_data,
    same_configuration, ser_seal_data, unseal_key, EgetKey, EnclaveReport, KeyRequest, Label,
    SealData, SealDataView,
};
use crate::wire::{
    lemma_parse_bytes, lemma_parse_bytes_canonical, lemma_parse_fixed, lemma_parse_fixed_splits,
    lemma_ser_bytes_len, parse_bytes, parse_fixed, put_bytes, put_slice, ser_bytes, take_bytes, take_fixed, to_array16,
    to_vec,
};
use vstd::prelude::*;

verus! {

/// An encrypted seed with the data and the label of its sealing.
#[derive(Debug, PartialEq)]
pub struct SealedSigner {
    sealed_seed: Vec<u8>,
    seal_data: SealData,
    label: Label,
}

/// A sealed signer as plain values.
pub struct SealedSignerView {
    pub sealed_seed: Seq<u8>,
    pub seal_data: SealDataView,
    pub label: Seq<u8>,
}

impl SealedSignerView {
    /// Every field has its size.
    pub open spec fn wf(self) -> bool {
        &&& self.sealed_seed.len() <= usize::MAX
        &&& self.seal_data.wf()
        &&& self.label.len() == 16
    }

    /// Whether the signer can be read back from its encoding.
    pub open spec fn readable(self) -> bool {
        self.wf() && self.seal_data.readable()
    }

    /// The seed that `key` unseals, if the key opens the ciphertext and what
    /// comes out has the size of a seed.
    pub open spec fn seed(self, key: Seq<u8>) -> Option<Seq<u8>> {
        match aes_gcm_siv_open(key, self.seal_data.nonce, self.sealed_seed) {
            Some(seed) => if seed.len() == SEED_LEN {
                Some(seed)
            } else {
                None
            },
            None => None,
        }
    }

    /// The public key of the seed that `key` unseals.
    pub open spec fn public_key(self, key: Seq<u8>) -> Option<Seq<u8>> {
        match self.seed(key) {
            Some(seed) => Some(ed25519_public_key(seed)),
            None => None,
        }
    }

    /// Whether `signature` is one of 64 bytes that the public key of the
    /// unsealed seed accepts for `msg`.
    pub open spec fn accepts(self, key: Seq<u8>, msg: Seq<u8>, signature: Seq<u8>) -> bool {
        match self.seed(key) {
            Some(seed) => signature.len() == SIGNATURE_LEN && ed25519_accepts(
                ed25519_public_key(seed),
                msg,
                signature,
            ),
            None => false,
        }
    }

    /// Why unsealing with `key` fails, where it fails: the key does not open
    /// the ciphertext, or what it opens is no seed.
    pub open spec fn unseal_failure(self, key: Seq<u8>) -> Seq<char> {
        if aes_gcm_siv_open(key, self.seal_data.nonce, self.sealed_seed) is None {
            "get signer failed, the host changed or the program changed"@
        } else {
            "get signer failed"@
        }
    }

    /// Whether `e` is the error that unsealing with `key` ends in.
    pub open spec fn unseal_error(self, key: Seq<u8>, e: Error) -> bool {
        is_error(e, ErrorKind::Crypto, self.unseal_failure(key))
    }
}

impl View for SealedSigner {
    type V = SealedSignerView;

    closed spec fn view(&self) -> SealedSignerView {
        SealedSignerView {
            sealed_seed: self.sealed_seed@,
            seal_data: self.seal_data@,
            label: self.label@,
        }
    }
}

/// A sealed signer on the wire: the ciphertext as a byte string, the seal
/// data, the label.
pub open spec fn ser_sealed_signer(v: SealedSignerView) -> Seq<u8> {
    ser_bytes(v.sealed_seed) + ser_seal_data(v.seal_data) + v.label
}

/// Reads a sealed signer.
pub open spec fn parse_sealed_signer(s: Seq<u8>) -> Option<(SealedSignerView, Seq<u8>)> {
    match parse_bytes(s) {
        None => None,
        Some((sealed_seed, s1)) => match parse_seal_data(s1) {
            None => None,
            Some((seal_data, s2)) => match parse_fixed(s2, 16) {
                None => None,
                Some((label, s3)) => Some((SealedSignerView { sealed_seed, seal_data, label }, s3)),
            },
        },
    }
}

/// A readable sealed signer that was written is read back, and what follows
/// it is untouched.
pub proof fn lemma_parse_sealed_signer(v: SealedSignerView, tail: Seq<u8>)
    requires
        v.readable(),
    ensures
        ser_sealed_signer(v).len() == 8 + v.sealed_seed.len() + 74 + 16,
        parse_sealed_signer(ser_sealed_signer(v) + tail) == Some((v, tail)),
{
    let t2 = v.label + tail;
    let t1 = ser_seal_data(v.seal_data) + t2;
    lemma_parse_fixed(v.label, tail);
    lemma_parse_seal_data(v.seal_data, t2);
    lemma_parse_bytes(v.sealed_seed, t1);
    assert(ser_sealed_signer(v) + tail =~= ser_bytes(v.sealed_seed) + t1);
}

/// A sealed signer takes 98 bytes more on the wire than its sealed seed has.
pub proof fn lemma_ser_sealed_signer_len(v: SealedSignerView)
    requires
        v.seal_data.wf(),
        v.label.len() == 16,
    ensures
        ser_sealed_signer(v).len() == 8 + v.sealed_seed.len() + 74 + 16,
{
    lemma_ser_bytes_len(v.sealed_seed);
    lemma_ser_seal_data_len(v.seal_data);
}

/// What was read as a sealed signer is readable, and written again it gives
/// the bytes that were read: only what a writer produces is accepted.
pub proof fn lemma_parse_sealed_signer_canonical(s: Seq<u8>)
    requires
        parse_sealed_signer(s) is Some,
    ensures
        parse_sealed_signer(s).unwrap().0.seal_data.readable(),
        parse_sealed_signer(s).unwrap().0.label.len() == 16,
        ser_sealed_signer(parse_sealed_signer(s).unwrap().0) + parse_sealed_signer(s).unwrap().1
            == s,
{
    let (v, rest) = parse_sealed_signer(s).unwrap();
    let (sealed_seed, s1) = parse_bytes(s).unwrap();
    let (seal_data, s2) = parse_seal_data(s1).unwrap();
    lemma_parse_bytes_canonical(s);
    lemma_parse_seal_data_canonical(s1);
    lemma_parse_fixed_splits(s2, 16);
    assert(ser_sealed_signer(v) + rest =~= ser_bytes(sealed_seed) + (ser_seal_data(seal_data) + (
    v.label + rest)));
}

impl SealedSigner {
    /// Seals a fresh seed under `key`, the key that the hardware derived for
    /// the request that `seal_key` built from `label` and `seal_data`. What is
    /// sealed has 48 bytes: the seed's 32 and the tag's 16.
    pub fn new(seed: &[u8; 32], label: Label, key: &EgetKey, seal_data: SealData) -> (r: Result<
        Self,
        Error,
    >)
        ensures
            r matches Ok(s) && s@.label == label@ && s@.seal_data == seal_data@ && Some(
                s@.sealed_seed,
            ) == aes_gcm_siv_seal(key@, seal_data@.nonce, seed@) && s@.sealed_seed.len()
                == SEED_LEN + TAG_LEN && s@.seed(key@) == Some(seed@) && s@.wf(),
    {
        Self::import(seed.as_slice(), label, key, seal_data)
    }

    /// Seals a seed that the caller brings. A seed has 32 bytes: anything
    /// else is refused.
    pub fn import(raw_seed: &[u8], label: Label, key: &EgetKey, seal_data: SealData) -> (r: Result<
        Self,
        Error,
    >)
        ensures
            match r {
                Ok(s) => raw_seed@.len() == SEED_LEN && s@.label == label@ && s@.seal_data
                    == seal_data@ && Some(s@.sealed_seed) == aes_gcm_siv_seal(
                    key@,
                    seal_data@.nonce,
                    raw_seed@,
                ) && s@.sealed_seed.len() == SEED_LEN + TAG_LEN && s@.seed(key@) == Some(
                    raw_seed@,
                ) && s@.wf(),
                Err(e) => raw_seed@.len() != SEED_LEN && is_error(
                    e,
                    ErrorKind::Crypto,
                    "invalid seed"@,
                ),
            },
    {
        if raw_seed.len() != SEED_LEN {
            return Err(Error::crypto("invalid seed"));
        }
        proof {
            seal_data.lemma_wf();
        }
        match seal(key, seal_data.nonce(), raw_seed) {
            Some(sealed_seed) => Ok(SealedSigner { sealed_seed, seal_data, label }),
            None => Err(Error::crypto("encrypt seed failed")),
        }
    }

    /// The request for the key that unseals this signer in the enclave that
    /// gave `report`, or the refusal to ask when that enclave is not
    /// configured as the one that sealed it.
    pub fn unseal_request(&self, report: &EnclaveReport) -> (r: Result<KeyRequest, Error>)
        ensures
            match r {
                Ok(req) => same_configuration(*report, self@.seal_data) && is_key_request(
                    req,
                    self@.label,
                    self@.seal_data,
                ),
                Err(e) => !same_configuration(*report, self@.seal_data) && is_error(
                    e,
                    ErrorKind::Crypto,
                    "seal data not match"@,
                ),
            },
    {
        unseal_key(&self.label, &self.seal_data, report)
    }

    /// Unseals the seed with `key`.
    fn get_signer(&self, key: &EgetKey) -> (r: Result<Vec<u8>, Error>)
        ensures
            match r {
                Ok(seed) => self@.seed(key@) == Some(seed@),
                Err(e) => self@.seed(key@) is None && self@.unseal_error(key@, e),
            },
    {
        let raw_seed = match open(key, self.seal_data.nonce(), self.sealed_seed.as_slice()) {
            Some(raw_seed) => raw_seed,
            None => {
                return Err(
                    Error::crypto("get signer failed, the host changed or the program changed"),
                );
            },
        };
        if raw_seed.len() != SEED_LEN {
            return Err(Error::crypto("get signer failed"));
        }
        Ok(raw_seed)
    }

    /// Signs `data` with the seed that `key` unseals. The signature has 64
    /// bytes, and `verify` accepts it for `data`.
    pub fn try_sign(&self, key: &EgetKey, data: &[u8]) -> (r: Result<Vec<u8>, Error>)
        ensures
            match r {
                Ok(sig) => self@.seed(key@) matches Some(seed) && sig@ == ed25519_signature(
                    seed,
                    data@,
                ) && sig@.len() == SIGNATURE_LEN && self@.accepts(key@, data@, sig@),
                Err(e) => self@.seed(key@) is None && self@.unseal_error(key@, e),
            },
    {
        let seed = self.get_signer(key)?;
        match sign_with(seed.as_slice(), data) {
            Some(sig) => Ok(sig),
            None => Err(Error::crypto("get signer failed")),
        }
    }

    /// Checks `sig_raw` against `msg` under the public key of the seed that
    /// `key` unseals.
    pub fn verify(&self, key: &EgetKey, msg: &[u8], sig_raw: &[u8]) -> (r: Result<(), Error>)
        ensures
            r is Ok <==> self@.accepts(key@, msg@, sig_raw@),
            r matches Err(e) ==> {
                &&& e.kind == ErrorKind::Crypto
                &&& self@.seed(key@) is None ==> self@.unseal_error(key@, e)
                &&& self@.seed(key@) is Some && sig_raw@.len() != SIGNATURE_LEN ==> e.what@
                    == "invalid signature"@
                &&& self@.seed(key@) is Some && sig_raw@.len() == SIGNATURE_LEN ==> e.what@
                    == "verify failed"@
            },
    {
        let public_key = self.get_public_key(key)?;
        if sig_raw.len() != SIGNATURE_LEN {
            return Err(Error::crypto("invalid signature"));
        }
        if accepts(public_key.as_slice(), msg, sig_raw) {
            Ok(())
        } else {
            Err(Error::crypto("verify failed"))
        }
    }

    /// The public key of the seed that `key` unseals: 32 bytes.
    pub fn get_public_key(&self, key: &EgetKey) -> (r: Result<Vec<u8>, Error>)
        ensures
            match r {
                Ok(pk) => self@.public_key(key@) == Some(pk@) && pk@.len() == PUBLIC_KEY_LEN,
                Err(e) => self@.public_key(key@) is None && self@.unseal_error(key@, e),
            },
    {
        let seed = self.get_signer(key)?;
        match public_key_of(seed.as_slice()) {
            Some(pk) => Ok(pk),
            None => Err(Error::crypto("get signer failed")),
        }
    }

    /// A copy of the signer.
    pub fn duplicate(&self) -> (copy: Self)
        ensures
            copy@ == self@,
    {
        SealedSigner {
            sealed_seed: to_vec(self.sealed_seed.as_slice()),
            seal_data: self.seal_data,
            label: self.label,
        }
    }

    /// Every field of a value has its size.
    pub proof fn lemma_wf(&self)
        ensures
            self@.wf(),
    {
        self.seal_data.lemma_wf();
        assert(self.sealed_seed.len() == self.sealed_seed@.len());
    }

    /// Whether a reader accepts the encoding of this signer.
    pub fn is_readable(&self) -> (b: bool)
        ensures
            b == self@.readable(),
    {
        proof {
            self.lemma_wf();
        }
        self.seal_data.is_readable()
    }
}

impl Encode for SealedSigner {
    open spec fn encoding(v: SealedSignerView) -> Seq<u8> {
        ser_sealed_signer(v)
    }

    fn put(&self, out: &mut Vec<u8>) {
        put_bytes(out, self.sealed_seed.as_slice());
        self.seal_data.put(out);
        put_slice(out, self.label.as_slice());
        assert(out@ =~= old(out)@ + ser_sealed_signer(self@));
        assert(Self::encoding(self@) == ser_sealed_signer(self@));
    }
}

impl Decode for SealedSigner {
    open spec fn parse(s: Seq<u8>) -> Option<(SealedSignerView, Seq<u8>)> {
        parse_sealed_signer(s)
    }

    fn take(bytes: &[u8]) -> (r: Option<(SealedSigner, &[u8])>) {
        assert(Self::parse(bytes@) == parse_sealed_signer(bytes@));
        let (sealed_seed, s1) = match take_bytes(bytes) {
            Some(x) => x,
            None => return None,
        };
        let (seal_data, s2) = match SealData::take(s1) {
            Some(x) => x,
            None => return None,
        };
        let (label, s3) = match take_fixed(s2, 16) {
            Some(x) => x,
            None => return None,
        };
        let signer = SealedSigner {
            sealed_seed: to_vec(sealed_seed),
            seal_data,
            label: to_array16(label),
        };
        Some((signer, s3))
    }
}

} // verus!
