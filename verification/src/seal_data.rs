//! The sealing primitive: what is stored beside a sealed seed, and how the
//! key that wraps the seed is asked of the hardware.
//!
//! The key itself comes from the processor. This module decides what to ask
//! for: it builds the request from the label and the stored data, and refuses
//! to ask when the enclave is not configured as it was at sealing time.

use crate::entropy::{random12, random16};
use crate::error::{is_error, Error, ErrorKind};
use crate::wire::{
    lemma_parse_bytes, lemma_parse_bytes_canonical, lemma_parse_fixed, lemma_parse_fixed_splits,
    lemma_parse_u16, lemma_parse_u16_canonical, lemma_parse_u32, lemma_parse_u32_canonical,
    lemma_ser_bytes_len, lemma_ser_u16, lemma_ser_u32,
    parse_bytes, parse_fixed, parse_u16, parse_u32, put_bytes, put_slice, put_u16, put_u32,
    ser_bytes, ser_u16, ser_u32, take_bytes, take_fixed, take_u16, take_u32, to_array12,
    to_array16,
};
use sgx_isa::{Keyname, Keypolicy, Miscselect};
use vstd::prelude::*;

verus! {

/// A sealing key as the hardware derives it.
pub type EgetKey = [u8; 16];

/// Separates the key derivations of different sealed blobs.
pub type Label = [u8; 16];

/// The nonce of the cipher that wraps the seed.
pub type Nonce = [u8; 12];

/// The security version of the processor.
pub type CpuSvn = [u8; 16];

/// The security version of the enclave.
pub type IsvSvn = u16;

/// The length of the `attributes` field on the wire and in a report.
pub const ATTRIBUTES_LEN: usize = 16;

/// The number of bytes `SealData` takes on the wire.
pub const SEAL_DATA_LEN: usize = 74;

/// What the enclave's own report says of it, as far as sealing reads it.
#[derive(Clone, Copy, Debug)]
pub struct EnclaveReport {
    pub isvsvn: IsvSvn,
    pub cpusvn: CpuSvn,
    pub attributes: [u8; 16],
    pub miscselect: u32,
}

/// A key derivation request, field by field as the hardware takes it.
#[derive(Clone, Copy, Debug)]
pub struct KeyRequest {
    pub keyname: u16,
    pub keypolicy: u16,
    pub isvsvn: IsvSvn,
    pub cpusvn: CpuSvn,
    pub attributemask: [u64; 2],
    pub keyid: [u8; 32],
    pub miscmask: u32,
}

/// How a sealing key was derived. It is stored beside the sealed data, so
/// that the enclave can derive the same key again.
#[derive(Clone, Copy, Debug, PartialEq)]
pub struct SealData {
    rand: [u8; 16],
    pub nonce: Nonce,
    isvsvn: IsvSvn,
    cpusvn: CpuSvn,
    // Attributes and miscselect are recorded to check, before unsealing, that
    // the enclave is configured as it was. The derivation itself takes the
    // enclave's state and the masks of the request.
    attributes: [u8; 16],
    miscselect: u32,
}

/// `SealData` as plain values.
pub struct SealDataView {
    pub rand: Seq<u8>,
    pub nonce: Seq<u8>,
    pub isvsvn: u16,
    pub cpusvn: Seq<u8>,
    pub attributes: Seq<u8>,
    pub miscselect: u32,
}

/// Whether every bit of a miscselect value has a meaning.
pub open spec fn miscselect_defined(bits: u32) -> bool {
    bits == 0 || bits == 1
}

impl SealDataView {
    /// Every field has its size.
    pub open spec fn wf(self) -> bool {
        &&& self.rand.len() == 16
        &&& self.nonce.len() == 12
        &&& self.cpusvn.len() == 16
        &&& self.attributes.len() == 16
    }

    /// Whether the data can be read back from its encoding: a reader refuses
    /// a miscselect with a bit it does not know.
    pub open spec fn readable(self) -> bool {
        self.wf() && miscselect_defined(self.miscselect)
    }
}

impl View for SealData {
    type V = SealDataView;

    closed spec fn view(&self) -> SealDataView {
        SealDataView {
            rand: self.rand@,
            nonce: self.nonce@,
            isvsvn: self.isvsvn,
            cpusvn: self.cpusvn@,
            attributes: self.attributes@,
            miscselect: self.miscselect,
        }
    }
}

/// `SealData` on the wire: the fixed fields as they are, the version as a
/// `u16`, the attributes as a byte string, the miscselect as a `u32`.
pub open spec fn ser_seal_data(v: SealDataView) -> Seq<u8> {
    v.rand + v.nonce + ser_u16(v.isvsvn) + v.cpusvn + ser_bytes(v.attributes) + ser_u32(
        v.miscselect,
    )
}

/// Reads `SealData`. The attributes must be sixteen bytes, and the miscselect
/// may hold no undefined bit.
pub open spec fn parse_seal_data(s: Seq<u8>) -> Option<(SealDataView, Seq<u8>)> {
    match parse_fixed(s, 16) {
        None => None,
        Some((rand, s1)) => match parse_fixed(s1, 12) {
            None => None,
            Some((nonce, s2)) => match parse_u16(s2) {
                None => None,
                Some((isvsvn, s3)) => match parse_fixed(s3, 16) {
                    None => None,
                    Some((cpusvn, s4)) => match parse_bytes(s4) {
                        None => None,
                        Some((attributes, s5)) => match parse_u32(s5) {
                            None => None,
                            Some((miscselect, s6)) => if attributes.len() == 16
                                && miscselect_defined(miscselect) {
                                Some(
                                    (
                                        SealDataView {
                                            rand,
                                            nonce,
                                            isvsvn,
                                            cpusvn,
                                            attributes,
                                            miscselect,
                                        },
                                        s6,
                                    ),
                                )
                            } else {
                                None
                            },
                        },
                    },
                },
            },
        },
    }
}

/// Readable `SealData` that was written is read back, and what follows it is
/// untouched.
pub proof fn lemma_parse_seal_data(v: SealDataView, tail: Seq<u8>)
    requires
        v.readable(),
    ensures
        ser_seal_data(v).len() == SEAL_DATA_LEN,
        parse_seal_data(ser_seal_data(v) + tail) == Some((v, tail)),
{
    let t5 = ser_u32(v.miscselect) + tail;
    let t4 = ser_bytes(v.attributes) + t5;
    let t3 = v.cpusvn + t4;
    let t2 = ser_u16(v.isvsvn) + t3;
    let t1 = v.nonce + t2;
    lemma_parse_u32(v.miscselect, tail);
    lemma_parse_bytes(v.attributes, t5);
    lemma_parse_fixed(v.cpusvn, t4);
    lemma_parse_u16(v.isvsvn, t3);
    lemma_parse_fixed(v.nonce, t2);
    lemma_parse_fixed(v.rand, t1);
    assert(ser_seal_data(v) + tail =~= v.rand + t1);
}

/// `SealData` takes 74 bytes on the wire.
pub proof fn lemma_ser_seal_data_len(v: SealDataView)
    requires
        v.wf(),
    ensures
        ser_seal_data(v).len() == SEAL_DATA_LEN,
{
    lemma_ser_u16(v.isvsvn);
    lemma_ser_u32(v.miscselect);
    lemma_ser_bytes_len(v.attributes);
}

/// What was read as `SealData` is readable, and written again it gives the
/// bytes that were read: only what a writer produces is accepted.
pub proof fn lemma_parse_seal_data_canonical(s: Seq<u8>)
    requires
        parse_seal_data(s) is Some,
    ensures
        parse_seal_data(s).unwrap().0.readable(),
        ser_seal_data(parse_seal_data(s).unwrap().0) + parse_seal_data(s).unwrap().1 == s,
{
    let (v, rest) = parse_seal_data(s).unwrap();
    let (rand, s1) = parse_fixed(s, 16).unwrap();
    let (nonce, s2) = parse_fixed(s1, 12).unwrap();
    let (isvsvn, s3) = parse_u16(s2).unwrap();
    let (cpusvn, s4) = parse_fixed(s3, 16).unwrap();
    let (attributes, s5) = parse_bytes(s4).unwrap();
    lemma_parse_fixed_splits(s, 16);
    lemma_parse_fixed_splits(s1, 12);
    lemma_parse_u16_canonical(s2);
    lemma_parse_fixed_splits(s3, 16);
    lemma_parse_bytes_canonical(s4);
    lemma_parse_u32_canonical(s5);
    assert(ser_seal_data(v) + rest =~= rand + (nonce + (ser_u16(isvsvn) + (cpusvn + (ser_bytes(
        attributes,
    ) + (ser_u32(v.miscselect) + rest))))));
}

/// Calls `Miscselect::from_bits` and says whether it accepted the value.
///
/// Taken on trust: the only bit that is defined is the lowest, so exactly 0
/// and 1 are accepted.
#[verifier::external_body]
pub(crate) fn miscselect_known(bits: u32) -> (known: bool)
    ensures
        known == miscselect_defined(bits),
{
    Miscselect::from_bits(bits).is_some()
}

/// The number of `Keyname::Seal`, the name of the sealing key: 4.
#[verifier::external_body]
pub(crate) fn keyname_seal() -> (name: u16)
    ensures
        name == 4,
{
    Keyname::Seal as u16
}

/// The bits of `Keypolicy::MRENCLAVE`, which binds a key to the enclave's
/// measurement: 1.
#[verifier::external_body]
pub(crate) fn keypolicy_mrenclave() -> (policy: u16)
    ensures
        policy == 1,
{
    Keypolicy::MRENCLAVE.bits()
}

/// The request for the key that belongs to `label` and `data`: the sealing
/// key, bound to the enclave's measurement, with the key id made of the label
/// and the stored random bytes, the stored security versions, and every bit
/// of the attributes and of miscselect taken into the derivation.
pub open spec fn is_key_request(req: KeyRequest, label: Seq<u8>, data: SealDataView) -> bool {
    &&& req.keyname == 4
    &&& req.keypolicy == 1
    &&& req.isvsvn == data.isvsvn
    &&& req.cpusvn@ == data.cpusvn
    &&& req.attributemask@ == seq![u64::MAX, u64::MAX]
    &&& req.keyid@ == label + data.rand
    &&& req.miscmask == u32::MAX
}

/// A label and the stored data leave no choice of the request: whoever asks
/// for their key asks for the same one.
pub proof fn lemma_key_request_is_determined(
    a: KeyRequest,
    b: KeyRequest,
    label: Seq<u8>,
    data: SealDataView,
)
    requires
        is_key_request(a, label, data),
        is_key_request(b, label, data),
    ensures
        a == b,
{
    assert(a.cpusvn =~= b.cpusvn);
    assert(a.attributemask =~= b.attributemask);
    assert(a.keyid =~= b.keyid);
}

impl EnclaveReport {
    /// Whether what is sealed in the enclave that gave this report can be
    /// read again: a reader refuses seal data whose miscselect holds a bit
    /// without a meaning, and sealing records the miscselect of the report.
    pub open spec fn sealable(self) -> bool {
        miscselect_defined(self.miscselect)
    }

    /// Whether what is sealed in the enclave that gave this report can be
    /// read again.
    pub fn is_sealable(&self) -> (b: bool)
        ensures
            b == self.sealable(),
    {
        miscselect_known(self.miscselect)
    }
}

/// Whether the enclave that gave `report` is configured as the one that
/// sealed `data`.
pub open spec fn same_configuration(report: EnclaveReport, data: SealDataView) -> bool {
    report.attributes@ == data.attributes && report.miscselect == data.miscselect
}

impl SealData {
    /// The data of a sealing that starts now: the enclave's versions and
    /// configuration from its report, and the fresh random bytes given.
    pub fn from_report(report: &EnclaveReport, rand: [u8; 16], nonce: Nonce) -> (data: Self)
        ensures
            data@ == (SealDataView {
                rand: rand@,
                nonce: nonce@,
                isvsvn: report.isvsvn,
                cpusvn: report.cpusvn@,
                attributes: report.attributes@,
                miscselect: report.miscselect,
            }),
            data@.wf(),
            data@.readable() == report.sealable(),
    {
        SealData {
            rand,
            nonce,
            isvsvn: report.isvsvn,
            cpusvn: report.cpusvn,
            attributes: report.attributes,
            miscselect: report.miscselect,
        }
    }

    /// The nonce under which the data was sealed.
    pub fn nonce(&self) -> (nonce: &Nonce)
        ensures
            nonce@ == self@.nonce,
    {
        &self.nonce
    }

    /// Every field of a value has its size.
    pub proof fn lemma_wf(&self)
        ensures
            self@.wf(),
    {
    }

    /// Whether a reader accepts the encoding of this value.
    pub fn is_readable(&self) -> (b: bool)
        ensures
            b == self@.readable(),
    {
        miscselect_known(self.miscselect)
    }

    /// Appends the encoding of the value.
    pub fn put(&self, out: &mut Vec<u8>)
        ensures
            final(out)@ == old(out)@ + ser_seal_data(self@),
    {
        put_slice(out, self.rand.as_slice());
        put_slice(out, self.nonce.as_slice());
        put_u16(out, self.isvsvn);
        put_slice(out, self.cpusvn.as_slice());
        put_bytes(out, self.attributes.as_slice());
        put_u32(out, self.miscselect);
        assert(out@ =~= old(out)@ + ser_seal_data(self@));
    }

    /// Reads a value off the front of `bytes`.
    pub fn take(bytes: &[u8]) -> (r: Option<(SealData, &[u8])>)
        ensures
            match r {
                Some((data, rest)) => parse_seal_data(bytes@) == Some((data@, rest@)),
                None => parse_seal_data(bytes@) is None,
            },
    {
        let (rand, s1) = match take_fixed(bytes, 16) {
            Some(x) => x,
            None => return None,
        };
        let (nonce, s2) = match take_fixed(s1, 12) {
            Some(x) => x,
            None => return None,
        };
        let (isvsvn, s3) = match take_u16(s2) {
            Some(x) => x,
            None => return None,
        };
        let (cpusvn, s4) = match take_fixed(s3, 16) {
            Some(x) => x,
            None => return None,
        };
        let (attributes, s5) = match take_bytes(s4) {
            Some(x) => x,
            None => return None,
        };
        let (miscselect, s6) = match take_u32(s5) {
            Some(x) => x,
            None => return None,
        };
        if attributes.len() != ATTRIBUTES_LEN || !miscselect_known(miscselect) {
            return None;
        }
        let data = SealData {
            rand: to_array16(rand),
            nonce: to_array12(nonce),
            isvsvn,
            cpusvn: to_array16(cpusvn),
            attributes: to_array16(attributes),
            miscselect,
        };
        Some((data, s6))
    }
}

/// Builds the request for the key that belongs to `label` and `seal_data`.
pub fn key_request(label: &Label, seal_data: &SealData) -> (req: KeyRequest)
    ensures
        is_key_request(req, label@, seal_data@),
{
    // The key id is the label followed by the random bytes of the sealing.
    let mut keyid = [0u8; 32];
    let mut i: usize = 0;
    while i < 16
        invariant
            i <= 16,
            forall|j: int| 0 <= j < i ==> keyid@[j] == label@[j],
            forall|j: int| 0 <= j < i ==> keyid@[16 + j] == seal_data.rand@[j],
        decreases 16 - i,
    {
        keyid[i] = label[i];
        keyid[16 + i] = seal_data.rand[i];
        i += 1;
    }
    assert(keyid@ =~= label@ + seal_data@.rand);
    let attributemask = [u64::MAX, u64::MAX];
    assert(attributemask@ =~= seq![u64::MAX, u64::MAX]);
    KeyRequest {
        keyname: keyname_seal(),
        keypolicy: keypolicy_mrenclave(),
        isvsvn: seal_data.isvsvn,
        cpusvn: seal_data.cpusvn,
        attributemask,
        keyid,
        miscmask: u32::MAX,
    }
}

/// Starts a sealing: records the enclave's versions and configuration
/// together with fresh random bytes and a fresh nonce, and builds the request
/// for the key.
///
/// The returned `SealData` is to be stored beside the ciphertext, so that the
/// data can be unsealed later. Use a different `label` for each kind of data.
pub fn seal_key(label: &Label, report: &EnclaveReport) -> (r: (KeyRequest, SealData))
    ensures
        r.1@.wf(),
        r.1@.isvsvn == report.isvsvn,
        r.1@.cpusvn == report.cpusvn@,
        r.1@.attributes == report.attributes@,
        r.1@.miscselect == report.miscselect,
        r.1@.readable() == report.sealable(),
        same_configuration(*report, r.1@),
        is_key_request(r.0, label@, r.1@),
{
    // Fresh randomness for each sealing.
    let rand = random16();
    let nonce = random12();
    let seal_data = SealData::from_report(report, rand, nonce);
    (key_request(label, &seal_data), seal_data)
}

/// Builds the request for the key that unseals what was sealed under `label`
/// with `seal_data`, for the enclave that gave `report`.
///
/// The hardware does not check the attributes and miscselect of the stored
/// data against the enclave: it would derive a key, and a wrong one. So the
/// request is refused here when they differ.
pub fn unseal_key(label: &Label, seal_data: &SealData, report: &EnclaveReport) -> (r: Result<
    KeyRequest,
    Error,
>)
    ensures
        match r {
            Ok(req) => same_configuration(*report, seal_data@) && is_key_request(
                req,
                label@,
                seal_data@,
            ),
            Err(e) => !same_configuration(*report, seal_data@) && is_error(
                e,
                ErrorKind::Crypto,
                "seal data not match"@,
            ),
        },
{
    if !bytes_equal(report.attributes.as_slice(), seal_data.attributes.as_slice())
        || report.miscselect != seal_data.miscselect {
        return Err(Error::crypto("seal data not match"));
    }
    Ok(key_request(label, seal_data))
}

/// Whether two byte strings are the same.
pub fn bytes_equal(a: &[u8], b: &[u8]) -> (eq: bool)
    ensures
        eq == (a@ == b@),
{
    if a.len() != b.len() {
        return false;
    }
    let mut i: usize = 0;
    while i < a.len()
        invariant
            i <= a@.len(),
            a@.len() == b@.len(),
            forall|j: int| 0 <= j < i ==> a@[j] == b@[j],
        decreases a@.len() - i,
    {
        if a[i] != b[i] {
            return false;
        }
        i += 1;
    }
    assert(a@ =~= b@);
    true
}

} // verus!
