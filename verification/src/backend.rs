//! The enclave's side: what it answers to a request.
//!
//! Every request but `Ping` needs a sealing key, and the key comes from the
//! hardware. So a request is handled in two steps. `handle_request` reads the
//! request and either answers at once or says which key it needs;
//! `complete_request` takes the key and gives the answer. Between the two the
//! caller asks the hardware. Nothing is kept from one request to the next.

use crate::cipher::{aes_gcm_siv_seal, TAG_LEN};
use crate::ed25519::{
    ed25519_public_key, ed25519_signature, PUBLIC_KEY_LEN, SEED_LEN, SIGNATURE_LEN,
};
use crate::entropy::{random16, random32};
use crate::error::{
    is_error, is_short_reason, lemma_shown_is_short, shown, Error, ErrorKind,
};
use crate::protocol::{
    frame_len, framed, get_data_from_stream, is_frame_error, is_frame_len,
    lemma_ser_response_len, parse_frame, parse_request, ser_response, ByteStream, Decode, Encode, KeyPair, KeyPairView, Request,
    RequestView, Response, ResponseView, MAX_FRAME_LEN,
};
use crate::seal_data::{
    is_key_request, same_configuration, seal_key, EgetKey, EnclaveReport, KeyRequest, Label,
    SealData, SealDataView,
};
use crate::seal_signer::{
    lemma_ser_sealed_signer_len, ser_sealed_signer, SealedSigner, SealedSignerView,
};
use crate::wire::to_vec;
use vstd::prelude::*;

verus! {

/// A request that waits for its sealing key. It may hold a seed in the clear,
/// so it cannot be printed.
pub enum Pending {
    /// A seed to be sealed under the label and the seal data; answered with
    /// the key pair.
    Seal { seed: Vec<u8>, label: Label, seal_data: SealData },
    /// A signer whose public key is asked for.
    PublicKey(SealedSigner),
    /// A signer and the message it is to sign.
    Sign(SealedSigner, Vec<u8>),
}

/// A pending request as plain values.
pub enum PendingView {
    Seal { seed: Seq<u8>, label: Seq<u8>, seal_data: SealDataView },
    PublicKey(SealedSignerView),
    Sign(SealedSignerView, Seq<u8>),
}

impl View for Pending {
    type V = PendingView;

    open spec fn view(&self) -> PendingView {
        match self {
            Pending::Seal { seed, label, seal_data } => PendingView::Seal {
                seed: seed@,
                label: label@,
                seal_data: seal_data@,
            },
            Pending::PublicKey(signer) => PendingView::PublicKey(signer@),
            Pending::Sign(signer, msg) => PendingView::Sign(signer@, msg@),
        }
    }
}

/// How the first step of handling a request ends.
pub enum Step {
    /// The answer is known.
    Reply(Response),
    /// The hardware is to derive the key for this request; the answer
    /// follows from the key and the pending request.
    DeriveKey(KeyRequest, Pending),
}

/// What a pending request is answered with, given the key that the hardware
/// derived or its failure to derive one.
pub open spec fn reply_of(pending: PendingView, key: Option<Seq<u8>>) -> ResponseView {
    match key {
        None => ResponseView::Error(shown(ErrorKind::Crypto, "get egetkey failed"@)),
        Some(key) => match pending {
            PendingView::Seal { seed, label, seal_data } => if seed.len() != SEED_LEN {
                ResponseView::Error(shown(ErrorKind::Crypto, "invalid seed"@))
            } else {
                ResponseView::KeyPair(
                    KeyPairView {
                        sealed_privkey: SealedSignerView {
                            sealed_seed: aes_gcm_siv_seal(key, seal_data.nonce, seed).unwrap(),
                            seal_data,
                            label,
                        },
                        pubkey: ed25519_public_key(seed),
                    },
                )
            },
            PendingView::PublicKey(signer) => match signer.seed(key) {
                Some(seed) => ResponseView::PublicKey(ed25519_public_key(seed)),
                None => ResponseView::Error(shown(ErrorKind::Crypto, signer.unseal_failure(key))),
            },
            PendingView::Sign(signer, msg) => match signer.seed(key) {
                Some(seed) => ResponseView::Signed(ed25519_signature(seed, msg)),
                None => ResponseView::Error(shown(ErrorKind::Crypto, signer.unseal_failure(key))),
            },
        },
    }
}

/// Whether a response takes no more bytes on the wire than a frame carries.
pub open spec fn fits_a_frame(response: ResponseView) -> bool {
    ser_response(response).len() <= MAX_FRAME_LEN
}

/// Whether `step` is the answer that refuses a request for the reason
/// `what`, an error of kind `kind`.
pub open spec fn is_refusal(step: Step, kind: ErrorKind, what: Seq<char>) -> bool {
    step matches Step::Reply(response) && response@ == ResponseView::Error(shown(kind, what))
}

/// Whether `step` is a right step of sealing `seed` in the enclave that gave
/// `report`: the key is asked for under some label and some seal data that
/// record the enclave's versions and configuration, and the seed waits with
/// them. The seal data can be read back from its encoding.
pub open spec fn is_seal_step(step: Step, seed: Seq<u8>, report: EnclaveReport) -> bool {
    &&& step matches Step::DeriveKey(req, pending)
    &&& pending@ matches PendingView::Seal { seed: pending_seed, label, seal_data }
    &&& pending_seed == seed
    &&& label.len() == 16
    &&& seal_data.readable()
    &&& seal_data.isvsvn == report.isvsvn
    &&& seal_data.cpusvn == report.cpusvn@
    &&& same_configuration(report, seal_data)
    &&& is_key_request(req, label, seal_data)
}

/// Whether `step` is a right first step for sealing `seed` in the enclave
/// that gave `report`. Nothing is sealed in an enclave whose miscselect holds
/// a bit without a meaning: no reader would accept the sealed key, so the
/// request is refused.
pub open spec fn is_seal_answer(step: Step, seed: Seq<u8>, report: EnclaveReport) -> bool {
    if report.sealable() {
        is_seal_step(step, seed, report)
    } else {
        is_refusal(step, ErrorKind::Crypto, "miscselect not supported"@)
    }
}

/// Whether `step` is the right first step for a request that uses `signer`
/// in the enclave that gave `report`: the unsealing key is asked for and
/// `pending` waits, or the request is refused because the enclave is not
/// configured as the one that sealed the signer.
pub open spec fn is_unseal_step(
    step: Step,
    signer: SealedSignerView,
    pending: PendingView,
    report: EnclaveReport,
) -> bool {
    if same_configuration(report, signer.seal_data) {
        &&& step matches Step::DeriveKey(req, p)
        &&& p@ == pending
        &&& is_key_request(req, signer.label, signer.seal_data)
    } else {
        is_refusal(step, ErrorKind::Crypto, "seal data not match"@)
    }
}

/// Whether `step` is a right first step for the request that `raw` encodes,
/// in the enclave that gave `report`.
pub open spec fn is_first_step(step: Step, raw: Seq<u8>, report: EnclaveReport) -> bool {
    match parse_request(raw) {
        None => is_refusal(step, ErrorKind::Protocol, "invalid request"@),
        Some((request, _)) => match request {
            RequestView::Ping => step matches Step::Reply(response) && response@
                == ResponseView::Pong,
            RequestView::KeyGen => exists|seed: Seq<u8>|
                seed.len() == SEED_LEN && is_seal_answer(step, seed, report),
            RequestView::Import(seed) => if seed.len() == SEED_LEN {
                is_seal_answer(step, seed, report)
            } else {
                is_refusal(step, ErrorKind::Crypto, "invalid seed"@)
            },
            RequestView::GetPublicKey(signer) => is_unseal_step(
                step,
                signer,
                PendingView::PublicKey(signer),
                report,
            ),
            RequestView::Sign(signer, msg) => is_unseal_step(
                step,
                signer,
                PendingView::Sign(signer, msg),
                report,
            ),
        },
    }
}

/// The reasons for which the enclave refuses a request are plain and short.
pub proof fn lemma_reasons()
    ensures
        is_short_reason("invalid request"@),
        is_short_reason("invalid seed"@),
        is_short_reason("miscselect not supported"@),
        is_short_reason("seal data not match"@),
        is_short_reason("get egetkey failed"@),
        is_short_reason("get signer failed"@),
        is_short_reason("get signer failed, the host changed or the program changed"@),
{
    reveal_strlit("invalid request");
    reveal_strlit("invalid seed");
    reveal_strlit("miscselect not supported");
    reveal_strlit("seal data not match");
    reveal_strlit("get egetkey failed");
    reveal_strlit("get signer failed");
    reveal_strlit("get signer failed, the host changed or the program changed");
}

/// The error `e` as the answer to a request: the response carries the error
/// as it is shown. An error with a plain and short reason fits a frame.
pub fn refuse(e: &Error) -> (response: Response)
    ensures
        response@ == ResponseView::Error(shown(e.kind, e.what@)),
        is_short_reason(e.what@) ==> fits_a_frame(response@),
{
    proof {
        if is_short_reason(e.what@) {
            lemma_shown_is_short(e.kind, e.what@);
            lemma_ser_response_len(ResponseView::Error(shown(e.kind, e.what@)));
        }
    }
    Response::Error(e.to_string())
}

/// The first step of sealing `seed` under a fresh label.
pub fn start_seal(seed: Vec<u8>, report: &EnclaveReport) -> (step: Step)
    ensures
        is_seal_answer(step, seed@, *report),
        step matches Step::Reply(response) ==> fits_a_frame(response@),
{
    if !report.is_sealable() {
        proof {
            lemma_reasons();
        }
        return Step::Reply(refuse(&Error::crypto("miscselect not supported")));
    }
    let label = random16();
    let (req, seal_data) = seal_key(&label, report);
    Step::DeriveKey(req, Pending::Seal { seed, label, seal_data })
}

/// The first step of handling the request that `raw_data` encodes, in the
/// enclave that gave `report`. An answer that is given at once fits a frame.
pub fn handle_request(raw_data: &[u8], report: &EnclaveReport) -> (step: Step)
    ensures
        is_first_step(step, raw_data@, *report),
        step matches Step::Reply(response) ==> fits_a_frame(response@),
{
    proof {
        lemma_reasons();
        lemma_ser_response_len(ResponseView::Pong);
    }
    let request = match Request::decode(raw_data) {
        Ok(request) => request,
        Err(_) => {
            return Step::Reply(refuse(&Error::protocol("invalid request")));
        },
    };
    match request {
        Request::Ping => Step::Reply(Response::Pong),
        Request::KeyGen => {
            let seed = random32();
            let step = start_seal(to_vec(seed.as_slice()), report);
            // the seed that was drawn is the one that the contract speaks of
            assert(seed@.len() == SEED_LEN && is_seal_answer(step, seed@, *report));
            step
        },
        Request::Import(raw_seed) => {
            if raw_seed.len() != SEED_LEN {
                return Step::Reply(refuse(&Error::crypto("invalid seed")));
            }
            start_seal(raw_seed, report)
        },
        Request::GetPublicKey(sealed_signer) => {
            match sealed_signer.unseal_request(report) {
                Ok(req) => Step::DeriveKey(req, Pending::PublicKey(sealed_signer)),
                Err(e) => Step::Reply(refuse(&e)),
            }
        },
        Request::Sign(pair) => {
            let (sealed_signer, raw_data) = pair;
            match sealed_signer.unseal_request(report) {
                Ok(req) => Step::DeriveKey(req, Pending::Sign(sealed_signer, raw_data)),
                Err(e) => Step::Reply(refuse(&e)),
            }
        },
    }
}

/// The bytes of an optional key.
pub open spec fn view_key(key: Option<EgetKey>) -> Option<Seq<u8>> {
    match key {
        Some(key) => Some(key@),
        None => None,
    }
}

/// What holds of an answer to `pending` under `key` besides what it is.
///
/// A key pair carries 48 bytes of sealed seed and 32 of public key; its sealed
/// key opens under `key` to the seed that was given, and gives the public key
/// that comes with it; the sealed key takes 146 bytes on the wire; and the key
/// pair can be read back from its encoding wherever the seal data of the
/// pending request can. A public key has 32 bytes, a signature 64.
pub open spec fn is_sound_answer(pending: PendingView, key: Seq<u8>, response: ResponseView)
    -> bool {
    match response {
        ResponseView::KeyPair(pair) => {
            &&& pending matches PendingView::Seal { seed, label, seal_data }
            &&& pair.sealed_privkey.seed(key) == Some(seed)
            &&& pair.sealed_privkey.public_key(key) == Some(pair.pubkey)
            &&& pair.sealed_privkey.sealed_seed.len() == SEED_LEN + TAG_LEN
            &&& pair.pubkey.len() == PUBLIC_KEY_LEN
            &&& pair.sealed_privkey.wf()
            &&& ser_sealed_signer(pair.sealed_privkey).len() == 146
            &&& seal_data.readable() ==> response.readable()
        },
        ResponseView::PublicKey(public_key) => public_key.len() == PUBLIC_KEY_LEN,
        ResponseView::Signed(sig) => sig.len() == SIGNATURE_LEN,
        _ => true,
    }
}

/// The second step: the answer to a pending request, given the key that the
/// hardware derived for it, or `None` where the derivation failed. Whatever
/// the answer is, it fits a frame.
pub fn complete_request(pending: Pending, key: Option<EgetKey>) -> (response: Response)
    ensures
        response@ == reply_of(pending@, view_key(key)),
        view_key(key) matches Some(k) ==> is_sound_answer(pending@, k, response@),
        fits_a_frame(response@),
{
    proof {
        lemma_reasons();
    }
    let key = match key {
        Some(key) => key,
        None => {
            return refuse(&Error::crypto("get egetkey failed"));
        },
    };
    match pending {
        Pending::Seal { seed, label, seal_data } => {
            let sealed_privkey = match SealedSigner::import(
                seed.as_slice(),
                label,
                &key,
                seal_data,
            ) {
                Ok(signer) => signer,
                Err(e) => {
                    return refuse(&e);
                },
            };
            match sealed_privkey.get_public_key(&key) {
                Ok(pubkey) => {
                    let response = Response::KeyPair(KeyPair { sealed_privkey, pubkey });
                    proof {
                        lemma_ser_response_len(response@);
                        lemma_ser_sealed_signer_len(response@->KeyPair_0.sealed_privkey);
                    }
                    response
                },
                Err(e) => refuse(&e),
            }
        },
        Pending::PublicKey(sealed_signer) => {
            match sealed_signer.get_public_key(&key) {
                Ok(pubkey) => {
                    let response = Response::PublicKey(pubkey);
                    proof {
                        lemma_ser_response_len(response@);
                    }
                    response
                },
                Err(e) => refuse(&e),
            }
        },
        Pending::Sign(sealed_signer, raw_data) => {
            match sealed_signer.try_sign(&key, raw_data.as_slice()) {
                Ok(sig) => {
                    let response = Response::Signed(sig);
                    proof {
                        lemma_ser_response_len(response@);
                    }
                    response
                },
                Err(e) => refuse(&e),
            }
        },
    }
}

/// Reads one request off the stream and takes the first step of handling
/// it. A stream that has ended gives the stop signal; a stream that does not
/// start with a frame gives the reason, and nothing is read.
pub fn serve(stream: &mut ByteStream, report: &EnclaveReport) -> (r: Result<Step, Error>)
    ensures
        match r {
            Ok(step) => parse_frame(old(stream)@) matches Some((request, rest)) && final(stream)@
                == rest && is_first_step(step, request, *report),
            Err(e) => parse_frame(old(stream)@) is None && final(stream)@ == old(stream)@
                && is_frame_error(old(stream)@, e),
        },
{
    let request_raw_data = get_data_from_stream(stream)?;
    Ok(handle_request(request_raw_data.as_slice(), report))
}

/// Writes a response to the stream, behind its length. A response that does
/// not fit a frame is not written.
pub fn respond(stream: &mut ByteStream, response: &Response) -> (r: Result<(), Error>)
    ensures
        match r {
            Ok(()) => ser_response(response@).len() <= MAX_FRAME_LEN && final(stream)@ == old(
                stream,
            )@ + framed(ser_response(response@), true),
            Err(e) => ser_response(response@).len() > MAX_FRAME_LEN && final(stream)@ == old(
                stream,
            )@ && is_error(e, ErrorKind::Protocol, "encoded data too large"@),
        },
{
    let response_raw_data = response.encode(true)?;
    let _ = stream.write(response_raw_data.as_slice());
    Ok(())
}

/// Where the serve loop of the enclave stands with the request of a
/// connection.
#[derive(Clone, Copy, Debug, PartialEq, Eq)]
pub enum ServeState {
    /// Nothing was read yet: the length of a request comes next.
    Idle,
    /// The length was read: so many bytes of the request come next.
    ReadingBody(usize),
    /// The request was read: it is handled, and the response is written.
    Handling,
    /// The stream has ended: the loop is over.
    Stopped,
}

/// Where a read takes the serve loop, given the state that asked for it and
/// the bytes that it returned. In `Idle` no bytes at all end the loop, and
/// eight bytes that give a length within the bound lead on to the body; in
/// `ReadingBody` the bytes that were announced lead on to `Handling`.
/// Anything else is an error.
pub open spec fn is_after_read(state: ServeState, bytes: Seq<u8>, r: Result<ServeState, Error>)
    -> bool {
    match state {
        ServeState::Idle => if bytes.len() == 0 {
            r == Ok::<ServeState, Error>(ServeState::Stopped)
        } else {
            match r {
                Ok(next) => next matches ServeState::ReadingBody(n) && is_frame_len(bytes, Ok(n)),
                Err(e) => is_frame_len(bytes, Err(e)),
            }
        },
        ServeState::ReadingBody(n) => if bytes.len() == n {
            r == Ok::<ServeState, Error>(ServeState::Handling)
        } else {
            r matches Err(e) && is_error(e, ErrorKind::Protocol, "incomplete data"@)
        },
        _ => r matches Err(e) && is_error(e, ErrorKind::Protocol, "unexpected read"@),
    }
}

/// The state after a read that returned `bytes`.
pub fn on_read(state: ServeState, bytes: &[u8]) -> (r: Result<ServeState, Error>)
    ensures
        is_after_read(state, bytes@, r),
{
    match state {
        ServeState::Idle => {
            if bytes.len() == 0 {
                return Ok(ServeState::Stopped);
            }
            match frame_len(bytes) {
                Ok(n) => Ok(ServeState::ReadingBody(n)),
                Err(e) => Err(e),
            }
        },
        ServeState::ReadingBody(n) => {
            if bytes.len() == n {
                Ok(ServeState::Handling)
            } else {
                Err(Error::protocol("incomplete data"))
            }
        },
        _ => Err(Error::protocol("unexpected read")),
    }
}

/// The state after the response was written: from `Handling` the loop is
/// `Idle` again, and in no other state is there anything to write.
pub fn on_write(state: ServeState) -> (r: Result<ServeState, Error>)
    ensures
        match state {
            ServeState::Handling => r == Ok::<ServeState, Error>(ServeState::Idle),
            _ => r matches Err(e) && is_error(e, ErrorKind::Protocol, "unexpected write"@),
        },
{
    match state {
        ServeState::Handling => Ok(ServeState::Idle),
        _ => Err(Error::protocol("unexpected write")),
    }
}

} // verus!
