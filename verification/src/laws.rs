//! What holds of the library as a whole. Each law relates calls of several
//! functions and is proved from what those functions promise: a parameter of
//! a law that stands for the result of a call is tied to the call in the
//! law's `requires`.

use crate::backend::{complete_request, handle_request, refuse, Pending, Step};
use crate::cipher::aes_gcm_siv_open;
use crate::ed25519::ed25519_public_key;
use crate::error::{is_error, lemma_shown_is_read_back, Error, ErrorKind};
use crate::protocol::{
    Decode, Encode, Request, RequestView, Response, ResponseView, MAX_FRAME_LEN,
};
use crate::seal_data::{
    lemma_key_request_is_determined, seal_key, unseal_key, EgetKey, EnclaveReport, KeyRequest,
    Label, SealData,
};
use crate::provider::SgxSigner;
use crate::seal_signer::{
    lemma_parse_sealed_signer, lemma_ser_sealed_signer_len, SealedSigner,
};
use vstd::prelude::*;

verus! {

/// A seed of 32 bytes can always be sealed; the signer that comes of it signs
/// every message; and it accepts the signature that it gave for the message.
pub proof fn law_sign_then_verify(
    seed: &[u8],
    label: Label,
    key: &EgetKey,
    seal_data: SealData,
    msg: &[u8],
    sealed: Result<SealedSigner, Error>,
    signed: Result<Vec<u8>, Error>,
    sig: &[u8],
    verified: Result<(), Error>,
)
    requires
        seed@.len() == 32,
        call_ensures(SealedSigner::import, (seed, label, key, seal_data), sealed),
        sealed matches Ok(signer) ==> call_ensures(
            SealedSigner::try_sign,
            (&signer, key, msg),
            signed,
        ),
        signed matches Ok(s) ==> sig@ == s@,
        sealed matches Ok(signer) ==> call_ensures(
            SealedSigner::verify,
            (&signer, key, msg, sig),
            verified,
        ),
    ensures
        sealed is Ok,
        signed is Ok,
        sig@.len() == 64,
        verified is Ok,
{
}

/// The public key that a signer gives is the public key of the seed that was
/// sealed in it.
pub proof fn law_public_key_is_of_the_seed(
    seed: &[u8],
    label: Label,
    key: &EgetKey,
    seal_data: SealData,
    sealed: Result<SealedSigner, Error>,
    public_key: Result<Vec<u8>, Error>,
)
    requires
        seed@.len() == 32,
        call_ensures(SealedSigner::import, (seed, label, key, seal_data), sealed),
        sealed matches Ok(signer) ==> call_ensures(
            SealedSigner::get_public_key,
            (&signer, key),
            public_key,
        ),
    ensures
        public_key matches Ok(pk) && pk@ == ed25519_public_key(seed@),
{
}

/// A signer that is encoded and decoded again is the signer it was. It can be
/// encoded where its sealed seed leaves room in a frame for the 98 bytes
/// around it.
///
/// A signer whose miscselect holds a bit without a meaning is left out: its
/// encoding is refused by every reader.
pub proof fn law_signer_survives_encoding(
    signer: SealedSigner,
    encoded: Result<Vec<u8>, Error>,
    bytes: &[u8],
    decoded: Result<SealedSigner, Error>,
)
    requires
        signer@.readable(),
        call_ensures(<SealedSigner as Encode>::encode, (&signer, false), encoded),
        encoded matches Ok(e) ==> bytes@ == e@,
        call_ensures(<SealedSigner as Decode>::decode, (bytes,), decoded),
    ensures
        encoded is Ok <==> signer@.sealed_seed.len() + 98 <= MAX_FRAME_LEN,
        encoded is Ok ==> (decoded matches Ok(d) && d@ == signer@),
{
    lemma_parse_sealed_signer(signer@, Seq::<u8>::empty());
    assert(<SealedSigner as Encode>::encoding(signer@) + Seq::<u8>::empty()
        =~= <SealedSigner as Encode>::encoding(signer@));
}

/// A signer that this library sealed can always be encoded, in 146 bytes; and
/// where its seal data can be read, decoding gives the signer back.
pub proof fn law_sealed_signer_is_encoded(
    seed: &[u8],
    label: Label,
    key: &EgetKey,
    seal_data: SealData,
    sealed: Result<SealedSigner, Error>,
    encoded: Result<Vec<u8>, Error>,
    bytes: &[u8],
    decoded: Result<SealedSigner, Error>,
)
    requires
        call_ensures(SealedSigner::import, (seed, label, key, seal_data), sealed),
        sealed matches Ok(signer) ==> call_ensures(
            <SealedSigner as Encode>::encode,
            (&signer, false),
            encoded,
        ),
        encoded matches Ok(e) ==> bytes@ == e@,
        call_ensures(<SealedSigner as Decode>::decode, (bytes,), decoded),
    ensures
        sealed matches Ok(signer) ==> {
            &&& encoded matches Ok(e) && e@.len() == 146
            &&& seal_data@.readable() ==> (decoded matches Ok(d) && d@ == signer@)
        },
{
    if sealed is Ok {
        let signer = sealed.unwrap();
        lemma_ser_sealed_signer_len(signer@);
        if seal_data@.readable() {
            lemma_parse_sealed_signer(signer@, Seq::<u8>::empty());
            assert(<SealedSigner as Encode>::encoding(signer@) + Seq::<u8>::empty()
                =~= <SealedSigner as Encode>::encoding(signer@));
        }
    }
}

/// The key pair that answers `KeyGen` or `Import` reaches the client: the
/// enclave's answer fits a frame, and what the client reads from the frame is
/// the key pair that the enclave made.
pub proof fn law_key_pair_reaches_the_client(
    raw: &[u8],
    report: &EnclaveReport,
    step: Step,
    key: EgetKey,
    response: Response,
    framed: Result<Vec<u8>, Error>,
    bytes: &[u8],
    received: Result<Response, Error>,
)
    requires
        call_ensures(handle_request, (raw, report), step),
        step matches Step::DeriveKey(_, pending) && pending@ is Seal && call_ensures(
            complete_request,
            (pending, Some(key)),
            response,
        ),
        call_ensures(<Response as Encode>::encode, (&response, true), framed),
        framed matches Ok(f) ==> bytes@ == f@,
        call_ensures(SgxSigner::receive, (bytes,), received),
    ensures
        response@ is KeyPair,
        framed is Ok,
        received matches Ok(got) && got@ == response@,
{
    assert(response@.readable());
    crate::protocol::lemma_response_crosses_stream(response@, Seq::<u8>::empty());
    assert(crate::protocol::framed(crate::protocol::ser_response(response@), true) + Seq::<
        u8,
    >::empty() =~= crate::protocol::framed(crate::protocol::ser_response(response@), true));
}

/// A message that alone is larger than a frame is never sent to be signed:
/// the request that carries it is refused when it is encoded.
pub proof fn law_oversize_message_is_not_sent(request: Request, sent: Result<Vec<u8>, Error>)
    requires
        request@ matches RequestView::Sign(_, msg) && msg.len() > MAX_FRAME_LEN,
        call_ensures(SgxSigner::send, (&request,), sent),
    ensures
        sent matches Err(e) && is_error(e, ErrorKind::Protocol, "encoded data too large"@),
{
}

/// A signer whose sealed seed the key does not open gives neither a public
/// key nor a signature.
pub proof fn law_unopened_signer_gives_nothing(
    signer: SealedSigner,
    key: &EgetKey,
    msg: &[u8],
    public_key: Result<Vec<u8>, Error>,
    signed: Result<Vec<u8>, Error>,
)
    requires
        aes_gcm_siv_open(key@, signer@.seal_data.nonce, signer@.sealed_seed) is None,
        call_ensures(SealedSigner::get_public_key, (&signer, key), public_key),
        call_ensures(SealedSigner::try_sign, (&signer, key, msg), signed),
    ensures
        public_key is Err,
        signed is Err,
{
}

/// A request that is encoded and decoded again is the request it was.
pub proof fn law_request_survives_encoding(
    request: Request,
    encoded: Result<Vec<u8>, Error>,
    bytes: &[u8],
    decoded: Result<Request, Error>,
)
    requires
        request@.readable(),
        call_ensures(<Request as Encode>::encode, (&request, false), encoded),
        encoded matches Ok(e) ==> bytes@ == e@,
        call_ensures(<Request as Decode>::decode, (bytes,), decoded),
    ensures
        encoded is Ok ==> (decoded matches Ok(d) && d@ == request@),
{
    crate::protocol::lemma_parse_request(request@, Seq::<u8>::empty());
    assert(<Request as Encode>::encoding(request@) + Seq::<u8>::empty() =~= <Request as Encode>::encoding(
        request@,
    ));
}

/// A response that is encoded and decoded again is the response it was.
pub proof fn law_response_survives_encoding(
    response: Response,
    encoded: Result<Vec<u8>, Error>,
    bytes: &[u8],
    decoded: Result<Response, Error>,
)
    requires
        response@.readable(),
        call_ensures(<Response as Encode>::encode, (&response, false), encoded),
        encoded matches Ok(e) ==> bytes@ == e@,
        call_ensures(<Response as Decode>::decode, (bytes,), decoded),
    ensures
        encoded is Ok ==> (decoded matches Ok(d) && d@ == response@),
{
    crate::protocol::lemma_parse_response(response@, Seq::<u8>::empty());
    assert(<Response as Encode>::encoding(response@) + Seq::<u8>::empty()
        =~= <Response as Encode>::encoding(response@));
}

/// Unsealing asks for the key that sealing asked for, as long as the enclave
/// is configured as it was.
pub proof fn law_unsealing_asks_for_the_sealing_key(
    label: &Label,
    report: &EnclaveReport,
    sealing: (KeyRequest, SealData),
    later: &EnclaveReport,
    unsealing: Result<KeyRequest, Error>,
)
    requires
        call_ensures(seal_key, (label, report), sealing),
        call_ensures(unseal_key, (label, &sealing.1, later), unsealing),
        later.attributes@ == report.attributes@,
        later.miscselect == report.miscselect,
    ensures
        unsealing == Ok::<KeyRequest, Error>(sealing.0),
{
    lemma_key_request_is_determined(sealing.0, unsealing.unwrap(), label@, sealing.1@);
}

/// The public key that the enclave gives for a sealed key is the public key
/// that it handed out with the sealed key.
pub proof fn law_public_key_matches_key_pair(
    seed: Vec<u8>,
    label: Label,
    seal_data: SealData,
    key: EgetKey,
    first: Response,
    signer: SealedSigner,
    second: Response,
)
    requires
        call_ensures(
            complete_request,
            (Pending::Seal { seed, label, seal_data }, Some(key)),
            first,
        ),
        first@ matches ResponseView::KeyPair(pair) ==> signer@ == pair.sealed_privkey,
        call_ensures(complete_request, (Pending::PublicKey(signer), Some(key)), second),
    ensures
        first@ matches ResponseView::KeyPair(pair) ==> second@ == ResponseView::PublicKey(
            pair.pubkey,
        ),
        seed@.len() == 32 ==> first@ is KeyPair,
{
}

/// An error that the enclave reports reaches the caller of the client with
/// its kind and its reason.
pub proof fn law_error_is_reported(e: Error, response: Response, got: Result<Vec<u8>, Error>)
    requires
        call_ensures(refuse, (&e,), response),
        call_ensures(SgxSigner::sign_msg, (response,), got),
    ensures
        got matches Err(g) && g.kind == e.kind && g.what@ == e.what@,
{
    lemma_shown_is_read_back(e.kind, e.what@);
}

} // verus!
