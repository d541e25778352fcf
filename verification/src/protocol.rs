//! The wire protocol: what a client asks of the enclave, what the enclave
//! answers, how both are written as bytes, and how a message is framed on a
//! byte stream.
//!
//! A message is written as the number of its variant, a `u32`, followed by
//! the variant's fields in order. Integers are little-endian; a byte string or
//! a text is preceded by its length as a `u64`. A frame is a message preceded
//! by its length as a `u64`; no frame carries more than 60 KiB.

use crate::error::{is_error, Error, ErrorKind};
use crate::seal_signer::{
    lemma_parse_sealed_signer, lemma_parse_sealed_signer_canonical, lemma_ser_sealed_signer_len,
    parse_sealed_signer, ser_sealed_signer, SealedSigner, SealedSignerView,
};
use crate::wire::{
    lemma_parse_bytes, lemma_parse_bytes_canonical, lemma_parse_u32, lemma_parse_u32_canonical,
    lemma_ser_bytes_len, lemma_ser_u32,
    parse_bytes, parse_u32, parse_u64, put_bytes, put_slice, put_u32, ser_bytes, ser_u32,
    take_bytes, take_fixed, take_u32, take_u64, to_vec,
};
use vstd::prelude::*;
use vstd::utf8::{decode_utf8, encode_utf8, valid_utf8};

verus! {

/// Bytes of a message or of a signature.
pub type DataType = Vec<u8>;

/// The most bytes a frame may carry: 60 KiB.
pub const MAX_FRAME_LEN: usize = 61440;

/// The number of bytes of the length in front of a frame.
pub const LEN_INFO_LEN: usize = 8;

/// How a secret key is written as text when it is imported.
#[derive(Debug)]
pub enum KeyType {
    Base64,
}

/// A sealed private key with its public key, as the enclave hands them out
/// when a key is generated or imported.
#[derive(Debug)]
pub struct KeyPair {
    pub sealed_privkey: SealedSigner,
    pub pubkey: Vec<u8>,
}

/// What a client asks of the enclave.
#[derive(Debug)]
pub enum Request {
    Ping,
    KeyGen,
    GetPublicKey(SealedSigner),
    /// Answered with `Response::KeyPair`.
    Import(Vec<u8>),
    Sign((SealedSigner, DataType)),
}

/// What the enclave answers.
#[derive(Debug)]
pub enum Response {
    Pong,
    KeyPair(KeyPair),
    PublicKey(Vec<u8>),
    Signed(DataType),
    Error(String),
}

/// A key pair as plain values.
pub struct KeyPairView {
    pub sealed_privkey: SealedSignerView,
    pub pubkey: Seq<u8>,
}

/// A request as plain values.
pub enum RequestView {
    Ping,
    KeyGen,
    GetPublicKey(SealedSignerView),
    Import(Seq<u8>),
    Sign(SealedSignerView, Seq<u8>),
}

/// A response as plain values.
pub enum ResponseView {
    Pong,
    KeyPair(KeyPairView),
    PublicKey(Seq<u8>),
    Signed(Seq<u8>),
    Error(Seq<char>),
}

impl View for KeyPair {
    type V = KeyPairView;

    open spec fn view(&self) -> KeyPairView {
        KeyPairView { sealed_privkey: self.sealed_privkey@, pubkey: self.pubkey@ }
    }
}

impl View for Request {
    type V = RequestView;

    open spec fn view(&self) -> RequestView {
        match self {
            Request::Ping => RequestView::Ping,
            Request::KeyGen => RequestView::KeyGen,
            Request::GetPublicKey(signer) => RequestView::GetPublicKey(signer@),
            Request::Import(seed) => RequestView::Import(seed@),
            Request::Sign(pair) => RequestView::Sign(pair.0@, pair.1@),
        }
    }
}

impl View for Response {
    type V = ResponseView;

    open spec fn view(&self) -> ResponseView {
        match self {
            Response::Pong => ResponseView::Pong,
            Response::KeyPair(pair) => ResponseView::KeyPair(pair@),
            Response::PublicKey(key) => ResponseView::PublicKey(key@),
            Response::Signed(sig) => ResponseView::Signed(sig@),
            Response::Error(what) => ResponseView::Error(what@),
        }
    }
}

impl RequestView {
    /// Whether the request can be read back from its encoding.
    pub open spec fn readable(self) -> bool {
        match self {
            RequestView::Ping => true,
            RequestView::KeyGen => true,
            RequestView::GetPublicKey(signer) => signer.readable(),
            RequestView::Import(seed) => seed.len() <= usize::MAX,
            RequestView::Sign(signer, msg) => signer.readable() && msg.len() <= usize::MAX,
        }
    }
}

impl ResponseView {
    /// Whether the response can be read back from its encoding.
    pub open spec fn readable(self) -> bool {
        match self {
            ResponseView::Pong => true,
            ResponseView::KeyPair(pair) => pair.sealed_privkey.readable() && pair.pubkey.len()
                <= usize::MAX,
            ResponseView::PublicKey(key) => key.len() <= usize::MAX,
            ResponseView::Signed(sig) => sig.len() <= usize::MAX,
            ResponseView::Error(what) => encode_utf8(what).len() <= usize::MAX,
        }
    }
}

/// A request on the wire.
pub open spec fn ser_request(v: RequestView) -> Seq<u8> {
    match v {
        RequestView::Ping => ser_u32(0),
        RequestView::KeyGen => ser_u32(1),
        RequestView::GetPublicKey(signer) => ser_u32(2) + ser_sealed_signer(signer),
        RequestView::Import(seed) => ser_u32(3) + ser_bytes(seed),
        RequestView::Sign(signer, msg) => ser_u32(4) + ser_sealed_signer(signer) + ser_bytes(msg),
    }
}

/// Reads a request.
pub open spec fn parse_request(s: Seq<u8>) -> Option<(RequestView, Seq<u8>)> {
    match parse_u32(s) {
        None => None,
        Some((tag, s1)) => if tag == 0 {
            Some((RequestView::Ping, s1))
        } else if tag == 1 {
            Some((RequestView::KeyGen, s1))
        } else if tag == 2 {
            match parse_sealed_signer(s1) {
                None => None,
                Some((signer, s2)) => Some((RequestView::GetPublicKey(signer), s2)),
            }
        } else if tag == 3 {
            match parse_bytes(s1) {
                None => None,
                Some((seed, s2)) => Some((RequestView::Import(seed), s2)),
            }
        } else if tag == 4 {
            match parse_sealed_signer(s1) {
                None => None,
                Some((signer, s2)) => match parse_bytes(s2) {
                    None => None,
                    Some((msg, s3)) => Some((RequestView::Sign(signer, msg), s3)),
                },
            }
        } else {
            None
        },
    }
}

/// A response on the wire. The text of an error is written in UTF-8.
pub open spec fn ser_response(v: ResponseView) -> Seq<u8> {
    match v {
        ResponseView::Pong => ser_u32(0),
        ResponseView::KeyPair(pair) => ser_u32(1) + ser_sealed_signer(pair.sealed_privkey)
            + ser_bytes(pair.pubkey),
        ResponseView::PublicKey(key) => ser_u32(2) + ser_bytes(key),
        ResponseView::Signed(sig) => ser_u32(3) + ser_bytes(sig),
        ResponseView::Error(what) => ser_u32(4) + ser_bytes(encode_utf8(what)),
    }
}

/// Reads a response. The text of an error must be valid UTF-8.
pub open spec fn parse_response(s: Seq<u8>) -> Option<(ResponseView, Seq<u8>)> {
    match parse_u32(s) {
        None => None,
        Some((tag, s1)) => if tag == 0 {
            Some((ResponseView::Pong, s1))
        } else if tag == 1 {
            match parse_sealed_signer(s1) {
                None => None,
                Some((sealed_privkey, s2)) => match parse_bytes(s2) {
                    None => None,
                    Some((pubkey, s3)) => Some(
                        (ResponseView::KeyPair(KeyPairView { sealed_privkey, pubkey }), s3),
                    ),
                },
            }
        } else if tag == 2 {
            match parse_bytes(s1) {
                None => None,
                Some((key, s2)) => Some((ResponseView::PublicKey(key), s2)),
            }
        } else if tag == 3 {
            match parse_bytes(s1) {
                None => None,
                Some((sig, s2)) => Some((ResponseView::Signed(sig), s2)),
            }
        } else if tag == 4 {
            match parse_bytes(s1) {
                None => None,
                Some((text, s2)) => if valid_utf8(text) {
                    Some((ResponseView::Error(decode_utf8(text)), s2))
                } else {
                    None
                },
            }
        } else {
            None
        },
    }
}

/// A readable request that was written is read back, and what follows it is
/// untouched.
pub proof fn lemma_parse_request(v: RequestView, tail: Seq<u8>)
    requires
        v.readable(),
    ensures
        parse_request(ser_request(v) + tail) == Some((v, tail)),
{
    match v {
        RequestView::Ping => {
            lemma_parse_u32(0, tail);
        },
        RequestView::KeyGen => {
            lemma_parse_u32(1, tail);
        },
        RequestView::GetPublicKey(signer) => {
            let t1 = ser_sealed_signer(signer) + tail;
            lemma_parse_u32(2, t1);
            lemma_parse_sealed_signer(signer, tail);
            assert(ser_request(v) + tail =~= ser_u32(2) + t1);
        },
        RequestView::Import(seed) => {
            let t1 = ser_bytes(seed) + tail;
            lemma_parse_u32(3, t1);
            lemma_parse_bytes(seed, tail);
            assert(ser_request(v) + tail =~= ser_u32(3) + t1);
        },
        RequestView::Sign(signer, msg) => {
            let t2 = ser_bytes(msg) + tail;
            let t1 = ser_sealed_signer(signer) + t2;
            lemma_parse_u32(4, t1);
            lemma_parse_sealed_signer(signer, t2);
            lemma_parse_bytes(msg, tail);
            assert(ser_request(v) + tail =~= ser_u32(4) + t1);
        },
    }
}

/// A readable response that was written is read back, and what follows it is
/// untouched.
pub proof fn lemma_parse_response(v: ResponseView, tail: Seq<u8>)
    requires
        v.readable(),
    ensures
        parse_response(ser_response(v) + tail) == Some((v, tail)),
{
    match v {
        ResponseView::Pong => {
            lemma_parse_u32(0, tail);
        },
        ResponseView::KeyPair(pair) => {
            let t2 = ser_bytes(pair.pubkey) + tail;
            let t1 = ser_sealed_signer(pair.sealed_privkey) + t2;
            lemma_parse_u32(1, t1);
            lemma_parse_sealed_signer(pair.sealed_privkey, t2);
            lemma_parse_bytes(pair.pubkey, tail);
            assert(ser_response(v) + tail =~= ser_u32(1) + t1);
        },
        ResponseView::PublicKey(key) => {
            let t1 = ser_bytes(key) + tail;
            lemma_parse_u32(2, t1);
            lemma_parse_bytes(key, tail);
            assert(ser_response(v) + tail =~= ser_u32(2) + t1);
        },
        ResponseView::Signed(sig) => {
            let t1 = ser_bytes(sig) + tail;
            lemma_parse_u32(3, t1);
            lemma_parse_bytes(sig, tail);
            assert(ser_response(v) + tail =~= ser_u32(3) + t1);
        },
        ResponseView::Error(what) => {
            let text = encode_utf8(what);
            let t1 = ser_bytes(text) + tail;
            lemma_parse_u32(4, t1);
            lemma_parse_bytes(text, tail);
            vstd::utf8::encode_utf8_valid_utf8(what);
            vstd::utf8::encode_utf8_decode_utf8(what);
            assert(ser_response(v) + tail =~= ser_u32(4) + t1);
        },
    }
}

/// What was read as a request, written again, gives the bytes that were
/// read: only what a writer produces is accepted.
pub proof fn lemma_parse_request_canonical(s: Seq<u8>)
    requires
        parse_request(s) is Some,
    ensures
        ser_request(parse_request(s).unwrap().0) + parse_request(s).unwrap().1 == s,
{
    let (v, rest) = parse_request(s).unwrap();
    let (tag, s1) = parse_u32(s).unwrap();
    lemma_parse_u32_canonical(s);
    match v {
        RequestView::Ping => {},
        RequestView::KeyGen => {},
        RequestView::GetPublicKey(signer) => {
            lemma_parse_sealed_signer_canonical(s1);
            assert(ser_request(v) + rest =~= ser_u32(tag) + (ser_sealed_signer(signer) + rest));
        },
        RequestView::Import(seed) => {
            lemma_parse_bytes_canonical(s1);
            assert(ser_request(v) + rest =~= ser_u32(tag) + (ser_bytes(seed) + rest));
        },
        RequestView::Sign(signer, msg) => {
            let (_, s2) = parse_sealed_signer(s1).unwrap();
            lemma_parse_sealed_signer_canonical(s1);
            lemma_parse_bytes_canonical(s2);
            assert(ser_request(v) + rest =~= ser_u32(tag) + (ser_sealed_signer(signer) + (
            ser_bytes(msg) + rest)));
        },
    }
}

/// What was read as a response, written again, gives the bytes that were
/// read: only what a writer produces is accepted.
pub proof fn lemma_parse_response_canonical(s: Seq<u8>)
    requires
        parse_response(s) is Some,
    ensures
        ser_response(parse_response(s).unwrap().0) + parse_response(s).unwrap().1 == s,
{
    let (v, rest) = parse_response(s).unwrap();
    let (tag, s1) = parse_u32(s).unwrap();
    lemma_parse_u32_canonical(s);
    match v {
        ResponseView::Pong => {},
        ResponseView::KeyPair(pair) => {
            let (_, s2) = parse_sealed_signer(s1).unwrap();
            lemma_parse_sealed_signer_canonical(s1);
            lemma_parse_bytes_canonical(s2);
            assert(ser_response(v) + rest =~= ser_u32(tag) + (ser_sealed_signer(
                pair.sealed_privkey,
            ) + (ser_bytes(pair.pubkey) + rest)));
        },
        ResponseView::PublicKey(key) => {
            lemma_parse_bytes_canonical(s1);
            assert(ser_response(v) + rest =~= ser_u32(tag) + (ser_bytes(key) + rest));
        },
        ResponseView::Signed(sig) => {
            lemma_parse_bytes_canonical(s1);
            assert(ser_response(v) + rest =~= ser_u32(tag) + (ser_bytes(sig) + rest));
        },
        ResponseView::Error(what) => {
            let (text, _) = parse_bytes(s1).unwrap();
            lemma_parse_bytes_canonical(s1);
            vstd::utf8::decode_utf8_encode_utf8(text);
            assert(ser_response(v) + rest =~= ser_u32(tag) + (ser_bytes(text) + rest));
        },
    }
}

/// The number of bytes that a response takes on the wire, where its sealed
/// key has its fields in their sizes.
pub open spec fn response_len(v: ResponseView) -> nat {
    match v {
        ResponseView::Pong => 4,
        ResponseView::KeyPair(pair) => 4 + (8 + pair.sealed_privkey.sealed_seed.len() + 74 + 16)
            + (8 + pair.pubkey.len()),
        ResponseView::PublicKey(key) => 4 + 8 + key.len(),
        ResponseView::Signed(sig) => 4 + 8 + sig.len(),
        ResponseView::Error(what) => 4 + 8 + encode_utf8(what).len(),
    }
}

/// A response takes as many bytes on the wire as `response_len` says.
pub proof fn lemma_ser_response_len(v: ResponseView)
    requires
        v matches ResponseView::KeyPair(pair) ==> pair.sealed_privkey.seal_data.wf()
            && pair.sealed_privkey.label.len() == 16,
    ensures
        ser_response(v).len() == response_len(v),
{
    match v {
        ResponseView::Pong => {
            lemma_ser_u32(0);
        },
        ResponseView::KeyPair(pair) => {
            lemma_ser_u32(1);
            lemma_ser_sealed_signer_len(pair.sealed_privkey);
            lemma_ser_bytes_len(pair.pubkey);
        },
        ResponseView::PublicKey(key) => {
            lemma_ser_u32(2);
            lemma_ser_bytes_len(key);
        },
        ResponseView::Signed(sig) => {
            lemma_ser_u32(3);
            lemma_ser_bytes_len(sig);
        },
        ResponseView::Error(what) => {
            lemma_ser_u32(4);
            lemma_ser_bytes_len(encode_utf8(what));
        },
    }
}

/// What `encode` hands out for a payload: the payload itself, or the payload
/// behind its length.
pub open spec fn framed(payload: Seq<u8>, with_len_info: bool) -> Seq<u8> {
    if with_len_info {
        ser_bytes(payload)
    } else {
        payload
    }
}

/// Reads one frame: a `u64` length of at most `MAX_FRAME_LEN`, then that many
/// bytes.
pub open spec fn parse_frame(s: Seq<u8>) -> Option<(Seq<u8>, Seq<u8>)> {
    match parse_bytes(s) {
        Some((payload, rest)) => if payload.len() <= MAX_FRAME_LEN {
            Some((payload, rest))
        } else {
            None
        },
        None => None,
    }
}

/// A payload that fits a frame is read back from its frame, and what follows
/// the frame is untouched.
pub proof fn lemma_parse_frame(payload: Seq<u8>, tail: Seq<u8>)
    requires
        payload.len() <= MAX_FRAME_LEN,
    ensures
        parse_frame(framed(payload, true) + tail) == Some((payload, tail)),
{
    lemma_parse_bytes(payload, tail);
}

/// How `encode` ends on a value whose encoding is `payload`: with the framed
/// payload when it fits a frame, and with the error "encoded data too large"
/// when it does not.
pub open spec fn is_encode_result(payload: Seq<u8>, with_len_info: bool, r: Result<Vec<u8>, Error>)
    -> bool {
    match r {
        Ok(bytes) => payload.len() <= MAX_FRAME_LEN && bytes@ == framed(payload, with_len_info),
        Err(e) => payload.len() > MAX_FRAME_LEN && is_error(
            e,
            ErrorKind::Protocol,
            "encoded data too large"@,
        ),
    }
}

/// A value that has an encoding.
pub trait Encode: View {
    /// The encoding of a value.
    spec fn encoding(v: Self::V) -> Seq<u8>;

    /// Appends the encoding of the value.
    fn put(&self, out: &mut Vec<u8>)
        ensures
            final(out)@ == old(out)@ + Self::encoding(self@),
    ;

    /// The encoding of the value, behind its length if `with_len_info` is
    /// set. An encoding of more than `MAX_FRAME_LEN` bytes is refused.
    fn encode(&self, with_len_info: bool) -> (r: Result<Vec<u8>, Error>)
        ensures
            is_encode_result(Self::encoding(self@), with_len_info, r),
    {
        let mut data: Vec<u8> = Vec::new();
        self.put(&mut data);
        assert(data@ =~= Self::encoding(self@));
        if data.len() > MAX_FRAME_LEN {
            return Err(Error::protocol("encoded data too large"));
        }
        if with_len_info {
            let mut result: Vec<u8> = Vec::new();
            put_bytes(&mut result, data.as_slice());
            assert(result@ =~= ser_bytes(data@));
            Ok(result)
        } else {
            Ok(data)
        }
    }
}

/// A value that can be read from its encoding.
pub trait Decode: View + Sized {
    /// What a reader makes of `s`: the value in front and the bytes behind
    /// it, or nothing where `s` does not start with an encoding.
    spec fn parse(s: Seq<u8>) -> Option<(Self::V, Seq<u8>)>;

    /// Reads a value off the front of `bytes`.
    fn take(bytes: &[u8]) -> (r: Option<(Self, &[u8])>)
        ensures
            match r {
                Some((value, rest)) => Self::parse(bytes@) == Some((value@, rest@)),
                None => Self::parse(bytes@) is None,
            },
    ;

    /// Reads the value that `encoded` starts with. Bytes behind the value are
    /// ignored.
    fn decode(encoded: &[u8]) -> (r: Result<Self, Error>)
        ensures
            match r {
                Ok(value) => Self::parse(encoded@) matches Some((v, _)) && v == value@,
                Err(e) => Self::parse(encoded@) is None && is_error(
                    e,
                    ErrorKind::Protocol,
                    "deserialize failed"@,
                ),
            },
    {
        match Self::take(encoded) {
            Some((value, _)) => Ok(value),
            None => Err(Error::protocol("deserialize failed")),
        }
    }
}

/// Calls `String::from_utf8`.
///
/// Taken on trust: the bytes are accepted exactly when they are valid UTF-8,
/// and the text is then what they decode to.
#[verifier::external_body]
pub(crate) fn string_from_utf8(bytes: Vec<u8>) -> (r: Option<String>)
    ensures
        r is Some <==> valid_utf8(bytes@),
        r matches Some(text) ==> text@ == decode_utf8(bytes@),
{
    String::from_utf8(bytes).ok()
}

impl Request {
    /// Whether a reader accepts the encoding of this request.
    pub fn is_readable(&self) -> (b: bool)
        ensures
            b == self@.readable(),
    {
        match self {
            Request::Ping => true,
            Request::KeyGen => true,
            Request::GetPublicKey(signer) => signer.is_readable(),
            Request::Import(seed) => {
                let _ = seed.len();
                true
            },
            Request::Sign(pair) => {
                let _ = pair.1.len();
                pair.0.is_readable()
            },
        }
    }
}

impl Encode for Request {
    open spec fn encoding(v: RequestView) -> Seq<u8> {
        ser_request(v)
    }

    fn put(&self, out: &mut Vec<u8>) {
        match self {
            Request::Ping => {
                put_u32(out, 0);
            },
            Request::KeyGen => {
                put_u32(out, 1);
            },
            Request::GetPublicKey(signer) => {
                put_u32(out, 2);
                signer.put(out);
            },
            Request::Import(seed) => {
                put_u32(out, 3);
                put_bytes(out, seed.as_slice());
            },
            Request::Sign(pair) => {
                put_u32(out, 4);
                pair.0.put(out);
                put_bytes(out, pair.1.as_slice());
            },
        }
        assert(out@ =~= old(out)@ + ser_request(self@));
    }
}

impl Decode for Request {
    open spec fn parse(s: Seq<u8>) -> Option<(RequestView, Seq<u8>)> {
        parse_request(s)
    }

    fn take(bytes: &[u8]) -> (r: Option<(Request, &[u8])>) {
        let (tag, s1) = match take_u32(bytes) {
            Some(x) => x,
            None => return None,
        };
        if tag == 0 {
            Some((Request::Ping, s1))
        } else if tag == 1 {
            Some((Request::KeyGen, s1))
        } else if tag == 2 {
            match SealedSigner::take(s1) {
                Some((signer, s2)) => Some((Request::GetPublicKey(signer), s2)),
                None => None,
            }
        } else if tag == 3 {
            match take_bytes(s1) {
                Some((seed, s2)) => Some((Request::Import(to_vec(seed)), s2)),
                None => None,
            }
        } else if tag == 4 {
            let (signer, s2) = match SealedSigner::take(s1) {
                Some(x) => x,
                None => return None,
            };
            match take_bytes(s2) {
                Some((msg, s3)) => Some((Request::Sign((signer, to_vec(msg))), s3)),
                None => None,
            }
        } else {
            None
        }
    }
}

impl Response {
    /// Whether a reader accepts the encoding of this response.
    pub fn is_readable(&self) -> (b: bool)
        ensures
            b == self@.readable(),
    {
        match self {
            Response::Pong => true,
            Response::KeyPair(pair) => {
                let _ = pair.pubkey.len();
                pair.sealed_privkey.is_readable()
            },
            Response::PublicKey(key) => {
                let _ = key.len();
                true
            },
            Response::Signed(sig) => {
                let _ = sig.len();
                true
            },
            Response::Error(what) => {
                let _ = what.as_str().as_bytes().len();
                true
            },
        }
    }
}

impl Encode for Response {
    open spec fn encoding(v: ResponseView) -> Seq<u8> {
        ser_response(v)
    }

    fn put(&self, out: &mut Vec<u8>) {
        match self {
            Response::Pong => {
                put_u32(out, 0);
            },
            Response::KeyPair(pair) => {
                put_u32(out, 1);
                pair.sealed_privkey.put(out);
                put_bytes(out, pair.pubkey.as_slice());
            },
            Response::PublicKey(key) => {
                put_u32(out, 2);
                put_bytes(out, key.as_slice());
            },
            Response::Signed(sig) => {
                put_u32(out, 3);
                put_bytes(out, sig.as_slice());
            },
            Response::Error(what) => {
                put_u32(out, 4);
                put_bytes(out, what.as_str().as_bytes());
            },
        }
        assert(out@ =~= old(out)@ + ser_response(self@));
    }
}

impl Decode for Response {
    open spec fn parse(s: Seq<u8>) -> Option<(ResponseView, Seq<u8>)> {
        parse_response(s)
    }

    fn take(bytes: &[u8]) -> (r: Option<(Response, &[u8])>) {
        let (tag, s1) = match take_u32(bytes) {
            Some(x) => x,
            None => return None,
        };
        if tag == 0 {
            Some((Response::Pong, s1))
        } else if tag == 1 {
            let (sealed_privkey, s2) = match SealedSigner::take(s1) {
                Some(x) => x,
                None => return None,
            };
            match take_bytes(s2) {
                Some((pubkey, s3)) => Some(
                    (Response::KeyPair(KeyPair { sealed_privkey, pubkey: to_vec(pubkey) }), s3),
                ),
                None => None,
            }
        } else if tag == 2 {
            match take_bytes(s1) {
                Some((key, s2)) => Some((Response::PublicKey(to_vec(key)), s2)),
                None => None,
            }
        } else if tag == 3 {
            match take_bytes(s1) {
                Some((sig, s2)) => Some((Response::Signed(to_vec(sig)), s2)),
                None => None,
            }
        } else if tag == 4 {
            let (text, s2) = match take_bytes(s1) {
                Some(x) => x,
                None => return None,
            };
            match string_from_utf8(to_vec(text)) {
                Some(what) => Some((Response::Error(what), s2)),
                None => None,
            }
        } else {
            None
        }
    }
}

/// A byte stream held in memory: the bytes that were written to it and have
/// not been read yet, in the order in which they were written.
#[derive(Debug)]
pub struct ByteStream {
    pending: Vec<u8>,
}

impl View for ByteStream {
    type V = Seq<u8>;

    closed spec fn view(&self) -> Seq<u8> {
        self.pending@
    }
}

impl ByteStream {
    /// A stream with nothing to read.
    pub fn new() -> (stream: Self)
        ensures
            stream@ == Seq::<u8>::empty(),
    {
        ByteStream { pending: Vec::new() }
    }

    /// A stream from which `bytes` are to be read.
    pub fn from_vec(bytes: Vec<u8>) -> (stream: Self)
        ensures
            stream@ == bytes@,
    {
        ByteStream { pending: bytes }
    }

    /// The bytes that are left to read.
    pub fn into_vec(self) -> (bytes: Vec<u8>)
        ensures
            bytes@ == self@,
    {
        self.pending
    }

    /// The number of bytes that are left to read.
    pub fn len(&self) -> (n: usize)
        ensures
            n == self@.len(),
    {
        self.pending.len()
    }

    /// Writes `buf` behind what is in the stream, and says how many bytes
    /// were written.
    pub fn write(&mut self, buf: &[u8]) -> (n: usize)
        ensures
            final(self)@ == old(self)@ + buf@,
            n == buf@.len(),
    {
        put_slice(&mut self.pending, buf);
        buf.len()
    }

    /// Reads up to `n` bytes off the front of the stream.
    pub fn read(&mut self, n: usize) -> (out: Vec<u8>)
        ensures
            out@.len() == if n <= old(self)@.len() { n as nat } else { old(self)@.len() },
            out@ + final(self)@ == old(self)@,
    {
        let k = if n <= self.pending.len() {
            n
        } else {
            self.pending.len()
        };
        let (head, rest) = match take_fixed(self.pending.as_slice(), k) {
            Some(x) => x,
            None => {
                return Vec::new();
            },
        };
        let out = to_vec(head);
        let left = to_vec(rest);
        assert(out@ + left@ =~= self.pending@);
        self.pending = left;
        out
    }
}

/// Why `s` does not start with a frame, where it does not: the length is
/// not all there, it is beyond the bound, or the bytes that it announces are
/// not all there.
pub open spec fn frame_fault(s: Seq<u8>) -> Seq<char> {
    match parse_u64(s) {
        None => "incomplete length"@,
        Some((n, rest)) => if n > MAX_FRAME_LEN {
            "encoded data too large"@
        } else {
            "incomplete data"@
        },
    }
}

/// Whether `e` is the error that reading a frame off `s` ends in: the stop
/// signal on a stream that has ended, and otherwise the reason why `s` does
/// not start with a frame.
pub open spec fn is_frame_error(s: Seq<u8>, e: Error) -> bool {
    if s.len() == 0 {
        is_error(e, ErrorKind::Control, Seq::<char>::empty())
    } else {
        is_error(e, ErrorKind::Protocol, frame_fault(s))
    }
}

/// What the length in front of a frame says, given the bytes that a read of
/// eight bytes returned: the number of bytes that the frame carries. No bytes
/// at all mean that the stream has ended.
pub open spec fn is_frame_len(len_info: Seq<u8>, r: Result<usize, Error>) -> bool {
    match r {
        Ok(n) => parse_u64(len_info) matches Some((len, _)) && len == n && n <= MAX_FRAME_LEN,
        Err(e) => is_frame_error(len_info, e) && !(parse_u64(len_info) matches Some((len, _))
            && len <= MAX_FRAME_LEN),
    }
}

/// Reads the length in front of a frame and holds it to the bound.
pub fn frame_len(len_info: &[u8]) -> (r: Result<usize, Error>)
    ensures
        is_frame_len(len_info@, r),
{
    if len_info.len() == 0 {
        return Err(Error::stop());
    }
    let (data_len, _) = match take_u64(len_info) {
        Some(x) => x,
        None => {
            return Err(Error::protocol("incomplete length"));
        },
    };
    if data_len > MAX_FRAME_LEN as u64 {
        return Err(Error::protocol("encoded data too large"));
    }
    Ok(data_len as usize)
}

/// Reads one frame off the front of `data`: what it carries, and the bytes
/// behind it.
pub fn take_frame(data: &[u8]) -> (r: Result<(&[u8], &[u8]), Error>)
    ensures
        match r {
            Ok((payload, rest)) => parse_frame(data@) == Some((payload@, rest@)),
            Err(e) => parse_frame(data@) is None && is_frame_error(data@, e),
        },
{
    let data_len = frame_len(data)?;
    let (_, rest) = match take_fixed(data, LEN_INFO_LEN) {
        Some(x) => x,
        None => {
            return Err(Error::protocol("incomplete length"));
        },
    };
    match take_fixed(rest, data_len) {
        Some(x) => Ok(x),
        None => Err(Error::protocol("incomplete data")),
    }
}

/// Reads one frame off the stream and hands out what it carries. Where the
/// stream does not start with a frame, nothing is read.
pub fn get_data_from_stream(stream: &mut ByteStream) -> (r: Result<Vec<u8>, Error>)
    ensures
        match r {
            Ok(data) => parse_frame(old(stream)@) == Some((data@, final(stream)@)),
            Err(e) => parse_frame(old(stream)@) is None && final(stream)@ == old(stream)@
                && is_frame_error(old(stream)@, e),
        },
{
    let (data, left) = take_frame(stream.pending.as_slice())?;
    let data = to_vec(data);
    let left = to_vec(left);
    stream.pending = left;
    Ok(data)
}

/// Writes `data` to the stream, behind its length if `with_len_info` is set,
/// and says how many bytes were written. With a length in front, data that
/// does not fit a frame is refused and nothing is written.
pub fn send_data_to_stream(stream: &mut ByteStream, data: &[u8], with_len_info: bool) -> (r: Result<
    usize,
    Error,
>)
    ensures
        match r {
            Ok(n) => (with_len_info ==> data@.len() <= MAX_FRAME_LEN) && final(stream)@ == old(
                stream,
            )@ + framed(data@, with_len_info) && n == framed(data@, with_len_info).len(),
            Err(e) => with_len_info && data@.len() > MAX_FRAME_LEN && final(stream)@ == old(
                stream,
            )@ && is_error(e, ErrorKind::Protocol, "encoded data too large"@),
        },
{
    if with_len_info {
        if data.len() > MAX_FRAME_LEN {
            return Err(Error::protocol("encoded data too large"));
        }
        proof {
            lemma_parse_bytes(data@, Seq::<u8>::empty());
        }
        put_bytes(&mut stream.pending, data);
        Ok(LEN_INFO_LEN + data.len())
    } else {
        let n = stream.write(data);
        Ok(n)
    }
}

/// A request that fits a frame and is sent with its length arrives: the
/// frame read off the stream carries an encoding that is read as the request,
/// and what was behind the frame is still in the stream.
pub proof fn lemma_request_crosses_stream(v: RequestView, tail: Seq<u8>)
    requires
        v.readable(),
        ser_request(v).len() <= MAX_FRAME_LEN,
    ensures
        parse_frame(framed(ser_request(v), true) + tail) == Some((ser_request(v), tail)),
        parse_request(ser_request(v)) == Some((v, Seq::<u8>::empty())),
{
    lemma_parse_frame(ser_request(v), tail);
    lemma_parse_request(v, Seq::<u8>::empty());
    assert(ser_request(v) + Seq::<u8>::empty() =~= ser_request(v));
}

/// A response that fits a frame and is sent with its length arrives: the
/// frame read off the stream carries an encoding that is read as the
/// response, and what was behind the frame is still in the stream.
pub proof fn lemma_response_crosses_stream(v: ResponseView, tail: Seq<u8>)
    requires
        v.readable(),
        ser_response(v).len() <= MAX_FRAME_LEN,
    ensures
        parse_frame(framed(ser_response(v), true) + tail) == Some((ser_response(v), tail)),
        parse_response(ser_response(v)) == Some((v, Seq::<u8>::empty())),
{
    lemma_parse_frame(ser_response(v), tail);
    lemma_parse_response(v, Seq::<u8>::empty());
    assert(ser_response(v) + Seq::<u8>::empty() =~= ser_response(v));
}

} // verus!
