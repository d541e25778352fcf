//! The client's side: it keeps the sealed key in a file, builds the requests
//! that use it, and reads what the enclave answers.
//!
//! Each call of the client is an exchange with the host: a request goes out,
//! a response comes back. The functions here build the one and read the
//! other; the exchange itself is the caller's.

use crate::base64::{
    base64_bytes, base64_text, decode, encode, is_base64_char, last_group,
    lemma_base64_text_is_utf8, padded_at_end, BASE64_MAX, BASE64_TEXT_MAX, PAD,
};
use crate::error::{is_error, shown_kind, shown_what, Error, ErrorKind};
use crate::key_files::KeyFiles;
use crate::protocol::{
    frame_fault, is_encode_result, parse_frame, parse_response, string_from_utf8, take_frame,
    Decode, Encode, KeyPair, KeyPairView, KeyType, Request, RequestView, Response, ResponseView,
    MAX_FRAME_LEN,
};
use crate::seal_signer::{
    lemma_parse_sealed_signer, parse_sealed_signer, ser_sealed_signer, SealedSigner,
    SealedSignerView,
};
use crate::wire::{to_vec, view_opt};
use vstd::prelude::*;
use vstd::slice::slice_subrange;
use vstd::utf8::{decode_utf8, encode_utf8};

verus! {

/// Whether a byte is white space: a blank, a tab, a line feed, a vertical
/// tab, a form feed or a carriage return.
pub open spec fn is_space(c: u8) -> bool {
    c == 0x20 || (0x09 <= c <= 0x0d)
}

/// `text` without the white space at its end.
pub open spec fn trim_end(text: Seq<u8>) -> Seq<u8>
    decreases text.len(),
{
    if text.len() > 0 && is_space(text.last()) {
        trim_end(text.drop_last())
    } else {
        text
    }
}

/// The bytes that a Base64 text stands for, as the library reads it: a text
/// that is too long, or that holds padding where none belongs, stands for
/// nothing.
pub open spec fn text_bytes(text: Seq<u8>) -> Option<Seq<u8>> {
    if text.len() <= BASE64_TEXT_MAX && padded_at_end(text) {
        base64_bytes(text)
    } else {
        None
    }
}

/// The bytes that the content of a file stands for: white space at the end
/// of the file is not part of the text.
pub open spec fn file_bytes(content: Seq<u8>) -> Option<Seq<u8>> {
    text_bytes(trim_end(content))
}

/// Cuts the white space off the end of `text`.
fn trimmed(text: &[u8]) -> (t: &[u8])
    ensures
        t@ == trim_end(text@),
{
    let mut end = text.len();
    assert(text@.subrange(0, end as int) =~= text@);
    while end > 0 && is_space_byte(text[end - 1])
        invariant
            end <= text@.len(),
            trim_end(text@) == trim_end(text@.subrange(0, end as int)),
        decreases end,
    {
        assert(text@.subrange(0, end as int).drop_last() =~= text@.subrange(0, end - 1));
        end -= 1;
    }
    slice_subrange(text, 0, end)
}

/// Whether a byte is white space.
fn is_space_byte(c: u8) -> (b: bool)
    ensures
        b == is_space(c),
{
    c == 0x20 || (0x09 <= c && c <= 0x0d)
}

/// Decodes a Base64 text.
fn decode_text(text: &[u8]) -> (r: Option<Vec<u8>>)
    ensures
        view_opt(r) == text_bytes(text@),
{
    if text.len() > BASE64_TEXT_MAX {
        return None;
    }
    if text.len() > 0 {
        let start = 4 * ((text.len() - 1) / 4);
        if text[start] == PAD {
            return None;
        }
        let mut padding: Option<usize> = None;
        let mut k = start;
        while k < text.len()
            invariant
                start == last_group(text@.len()),
                start <= k <= text@.len(),
                padding matches Some(j) ==> start <= j < k && text@[j as int] == PAD,
                padding is None ==> forall|j: int| start <= j < k ==> text@[j] != PAD,
                forall|j: int, i: int| start <= j < i < k && text@[j] == PAD ==> text@[i] == PAD,
            decreases text@.len() - k,
        {
            if text[k] == PAD {
                padding = Some(k);
            } else if padding.is_some() {
                return None;
            }
            k += 1;
        }
    }
    decode(text)
}

/// Writes `data` to the file at `file_path`, as Base64 text. The file is
/// created if it does not exist and replaced if it does. What is written
/// stands for `data` when it is read again.
pub fn store_data_to_file(files: &mut KeyFiles, data: &[u8], file_path: &str) -> (r: Result<
    (),
    Error,
>)
    ensures
        match r {
            Ok(()) => data@.len() <= BASE64_MAX && final(files)@ == old(files)@.insert(
                file_path@,
                base64_text(data@),
            ) && file_bytes(base64_text(data@)) == Some(data@),
            Err(e) => data@.len() > BASE64_MAX && final(files)@ == old(files)@ && is_error(
                e,
                ErrorKind::Policy,
                "encode to file failed"@,
            ),
        },
{
    if data.len() > BASE64_MAX {
        return Err(Error::policy("encode to file failed"));
    }
    let text = encode(data);
    proof {
        lemma_trim_end_of_text(text@);
    }
    files.write(file_path, text);
    Ok(())
}

/// A text that does not end in white space is its own trimmed form.
proof fn lemma_trim_end_of_text(text: Seq<u8>)
    requires
        forall|i: int| 0 <= i < text.len() ==> is_base64_char(#[trigger] text[i]),
    ensures
        trim_end(text) == text,
{
    if text.len() > 0 {
        assert(is_base64_char(text[text.len() - 1]));
    }
}

/// Reads the bytes that the file at `file_path` holds as Base64 text. White
/// space at the end of the file is ignored.
pub fn get_data_from_file(files: &KeyFiles, file_path: &str) -> (r: Result<Vec<u8>, Error>)
    ensures
        match r {
            Ok(data) => stored_bytes(files@, file_path@) == Some(data@),
            Err(e) => stored_bytes(files@, file_path@) is None && is_stored_bytes_error(
                files@,
                file_path@,
                e,
            ),
        },
{
    let content = match files.read(file_path) {
        Some(content) => content,
        None => {
            return Err(Error::transport("read from file failed"));
        },
    };
    match decode_text(trimmed(content.as_slice())) {
        Some(data) => Ok(data),
        None => Err(Error::policy("decode from file failed")),
    }
}

/// The Base64 text of `raw_data`. Up to `BASE64_MAX` bytes are always
/// encoded; more are refused.
pub fn encode_to_string(raw_data: &[u8]) -> (r: Result<String, Error>)
    ensures
        match r {
            Ok(text) => raw_data@.len() <= BASE64_MAX && text@ == decode_utf8(
                base64_text(raw_data@),
            ) && encode_utf8(text@) == base64_text(raw_data@),
            Err(e) => raw_data@.len() > BASE64_MAX && is_error(
                e,
                ErrorKind::Policy,
                "encode data to string failed"@,
            ),
        },
{
    if raw_data.len() > BASE64_MAX {
        return Err(Error::policy("encode data to string failed"));
    }
    let bytes = encode(raw_data);
    proof {
        lemma_base64_text_is_utf8(bytes@);
        vstd::utf8::decode_utf8_encode_utf8(bytes@);
    }
    match string_from_utf8(bytes) {
        Some(text) => Ok(text),
        None => Err(Error::policy("encode data to string failed")),
    }
}

/// The content of the file at `path`, read as a Base64 text.
pub open spec fn stored_bytes(files: Map<Seq<char>, Seq<u8>>, path: Seq<char>) -> Option<Seq<u8>> {
    if files.contains_key(path) {
        file_bytes(files[path])
    } else {
        None
    }
}

/// The sealed key that the file at `path` holds.
pub open spec fn stored_signer(files: Map<Seq<char>, Seq<u8>>, path: Seq<char>) -> Option<
    SealedSignerView,
> {
    match stored_bytes(files, path) {
        Some(blob) => match parse_sealed_signer(blob) {
            Some((signer, _)) => Some(signer),
            None => None,
        },
        None => None,
    }
}

/// Whether `e` is the error that reading the file at `path` ends in, where
/// it fails: the file is missing, or it holds no Base64 text.
pub open spec fn is_stored_bytes_error(
    files: Map<Seq<char>, Seq<u8>>,
    path: Seq<char>,
    e: Error,
) -> bool {
    if files.contains_key(path) {
        is_error(e, ErrorKind::Policy, "decode from file failed"@)
    } else {
        is_error(e, ErrorKind::Transport, "read from file failed"@)
    }
}

/// Whether `e` is the error that reading the sealed key in the file at `path`
/// ends in, where it fails: the file cannot be read, or what it holds stands
/// for no sealed key.
pub open spec fn is_stored_signer_error(
    files: Map<Seq<char>, Seq<u8>>,
    path: Seq<char>,
    e: Error,
) -> bool {
    if stored_bytes(files, path) is None {
        is_stored_bytes_error(files, path, e)
    } else {
        is_error(e, ErrorKind::Protocol, "deserialize failed"@)
    }
}

/// Why a key pair is not stored in the file at `path`, where it is not: the
/// file exists, and a key on disk is never replaced; or the sealed key or the
/// public key cannot be written.
pub open spec fn store_key_fault(
    files: Map<Seq<char>, Seq<u8>>,
    path: Seq<char>,
    key_pair: KeyPairView,
) -> Option<(ErrorKind, Seq<char>)> {
    if files.contains_key(path) {
        Some((ErrorKind::Policy, "secret key path already exist"@))
    } else if ser_sealed_signer(key_pair.sealed_privkey).len() > MAX_FRAME_LEN {
        Some((ErrorKind::Protocol, "encoded data too large"@))
    } else if key_pair.pubkey.len() > BASE64_MAX {
        Some((ErrorKind::Policy, "encode data to string failed"@))
    } else {
        None
    }
}

/// Whether `e` is the error that the enclave reported in `text`.
pub open spec fn is_reported(e: Error, text: Seq<char>) -> bool {
    is_error(e, shown_kind(text), shown_what(text))
}

/// The response that the frame `data` carries.
pub open spec fn received(data: Seq<u8>) -> Option<ResponseView> {
    match parse_frame(data) {
        Some((body, _)) => match parse_response(body) {
            Some((response, _)) => Some(response),
            None => None,
        },
        None => None,
    }
}

/// Why `data` carries no response, where it carries none: it does not start
/// with a frame, or what the frame carries is no response.
pub open spec fn received_fault(data: Seq<u8>) -> Seq<char> {
    if parse_frame(data) is None {
        frame_fault(data)
    } else {
        "deserialize failed"@
    }
}

/// The error that the enclave reported in `text`.
fn reported(text: String) -> (e: Error)
    ensures
        is_reported(e, text@),
{
    Error::from_shown(text.as_str())
}

/// The client of the signing service. It knows where the sealed key is kept.
#[derive(Debug)]
pub struct SgxSigner {
    sealed_signer_path: String,
}

impl SgxSigner {
    /// A client that keeps its sealed key at `sealed_signer_path`.
    pub fn new(sealed_signer_path: &str) -> (signer: Self)
        ensures
            signer.path() == sealed_signer_path@,
    {
        SgxSigner { sealed_signer_path: String::from_str(sealed_signer_path) }
    }

    /// Where the sealed key is kept.
    pub closed spec fn path(&self) -> Seq<char> {
        self.sealed_signer_path@
    }

    /// Where the sealed key is kept.
    pub fn sealed_signer_path(&self) -> (path: &str)
        ensures
            path@ == self.path(),
    {
        self.sealed_signer_path.as_str()
    }

    /// A request as it is sent to the host: its encoding behind its length.
    pub fn send(request: &Request) -> (r: Result<Vec<u8>, Error>)
        ensures
            is_encode_result(crate::protocol::ser_request(request@), true, r),
    {
        request.encode(true)
    }

    /// The response that the host sent: what the frame `data` carries, read
    /// as a response. The frame is held to the bound.
    pub fn receive(data: &[u8]) -> (r: Result<Response, Error>)
        ensures
            match r {
                Ok(response) => received(data@) == Some(response@),
                Err(e) => received(data@) is None && is_error(
                    e,
                    ErrorKind::Protocol,
                    received_fault(data@),
                ),
            },
    {
        if data.len() == 0 {
            return Err(Error::protocol("incomplete length"));
        }
        let (body, _) = take_frame(data)?;
        Response::decode(body)
    }

    /// Keeps the sealed private key of `key_pair` in the file of this
    /// client, and hands out the public key as Base64 text.
    ///
    /// A key that is already there is never replaced: if the file exists,
    /// the call fails and the file is left as it is. To replace a key, the
    /// file has to be removed first.
    pub fn store_key(&self, files: &mut KeyFiles, key_pair: &KeyPair) -> (r: Result<String, Error>)
        ensures
            match store_key_fault(old(files)@, self.path(), key_pair@) {
                Some((kind, what)) => r matches Err(e) && is_error(e, kind, what) && final(files)@
                    == old(files)@,
                None => {
                    let blob = ser_sealed_signer(key_pair@.sealed_privkey);
                    &&& r matches Ok(text) && text@ == decode_utf8(
                        base64_text(key_pair@.pubkey),
                    ) && encode_utf8(text@) == base64_text(key_pair@.pubkey)
                    &&& final(files)@ == old(files)@.insert(self.path(), base64_text(blob))
                    &&& stored_bytes(final(files)@, self.path()) == Some(blob)
                    &&& key_pair@.sealed_privkey.readable() ==> stored_signer(
                        final(files)@,
                        self.path(),
                    ) == Some(key_pair@.sealed_privkey)
                },
            },
    {
        // An existing key is never overwritten.
        if files.contains(self.sealed_signer_path.as_str()) {
            return Err(Error::policy("secret key path already exist"));
        }
        let secret_raw_data = key_pair.sealed_privkey.encode(false)?;
        let pubkey_str = encode_to_string(key_pair.pubkey.as_slice())?;
        store_data_to_file(files, secret_raw_data.as_slice(), self.sealed_signer_path.as_str())?;
        proof {
            let signer = key_pair@.sealed_privkey;
            if signer.readable() {
                lemma_parse_sealed_signer(signer, Seq::<u8>::empty());
                assert(ser_sealed_signer(signer) + Seq::<u8>::empty() =~= ser_sealed_signer(
                    signer,
                ));
            }
        }
        Ok(pubkey_str)
    }

    /// The sealed key that the file of this client holds.
    pub fn get_sealed_signer(&self, files: &KeyFiles) -> (r: Result<SealedSigner, Error>)
        ensures
            match r {
                Ok(signer) => stored_signer(files@, self.path()) == Some(signer@),
                Err(e) => stored_signer(files@, self.path()) is None && is_stored_signer_error(
                    files@,
                    self.path(),
                    e,
                ),
            },
    {
        let sgx_secret_raw = get_data_from_file(files, self.sealed_signer_path.as_str())?;
        let signer = SealedSigner::decode(sgx_secret_raw.as_slice())?;
        Ok(signer)
    }

    /// What the answer to `Ping` means: `Pong` is success.
    pub fn ping(response: Response) -> (r: Result<(), Error>)
        ensures
            match response@ {
                ResponseView::Pong => r is Ok,
                ResponseView::Error(what) => r matches Err(e) && is_reported(e, what),
                _ => r matches Err(e) && is_error(e, ErrorKind::Protocol, "response invalid"@),
            },
    {
        match response {
            Response::Pong => Ok(()),
            Response::Error(s) => Err(reported(s)),
            _ => Err(Error::protocol("response invalid")),
        }
    }

    /// What the answer to `KeyGen` means: a key pair is success.
    pub fn keygen(response: Response) -> (r: Result<KeyPair, Error>)
        ensures
            match response@ {
                ResponseView::KeyPair(pair) => r matches Ok(key_pair) && key_pair@ == pair,
                ResponseView::Error(what) => r matches Err(e) && is_reported(e, what),
                _ => r matches Err(e) && is_error(
                    e,
                    ErrorKind::Protocol,
                    "error kind of response"@,
                ),
            },
    {
        match response {
            Response::Error(s) => Err(reported(s)),
            Response::KeyPair(keypair) => Ok(keypair),
            _ => Err(Error::protocol("error kind of response")),
        }
    }

    /// The request that imports the secret key written in `key_str`.
    pub fn import_request(key_type: KeyType, key_str: &str) -> (r: Result<Request, Error>)
        ensures
            match r {
                Ok(request) => request@ matches RequestView::Import(raw) && text_bytes(
                    encode_utf8(key_str@),
                ) == Some(raw),
                Err(e) => text_bytes(encode_utf8(key_str@)) is None && is_error(
                    e,
                    ErrorKind::Policy,
                    "invalid key"@,
                ),
            },
    {
        let key_pair_raw = match key_type {
            KeyType::Base64 => {
                match decode_text(key_str.as_bytes()) {
                    Some(raw) => raw,
                    None => {
                        return Err(Error::policy("invalid key"));
                    },
                }
            },
        };
        Ok(Request::Import(key_pair_raw))
    }

    /// What the answer to `Import` means: a key pair is success.
    pub fn import(response: Response) -> (r: Result<KeyPair, Error>)
        ensures
            match response@ {
                ResponseView::KeyPair(pair) => r matches Ok(key_pair) && key_pair@ == pair,
                ResponseView::Error(what) => r matches Err(e) && is_reported(e, what),
                _ => r matches Err(e) && is_error(
                    e,
                    ErrorKind::Protocol,
                    "error kind of response"@,
                ),
            },
    {
        Self::keygen(response)
    }

    /// The request for the public key of the sealed key in this client's
    /// file.
    pub fn get_pubkey_request(&self, files: &KeyFiles) -> (r: Result<Request, Error>)
        ensures
            match r {
                Ok(request) => stored_signer(files@, self.path()) matches Some(v) && request@
                    == RequestView::GetPublicKey(v),
                Err(e) => stored_signer(files@, self.path()) is None && is_stored_signer_error(
                    files@,
                    self.path(),
                    e,
                ),
            },
    {
        let sealed_signer = self.get_sealed_signer(files)?;
        Ok(Request::GetPublicKey(sealed_signer))
    }

    /// What the answer to `GetPublicKey` means: a public key is success.
    pub fn get_pubkey(response: Response) -> (r: Result<Vec<u8>, Error>)
        ensures
            match response@ {
                ResponseView::PublicKey(key) => r matches Ok(pubkey_raw) && pubkey_raw@ == key,
                ResponseView::Error(what) => r matches Err(e) && is_reported(e, what),
                _ => r matches Err(e) && is_error(e, ErrorKind::Protocol, "response error"@),
            },
    {
        match response {
            Response::PublicKey(pubkey_raw) => Ok(pubkey_raw),
            Response::Error(s) => Err(reported(s)),
            _ => Err(Error::protocol("response error")),
        }
    }

    /// The request that has `msg` signed with the sealed key in this client's
    /// file.
    pub fn sign_msg_request(&self, files: &KeyFiles, msg: &[u8]) -> (r: Result<Request, Error>)
        ensures
            match r {
                Ok(request) => stored_signer(files@, self.path()) matches Some(v) && request@
                    == RequestView::Sign(v, msg@),
                Err(e) => stored_signer(files@, self.path()) is None && is_stored_signer_error(
                    files@,
                    self.path(),
                    e,
                ),
            },
    {
        let sealed_signer = self.get_sealed_signer(files)?;
        Ok(Request::Sign((sealed_signer, to_vec(msg))))
    }

    /// What the answer to `Sign` means: a signature is success.
    pub fn sign_msg(response: Response) -> (r: Result<Vec<u8>, Error>)
        ensures
            match response@ {
                ResponseView::Signed(sig) => r matches Ok(data) && data@ == sig,
                ResponseView::Error(what) => r matches Err(e) && is_reported(e, what),
                _ => r matches Err(e) && is_error(e, ErrorKind::Protocol, "response error"@),
            },
    {
        match response {
            Response::Signed(data) => Ok(data),
            Response::Error(s) => Err(reported(s)),
            _ => Err(Error::protocol("response error")),
        }
    }
}

} // verus!
