use signatory_sgx::error::{Error, ErrorKind};
use signatory_sgx::key_files::KeyFiles;
use signatory_sgx::protocol::{Decode, Encode, KeyPair, KeyType, Request, Response};
use signatory_sgx::provider::{
    encode_to_string, get_data_from_file, store_data_to_file, SgxSigner,
};
use signatory_sgx::seal_data::{EgetKey, EnclaveReport, Label, SealData};
use signatory_sgx::seal_signer::SealedSigner;
use subtle_encoding::Encoding;

fn sample_signer() -> (SealedSigner, EgetKey) {
    let report = EnclaveReport {
        isvsvn: 1,
        cpusvn: [0u8; 16],
        attributes: [1u8; 16],
        miscselect: 0,
    };
    let label: Label = [6; 16];
    let key: EgetKey = [8; 16];
    let seal_data = SealData::from_report(&report, [1; 16], [2; 12]);
    (SealedSigner::new(&[3u8; 32], label, &key, seal_data).unwrap(), key)
}

fn sample_key_pair() -> KeyPair {
    let (sealed_privkey, key) = sample_signer();
    let pubkey = sealed_privkey.get_public_key(&key).unwrap();
    KeyPair { sealed_privkey, pubkey }
}

#[test]
fn test_store_file() {
    let mut files = KeyFiles::new();
    let a = b"hello world";
    store_data_to_file(&mut files, a, "/tmp/a.txt").unwrap();
    let b = get_data_from_file(&files, "/tmp/a.txt").unwrap();
    assert_eq!(a.to_vec(), b);
}

#[test]
fn a_stored_file_holds_base64_text() {
    let mut files = KeyFiles::new();
    store_data_to_file(&mut files, b"hello world", "/tmp/a.txt").unwrap();
    assert_eq!(files.read("/tmp/a.txt").unwrap(), b"aGVsbG8gd29ybGQ=".to_vec());
    assert!(files.contains("/tmp/a.txt"));
    assert!(!files.contains("/tmp/b.txt"));
    assert!(files.read("/tmp/b.txt").is_none());
}

#[test]
fn storing_again_replaces_the_file() {
    let mut files = KeyFiles::new();
    store_data_to_file(&mut files, b"one", "k").unwrap();
    store_data_to_file(&mut files, b"other", "other").unwrap();
    store_data_to_file(&mut files, b"two", "k").unwrap();
    assert_eq!(get_data_from_file(&files, "k").unwrap(), b"two".to_vec());
    assert_eq!(get_data_from_file(&files, "other").unwrap(), b"other".to_vec());
}

#[test]
fn white_space_at_the_end_of_a_file_is_ignored() {
    let mut files = KeyFiles::new();
    files.write("k", b"aGVsbG8gd29ybGQ=\r\n \t\n".to_vec());
    assert_eq!(get_data_from_file(&files, "k").unwrap(), b"hello world".to_vec());
    files.write("empty", b"\n".to_vec());
    assert_eq!(get_data_from_file(&files, "empty").unwrap(), Vec::<u8>::new());
}

#[test]
fn a_missing_or_malformed_file_gives_an_error() {
    let mut files = KeyFiles::new();
    let e = get_data_from_file(&files, "nowhere").unwrap_err();
    assert_eq!(e, Error::new(ErrorKind::Transport, "read from file failed"));
    files.write("bad", b"not base64!".to_vec());
    let e = get_data_from_file(&files, "bad").unwrap_err();
    assert_eq!(e, Error::new(ErrorKind::Policy, "decode from file failed"));
    // white space inside the text is not tolerated
    files.write("inner", b"aGVs bG8=".to_vec());
    assert!(get_data_from_file(&files, "inner").is_err());
    // a last group that begins with padding is refused before it is decoded
    for text in [&b"="[..], &b"=="[..], &b"===="[..], &b"AAAA="[..], &b"AAAA===="[..]] {
        files.write("pad", text.to_vec());
        assert!(get_data_from_file(&files, "pad").is_err());
    }
}

#[test]
fn encode_to_string_gives_base64() {
    assert_eq!(encode_to_string(b"").unwrap(), "");
    assert_eq!(encode_to_string(&[0u8, 0, 0]).unwrap(), "AAAA");
    assert_eq!(encode_to_string(b"\0").unwrap(), "AA==");
    assert_eq!(encode_to_string(b"***").unwrap(), "Kioq");
    assert_eq!(encode_to_string(&[1, 2, 3, 4]).unwrap(), "AQIDBA==");
    assert_eq!(encode_to_string(&[0xff; 5]).unwrap(), "//////8=");
    assert_eq!(encode_to_string(b"hello world").unwrap(), "aGVsbG8gd29ybGQ=");
}

#[test]
fn store_key_writes_the_sealed_key_and_gives_the_public_key() {
    let mut files = KeyFiles::new();
    let signer = SgxSigner::new("secret_key");
    assert_eq!(signer.sealed_signer_path(), "secret_key");
    let key_pair = sample_key_pair();
    let pubkey_str = signer.store_key(&mut files, &key_pair).unwrap();
    assert_eq!(pubkey_str, encode_to_string(&key_pair.pubkey).unwrap());
    let stored = get_data_from_file(&files, "secret_key").unwrap();
    assert_eq!(stored, key_pair.sealed_privkey.encode(false).unwrap());
    assert_eq!(signer.get_sealed_signer(&files).unwrap(), key_pair.sealed_privkey);
}

#[test]
fn store_key_never_overwrites() {
    let mut files = KeyFiles::new();
    files.write("secret_key", b"arbitrary bytes".to_vec());
    let signer = SgxSigner::new("secret_key");
    let e = signer.store_key(&mut files, &sample_key_pair()).unwrap_err();
    assert_eq!(e.what, "secret key path already exist");
    assert_eq!(e.kind, ErrorKind::Policy);
    assert_eq!(files.read("secret_key").unwrap(), b"arbitrary bytes".to_vec());
    // a second store after a first one fails as well
    let mut files = KeyFiles::new();
    signer.store_key(&mut files, &sample_key_pair()).unwrap();
    let before = files.read("secret_key").unwrap();
    assert!(signer.store_key(&mut files, &sample_key_pair()).is_err());
    assert_eq!(files.read("secret_key").unwrap(), before);
}

#[test]
fn get_sealed_signer_tells_why_there_is_none() {
    let mut files = KeyFiles::new();
    let signer = SgxSigner::new("secret_key");
    assert_eq!(signer.get_sealed_signer(&files).unwrap_err().what, "read from file failed");
    files.write("secret_key", b"????".to_vec());
    assert_eq!(
        signer.get_sealed_signer(&files).unwrap_err(),
        Error::new(ErrorKind::Policy, "decode from file failed")
    );
    let mut files = KeyFiles::new();
    store_data_to_file(&mut files, b"no signer", "secret_key").unwrap();
    assert_eq!(signer.get_sealed_signer(&files).unwrap_err().what, "deserialize failed");
    assert!(signer.get_pubkey_request(&files).is_err());
    assert!(signer.sign_msg_request(&files, b"m").is_err());
}

#[test]
fn requests_carry_the_stored_signer() {
    let mut files = KeyFiles::new();
    let signer = SgxSigner::new("secret_key");
    let key_pair = sample_key_pair();
    signer.store_key(&mut files, &key_pair).unwrap();
    match signer.get_pubkey_request(&files).unwrap() {
        Request::GetPublicKey(s) => assert_eq!(s, key_pair.sealed_privkey),
        other => panic!("unexpected request {:?}", other),
    }
    match signer.sign_msg_request(&files, b"hello world").unwrap() {
        Request::Sign((s, msg)) => {
            assert_eq!(s, key_pair.sealed_privkey);
            assert_eq!(msg, b"hello world".to_vec());
        }
        other => panic!("unexpected request {:?}", other),
    }
}

#[test]
fn import_request_decodes_the_key() {
    let text = encode_to_string(&[7u8; 32]).unwrap();
    match SgxSigner::import_request(KeyType::Base64, &text).unwrap() {
        Request::Import(raw) => assert_eq!(raw, vec![7u8; 32]),
        other => panic!("unexpected request {:?}", other),
    }
    match SgxSigner::import_request(KeyType::Base64, "aGVsbG8gd29ybGQ=").unwrap() {
        Request::Import(raw) => assert_eq!(raw, b"hello world".to_vec()),
        other => panic!("unexpected request {:?}", other),
    }
}

#[test]
fn import_request_refuses_what_is_no_base64() {
    for text in ["not base64!", "aGVsbG8=\n", "=", "====", "AAAA=", "A", "AA=A", "A=AA", "QUJD=QUI"] {
        let e = SgxSigner::import_request(KeyType::Base64, text).unwrap_err();
        assert_eq!(e, Error::new(ErrorKind::Policy, "invalid key"));
    }
}

#[test]
fn send_frames_the_request() {
    let framed = SgxSigner::send(&Request::Ping).unwrap();
    assert_eq!(framed, vec![4, 0, 0, 0, 0, 0, 0, 0, 0, 0, 0, 0]);
    let framed = SgxSigner::send(&Request::KeyGen).unwrap();
    assert_eq!(framed, vec![4, 0, 0, 0, 0, 0, 0, 0, 1, 0, 0, 0]);
}

#[test]
fn send_refuses_a_request_that_is_too_large() {
    let (sealed, _) = sample_signer();
    let request = Request::Sign((sealed, vec![0u8; 70 * 1024]));
    let e = SgxSigner::send(&request).unwrap_err();
    assert_eq!(e.what, "encoded data too large");
}

#[test]
fn receive_reads_behind_the_length() {
    let data = Response::Pong.encode(true).unwrap();
    assert!(matches!(SgxSigner::receive(&data).unwrap(), Response::Pong));
    let data = Response::Signed(vec![1, 2, 3]).encode(true).unwrap();
    match SgxSigner::receive(&data).unwrap() {
        Response::Signed(sig) => assert_eq!(sig, vec![1, 2, 3]),
        other => panic!("unexpected response {:?}", other),
    }
    for (data, what) in [
        (&[][..], "incomplete length"),
        (&[0u8; 7][..], "incomplete length"),
        (&[0u8; 8][..], "deserialize failed"),
        (&[0, 0, 0, 0, 0, 0, 0, 0, 9, 0, 0, 0][..], "deserialize failed"),
        (&[4, 0, 0, 0, 0, 0, 0, 0, 9, 0, 0, 0][..], "deserialize failed"),
        (&[5, 0, 0, 0, 0, 0, 0, 0, 0, 0, 0, 0][..], "incomplete data"),
        (&[1, 0xf0, 0, 0, 0, 0, 0, 0, 0, 0, 0, 0][..], "encoded data too large"),
    ] {
        let e = SgxSigner::receive(data).unwrap_err();
        assert_eq!(e, Error::new(ErrorKind::Protocol, what));
    }
}

#[test]
fn no_text_makes_the_decoder_fault() {
    // every text of up to six characters over padding, letters, white space
    // and bytes that belong to no encoding is either decoded or refused
    let alphabet = [b'A', b'=', b' ', b'!', 0x85, b'/'];
    let mut files = KeyFiles::new();
    let mut decoded = 0usize;
    for len in 0..=7usize {
        let count = alphabet.len().pow(len as u32);
        for mut n in 0..count {
            let mut text = Vec::with_capacity(len);
            for _ in 0..len {
                text.push(alphabet[n % alphabet.len()]);
                n /= alphabet.len();
            }
            files = KeyFiles::new();
            files.write("k", text);
            if get_data_from_file(&files, "k").is_ok() {
                decoded += 1;
            }
        }
    }
    assert!(decoded > 0);
    assert!(files.contains("k"));
}

#[test]
fn texts_are_decoded_as_the_base64_decoder_decodes_them() {
    for text in ["", "AA==", "Kioq", "AQIDBA==", "ra2tra0=", "//////8=", "QUJD", "QUI=", "QUI", "QQ"] {
        let expected = subtle_encoding::Base64::default().decode(text.as_bytes()).ok();
        let got = match SgxSigner::import_request(KeyType::Base64, text) {
            Ok(Request::Import(raw)) => Some(raw),
            _ => None,
        };
        assert_eq!(got, expected);
    }
}

#[test]
fn ping_takes_pong_only() {
    assert!(SgxSigner::ping(Response::Pong).is_ok());
    assert_eq!(
        SgxSigner::ping(Response::Error("crypto: boom".to_string())).unwrap_err(),
        Error::new(ErrorKind::Crypto, "boom")
    );
    assert_eq!(
        SgxSigner::ping(Response::Signed(vec![])).unwrap_err(),
        Error::new(ErrorKind::Protocol, "response invalid")
    );
    assert_eq!(
        SgxSigner::ping(Response::PublicKey(vec![])).unwrap_err().what,
        "response invalid"
    );
}

#[test]
fn keygen_and_import_take_a_key_pair_only() {
    let key_pair = sample_key_pair();
    let got = SgxSigner::keygen(Response::KeyPair(sample_key_pair())).unwrap();
    assert_eq!(got.sealed_privkey, key_pair.sealed_privkey);
    assert_eq!(got.pubkey, key_pair.pubkey);
    let got = SgxSigner::import(Response::KeyPair(sample_key_pair())).unwrap();
    assert_eq!(got.pubkey, key_pair.pubkey);
    assert_eq!(
        SgxSigner::keygen(Response::Error("policy: no".to_string())).unwrap_err(),
        Error::new(ErrorKind::Policy, "no")
    );
    assert_eq!(SgxSigner::keygen(Response::Pong).unwrap_err().what, "error kind of response");
    assert_eq!(
        SgxSigner::import(Response::Signed(vec![1])).unwrap_err().what,
        "error kind of response"
    );
    assert_eq!(
        SgxSigner::import(Response::Error("transport: e".to_string())).unwrap_err(),
        Error::new(ErrorKind::Transport, "e")
    );
}

#[test]
fn get_pubkey_and_sign_msg_take_their_answers_only() {
    assert_eq!(SgxSigner::get_pubkey(Response::PublicKey(vec![1, 2])).unwrap(), vec![1, 2]);
    assert_eq!(SgxSigner::get_pubkey(Response::Signed(vec![1])).unwrap_err().what, "response error");
    assert_eq!(
        SgxSigner::get_pubkey(Response::Error("protocol: x".to_string())).unwrap_err(),
        Error::new(ErrorKind::Protocol, "x")
    );
    assert_eq!(SgxSigner::sign_msg(Response::Signed(vec![3, 4])).unwrap(), vec![3, 4]);
    assert_eq!(SgxSigner::sign_msg(Response::Pong).unwrap_err().what, "response error");
    assert_eq!(
        SgxSigner::sign_msg(Response::Error("y".to_string())).unwrap_err(),
        Error::new(ErrorKind::Protocol, "y")
    );
}

#[test]
fn error_constructors() {
    let e = Error::new(ErrorKind::Policy, "reason");
    assert_eq!(e.what, "reason");
    assert_eq!(e.kind, ErrorKind::Policy);
    assert!(!e.is_stop());
    assert_eq!(e.to_string(), "policy: reason");
    assert_eq!(Error::protocol("a"), Error::new(ErrorKind::Protocol, "a"));
    assert_eq!(Error::crypto("b"), Error::new(ErrorKind::Crypto, "b"));
    assert_eq!(Error::transport("c"), Error::new(ErrorKind::Transport, "c"));
    assert_eq!(Error::policy("d"), Error::new(ErrorKind::Policy, "d"));
    let s = Error::stop();
    assert_eq!(s.what, "");
    assert_eq!(s.kind, ErrorKind::Control);
    assert!(s.is_stop());
    assert_eq!(s.to_string(), "control: ");
    assert_ne!(e, s);
    assert_eq!(e.clone(), e);
}

#[test]
fn an_error_is_read_back_from_what_is_shown() {
    let kinds = [
        ErrorKind::Protocol,
        ErrorKind::Crypto,
        ErrorKind::Transport,
        ErrorKind::Policy,
        ErrorKind::Control,
    ];
    let names = ["protocol", "crypto", "transport", "policy", "control"];
    for (kind, name) in kinds.iter().zip(names.iter()) {
        assert_eq!(kind.as_str(), *name);
        for what in ["", "reason", "crypto: nested", ": ", "gr\u{fc}\u{df}e \u{2603}"] {
            let e = Error::new(*kind, what);
            assert_eq!(e.to_string(), format!("{}: {}", name, what));
            assert_eq!(Error::from_shown(&e.to_string()), e);
        }
    }
}

#[test]
fn a_text_that_shows_no_kind_is_a_protocol_error() {
    for text in ["", "boom", "crypto", "crypto:", "crypto:x", "Crypto: x", " policy: x", "kind: x"] {
        assert_eq!(Error::from_shown(text), Error::new(ErrorKind::Protocol, text));
    }
    assert_eq!(Error::from_shown("crypto: "), Error::new(ErrorKind::Crypto, ""));
    assert_eq!(Error::from_shown("control: x"), Error::new(ErrorKind::Control, "x"));
}

#[test]
fn decoded_sealed_blob_is_the_stored_signer() {
    let (sealed, _) = sample_signer();
    let blob = sealed.encode(false).unwrap();
    assert_eq!(SealedSigner::decode(&blob).unwrap(), sealed);
}
