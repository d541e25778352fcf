use signatory_sgx::error::ErrorKind;
use signatory_sgx::protocol::{
    frame_len, get_data_from_stream, send_data_to_stream, take_frame, ByteStream, Decode, Encode,
    KeyPair, Request, Response, MAX_FRAME_LEN,
};
use signatory_sgx::seal_data::{EgetKey, EnclaveReport, Label, SealData};
use signatory_sgx::seal_signer::SealedSigner;

fn sample_signer() -> SealedSigner {
    let report = EnclaveReport {
        isvsvn: 1,
        cpusvn: [0u8; 16],
        attributes: [1u8; 16],
        miscselect: 1,
    };
    let label: Label = [6; 16];
    let key: EgetKey = [8; 16];
    let seal_data = SealData::from_report(&report, [1; 16], [2; 12]);
    SealedSigner::new(&[3u8; 32], label, &key, seal_data).unwrap()
}

fn same_request(a: &Request, b: &Request) -> bool {
    match (a, b) {
        (Request::Ping, Request::Ping) => true,
        (Request::KeyGen, Request::KeyGen) => true,
        (Request::GetPublicKey(x), Request::GetPublicKey(y)) => x == y,
        (Request::Import(x), Request::Import(y)) => x == y,
        (Request::Sign((x, m)), Request::Sign((y, n))) => x == y && m == n,
        _ => false,
    }
}

fn same_response(a: &Response, b: &Response) -> bool {
    match (a, b) {
        (Response::Pong, Response::Pong) => true,
        (Response::KeyPair(x), Response::KeyPair(y)) => {
            x.sealed_privkey == y.sealed_privkey && x.pubkey == y.pubkey
        }
        (Response::PublicKey(x), Response::PublicKey(y)) => x == y,
        (Response::Signed(x), Response::Signed(y)) => x == y,
        (Response::Error(x), Response::Error(y)) => x == y,
        _ => false,
    }
}

fn requests() -> Vec<Request> {
    vec![
        Request::Ping,
        Request::KeyGen,
        Request::GetPublicKey(sample_signer()),
        Request::Import(vec![]),
        Request::Import(vec![9u8; 32]),
        Request::Sign((sample_signer(), vec![])),
        Request::Sign((sample_signer(), b"hello world".to_vec())),
    ]
}

fn responses() -> Vec<Response> {
    vec![
        Response::Pong,
        Response::KeyPair(KeyPair { sealed_privkey: sample_signer(), pubkey: vec![4u8; 32] }),
        Response::PublicKey(vec![5u8; 32]),
        Response::Signed(vec![6u8; 64]),
        Response::Error(String::new()),
        Response::Error("get signer failed".to_string()),
        Response::Error("gr\u{fc}\u{df}e \u{2603} \u{1f600}".to_string()),
    ]
}

#[test]
fn ping_and_pong_on_the_wire() {
    assert_eq!(Request::Ping.encode(false).unwrap(), vec![0, 0, 0, 0]);
    assert_eq!(Response::Pong.encode(false).unwrap(), vec![0, 0, 0, 0]);
    // framed, the bytes begin with the length as eight little-endian bytes
    assert_eq!(Request::Ping.encode(true).unwrap(), vec![4, 0, 0, 0, 0, 0, 0, 0, 0, 0, 0, 0]);
    assert_eq!(Response::Pong.encode(true).unwrap(), vec![4, 0, 0, 0, 0, 0, 0, 0, 0, 0, 0, 0]);
}

#[test]
fn variants_are_numbered_in_order() {
    assert_eq!(Request::KeyGen.encode(false).unwrap(), vec![1, 0, 0, 0]);
    assert_eq!(Request::GetPublicKey(sample_signer()).encode(false).unwrap()[..4], [2, 0, 0, 0]);
    assert_eq!(
        Request::Import(vec![0xab, 0xcd]).encode(false).unwrap(),
        vec![3, 0, 0, 0, 2, 0, 0, 0, 0, 0, 0, 0, 0xab, 0xcd]
    );
    assert_eq!(Request::Sign((sample_signer(), vec![])).encode(false).unwrap()[..4], [4, 0, 0, 0]);
    assert_eq!(
        Response::PublicKey(vec![1]).encode(false).unwrap(),
        vec![2, 0, 0, 0, 1, 0, 0, 0, 0, 0, 0, 0, 1]
    );
    assert_eq!(
        Response::Signed(vec![1, 2]).encode(false).unwrap(),
        vec![3, 0, 0, 0, 2, 0, 0, 0, 0, 0, 0, 0, 1, 2]
    );
    assert_eq!(
        Response::Error("ab".to_string()).encode(false).unwrap(),
        vec![4, 0, 0, 0, 2, 0, 0, 0, 0, 0, 0, 0, b'a', b'b']
    );
}

#[test]
fn messages_are_written_as_bincode_writes_their_fields() {
    assert_eq!(
        Request::Import(vec![7u8; 32]).encode(false).unwrap(),
        bincode::serialize(&(3u32, vec![7u8; 32])).unwrap()
    );
    assert_eq!(
        Response::Error("gr\u{fc}\u{df}e".to_string()).encode(false).unwrap(),
        bincode::serialize(&(4u32, "gr\u{fc}\u{df}e")).unwrap()
    );
    assert_eq!(
        Response::Signed(vec![1u8; 64]).encode(false).unwrap(),
        bincode::serialize(&(3u32, vec![1u8; 64])).unwrap()
    );
    let mut sign = bincode::serialize(&4u32).unwrap();
    sign.extend_from_slice(&sample_signer().encode(false).unwrap());
    sign.extend_from_slice(&bincode::serialize(&b"hello world".to_vec()).unwrap());
    assert_eq!(
        Request::Sign((sample_signer(), b"hello world".to_vec())).encode(false).unwrap(),
        sign
    );
}

#[test]
fn every_request_is_read_back() {
    for request in requests() {
        assert!(request.is_readable());
        let encoded = request.encode(false).unwrap();
        let decoded = Request::decode(&encoded).unwrap();
        assert!(same_request(&request, &decoded));
        let (taken, rest) = Request::take(&encoded).unwrap();
        assert!(same_request(&request, &taken));
        assert!(rest.is_empty());
    }
}

#[test]
fn every_response_is_read_back() {
    for response in responses() {
        assert!(response.is_readable());
        let encoded = response.encode(false).unwrap();
        let decoded = Response::decode(&encoded).unwrap();
        assert!(same_response(&response, &decoded));
    }
}

#[test]
fn truncated_messages_are_refused() {
    for request in requests() {
        let encoded = request.encode(false).unwrap();
        for n in 0..encoded.len() {
            let e = Request::decode(&encoded[..n]).unwrap_err();
            assert_eq!(e.what, "deserialize failed");
            assert_eq!(e.kind, ErrorKind::Protocol);
        }
    }
    for response in responses() {
        let encoded = response.encode(false).unwrap();
        for n in 0..encoded.len() {
            assert!(Response::decode(&encoded[..n]).is_err());
        }
    }
}

#[test]
fn unknown_variants_are_refused() {
    assert!(Request::decode(&[5, 0, 0, 0]).is_err());
    assert!(Request::decode(&[0, 1, 0, 0]).is_err());
    assert!(Response::decode(&[5, 0, 0, 0]).is_err());
    assert!(Response::decode(&[0xff, 0xff, 0xff, 0xff]).is_err());
}

#[test]
fn an_error_text_must_be_utf8() {
    let good = [4, 0, 0, 0, 2, 0, 0, 0, 0, 0, 0, 0, 0xc3, 0xbc];
    match Response::decode(&good).unwrap() {
        Response::Error(what) => assert_eq!(what, "\u{fc}"),
        other => panic!("unexpected response {:?}", other),
    }
    let bad = [4, 0, 0, 0, 2, 0, 0, 0, 0, 0, 0, 0, 0xc3, 0x28];
    assert!(Response::decode(&bad).is_err());
    let lone = [4, 0, 0, 0, 1, 0, 0, 0, 0, 0, 0, 0, 0xff];
    assert!(Response::decode(&lone).is_err());
}

#[test]
fn a_length_beyond_the_input_is_refused() {
    let mut bytes = vec![3, 0, 0, 0];
    bytes.extend_from_slice(&u64::MAX.to_le_bytes());
    bytes.extend_from_slice(&[1, 2, 3]);
    assert!(Request::decode(&bytes).is_err());
    let mut bytes = vec![3, 0, 0, 0];
    bytes.extend_from_slice(&4u64.to_le_bytes());
    bytes.extend_from_slice(&[1, 2, 3]);
    assert!(Request::decode(&bytes).is_err());
}

#[test]
fn bytes_behind_a_message_are_ignored() {
    let mut encoded = Request::Import(vec![1, 2, 3]).encode(false).unwrap();
    encoded.extend_from_slice(&[9, 9]);
    assert!(same_request(&Request::decode(&encoded).unwrap(), &Request::Import(vec![1, 2, 3])));
    let (_, rest) = Request::take(&encoded).unwrap();
    assert_eq!(rest, &[9, 9]);
}

#[test]
fn a_signer_with_an_undefined_miscselect_bit_is_not_readable() {
    let report = EnclaveReport {
        isvsvn: 1,
        cpusvn: [0u8; 16],
        attributes: [1u8; 16],
        miscselect: 0x10,
    };
    let seal_data = SealData::from_report(&report, [1; 16], [2; 12]);
    let signer = SealedSigner::new(&[3u8; 32], [6; 16], &[8; 16], seal_data).unwrap();
    assert!(!signer.is_readable());
    let request = Request::GetPublicKey(signer);
    assert!(!request.is_readable());
    let encoded = request.encode(false).unwrap();
    assert!(Request::decode(&encoded).is_err());
}

#[test]
fn oversize_request_is_refused_at_encode_time() {
    let request = Request::Sign((sample_signer(), vec![0u8; 70 * 1024]));
    let e = request.encode(true).unwrap_err();
    assert_eq!(e.what, "encoded data too large");
    assert_eq!(e.kind, ErrorKind::Protocol);
    let e = request.encode(false).unwrap_err();
    assert_eq!(e.what, "encoded data too large");
}

#[test]
fn the_bound_is_sixty_kib_exactly() {
    assert_eq!(MAX_FRAME_LEN, 61440);
    // an import request takes 12 bytes besides its seed
    let fits = Request::Import(vec![0u8; MAX_FRAME_LEN - 12]);
    let encoded = fits.encode(true).unwrap();
    assert_eq!(encoded.len(), 8 + MAX_FRAME_LEN);
    assert_eq!(&encoded[..8], &(MAX_FRAME_LEN as u64).to_le_bytes());
    let too_large = Request::Import(vec![0u8; MAX_FRAME_LEN - 11]);
    assert!(too_large.encode(true).is_err());
    assert!(too_large.encode(false).is_err());
}

#[test]
fn a_frame_crosses_a_stream() {
    for response in responses() {
        let payload = response.encode(false).unwrap();
        let mut stream = ByteStream::new();
        let n = send_data_to_stream(&mut stream, &payload, true).unwrap();
        assert_eq!(n, payload.len() + 8);
        assert_eq!(stream.len(), n);
        let data = get_data_from_stream(&mut stream).unwrap();
        assert_eq!(data, payload);
        assert_eq!(stream.len(), 0);
        assert!(same_response(&Response::decode(&data).unwrap(), &response));
    }
}

#[test]
fn frames_are_read_in_the_order_they_were_written() {
    let mut stream = ByteStream::new();
    send_data_to_stream(&mut stream, b"first", true).unwrap();
    send_data_to_stream(&mut stream, b"", true).unwrap();
    send_data_to_stream(&mut stream, b"third", true).unwrap();
    assert_eq!(get_data_from_stream(&mut stream).unwrap(), b"first".to_vec());
    assert_eq!(get_data_from_stream(&mut stream).unwrap(), Vec::<u8>::new());
    assert_eq!(get_data_from_stream(&mut stream).unwrap(), b"third".to_vec());
    let e = get_data_from_stream(&mut stream).unwrap_err();
    assert_eq!(e.kind, ErrorKind::Control);
    assert_eq!(e.what, "");
}

#[test]
fn sending_without_length_writes_the_data_only() {
    let mut stream = ByteStream::new();
    assert_eq!(send_data_to_stream(&mut stream, b"abc", false).unwrap(), 3);
    assert_eq!(stream.into_vec(), b"abc".to_vec());
    // an encoded frame that is sent as it is arrives as a frame
    let framed = Request::Ping.encode(true).unwrap();
    let mut stream = ByteStream::new();
    assert_eq!(send_data_to_stream(&mut stream, &framed, false).unwrap(), 12);
    assert_eq!(get_data_from_stream(&mut stream).unwrap(), vec![0, 0, 0, 0]);
}

#[test]
fn a_frame_that_is_too_large_is_not_sent() {
    let mut stream = ByteStream::from_vec(vec![1, 2, 3]);
    let e = send_data_to_stream(&mut stream, &vec![0u8; MAX_FRAME_LEN + 1], true).unwrap_err();
    assert_eq!(e.what, "encoded data too large");
    assert_eq!(stream.into_vec(), vec![1, 2, 3]);
    let mut stream = ByteStream::new();
    assert!(send_data_to_stream(&mut stream, &vec![0u8; MAX_FRAME_LEN], true).is_ok());
    // without a length in front nothing is held to the bound
    let mut stream = ByteStream::new();
    assert_eq!(
        send_data_to_stream(&mut stream, &vec![0u8; MAX_FRAME_LEN + 1], false).unwrap(),
        MAX_FRAME_LEN + 1
    );
}

#[test]
fn a_reader_holds_frames_to_the_bound() {
    let mut bytes = ((MAX_FRAME_LEN + 1) as u64).to_le_bytes().to_vec();
    bytes.extend_from_slice(&vec![0u8; MAX_FRAME_LEN + 1]);
    let mut stream = ByteStream::from_vec(bytes.clone());
    let e = get_data_from_stream(&mut stream).unwrap_err();
    assert_eq!(e.what, "encoded data too large");
    assert_eq!(e.kind, ErrorKind::Protocol);
    // nothing was read
    assert_eq!(stream.into_vec(), bytes);
}

#[test]
fn an_incomplete_frame_is_not_read() {
    let mut stream = ByteStream::from_vec(vec![5, 0, 0]);
    assert_eq!(get_data_from_stream(&mut stream).unwrap_err().what, "incomplete length");
    assert_eq!(stream.len(), 3);
    let mut stream = ByteStream::from_vec(vec![5, 0, 0, 0, 0, 0, 0, 0, 1, 2, 3, 4]);
    assert_eq!(get_data_from_stream(&mut stream).unwrap_err().what, "incomplete data");
    assert_eq!(stream.len(), 12);
    stream.write(&[5]);
    assert_eq!(get_data_from_stream(&mut stream).unwrap(), vec![1, 2, 3, 4, 5]);
}

#[test]
fn frame_len_reads_the_length() {
    assert_eq!(frame_len(&[4, 0, 0, 0, 0, 0, 0, 0]).unwrap(), 4);
    assert_eq!(frame_len(&[0, 0xf0, 0, 0, 0, 0, 0, 0]).unwrap(), MAX_FRAME_LEN);
    assert_eq!(frame_len(&[0x34, 0x12, 0, 0, 0, 0, 0, 0]).unwrap(), 0x1234);
    assert_eq!(frame_len(&[1, 0xf0, 0, 0, 0, 0, 0, 0]).unwrap_err().what, "encoded data too large");
    assert_eq!(frame_len(&[0, 0, 0, 0, 0, 0, 0, 1]).unwrap_err().what, "encoded data too large");
    assert_eq!(frame_len(&[1, 2, 3]).unwrap_err().what, "incomplete length");
    let stop = frame_len(&[]).unwrap_err();
    assert_eq!(stop.kind, ErrorKind::Control);
}

#[test]
fn a_stream_is_read_in_pieces() {
    let mut stream = ByteStream::from_vec(vec![1, 2, 3, 4, 5]);
    assert_eq!(stream.read(2), vec![1, 2]);
    assert_eq!(stream.read(0), Vec::<u8>::new());
    assert_eq!(stream.read(10), vec![3, 4, 5]);
    assert_eq!(stream.read(1), Vec::<u8>::new());
    assert_eq!(stream.write(&[6, 7]), 2);
    assert_eq!(stream.read(1), vec![6]);
    assert_eq!(stream.len(), 1);
}

#[test]
fn take_frame_gives_what_the_frame_carries_and_what_is_behind_it() {
    let (payload, rest) = take_frame(&[2, 0, 0, 0, 0, 0, 0, 0, 7, 8, 9]).unwrap();
    assert_eq!(payload, &[7, 8]);
    assert_eq!(rest, &[9]);
    let (payload, rest) = take_frame(&[0u8; 8]).unwrap();
    assert!(payload.is_empty());
    assert!(rest.is_empty());
    assert_eq!(take_frame(&[]).unwrap_err().kind, ErrorKind::Control);
    assert_eq!(take_frame(&[1]).unwrap_err().what, "incomplete length");
    assert_eq!(take_frame(&[1, 0, 0, 0, 0, 0, 0, 0]).unwrap_err().what, "incomplete data");
    assert_eq!(
        take_frame(&[0xff, 0xff, 0xff, 0xff, 0xff, 0xff, 0xff, 0xff, 1]).unwrap_err().what,
        "encoded data too large"
    );
}

#[test]
fn integers_are_little_endian() {
    let mut out = Vec::new();
    signatory_sgx::wire::put_u16(&mut out, 0x0102);
    signatory_sgx::wire::put_u32(&mut out, 0x0304_0506);
    signatory_sgx::wire::put_u64(&mut out, 0x0708_090a_0b0c_0d0e);
    assert_eq!(
        out,
        vec![2, 1, 6, 5, 4, 3, 0x0e, 0x0d, 0x0c, 0x0b, 0x0a, 9, 8, 7]
    );
    let (a, rest) = signatory_sgx::wire::take_u16(&out).unwrap();
    let (b, rest) = signatory_sgx::wire::take_u32(rest).unwrap();
    let (c, rest) = signatory_sgx::wire::take_u64(rest).unwrap();
    assert_eq!((a, b, c), (0x0102, 0x0304_0506, 0x0708_090a_0b0c_0d0e));
    assert!(rest.is_empty());
    for x in [0u64, 1, 0xff, 0x100, u32::MAX as u64, u64::MAX, 0x8000_0000_0000_0000] {
        let mut out = Vec::new();
        signatory_sgx::wire::put_u64(&mut out, x);
        assert_eq!(out, x.to_le_bytes().to_vec());
        assert_eq!(signatory_sgx::wire::take_u64(&out).unwrap().0, x);
    }
    for x in [0u32, 1, 0xffff, 0x1_0000, u32::MAX] {
        let mut out = Vec::new();
        signatory_sgx::wire::put_u32(&mut out, x);
        assert_eq!(out, x.to_le_bytes().to_vec());
    }
    for x in [0u16, 1, 0xff, 0x100, u16::MAX] {
        let mut out = Vec::new();
        signatory_sgx::wire::put_u16(&mut out, x);
        assert_eq!(out, x.to_le_bytes().to_vec());
    }
    assert!(signatory_sgx::wire::take_u64(&[1, 2, 3]).is_none());
}

#[test]
fn byte_strings_stand_behind_their_length() {
    let mut out = vec![0xee];
    signatory_sgx::wire::put_bytes(&mut out, b"abc");
    assert_eq!(out, vec![0xee, 3, 0, 0, 0, 0, 0, 0, 0, b'a', b'b', b'c']);
    let (s, rest) = signatory_sgx::wire::take_bytes(&out[1..]).unwrap();
    assert_eq!(s, b"abc");
    assert!(rest.is_empty());
    assert!(signatory_sgx::wire::take_bytes(&out[1..11]).is_none());
    let (head, rest) = signatory_sgx::wire::take_fixed(&out, 2).unwrap();
    assert_eq!(head, &[0xee, 3]);
    assert_eq!(rest.len(), 10);
    assert!(signatory_sgx::wire::take_fixed(&out, 13).is_none());
    assert_eq!(signatory_sgx::wire::to_vec(&out), out);
}
