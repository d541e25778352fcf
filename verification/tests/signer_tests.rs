use aes_gcm_siv::aead::generic_array::GenericArray;
use aes_gcm_siv::aead::{Aead, KeyInit};
use aes_gcm_siv::Aes128GcmSiv;
use signatory::ed25519::{Signature, VerifyingKey};
use signatory::signature::Verifier;
use signatory_sgx::error::ErrorKind;
use signatory_sgx::protocol::{Decode, Encode};
use signatory_sgx::seal_data::{seal_key, EgetKey, EnclaveReport, KeyRequest, Label, SealData};
use signatory_sgx::seal_signer::SealedSigner;

fn sample_report() -> EnclaveReport {
    EnclaveReport {
        isvsvn: 3,
        cpusvn: [1u8; 16],
        attributes: [7, 0, 0, 0, 0, 0, 0, 0, 3, 0, 0, 0, 0, 0, 0, 0],
        miscselect: 0,
    }
}

/// Stands in for the hardware: a key that depends on the request.
fn derive(req: &KeyRequest) -> EgetKey {
    let mut key = [0u8; 16];
    for i in 0..16 {
        key[i] = req.keyid[i] ^ req.keyid[16 + i].rotate_left(3) ^ req.cpusvn[i] ^ 0x5a;
    }
    key
}

fn sealed_from(seed: &[u8; 32]) -> (SealedSigner, EgetKey) {
    let label: Label = [0x42; 16];
    let (req, seal_data) = seal_key(&label, &sample_report());
    let key = derive(&req);
    (SealedSigner::new(seed, label, &key, seal_data).unwrap(), key)
}

fn fresh() -> (SealedSigner, EgetKey) {
    sealed_from(&rand::random())
}

#[test]
fn test_serde() {
    let (sealed_signer, _) = fresh();
    let encoded = sealed_signer.encode(false).unwrap();
    let decoded = SealedSigner::decode(&encoded).unwrap();
    assert_eq!(sealed_signer, decoded);
}

#[test]
fn test_sign() {
    let (sealed, key) = fresh();
    // sign message
    let msg = b"hello world";
    let sig_raw = sealed.try_sign(&key, msg).unwrap();
    // verify sig
    assert!(sealed.verify(&key, msg, &sig_raw).is_ok());
}

#[test]
fn test_get_pubkey() {
    let (sealed, key) = fresh();
    let pubkey = sealed.get_public_key(&key);
    assert!(pubkey.is_ok());
}

#[test]
fn every_seed_signs_what_it_verifies() {
    for (n, msg) in [&b""[..], &b"a"[..], &b"hello world"[..], &[0u8; 300][..]].iter().enumerate() {
        let seed = [n as u8; 32];
        let (sealed, key) = sealed_from(&seed);
        let sig = sealed.try_sign(&key, msg).unwrap();
        assert_eq!(sig.len(), 64);
        assert!(sealed.verify(&key, msg, &sig).is_ok());
    }
}

#[test]
fn public_key_of_the_zero_seed() {
    let (sealed, key) = sealed_from(&[0u8; 32]);
    let pubkey = sealed.get_public_key(&key).unwrap();
    let expected =
        hex::decode("3b6a27bcceb6a42d62a3a8d02a6f0d73653215771de243a63ac048a18b59da29").unwrap();
    assert_eq!(pubkey, expected);
    let sig = sealed.try_sign(&key, b"").unwrap();
    assert_eq!(sig.len(), 64);
    let verifier = VerifyingKey::from_bytes(&pubkey).unwrap();
    assert!(verifier.verify(b"", &Signature::from_slice(&sig).unwrap()).is_ok());
}

#[test]
fn signing_is_deterministic() {
    let (sealed, key) = sealed_from(&[0u8; 32]);
    let sig = sealed.try_sign(&key, b"").unwrap();
    let again = sealed.try_sign(&key, b"").unwrap();
    assert_eq!(sig, again);
    let other = sealed.try_sign(&key, b"x").unwrap();
    assert_ne!(sig, other);
}

#[test]
fn rfc8032_first_vector() {
    let seed: [u8; 32] =
        hex::decode("9d61b19deffd5a60ba844af492ec2cc44449c5697b326919703bac031cae7f60")
            .unwrap()
            .try_into()
            .unwrap();
    let (sealed, key) = sealed_from(&seed);
    assert_eq!(
        sealed.get_public_key(&key).unwrap(),
        hex::decode("d75a980182b10ab7d54bfed3c964073a0ee172f3daa62325af021a68f707511a").unwrap()
    );
    assert_eq!(
        sealed.try_sign(&key, b"").unwrap(),
        hex::decode(
            "e5564300c360ac729086e2cc806e828a84877f1eb8e5d974d873e065224901555fb8821590a33bacc61e39701cf9b46bd25bf5f0595bbe24655141438e7a100b"
        )
        .unwrap()
    );
}

#[test]
fn sealed_seed_is_the_cipher_text_of_the_seed() {
    let seed = [0x17u8; 32];
    let label: Label = [1; 16];
    let report = sample_report();
    let seal_data = SealData::from_report(&report, [2; 16], [3; 12]);
    let key: EgetKey = [4; 16];
    let sealed = SealedSigner::new(&seed, label, &key, seal_data).unwrap();
    let encoded = sealed.encode(false).unwrap();
    let cipher = Aes128GcmSiv::new(GenericArray::from_slice(&key));
    let expected = cipher.encrypt(GenericArray::from_slice(&[3u8; 12]), &seed[..]).unwrap();
    assert_eq!(expected.len(), 48);
    assert_eq!(&encoded[..8], &48u64.to_le_bytes());
    assert_eq!(&encoded[8..56], &expected[..]);
    assert_ne!(&encoded[8..40], &seed[..]);
    assert_eq!(encoded.len(), 8 + 48 + 74 + 16);
    assert_eq!(&encoded[encoded.len() - 16..], &label);
}

#[test]
fn sealed_signer_is_written_as_bincode_writes_its_fields() {
    let seed = [0x17u8; 32];
    let label: Label = [1; 16];
    let report = sample_report();
    let rand = [2u8; 16];
    let nonce = [3u8; 12];
    let seal_data = SealData::from_report(&report, rand, nonce);
    let key: EgetKey = [4; 16];
    let sealed = SealedSigner::new(&seed, label, &key, seal_data).unwrap();
    let cipher = Aes128GcmSiv::new(GenericArray::from_slice(&key));
    let sealed_seed = cipher.encrypt(GenericArray::from_slice(&nonce), &seed[..]).unwrap();
    let reference = bincode::serialize(&(
        sealed_seed,
        (
            rand,
            nonce,
            report.isvsvn,
            report.cpusvn,
            report.attributes.to_vec(),
            report.miscselect,
        ),
        label,
    ))
    .unwrap();
    assert_eq!(sealed.encode(false).unwrap(), reference);
}

#[test]
fn import_refuses_a_seed_of_another_size() {
    let label: Label = [1; 16];
    let seal_data = SealData::from_report(&sample_report(), [2; 16], [3; 12]);
    let key: EgetKey = [4; 16];
    for n in [0usize, 1, 31, 33, 64] {
        let e = SealedSigner::import(&vec![0u8; n], label, &key, seal_data).unwrap_err();
        assert_eq!(e.what, "invalid seed");
        assert_eq!(e.kind, ErrorKind::Crypto);
    }
    assert!(SealedSigner::import(&[0u8; 32], label, &key, seal_data).is_ok());
}

#[test]
fn import_and_new_seal_alike() {
    let label: Label = [1; 16];
    let seal_data = SealData::from_report(&sample_report(), [2; 16], [3; 12]);
    let key: EgetKey = [4; 16];
    let seed = [9u8; 32];
    let a = SealedSigner::new(&seed, label, &key, seal_data).unwrap();
    let b = SealedSigner::import(&seed, label, &key, seal_data).unwrap();
    assert_eq!(a, b);
    assert_eq!(a.duplicate(), a);
}

#[test]
fn any_flipped_byte_of_the_sealed_seed_breaks_the_signer() {
    let (sealed, key) = sealed_from(&[5u8; 32]);
    let encoded = sealed.encode(false).unwrap();
    // the sealed seed stands behind its length: bytes 8 to 56
    for i in 8..56 {
        let mut tampered = encoded.clone();
        tampered[i] ^= 0x01;
        let broken = SealedSigner::decode(&tampered).unwrap();
        let e = broken.get_public_key(&key).unwrap_err();
        assert_eq!(e.what, "get signer failed, the host changed or the program changed");
        assert!(broken.try_sign(&key, b"hello world").is_err());
        assert!(broken.verify(&key, b"hello world", &[0u8; 64]).is_err());
    }
}

#[test]
fn a_changed_nonce_breaks_the_signer() {
    let (sealed, key) = sealed_from(&[5u8; 32]);
    let mut tampered = sealed.encode(false).unwrap();
    // the nonce stands behind the sealed seed and the random bytes
    tampered[56 + 16] ^= 0x80;
    let broken = SealedSigner::decode(&tampered).unwrap();
    assert!(broken.get_public_key(&key).is_err());
}

#[test]
fn another_key_does_not_unseal() {
    let (sealed, key) = sealed_from(&[5u8; 32]);
    let mut other = key;
    other[0] ^= 1;
    let e = sealed.try_sign(&other, b"m").unwrap_err();
    assert_eq!(e.what, "get signer failed, the host changed or the program changed");
    assert_eq!(e.kind, ErrorKind::Crypto);
}

#[test]
fn a_sealed_value_that_is_no_seed_is_refused() {
    // seal 31 bytes by hand and put them where the seed belongs
    let key: EgetKey = [4; 16];
    let nonce = [3u8; 12];
    let (sealed, _) = {
        let label: Label = [1; 16];
        let seal_data = SealData::from_report(&sample_report(), [2; 16], nonce);
        (SealedSigner::new(&[0u8; 32], label, &key, seal_data).unwrap(), key)
    };
    let encoded = sealed.encode(false).unwrap();
    let cipher = Aes128GcmSiv::new(GenericArray::from_slice(&key));
    let short = cipher.encrypt(GenericArray::from_slice(&nonce), &[0u8; 31][..]).unwrap();
    let mut forged = Vec::new();
    forged.extend_from_slice(&(short.len() as u64).to_le_bytes());
    forged.extend_from_slice(&short);
    forged.extend_from_slice(&encoded[56..]);
    let signer = SealedSigner::decode(&forged).unwrap();
    let e = signer.get_public_key(&key).unwrap_err();
    assert_eq!(e.what, "get signer failed");
}

#[test]
fn verify_tells_a_malformed_signature_from_a_wrong_one() {
    let (sealed, key) = sealed_from(&[5u8; 32]);
    let sig = sealed.try_sign(&key, b"hello world").unwrap();
    let e = sealed.verify(&key, b"hello world", &sig[..63]).unwrap_err();
    assert_eq!(e.what, "invalid signature");
    let e = sealed.verify(&key, b"hello world!", &sig).unwrap_err();
    assert_eq!(e.what, "verify failed");
    let mut wrong = sig.clone();
    wrong[10] ^= 4;
    let e = sealed.verify(&key, b"hello world", &wrong).unwrap_err();
    assert_eq!(e.what, "verify failed");
}

#[test]
fn unseal_request_follows_the_configuration() {
    let (sealed, _) = sealed_from(&[5u8; 32]);
    let report = sample_report();
    let req = sealed.unseal_request(&report).unwrap();
    assert_eq!(&req.keyid[..16], &[0x42u8; 16]);
    let mut other = report;
    other.attributes[8] = 7;
    let e = sealed.unseal_request(&other).unwrap_err();
    assert_eq!(e.what, "seal data not match");
}

#[test]
fn decode_ignores_what_follows_the_signer() {
    let (sealed, _) = sealed_from(&[5u8; 32]);
    let mut encoded = sealed.encode(false).unwrap();
    encoded.extend_from_slice(b"trailing");
    assert_eq!(SealedSigner::decode(&encoded).unwrap(), sealed);
}

#[test]
fn decode_refuses_a_truncated_signer() {
    let (sealed, _) = sealed_from(&[5u8; 32]);
    let encoded = sealed.encode(false).unwrap();
    for n in 0..encoded.len() {
        let e = SealedSigner::decode(&encoded[..n]).unwrap_err();
        assert_eq!(e.what, "deserialize failed");
    }
}

#[test]
fn encode_with_length_puts_the_length_in_front() {
    let (sealed, _) = sealed_from(&[5u8; 32]);
    let plain = sealed.encode(false).unwrap();
    let framed = sealed.encode(true).unwrap();
    assert_eq!(&framed[..8], &(plain.len() as u64).to_le_bytes());
    assert_eq!(&framed[8..], &plain[..]);
    assert!(sealed.is_readable());
}
