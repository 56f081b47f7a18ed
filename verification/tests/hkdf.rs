use parity_scale_codec::Encode;
use treekem_hkdf::encoding::HkdfLabel;
use treekem_hkdf::hash::hash_encodable;
use treekem_hkdf::hkdf::{derive_secret, expand, expand_label, extract, HkdfError, MAX_LABEL_LEN};
use treekem_hkdf::hmac::{HmacKey, SHA256_OUTPUT_LEN};

fn bytes(s: &str) -> Vec<u8> {
    hex::decode(s).unwrap()
}

fn key(b: &[u8]) -> HmacKey {
    HmacKey::from_bytes(b.to_vec())
}

fn ring_hmac(k: &[u8], m: &[u8]) -> Vec<u8> {
    let k = ring::hmac::Key::new(ring::hmac::HMAC_SHA256, k);
    ring::hmac::sign(&k, m).as_ref().to_vec()
}

// RFC 5869, appendix A.1.
const IKM: &str = "0b0b0b0b0b0b0b0b0b0b0b0b0b0b0b0b0b0b0b0b0b0b";
const SALT: &str = "000102030405060708090a0b0c";
const INFO: &str = "f0f1f2f3f4f5f6f7f8f9";
const PRK: &str = "077709362c2e32df0ddc3f0dc47bba6390b6c73bb50f9c3122ec844ad7c2b3e5";
const OKM_FIRST_BLOCK: &str = "3cb25f25faacd57a90434f64d0362f2a2d2d0a90cf1a5a4c5db02d56ecc4c5bf";

#[test]
fn extract_matches_rfc5869_case_1() {
    let prk = extract(&key(&bytes(SALT)), &bytes(IKM));
    assert_eq!(prk.as_bytes(), &bytes(PRK)[..]);
}

#[test]
fn extract_is_hmac_of_secret_under_salt() {
    let salt = b"some salt";
    let secret = b"the input keying material";
    let prk = extract(&key(salt), secret);
    assert_eq!(prk.as_bytes(), &ring_hmac(salt, secret)[..]);
    assert_eq!(prk.as_bytes().len(), SHA256_OUTPUT_LEN);
}

#[test]
fn expand_fills_first_block_of_rfc5869_case_1() {
    let mut out = [0u8; 32];
    assert_eq!(expand(&key(&bytes(PRK)), &bytes(INFO), &mut out), Ok(()));
    assert_eq!(&out[..], &bytes(OKM_FIRST_BLOCK)[..]);
}

#[test]
fn expand_is_hmac_of_info_and_counter() {
    let prk = b"pseudorandom key";
    let info = b"info";
    let mut out = [7u8; 32];
    expand(&key(prk), info, &mut out).unwrap();
    let mut msg = info.to_vec();
    msg.push(1);
    assert_eq!(&out[..], &ring_hmac(prk, &msg)[..]);
}

#[test]
fn expand_rejects_other_lengths_and_leaves_buffer() {
    for len in [0usize, 1, 31, 33, 64] {
        let mut out = vec![0xaau8; len];
        assert_eq!(expand(&key(&bytes(PRK)), &bytes(INFO), &mut out), Err(HkdfError::OutputLength));
        assert_eq!(out, vec![0xaau8; len]);
    }
}

#[test]
fn hkdf_label_encodes_fields_in_order() {
    let label = b"anoniftest";
    let context = [1u8, 2, 3];
    let l = HkdfLabel { length: 32, label: &label[..], context: &context[..] };
    let mut expected = vec![0x20u8, 0x00, 10 << 2];
    expected.extend_from_slice(label);
    expected.push(3 << 2);
    expected.extend_from_slice(&context);
    assert_eq!(l.encode(), expected);
}

#[test]
fn hkdf_label_encoding_agrees_with_codec() {
    let label = vec![0x41u8; 200];
    for context_len in [0usize, 63, 64, 100, 16383, 16384, 20000] {
        let context = vec![0x5au8; context_len];
        let l = HkdfLabel { length: 0x1234, label: &label[..], context: &context[..] };
        let expected = (0x1234u16, &label[..], &context[..]).encode();
        assert_eq!(l.encode(), expected);
    }
}

#[test]
fn hkdf_label_compact_length_modes() {
    let label: [u8; 0] = [];
    let context = vec![0u8; 64];
    let l = HkdfLabel { length: 0, label: &label[..], context: &context[..] };
    let e = l.encode();
    // (64 << 2) | 0b01 = 0x0101, little endian.
    assert_eq!(&e[..5], &[0u8, 0, 0, 0x01, 0x01][..]);
    assert_eq!(e.len(), 2 + 1 + 2 + 64);

    let context = vec![0u8; 16384];
    let l = HkdfLabel { length: 0, label: &label[..], context: &context[..] };
    let e = l.encode();
    let n: u32 = (16384 << 2) | 0b10;
    assert_eq!(&e[3..7], &n.to_le_bytes()[..]);
    assert_eq!(e.len(), 2 + 1 + 4 + 16384);
}

fn manual_label_info(length: u16, label_info: &[u8], context: &[u8]) -> Vec<u8> {
    let mut full = b"anonif".to_vec();
    full.extend_from_slice(label_info);
    (length, &full[..], context).encode()
}

#[test]
fn expand_label_is_ring_hkdf_of_encoded_label() {
    let secret = b"a group secret";
    let label_info = b"app";
    let context = b"epoch 7";
    let mut out = [0u8; 32];
    expand_label(&key(secret), label_info, context, &mut out).unwrap();

    let info = manual_label_info(32, label_info, context);
    let prk = ring::hkdf::Prk::new_less_safe(ring::hkdf::HKDF_SHA256, secret);
    let parts = [&info[..]];
    let mut expected = [0u8; 32];
    prk.expand(&parts, ring::hkdf::HKDF_SHA256).unwrap().fill(&mut expected).unwrap();
    assert_eq!(out, expected);
}

#[test]
fn expand_label_rejects_other_lengths() {
    let mut out = vec![9u8; 16];
    assert_eq!(expand_label(&key(b"s"), b"l", b"c", &mut out), Err(HkdfError::OutputLength));
    assert_eq!(out, vec![9u8; 16]);
}

#[test]
fn expand_label_accepts_longest_label() {
    let label_info = vec![b'x'; MAX_LABEL_LEN];
    let mut out = [0u8; 32];
    assert_eq!(expand_label(&key(b"s"), &label_info, b"", &mut out), Ok(()));
    let info = manual_label_info(32, &label_info, b"");
    let mut msg = info.clone();
    msg.push(1);
    assert_eq!(&out[..], &ring_hmac(b"s", &msg)[..]);
}

#[test]
fn expand_label_separates_labels_and_contexts() {
    let secret = key(b"shared");
    let mut a = [0u8; 32];
    let mut b = [0u8; 32];
    let mut c = [0u8; 32];
    expand_label(&secret, b"path", b"ctx", &mut a).unwrap();
    expand_label(&secret, b"node", b"ctx", &mut b).unwrap();
    expand_label(&secret, b"path", b"ctx2", &mut c).unwrap();
    assert_ne!(a, b);
    assert_ne!(a, c);
}

#[test]
fn derive_secret_is_expand_label_of_hashed_context() {
    let secret = key(b"update secret");
    let context = (42u32, b"roster".to_vec()).encode();
    let derived = derive_secret(&secret, b"app secret", &context).unwrap();

    let hashed = hash_encodable(&context);
    let mut expected = [0u8; 32];
    expand_label(&secret, b"app secret", &hashed, &mut expected).unwrap();
    assert_eq!(derived.as_bytes(), &expected[..]);
    assert_eq!(derived.as_bytes().len(), SHA256_OUTPUT_LEN);
}

#[test]
fn hash_encodable_is_sha256() {
    let d = hash_encodable(b"abc");
    assert_eq!(d, bytes("ba7816bf8f01cfea414140de5dae2223b00361a396177a9cb410ff61f20015ad"));
}

#[test]
fn hmac_key_sign_matches_rfc4231_case_2() {
    let k = key(b"Jefe");
    let tag = k.sign(b"what do ya want for nothing?");
    assert_eq!(tag, bytes("5bdcc146bf60754e6a042426089575c75a003f089d2739839dec58b964ec3843"));
}

#[test]
fn extract_depends_only_on_salt_bytes_and_secret() {
    let a = extract(&key(b"salt"), b"secret");
    let b = extract(&key(&b"salt".to_vec()), &b"secret".to_vec());
    assert_eq!(a.as_bytes(), b.as_bytes());
}

#[test]
fn derive_secret_depends_only_on_secret_label_and_encoded_context() {
    let c1 = (7u32, b"ctx".to_vec()).encode();
    let c2 = (7u32, b"ctx".to_vec()).encode();
    let a = derive_secret(&key(b"k"), b"label", &c1).unwrap();
    let b = derive_secret(&key(&b"k".to_vec()), b"label", &c2).unwrap();
    assert_eq!(a.as_bytes(), b.as_bytes());
}
