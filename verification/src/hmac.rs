//! HMAC-SHA-256 keys.

use vstd::prelude::*;

verus! {

/// Length in bytes of a SHA-256 output, and so of an HMAC-SHA-256 tag.
pub const SHA256_OUTPUT_LEN: usize = 32;

/// SHA-256 counts the length of its input in bits in a `u64`, so every
/// input it hashes is shorter than this many bytes.
pub open spec fn digest_input_limit() -> nat {
    0x2000_0000_0000_0000
}

/// HMAC-SHA-256 (RFC 2104) of `msg` under the key `key`.
pub uninterp spec fn hmac_sha256(key: Seq<u8>, msg: Seq<u8>) -> Seq<u8>;

/// `ring::hmac::sign` with a `ring::hmac::Key` made by `ring::hmac::Key::new`
/// for `HMAC_SHA256`. Claimed: the tag is HMAC-SHA-256 of `msg` under `key`,
/// and it is `SHA256_OUTPUT_LEN` bytes long. ring panics when a key longer
/// than one block (64 bytes) is itself too long to hash, or when the 64-byte
/// inner block and `msg` together are too long to hash; `requires` leaves
/// those inputs out.
#[verifier::external_body]
fn ring_hmac_sha256(key: &[u8], msg: &[u8]) -> (tag: Vec<u8>)
    requires
        key@.len() < digest_input_limit(),
        msg@.len() + 64 < digest_input_limit(),
    ensures
        tag@ == hmac_sha256(key@, msg@),
        tag@.len() == SHA256_OUTPUT_LEN,
{
    let key = ring::hmac::Key::new(ring::hmac::HMAC_SHA256, key);
    ring::hmac::sign(&key, msg).as_ref().to_vec()
}

/// A key for HMAC-SHA-256, held as its raw bytes.
pub struct HmacKey {
    bytes: Vec<u8>,
}

impl View for HmacKey {
    type V = Seq<u8>;

    closed spec fn view(&self) -> Seq<u8> {
        self.bytes@
    }
}

impl HmacKey {
    /// The key whose bytes are `bytes`.
    pub fn from_bytes(bytes: Vec<u8>) -> (key: HmacKey)
        ensures
            key@ == bytes@,
    {
        HmacKey { bytes }
    }

    /// The bytes of the key.
    pub fn as_bytes(&self) -> (bytes: &[u8])
        ensures
            bytes@ == self@,
    {
        self.bytes.as_slice()
    }

    /// The HMAC-SHA-256 tag of `msg` under this key.
    pub fn sign(&self, msg: &[u8]) -> (tag: Vec<u8>)
        requires
            self@.len() < digest_input_limit(),
            msg@.len() + 64 < digest_input_limit(),
        ensures
            tag@ == hmac_sha256(self@, msg@),
            tag@.len() == SHA256_OUTPUT_LEN,
    {
        ring_hmac_sha256(self.bytes.as_slice(), msg)
    }
}

} // verus!
