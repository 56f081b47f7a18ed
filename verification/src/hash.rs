//! SHA-256 hashing of encoded values.

use vstd::prelude::*;
use crate::hmac::{digest_input_limit, SHA256_OUTPUT_LEN};

verus! {

/// SHA-256 (FIPS 180-4) of `data`.
pub uninterp spec fn sha256_digest(data: Seq<u8>) -> Seq<u8>;

/// `ring::digest::digest` with `ring::digest::SHA256`. Claimed: the digest
/// is SHA-256 of `data` and is `SHA256_OUTPUT_LEN` bytes long. ring panics on
/// an input too long for its bit length to fit a `u64`; `requires` leaves
/// those out.
#[verifier::external_body]
fn ring_sha256(data: &[u8]) -> (digest: Vec<u8>)
    requires
        data@.len() < digest_input_limit(),
    ensures
        digest@ == sha256_digest(data@),
        digest@.len() == SHA256_OUTPUT_LEN,
{
    ring::digest::digest(&ring::digest::SHA256, data).as_ref().to_vec()
}

/// SHA-256 of the encoding of a value, given that encoding.
pub fn hash_encodable(encoded: &[u8]) -> (digest: Vec<u8>)
    requires
        encoded@.len() < digest_input_limit(),
    ensures
        digest@ == sha256_digest(encoded@),
        digest@.len() == SHA256_OUTPUT_LEN,
{
    ring_sha256(encoded)
}

} // verus!
