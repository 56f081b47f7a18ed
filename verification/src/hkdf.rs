//! HKDF-Extract, HKDF-Expand and the labelled derivations built on them.

use vstd::prelude::*;
use crate::encoding::{compact_u32, hkdf_label_bytes, lemma_compact_u32_bytes, lemma_hkdf_label_bytes_layout, HkdfLabel};
use crate::hash::{hash_encodable, sha256_digest};
use crate::hmac::{digest_input_limit, hmac_sha256, HmacKey, SHA256_OUTPUT_LEN};

verus! {

/// ring's error type, which carries no information.
#[verifier::external_type_specification]
#[verifier::external_body]
pub struct ExUnspecified(ring::error::Unspecified);

/// Why an HKDF operation failed.
#[derive(Debug, PartialEq, Eq, Structural)]
pub enum HkdfError {
    /// The output buffer does not have the length that HKDF-SHA-256 fills,
    /// `SHA256_OUTPUT_LEN`.
    OutputLength,
}

/// Longest label that `expand_label` accepts, in bytes: the prefix and the
/// label together fit a 255-byte label field.
pub const MAX_LABEL_LEN: usize = 249;

/// The prefix that every HKDF label carries: the bytes of "anonif".
pub open spec fn anonify_prefix() -> Seq<u8> {
    seq![0x61u8, 0x6eu8, 0x6fu8, 0x6eu8, 0x69u8, 0x66u8]
}

/// The label field of the HKDF label for `label_info`.
pub open spec fn full_label(label_info: Seq<u8>) -> Seq<u8> {
    anonify_prefix() + label_info
}

/// HKDF-Expand (RFC 5869) for one SHA-256 block of output: the single block
/// T(1) = HMAC(PRK, info || 0x01).
pub open spec fn hkdf_expand_block(prk: Seq<u8>, info: Seq<u8>) -> Seq<u8> {
    hmac_sha256(prk, info.push(1u8))
}

/// What `expand_label` writes into a `SHA256_OUTPUT_LEN`-byte buffer.
pub open spec fn expand_label_output(secret: Seq<u8>, label_info: Seq<u8>, context: Seq<u8>) -> Seq<u8> {
    hkdf_expand_block(
        secret,
        hkdf_label_bytes(SHA256_OUTPUT_LEN as u16, full_label(label_info), context),
    )
}

/// The key that `derive_secret` derives.
pub open spec fn derive_secret_output(secret: Seq<u8>, label_info: Seq<u8>, context: Seq<u8>) -> Seq<u8> {
    expand_label_output(secret, label_info, sha256_digest(context))
}

/// `ring::hkdf::Prk::new_less_safe`, `Prk::expand` and `Okm::fill` for
/// `HKDF_SHA256`, with an output length of one SHA-256 block. Claimed, as
/// ring's source shows: the fill succeeds exactly when `out` is
/// `SHA256_OUTPUT_LEN` bytes long, and then writes T(1) = HMAC(prk, info ||
/// 0x01) into it; on failure `out` is not written. ring panics when a key
/// longer than one block is too long to hash, or when the inner block, `info`
/// and the counter byte are too long to hash; `requires` leaves those out.
#[verifier::external_body]
fn ring_hkdf_sha256_fill(prk: &[u8], info: &[u8], out: &mut [u8]) -> (res: Result<(), ring::error::Unspecified>)
    requires
        prk@.len() < digest_input_limit(),
        info@.len() + 65 < digest_input_limit(),
    ensures
        res is Ok <==> old(out)@.len() == SHA256_OUTPUT_LEN,
        res is Ok ==> final(out)@ == hmac_sha256(prk@, info@.push(1u8)),
        res is Err ==> final(out)@ == old(out)@,
        final(out)@.len() == old(out)@.len(),
{
    let prk = ring::hkdf::Prk::new_less_safe(ring::hkdf::HKDF_SHA256, prk);
    let info = [info];
    match prk.expand(&info, ring::hkdf::HKDF_SHA256) {
        Ok(okm) => okm.fill(out),
        Err(e) => Err(e),
    }
}

/// An implementation of HKDF-extract: the pseudorandom key is the
/// HMAC-SHA-256 of `secret` under `salt`.
pub fn extract(salt: &HmacKey, secret: &[u8]) -> (prk: HmacKey)
    requires
        salt@.len() < digest_input_limit(),
        secret@.len() + 64 < digest_input_limit(),
    ensures
        prk@ == hmac_sha256(salt@, secret@),
        prk@.len() == SHA256_OUTPUT_LEN,
{
    let prk = salt.sign(secret);
    HmacKey::from_bytes(prk)
}

/// HKDF-Expand with `salt` as the pseudorandom key and the encoded `info`,
/// filling `out_buf`. Succeeds exactly when `out_buf` is
/// `SHA256_OUTPUT_LEN` bytes long; otherwise `out_buf` is left as it was.
pub fn expand(salt: &HmacKey, info: &[u8], out_buf: &mut [u8]) -> (res: Result<(), HkdfError>)
    requires
        salt@.len() < digest_input_limit(),
        info@.len() + 65 < digest_input_limit(),
    ensures
        res is Ok <==> old(out_buf)@.len() == SHA256_OUTPUT_LEN,
        res is Ok ==> final(out_buf)@ == hkdf_expand_block(salt@, info@),
        res is Ok ==> final(out_buf)@ == hmac_sha256(salt@, info@ + seq![1u8]),
        final(out_buf)@.len() == old(out_buf)@.len(),
        res is Err ==> res == Err::<(), HkdfError>(HkdfError::OutputLength) && final(out_buf)@ == old(out_buf)@,
{
    proof {
        lemma_hkdf_expand_block_is_t1(salt@, info@);
    }
    match ring_hkdf_sha256_fill(salt.as_bytes(), info, out_buf) {
        Ok(()) => Ok(()),
        Err(_) => Err(HkdfError::OutputLength),
    }
}

/// The label field of the HKDF label for `label_info`: "anonif" followed by
/// `label_info`.
fn full_label_bytes(label_info: &[u8]) -> (label: Vec<u8>)
    ensures
        label@ == full_label(label_info@),
{
    let mut label: Vec<u8> = vec![0x61u8, 0x6eu8, 0x6fu8, 0x6eu8, 0x69u8, 0x66u8];
    let ghost prefix = label@;
    assert(prefix == anonify_prefix());
    let mut i: usize = 0;
    while i < label_info.len()
        invariant
            i <= label_info@.len(),
            prefix == anonify_prefix(),
            label@ == prefix + label_info@.subrange(0, i as int),
        decreases label_info@.len() - i,
    {
        label.push(label_info[i]);
        i = i + 1;
        assert(label_info@.subrange(0, i as int) == label_info@.subrange(0, i - 1).push(label_info@[i - 1]));
    }
    assert(label_info@.subrange(0, label_info@.len() as int) == label_info@);
    label
}

/// HKDF-Expand-Label: expands `secret` with the HKDF label that holds the
/// length of `out_buf`, the label "anonif" followed by `label_info`, and
/// `context`. Succeeds exactly when `out_buf` is `SHA256_OUTPUT_LEN` bytes
/// long; otherwise `out_buf` is left as it was.
pub fn expand_label(
    secret: &HmacKey,
    label_info: &[u8],
    context: &[u8],
    out_buf: &mut [u8],
) -> (res: Result<(), HkdfError>)
    requires
        label_info@.len() <= MAX_LABEL_LEN,
        old(out_buf)@.len() <= u16::MAX,
        context@.len() <= u32::MAX,
        secret@.len() < digest_input_limit(),
    ensures
        res is Ok <==> old(out_buf)@.len() == SHA256_OUTPUT_LEN,
        res is Ok ==> final(out_buf)@ == expand_label_output(secret@, label_info@, context@),
        res is Ok ==> final(out_buf)@ == hmac_sha256(
            secret@,
            seq![0x20u8, 0x00u8] + compact_u32(label_info@.len() + 6) + seq![0x61u8, 0x6eu8, 0x6fu8, 0x6eu8, 0x69u8, 0x66u8] + label_info@
                + compact_u32(context@.len()) + context@ + seq![0x01u8],
        ),
        final(out_buf)@.len() == old(out_buf)@.len(),
        res is Err ==> res == Err::<(), HkdfError>(HkdfError::OutputLength) && final(out_buf)@ == old(out_buf)@,
{
    let full = full_label_bytes(label_info);
    let label = HkdfLabel {
        length: out_buf.len() as u16,
        label: full.as_slice(),
        context,
    };
    let info = label.encode();
    proof {
        crate::encoding::lemma_hkdf_label_len(label.length, label.label@, context@);
        lemma_expand_label_output_bytes(secret@, label_info@, context@);
    }
    expand(secret, info.as_slice(), out_buf)
}

/// Derive-Secret(Secret, Label, Context) =
///  HKDF-Expand-Label(Secret, Label, Hash(Context), Hash.length),
/// given the encoding of the context.
pub fn derive_secret(secret: &HmacKey, label_info: &[u8], context: &[u8]) -> (res: Result<HmacKey, HkdfError>)
    requires
        label_info@.len() <= MAX_LABEL_LEN,
        secret@.len() < digest_input_limit(),
        context@.len() < digest_input_limit(),
    ensures
        res matches Ok(key) && key@ == derive_secret_output(secret@, label_info@, context@)
            && key@.len() == SHA256_OUTPUT_LEN,
        res matches Ok(key) && key@ == hmac_sha256(
            secret@,
            seq![0x20u8, 0x00u8] + compact_u32(label_info@.len() + 6) + seq![0x61u8, 0x6eu8, 0x6fu8, 0x6eu8, 0x69u8, 0x66u8] + label_info@
                + seq![0x80u8] + sha256_digest(context@) + seq![0x01u8],
        ),
{
    let hashed_ctx = hash_encodable(context);
    let mut key_buf: Vec<u8> = vec![0u8; SHA256_OUTPUT_LEN];
    let _ = expand_label(secret, label_info, hashed_ctx.as_slice(), key_buf.as_mut_slice());
    proof {
        lemma_derive_secret_output_bytes(secret@, label_info@, context@);
    }
    Ok(HmacKey::from_bytes(key_buf))
}

/// HKDF-Expand for one SHA-256 block is T(1) of RFC 5869, for every key and
/// every `info`, the empty one included: the HMAC-SHA-256, under the key, of
/// `info` followed by the counter byte 0x01.
pub proof fn lemma_hkdf_expand_block_is_t1(prk: Seq<u8>, info: Seq<u8>)
    ensures
        hkdf_expand_block(prk, info) == hmac_sha256(prk, info + seq![1u8]),
        (info + seq![1u8]).len() == info.len() + 1,
        (info + seq![1u8]).subrange(0, info.len() as int) == info,
        (info + seq![1u8])[info.len() as int] == 1u8,
{
    assert(info.push(1u8) =~= info + seq![1u8]);
    assert((info + seq![1u8]).subrange(0, info.len() as int) =~= info);
}

/// What HKDF-Expand-Label hands to HMAC, byte by byte: the output length 32
/// as the little-endian bytes 0x20 0x00, the compact length of the label
/// (six bytes longer than the label given), "anonif", the label, the compact
/// length of the context, the context, and the counter byte 0x01.
pub proof fn lemma_expand_label_output_bytes(secret: Seq<u8>, label_info: Seq<u8>, context: Seq<u8>)
    ensures
        expand_label_output(secret, label_info, context) == hmac_sha256(
            secret,
            seq![0x20u8, 0x00u8] + compact_u32(label_info.len() + 6) + seq![0x61u8, 0x6eu8, 0x6fu8, 0x6eu8, 0x69u8, 0x66u8] + label_info
                + compact_u32(context.len()) + context + seq![0x01u8],
        ),
{
    let l = full_label(label_info);
    let e = hkdf_label_bytes(SHA256_OUTPUT_LEN as u16, l, context);
    lemma_hkdf_label_bytes_layout(SHA256_OUTPUT_LEN as u16, l, context);
    assert(l =~= seq![0x61u8, 0x6eu8, 0x6fu8, 0x6eu8, 0x69u8, 0x66u8] + label_info);
    let rest = compact_u32(l.len()) + l + compact_u32(context.len()) + context;
    assert(e.subrange(2, e.len() as int) == rest);
    assert(e =~= seq![e[0], e[1]] + e.subrange(2, e.len() as int));
    assert(e =~= seq![0x20u8, 0x00u8] + compact_u32(label_info.len() + 6) + seq![0x61u8, 0x6eu8, 0x6fu8, 0x6eu8, 0x69u8, 0x66u8] + label_info
        + compact_u32(context.len()) + context);
    assert(e.push(1u8) =~= seq![0x20u8, 0x00u8] + compact_u32(label_info.len() + 6) + seq![0x61u8, 0x6eu8, 0x6fu8, 0x6eu8, 0x69u8, 0x66u8] + label_info
        + compact_u32(context.len()) + context + seq![0x01u8]);
}

/// What Derive-Secret hands to HMAC, byte by byte, for a context whose
/// SHA-256 digest is 32 bytes long: as for HKDF-Expand-Label, with the
/// compact length 32 (the byte 0x80) and the digest as the context.
pub proof fn lemma_derive_secret_output_bytes(secret: Seq<u8>, label_info: Seq<u8>, context: Seq<u8>)
    requires
        sha256_digest(context).len() == 32,
    ensures
        derive_secret_output(secret, label_info, context) == hmac_sha256(
            secret,
            seq![0x20u8, 0x00u8] + compact_u32(label_info.len() + 6) + seq![0x61u8, 0x6eu8, 0x6fu8, 0x6eu8, 0x69u8, 0x66u8] + label_info
                + seq![0x80u8] + sha256_digest(context) + seq![0x01u8],
        ),
{
    lemma_expand_label_output_bytes(secret, label_info, sha256_digest(context));
    lemma_compact_u32_bytes(32);
    assert(compact_u32(32) =~= seq![0x80u8]);
}

/// Derive-Secret(Secret, Label, Context) is HKDF-Expand-Label(Secret, Label,
/// Hash(Context), Hash.length): the key that `derive_secret` derives is what
/// `expand_label` writes into a hash-length buffer for the SHA-256 digest of
/// the context.
pub proof fn lemma_derive_secret_is_expand_label(secret: Seq<u8>, label_info: Seq<u8>, context: Seq<u8>)
    ensures
        derive_secret_output(secret, label_info, context)
            == expand_label_output(secret, label_info, sha256_digest(context)),
{
}

/// HKDF-Expand-Label is HKDF-Expand of the secret with the encoded HKDF label
/// as `info`: what `expand_label` writes is what `expand` writes for the
/// encoding of the label that holds the output length, the prefixed label
/// and the context.
pub proof fn lemma_expand_label_is_expand(secret: Seq<u8>, label_info: Seq<u8>, context: Seq<u8>)
    ensures
        expand_label_output(secret, label_info, context) == hkdf_expand_block(
            secret,
            hkdf_label_bytes(SHA256_OUTPUT_LEN as u16, anonify_prefix() + label_info, context),
        ),
{
}

/// Every label that `expand_label` puts into an HKDF label starts with the
/// "anonif" prefix and ends with the label it was given.
pub proof fn lemma_full_label_is_prefixed(label_info: Seq<u8>)
    ensures
        full_label(label_info).len() == anonify_prefix().len() + label_info.len(),
        full_label(label_info).subrange(0, 6) == anonify_prefix(),
        full_label(label_info).subrange(6, full_label(label_info).len() as int) == label_info,
{
    assert(full_label(label_info).subrange(0, 6) =~= anonify_prefix());
    assert(full_label(label_info).subrange(6, full_label(label_info).len() as int) =~= label_info);
}

/// HKDF-Expand-Label separates its uses: two calls whose labels or whose
/// contexts differ expand the secret with different `info`.
pub proof fn lemma_expand_label_info_distinct(
    label1: Seq<u8>,
    context1: Seq<u8>,
    label2: Seq<u8>,
    context2: Seq<u8>,
)
    requires
        label1.len() <= MAX_LABEL_LEN,
        label2.len() <= MAX_LABEL_LEN,
        context1.len() <= u32::MAX,
        context2.len() <= u32::MAX,
        label1 != label2 || context1 != context2,
    ensures
        hkdf_label_bytes(SHA256_OUTPUT_LEN as u16, full_label(label1), context1)
            != hkdf_label_bytes(SHA256_OUTPUT_LEN as u16, full_label(label2), context2),
{
    if hkdf_label_bytes(SHA256_OUTPUT_LEN as u16, full_label(label1), context1)
        == hkdf_label_bytes(SHA256_OUTPUT_LEN as u16, full_label(label2), context2) {
        crate::encoding::lemma_hkdf_label_bytes_injective(
            SHA256_OUTPUT_LEN as u16,
            full_label(label1),
            context1,
            SHA256_OUTPUT_LEN as u16,
            full_label(label2),
            context2,
        );
        lemma_full_label_is_prefixed(label1);
        lemma_full_label_is_prefixed(label2);
    }
}

} // verus!
