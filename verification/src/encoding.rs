//! SCALE framing (the `parity-scale-codec` format) of the values that the key
//! schedule feeds to HKDF.

use vstd::prelude::*;

verus! {

/// The `n` low-order bytes of `v`, least significant first.
pub open spec fn le_bytes(v: nat, n: nat) -> Seq<u8>
    decreases n,
{
    if n == 0 {
        Seq::empty()
    } else {
        seq![(v % 256) as u8] + le_bytes(v / 256, (n - 1) as nat)
    }
}

/// SCALE compact encoding of a `u32` value `n`: one, two or four
/// little-endian bytes holding `n` shifted left by two with the mode in the
/// two low bits, or the mode byte `0b11` followed by the four bytes of `n`.
pub open spec fn compact_u32(n: nat) -> Seq<u8> {
    if n < 0x40 {
        le_bytes(n * 4, 1)
    } else if n < 0x4000 {
        le_bytes(n * 4 + 1, 2)
    } else if n < 0x4000_0000 {
        le_bytes(n * 4 + 2, 4)
    } else {
        seq![3u8] + le_bytes(n, 4)
    }
}

/// SCALE encoding of a byte string: its compact length, then its bytes.
pub open spec fn scale_bytes(b: Seq<u8>) -> Seq<u8> {
    compact_u32(b.len()) + b
}

/// `parity_scale_codec::Encode::encode` on a `u16`. Claimed: the two
/// little-endian bytes of `v`.
#[verifier::external_body]
fn scale_encode_u16(v: u16) -> (out: Vec<u8>)
    ensures
        out@ == le_bytes(v as nat, 2),
{
    parity_scale_codec::Encode::encode(&v)
}

/// `parity_scale_codec::Encode::encode` on a byte slice. Claimed: the compact
/// encoding of the slice's length followed by its bytes. The codec panics on
/// a slice longer than `u32::MAX`; `requires` leaves those out.
#[verifier::external_body]
fn scale_encode_bytes(b: &[u8]) -> (out: Vec<u8>)
    requires
        b@.len() <= u32::MAX,
    ensures
        out@ == scale_bytes(b@),
{
    parity_scale_codec::Encode::encode(b)
}

/// The SCALE encoding of an `HkdfLabel` with these fields, in field order.
pub open spec fn hkdf_label_bytes(length: u16, label: Seq<u8>, context: Seq<u8>) -> Seq<u8> {
    le_bytes(length as nat, 2) + scale_bytes(label) + scale_bytes(context)
}

/// `le_bytes(v, n)` has `n` bytes.
pub proof fn lemma_le_bytes_len(v: nat, n: nat)
    ensures
        le_bytes(v, n).len() == n,
    decreases n,
{
    if n > 0 {
        lemma_le_bytes_len(v / 256, (n - 1) as nat);
    }
}

/// A compact length takes one to five bytes.
pub proof fn lemma_compact_u32_len(n: nat)
    ensures
        1 <= compact_u32(n).len() <= 5,
{
    lemma_le_bytes_len(n * 4, 1);
    lemma_le_bytes_len(n * 4 + 1, 2);
    lemma_le_bytes_len(n * 4 + 2, 4);
    lemma_le_bytes_len(n, 4);
}

/// An encoded HKDF label is at most twelve bytes longer than its label and
/// context together.
pub proof fn lemma_hkdf_label_len(length: u16, label: Seq<u8>, context: Seq<u8>)
    ensures
        hkdf_label_bytes(length, label, context).len() <= label.len() + context.len() + 12,
{
    lemma_le_bytes_len(length as nat, 2);
    lemma_compact_u32_len(label.len());
    lemma_compact_u32_len(context.len());
}

/// The bytes of `le_bytes(v, n)`: the first is `v` modulo 256, the rest are
/// those of `v / 256`.
proof fn lemma_le_bytes_index(v: nat, n: nat)
    requires
        n > 0,
    ensures
        le_bytes(v, n)[0] == v % 256,
        le_bytes(v, n).len() == n,
        forall|i: int| 1 <= i < n ==> #[trigger] le_bytes(v, n)[i] == le_bytes(v / 256, (n - 1) as nat)[i - 1],
{
    lemma_le_bytes_len(v, n);
    lemma_le_bytes_len(v / 256, (n - 1) as nat);
    let rest = le_bytes(v / 256, (n - 1) as nat);
    assert(le_bytes(v, n) == seq![(v % 256) as u8] + rest);
    assert((v % 256) as u8 == v % 256);
}

/// Two values below `256^2` with the same two little-endian bytes are equal.
proof fn lemma_le_bytes_2_injective(a: nat, b: nat)
    requires
        a < 0x1_0000,
        b < 0x1_0000,
        le_bytes(a, 2) == le_bytes(b, 2),
    ensures
        a == b,
{
    lemma_le_bytes_index(a, 2);
    lemma_le_bytes_index(b, 2);
    lemma_le_bytes_index(a / 256, 1);
    lemma_le_bytes_index(b / 256, 1);
    assert(le_bytes(a, 2)[1] == le_bytes(b, 2)[1]);
    assert(le_bytes(a, 2)[1] == le_bytes(a / 256, 1)[0]);
    assert(le_bytes(b, 2)[1] == le_bytes(b / 256, 1)[0]);
    assert(a % 256 == b % 256);
    assert((a / 256) % 256 == (b / 256) % 256);
}

/// Two values below `256^4` with the same four little-endian bytes are equal.
proof fn lemma_le_bytes_4_injective(a: nat, b: nat)
    requires
        a < 0x1_0000_0000,
        b < 0x1_0000_0000,
        le_bytes(a, 4) == le_bytes(b, 4),
    ensures
        a == b,
{
    lemma_le_bytes_index(a, 4);
    lemma_le_bytes_index(b, 4);
    lemma_le_bytes_index(a / 256, 3);
    lemma_le_bytes_index(b / 256, 3);
    lemma_le_bytes_index(a / 256 / 256, 2);
    lemma_le_bytes_index(b / 256 / 256, 2);
    lemma_le_bytes_index(a / 256 / 256 / 256, 1);
    lemma_le_bytes_index(b / 256 / 256 / 256, 1);
    assert(le_bytes(a, 4)[1] == le_bytes(b, 4)[1]);
    assert(le_bytes(a, 4)[2] == le_bytes(b, 4)[2]);
    assert(le_bytes(a, 4)[3] == le_bytes(b, 4)[3]);
    assert(le_bytes(a, 4)[1] == le_bytes(a / 256, 3)[0]);
    assert(le_bytes(b, 4)[1] == le_bytes(b / 256, 3)[0]);
    assert(le_bytes(a, 4)[2] == le_bytes(a / 256, 3)[1]);
    assert(le_bytes(b, 4)[2] == le_bytes(b / 256, 3)[1]);
    assert(le_bytes(a, 4)[3] == le_bytes(a / 256, 3)[2]);
    assert(le_bytes(b, 4)[3] == le_bytes(b / 256, 3)[2]);
    assert(le_bytes(a / 256, 3)[1] == le_bytes(a / 256 / 256, 2)[0]);
    assert(le_bytes(b / 256, 3)[1] == le_bytes(b / 256 / 256, 2)[0]);
    assert(le_bytes(a / 256, 3)[2] == le_bytes(a / 256 / 256, 2)[1]);
    assert(le_bytes(b / 256, 3)[2] == le_bytes(b / 256 / 256, 2)[1]);
    assert(le_bytes(a / 256 / 256, 2)[1] == le_bytes(a / 256 / 256 / 256, 1)[0]);
    assert(le_bytes(b / 256 / 256, 2)[1] == le_bytes(b / 256 / 256 / 256, 1)[0]);
    assert(a % 256 == b % 256);
    assert((a / 256) % 256 == (b / 256) % 256);
    assert((a / 256 / 256) % 256 == (b / 256 / 256) % 256);
    assert((a / 256 / 256 / 256) % 256 == (b / 256 / 256 / 256) % 256);
}

/// Little-endian bytes spelled out: one, two and four bytes of `v`, least
/// significant first.
pub proof fn lemma_le_bytes_explicit(v: nat)
    ensures
        le_bytes(v, 1) == seq![(v % 256) as u8],
        le_bytes(v, 2) == seq![(v % 256) as u8, (v / 256 % 256) as u8],
        le_bytes(v, 4) == seq![
            (v % 256) as u8,
            (v / 256 % 256) as u8,
            (v / 256 / 256 % 256) as u8,
            (v / 256 / 256 / 256 % 256) as u8,
        ],
{
    lemma_le_bytes_index(v, 1);
    lemma_le_bytes_index(v, 2);
    lemma_le_bytes_index(v / 256, 1);
    lemma_le_bytes_index(v, 4);
    lemma_le_bytes_index(v / 256, 3);
    lemma_le_bytes_index(v / 256 / 256, 2);
    lemma_le_bytes_index(v / 256 / 256 / 256, 1);
    assert(le_bytes(v, 1) =~= seq![(v % 256) as u8]);
    assert(le_bytes(v, 2)[1] == le_bytes(v / 256, 1)[0]);
    assert(le_bytes(v, 2) =~= seq![(v % 256) as u8, (v / 256 % 256) as u8]);
    assert(le_bytes(v, 4)[1] == le_bytes(v / 256, 3)[0]);
    assert(le_bytes(v, 4)[2] == le_bytes(v / 256, 3)[1]);
    assert(le_bytes(v, 4)[3] == le_bytes(v / 256, 3)[2]);
    assert(le_bytes(v / 256, 3)[1] == le_bytes(v / 256 / 256, 2)[0]);
    assert(le_bytes(v / 256, 3)[2] == le_bytes(v / 256 / 256, 2)[1]);
    assert(le_bytes(v / 256 / 256, 2)[1] == le_bytes(v / 256 / 256 / 256, 1)[0]);
    assert(le_bytes(v, 4) =~= seq![
        (v % 256) as u8,
        (v / 256 % 256) as u8,
        (v / 256 / 256 % 256) as u8,
        (v / 256 / 256 / 256 % 256) as u8,
    ]);
}

/// The SCALE compact encoding of a `u32` byte by byte: below 2^6 the value
/// times four in one byte; below 2^14 the value times four plus one in two
/// little-endian bytes; below 2^30 the value times four plus two in four
/// little-endian bytes; above that the byte 3 and the value in four
/// little-endian bytes.
pub proof fn lemma_compact_u32_bytes(n: nat)
    requires
        n <= u32::MAX,
    ensures
        n < 0x40 ==> compact_u32(n) == seq![(n * 4) as u8],
        0x40 <= n < 0x4000 ==> compact_u32(n) == seq![((n * 4 + 1) % 256) as u8, ((n * 4 + 1) / 256) as u8],
        0x4000 <= n < 0x4000_0000 ==> compact_u32(n) == seq![
            ((n * 4 + 2) % 256) as u8,
            ((n * 4 + 2) / 256 % 256) as u8,
            ((n * 4 + 2) / 256 / 256 % 256) as u8,
            ((n * 4 + 2) / 256 / 256 / 256) as u8,
        ],
        0x4000_0000 <= n ==> compact_u32(n) == seq![
            3u8,
            (n % 256) as u8,
            (n / 256 % 256) as u8,
            (n / 256 / 256 % 256) as u8,
            (n / 256 / 256 / 256) as u8,
        ],
{
    if n < 0x40 {
        lemma_le_bytes_explicit(n * 4);
        assert((n * 4) % 256 == n * 4);
    } else if n < 0x4000 {
        let m = n * 4 + 1;
        lemma_le_bytes_explicit(m);
        assert(m / 256 < 256);
        assert(m / 256 % 256 == m / 256);
    } else if n < 0x4000_0000 {
        let m = n * 4 + 2;
        lemma_le_bytes_explicit(m);
        assert(m / 256 / 256 / 256 < 256);
        assert(m / 256 / 256 / 256 % 256 == m / 256 / 256 / 256);
    } else {
        lemma_le_bytes_explicit(n);
        assert(n / 256 / 256 / 256 < 256);
        assert(n / 256 / 256 / 256 % 256 == n / 256 / 256 / 256);
        assert(compact_u32(n) =~= seq![
            3u8,
            (n % 256) as u8,
            (n / 256 % 256) as u8,
            (n / 256 / 256 % 256) as u8,
            (n / 256 / 256 / 256 % 256) as u8,
        ]);
    }
}

/// The layout of an encoded HKDF label: the length field's low byte, then
/// its high byte (little endian), then the compact length of the label, the
/// label, the compact length of the context and the context.
pub proof fn lemma_hkdf_label_bytes_layout(length: u16, label: Seq<u8>, context: Seq<u8>)
    ensures
        hkdf_label_bytes(length, label, context)[0] == (length % 256) as u8,
        hkdf_label_bytes(length, label, context)[1] == (length / 256) as u8,
        hkdf_label_bytes(length, label, context).subrange(2, hkdf_label_bytes(length, label, context).len() as int)
            == compact_u32(label.len()) + label + compact_u32(context.len()) + context,
{
    lemma_le_bytes_explicit(length as nat);
    let e = hkdf_label_bytes(length, label, context);
    assert(e =~= seq![(length % 256) as u8, (length / 256 % 256) as u8]
        + (compact_u32(label.len()) + label + compact_u32(context.len()) + context));
    assert(e.subrange(2, e.len() as int) =~= compact_u32(label.len()) + label + compact_u32(context.len()) + context);
}

/// The two low bits of the first byte of a compact encoding give its mode.
proof fn lemma_compact_u32_mode(n: nat)
    ensures
        compact_u32(n)[0] % 4 == (if n < 0x40 {
            0u8
        } else if n < 0x4000 {
            1u8
        } else if n < 0x4000_0000 {
            2u8
        } else {
            3u8
        }),
{
    reveal_with_fuel(le_bytes, 2);
}

/// A compact length is read back unambiguously from the front of any byte
/// string that starts with it: the SCALE framing of a byte string is a
/// prefix-free code.
pub proof fn lemma_compact_u32_prefix_free(a: nat, b: nat, x: Seq<u8>, y: Seq<u8>)
    requires
        a <= u32::MAX,
        b <= u32::MAX,
        compact_u32(a) + x == compact_u32(b) + y,
    ensures
        a == b,
        x == y,
{
    lemma_compact_u32_len(a);
    lemma_compact_u32_len(b);
    lemma_compact_u32_mode(a);
    lemma_compact_u32_mode(b);
    lemma_le_bytes_len(a * 4, 1);
    lemma_le_bytes_len(a * 4 + 1, 2);
    lemma_le_bytes_len(a * 4 + 2, 4);
    lemma_le_bytes_len(a, 4);
    lemma_le_bytes_len(b * 4, 1);
    lemma_le_bytes_len(b * 4 + 1, 2);
    lemma_le_bytes_len(b * 4 + 2, 4);
    lemma_le_bytes_len(b, 4);
    let ca = compact_u32(a);
    let cb = compact_u32(b);
    assert((ca + x)[0] == ca[0]);
    assert((cb + y)[0] == cb[0]);
    assert(ca.len() == cb.len());
    assert(ca =~= (ca + x).subrange(0, ca.len() as int));
    assert(cb =~= (cb + y).subrange(0, cb.len() as int));
    assert(ca == cb);
    assert(x =~= (ca + x).subrange(ca.len() as int, (ca + x).len() as int));
    assert(y =~= (cb + y).subrange(cb.len() as int, (cb + y).len() as int));
    if a < 0x40 {
        reveal_with_fuel(le_bytes, 2);
        assert(ca[0] == cb[0]);
    } else if a < 0x4000 {
        lemma_le_bytes_2_injective(a * 4 + 1, b * 4 + 1);
    } else if a < 0x4000_0000 {
        lemma_le_bytes_4_injective(a * 4 + 2, b * 4 + 2);
    } else {
        assert(le_bytes(a, 4) =~= ca.subrange(1, 5));
        assert(le_bytes(b, 4) =~= cb.subrange(1, 5));
        lemma_le_bytes_4_injective(a, b);
    }
}

/// The SCALE encoding of an HKDF label determines its fields: two labels
/// whose byte strings fit a `u32` length encode alike only when their
/// length, label and context are all equal.
pub proof fn lemma_hkdf_label_bytes_injective(
    length1: u16,
    label1: Seq<u8>,
    context1: Seq<u8>,
    length2: u16,
    label2: Seq<u8>,
    context2: Seq<u8>,
)
    requires
        label1.len() <= u32::MAX,
        context1.len() <= u32::MAX,
        label2.len() <= u32::MAX,
        context2.len() <= u32::MAX,
        hkdf_label_bytes(length1, label1, context1) == hkdf_label_bytes(length2, label2, context2),
    ensures
        length1 == length2,
        label1 == label2,
        context1 == context2,
{
    let e1 = hkdf_label_bytes(length1, label1, context1);
    let h1 = le_bytes(length1 as nat, 2);
    let h2 = le_bytes(length2 as nat, 2);
    lemma_le_bytes_len(length1 as nat, 2);
    lemma_le_bytes_len(length2 as nat, 2);
    let r1 = compact_u32(label1.len()) + (label1 + scale_bytes(context1));
    let r2 = compact_u32(label2.len()) + (label2 + scale_bytes(context2));
    assert(e1 =~= h1 + r1);
    assert(hkdf_label_bytes(length2, label2, context2) =~= h2 + r2);
    assert(h1 =~= e1.subrange(0, 2));
    assert(h2 =~= e1.subrange(0, 2));
    lemma_le_bytes_2_injective(length1 as nat, length2 as nat);
    assert(r1 =~= e1.subrange(2, e1.len() as int));
    assert(r2 =~= e1.subrange(2, e1.len() as int));
    lemma_compact_u32_prefix_free(label1.len(), label2.len(), label1 + scale_bytes(context1), label2 + scale_bytes(context2));
    let t = label1 + scale_bytes(context1);
    assert(label1 =~= t.subrange(0, label1.len() as int));
    assert(label2 =~= t.subrange(0, label1.len() as int));
    assert(scale_bytes(context1) =~= t.subrange(label1.len() as int, t.len() as int));
    assert(scale_bytes(context2) =~= t.subrange(label1.len() as int, t.len() as int));
    lemma_compact_u32_prefix_free(context1.len(), context2.len(), context1, context2);
}

/// The `info` that HKDF-Expand-Label hands to HKDF-Expand: the length of the
/// output wanted, the label and the context.
pub struct HkdfLabel<'a> {
    pub length: u16,
    pub label: &'a [u8],
    pub context: &'a [u8],
}

impl<'a> HkdfLabel<'a> {
    /// The bytes that `encode` produces for this label.
    pub open spec fn encoding(&self) -> Seq<u8> {
        hkdf_label_bytes(self.length, self.label@, self.context@)
    }

    /// SCALE encoding of the label: `length`, then `label`, then `context`.
    pub fn encode(&self) -> (out: Vec<u8>)
        requires
            self.label@.len() <= u32::MAX,
            self.context@.len() <= u32::MAX,
        ensures
            out@ == self.encoding(),
            out@[0] == (self.length % 256) as u8,
            out@[1] == (self.length / 256) as u8,
            out@.subrange(2, out@.len() as int) == compact_u32(self.label@.len()) + self.label@
                + compact_u32(self.context@.len()) + self.context@,
    {
        let mut out = scale_encode_u16(self.length);
        let mut label = scale_encode_bytes(self.label);
        let mut context = scale_encode_bytes(self.context);
        out.append(&mut label);
        out.append(&mut context);
        proof {
            lemma_hkdf_label_bytes_layout(self.length, self.label@, self.context@);
        }
        out
    }
}

} // verus!
