//! Plaintext framing of encrypted instructions.

use vstd::prelude::*;

verus! {

/// `n` zero bytes.
pub open spec fn zeros(n: nat) -> Seq<u8> {
    Seq::new(n, |i: int| 0u8)
}

/// `zeros(n)` is `n` bytes, each of them zero.
pub proof fn lemma_zeros(n: nat)
    ensures
        zeros(n).len() == n,
        forall|i: int| 0 <= i < n ==> #[trigger] zeros(n)[i] == 0u8,
{
}

/// Pads `buf` with zero bytes up to `max_mem_size` bytes, so that the
/// ciphertexts of all state types have the same size and nobody can tell
/// from its size which state a ciphertext holds.
pub fn append_padding(buf: &mut Vec<u8>, max_mem_size: usize)
    requires
        old(buf)@.len() <= max_mem_size,
    ensures
        final(buf)@ == old(buf)@ + zeros((max_mem_size - old(buf)@.len()) as nat),
        final(buf)@.len() == max_mem_size,
        forall|i: int| 0 <= i < old(buf)@.len() ==> final(buf)@[i] == old(buf)@[i],
        forall|i: int| old(buf)@.len() <= i < max_mem_size ==> final(buf)@[i] == 0u8,
{
    let padding_size = max_mem_size - buf.len();
    let ghost original = buf@;
    let mut i: usize = 0;
    while i < padding_size
        invariant
            i <= padding_size,
            padding_size == max_mem_size - original.len(),
            buf@ == original + zeros(i as nat),
        decreases padding_size - i,
    {
        buf.push(0u8);
        i = i + 1;
        assert(buf@ == original + zeros(i as nat));
    }
    proof {
        lemma_zeros((padding_size) as nat);
    }
}

} // verus!
