//! Helpers for building and slicing byte buffers.

use vstd::prelude::*;

verus! {

/// The octet that carries `high` in its high nibble and `low` in its low
/// nibble; bits of either above the nibble are dropped.
pub open spec fn nibble_pair(high: u8, low: u8) -> u8 {
    ((high % 16) * 16 + low % 16) as u8
}

/// The two nibbles read back from their octet.
pub proof fn lemma_nibble_pair(high: u8, low: u8)
    ensures
        nibble_pair(high, low) / 16 == high % 16,
        nibble_pair(high, low) % 16 == low % 16,
{
    let a = high % 16;
    let b = low % 16;
    assert((a * 16 + b) / 16 == a && (a * 16 + b) % 16 == b && a * 16 + b < 256) by (nonlinear_arith)
        requires
            0 <= a < 16,
            0 <= b < 16,
    ;
}

/// The octet for two nibbles.
pub(crate) fn make_nibble_pair(high: u8, low: u8) -> (r: u8)
    ensures
        r == nibble_pair(high, low),
{
    proof {
        lemma_nibble_pair(high, low);
    }
    (high % 16) * 16 + low % 16
}

/// Append the bytes of `src` to `buf`.
pub(crate) fn append_bytes(buf: &mut Vec<u8>, src: &[u8])
    ensures
        final(buf)@ == old(buf)@ + src@,
{
    let ghost start = buf@;
    let mut i: usize = 0;
    while i < src.len()
        invariant
            i <= src.len(),
            buf@ == start + src@.take(i as int),
        decreases src.len() - i,
    {
        buf.push(src[i]);
        i += 1;
        assert(buf@ =~= start + src@.take(i as int));
    }
    assert(src@.take(i as int) =~= src@);
}

/// A fresh vector holding `bytes[start..end]`.
pub(crate) fn copy_range(bytes: &[u8], start: usize, end: usize) -> (v: Vec<u8>)
    requires
        start <= end <= bytes@.len(),
    ensures
        v@ == bytes@.subrange(start as int, end as int),
{
    let mut v: Vec<u8> = Vec::new();
    append_bytes(&mut v, vstd::slice::slice_subrange(bytes, start, end));
    assert(v@ =~= bytes@.subrange(start as int, end as int));
    v
}

} // verus!
