//! Big-endian byte encodings of integers.

use vstd::prelude::*;

verus! {

/// Big-endian bytes of `x`.
pub open spec fn be_bytes(x: u32) -> Seq<u8> {
    seq![(x / 0x100_0000) as u8, (x / 0x1_0000 % 0x100) as u8, (x / 0x100 % 0x100) as u8, (x % 0x100) as u8]
}

/// The value of four big-endian bytes.
pub open spec fn be_value(a: u8, b: u8, c: u8, d: u8) -> u32 {
    (a * 0x100_0000 + b * 0x1_0000 + c * 0x100 + d) as u32
}

/// Appends the big-endian bytes of `x`.
pub fn push_be32(v: &mut Vec<u8>, x: u32)
    ensures
        final(v)@ == old(v)@ + be_bytes(x),
{
    v.push((x / 0x100_0000) as u8);
    v.push((x / 0x1_0000 % 0x100) as u8);
    v.push((x / 0x100 % 0x100) as u8);
    v.push((x % 0x100) as u8);
    proof {
        assert(final(v)@ =~= old(v)@ + be_bytes(x));
    }
}

/// The big-endian word at `at`.
pub fn be_read(s: &[u8], at: usize) -> (r: u32)
    requires
        at + 4 <= s@.len(),
    ensures
        r == be_value(s@[at as int], s@[at + 1], s@[at + 2], s@[at + 3]),
{
    (s[at] as u32) * 0x100_0000 + (s[at + 1] as u32) * 0x1_0000 + (s[at + 2] as u32) * 0x100 + (
    s[at + 3] as u32)
}

/// Reading back the big-endian bytes of `x` gives `x`.
pub proof fn lemma_be_roundtrip(x: u32)
    ensures
        be_value(be_bytes(x)[0], be_bytes(x)[1], be_bytes(x)[2], be_bytes(x)[3]) == x,
{
    assert((x / 0x100_0000) as u8 * 0x100_0000 + (x / 0x1_0000 % 0x100) as u8 * 0x1_0000 + (x
        / 0x100 % 0x100) as u8 * 0x100 + (x % 0x100) as u8 == x) by (bit_vector);
}

} // verus!
