//! Big-endian byte layouts of fixed-width integers.
use vstd::prelude::*;

verus! {

/// Big-endian bytes of a 16-bit value.
pub open spec fn be16(v: u16) -> Seq<u8> {
    seq![(v / 256) as u8, (v % 256) as u8]
}

/// The 16-bit value of two big-endian bytes.
pub open spec fn be16_value(hi: u8, lo: u8) -> u16 {
    (hi * 256 + lo) as u16
}

/// Big-endian bytes of a 32-bit value.
pub open spec fn be32(v: u32) -> Seq<u8> {
    seq![
        (v / 0x100_0000) as u8,
        ((v / 0x1_0000) % 256) as u8,
        ((v / 256) % 256) as u8,
        (v % 256) as u8,
    ]
}

/// The 32-bit value of four big-endian bytes.
pub open spec fn be32_value(b0: u8, b1: u8, b2: u8, b3: u8) -> u32 {
    (b0 * 0x100_0000 + b1 * 0x1_0000 + b2 * 256 + b3) as u32
}

/// The bytes of `be16` are the quotient and remainder by 256, and read back
/// as the value.
pub proof fn lemma_be16(v: u16)
    ensures
        (v / 256) as u8 == v / 256,
        (v % 256) as u8 == v % 256,
        be16_value((v / 256) as u8, (v % 256) as u8) == v,
{
    assert((v / 256) as u8 == v / 256 && (v % 256) as u8 == v % 256) by (bit_vector);
}

/// Two bytes read as a value and written again give the same bytes.
pub proof fn lemma_be16_value(hi: u8, lo: u8)
    ensures
        be16(be16_value(hi, lo)) == seq![hi, lo],
        be16_value(hi, lo) == (hi as u16) * 256 + lo as u16,
{
    let v = be16_value(hi, lo);
    assert(((hi * 256 + lo) as u16) / 256 == hi && ((hi * 256 + lo) as u16) % 256 == lo)
        by (bit_vector);
    lemma_be16(v);
    assert(be16(v) =~= seq![hi, lo]);
}

/// Writing a 32-bit value and reading it back gives the value.
pub proof fn lemma_be32(v: u32)
    ensures
        be32(v).len() == 4,
        be32_value(be32(v)[0], be32(v)[1], be32(v)[2], be32(v)[3]) == v,
{
    assert(be32_value(
        (v / 0x100_0000) as u8,
        ((v / 0x1_0000) % 256) as u8,
        ((v / 256) % 256) as u8,
        (v % 256) as u8,
    ) == v) by (bit_vector);
}

} // verus!
