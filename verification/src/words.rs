//! Packing and unpacking of 16 bit halves of 32 bit message parameters.
use vstd::prelude::*;

verus! {

/// Combines a low and a high 16 bit half into one 32 bit value.
#[allow(non_snake_case)]
pub fn MAKELONG(lo: u16, hi: u16) -> (r: u32)
    ensures
        r == lo + hi * 0x10000,
{
    let r = (lo as u32) | ((hi as u32) << 16u32);
    assert(((lo as u32) | ((hi as u32) << 16u32)) == lo + hi * 0x10000) by (bit_vector);
    r
}

/// The low 16 bits of a 32 bit value.
#[allow(non_snake_case)]
pub fn LOWORD(l: u32) -> (r: u16)
    ensures
        r == l % 0x10000,
{
    assert((l & 0xffff) == l % 0x10000) by (bit_vector);
    (l & 0xffff) as u16
}

/// The high 16 bits of a 32 bit value.
#[allow(non_snake_case)]
pub fn HIWORD(l: u32) -> (r: u16)
    ensures
        r == l / 0x10000,
{
    assert(((l >> 16u32) & 0xffff) == l / 0x10000) by (bit_vector);
    ((l >> 16u32) & 0xffff) as u16
}

/// Splitting a packed value gives back the halves it was made of.
pub proof fn lemma_makelong_roundtrip(lo: u16, hi: u16)
    ensures
        (lo + hi * 0x10000) % 0x10000 == lo,
        (lo + hi * 0x10000) / 0x10000 == hi,
{
}

} // verus!
