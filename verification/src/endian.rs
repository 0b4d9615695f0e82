//! Little-endian integer fields read out of raw byte buffers.
use vstd::prelude::*;

verus! {

/// The unsigned integer stored little-endian in the two bytes at `i`.
pub open spec fn le16_spec(b: Seq<u8>, i: int) -> int {
    b[i] + 0x100 * b[i + 1]
}

/// The unsigned integer stored little-endian in the four bytes at `i`.
pub open spec fn le32_spec(b: Seq<u8>, i: int) -> int {
    b[i] + 0x100 * b[i + 1] + 0x1_0000 * b[i + 2] + 0x100_0000 * b[i + 3]
}

/// Reads the little-endian 16-bit field at byte offset `i` of `b`.
pub fn read_le16(b: &Vec<u8>, i: usize) -> (r: u16)
    requires
        i + 2 <= b@.len(),
    ensures
        r == le16_spec(b@, i as int),
{
    let n = b.len();
    assert(i + 2 <= n);
    b[i] as u16 + 0x100 * b[i + 1] as u16
}

/// Reads the little-endian 32-bit field at byte offset `i` of `b`.
pub fn read_le32(b: &Vec<u8>, i: usize) -> (r: u32)
    requires
        i + 4 <= b@.len(),
    ensures
        r == le32_spec(b@, i as int),
{
    let n = b.len();
    assert(i + 4 <= n);
    b[i] as u32 + 0x100 * b[i + 1] as u32 + 0x1_0000 * b[i + 2] as u32 + 0x100_0000 * b[i
        + 3] as u32
}

} // verus!
