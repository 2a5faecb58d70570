//! Little-endian fixed-width decoding from a byte image. This is the only
//! place byte order is interpreted.

use vstd::prelude::*;

verus! {

/// The value of the two bytes at `i` read little-endian.
pub open spec fn le16(s: Seq<u8>, i: int) -> int {
    s[i] + 0x100 * s[i + 1]
}

/// The value of the four bytes at `i` read little-endian.
pub open spec fn le32(s: Seq<u8>, i: int) -> int {
    s[i] + 0x100 * s[i + 1] + 0x1_0000 * s[i + 2] + 0x100_0000 * s[i + 3]
}

/// A 64-bit quantity split on disk into a low and a high 32-bit half.
pub open spec fn spec_u64(lower: u32, high: u32) -> int {
    0x1_0000_0000 * high + lower
}

pub fn read_u16(data: &Vec<u8>, i: usize) -> (r: u16)
    requires
        i + 2 <= data@.len(),
    ensures
        r == le16(data@, i as int),
{
    let n = data.len();
    assert(i + 2 <= n);
    let b0 = data[i] as u16;
    let b1 = data[i + 1] as u16;
    b0 + b1 * 0x100
}

pub fn read_u32(data: &Vec<u8>, i: usize) -> (r: u32)
    requires
        i + 4 <= data@.len(),
    ensures
        r == le32(data@, i as int),
{
    let n = data.len();
    assert(i + 4 <= n);
    let b0 = data[i] as u32;
    let b1 = data[i + 1] as u32;
    let b2 = data[i + 2] as u32;
    let b3 = data[i + 3] as u32;
    b0 + b1 * 0x100 + b2 * 0x1_0000 + b3 * 0x100_0000
}

pub fn read_u8(data: &Vec<u8>, i: usize) -> (r: u8)
    requires
        i < data@.len(),
    ensures
        r == data@[i as int],
{
    data[i]
}

/// Combine the two halves of a split 64-bit field: `(high << 32) | lower`.
pub fn compute_u64(lower: u32, high: u32) -> (r: u64)
    ensures
        r == spec_u64(lower, high),
{
    (high as u64) * 0x1_0000_0000 + (lower as u64)
}

} // verus!
