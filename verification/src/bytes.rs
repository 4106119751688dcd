//! Little-endian readers for the byte-level table formats the boot path
//! parses.

use vstd::prelude::*;

verus! {

/// The little-endian 16-bit value at `off`.
pub open spec fn le16(bytes: Seq<u8>, off: int) -> int {
    bytes[off] + bytes[off + 1] * 0x100
}

/// The little-endian 32-bit value at `off`.
pub open spec fn le32(bytes: Seq<u8>, off: int) -> int {
    bytes[off] + bytes[off + 1] * 0x100 + bytes[off + 2] * 0x1_0000 + bytes[off + 3] * 0x100_0000
}

/// The little-endian 64-bit value at `off`.
pub open spec fn le64(bytes: Seq<u8>, off: int) -> int {
    le32(bytes, off) + le32(bytes, off + 4) * 0x1_0000_0000
}

/// Read the little-endian 16-bit value at `off`.
pub fn read_le16(bytes: &Vec<u8>, off: usize) -> (r: u16)
    requires
        off + 2 <= bytes@.len(),
    ensures
        r == le16(bytes@, off as int),
{
    let n = bytes.len();
    proof {
        assert(off + 2 <= n);
    }
    (bytes[off] as u16) + (bytes[off + 1] as u16) * 0x100
}

/// Read the little-endian 32-bit value at `off`.
pub fn read_le32(bytes: &Vec<u8>, off: usize) -> (r: u32)
    requires
        off + 4 <= bytes@.len(),
    ensures
        r == le32(bytes@, off as int),
{
    let n = bytes.len();
    proof {
        assert(off + 4 <= n);
    }
    (bytes[off] as u32) + (bytes[off + 1] as u32) * 0x100 + (bytes[off + 2] as u32) * 0x1_0000 + (
    bytes[off + 3] as u32) * 0x100_0000
}

/// Read the little-endian 64-bit value at `off`.
pub fn read_le64(bytes: &Vec<u8>, off: usize) -> (r: u64)
    requires
        off + 8 <= bytes@.len(),
    ensures
        r == le64(bytes@, off as int),
{
    let n = bytes.len();
    proof {
        assert(off + 8 <= n);
    }
    let lo = read_le32(bytes, off);
    let hi = read_le32(bytes, off + 4);
    proof {
        assert(le32(bytes@, off as int) < 0x1_0000_0000 && le32(bytes@, off + 4) < 0x1_0000_0000);
    }
    (lo as u64) + (hi as u64) * 0x1_0000_0000
}

} // verus!
