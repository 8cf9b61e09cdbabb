//! Little-endian field extraction from a byte buffer.

use vstd::prelude::*;

verus! {

/// The value of the 2 bytes at `off`, least significant byte first.
pub open spec fn le_u16(s: Seq<u8>, off: int) -> int
    recommends
        0 <= off,
        off + 2 <= s.len(),
{
    s[off] + 0x100 * s[off + 1]
}

/// The value of the 4 bytes at `off`, least significant byte first.
pub open spec fn le_u32(s: Seq<u8>, off: int) -> int
    recommends
        0 <= off,
        off + 4 <= s.len(),
{
    s[off] + 0x100 * s[off + 1] + 0x1_0000 * s[off + 2] + 0x100_0000 * s[off + 3]
}

/// The value of the 8 bytes at `off`, least significant byte first.
pub open spec fn le_u64(s: Seq<u8>, off: int) -> int
    recommends
        0 <= off,
        off + 8 <= s.len(),
{
    le_u32(s, off) + 0x1_0000_0000 * le_u32(s, off + 4)
}

/// Reads the little-endian `u16` stored at `buf[off..off + 2]`.
pub fn read_le_u16(buf: &[u8], off: usize) -> (r: u16)
    requires
        off + 2 <= buf.len(),
    ensures
        r as int == le_u16(buf@, off as int),
{
    let b0: u16 = buf[off] as u16;
    let b1: u16 = buf[off + 1] as u16;
    b0 + b1 * 0x100
}

/// Reads the little-endian `u32` stored at `buf[off..off + 4]`.
pub fn read_le_u32(buf: &[u8], off: usize) -> (r: u32)
    requires
        off + 4 <= buf.len(),
    ensures
        r as int == le_u32(buf@, off as int),
{
    let b0: u32 = buf[off] as u32;
    let b1: u32 = buf[off + 1] as u32;
    let b2: u32 = buf[off + 2] as u32;
    let b3: u32 = buf[off + 3] as u32;
    b0 + b1 * 0x100 + b2 * 0x1_0000 + b3 * 0x100_0000
}

/// Reads the little-endian `u64` stored at `buf[off..off + 8]`.
pub fn read_le_u64(buf: &[u8], off: usize) -> (r: u64)
    requires
        off + 8 <= buf.len(),
    ensures
        r as int == le_u64(buf@, off as int),
{
    let lo: u64 = read_le_u32(buf, off) as u64;
    let hi: u64 = read_le_u32(buf, off + 4) as u64;
    lo + hi * 0x1_0000_0000
}

} // verus!
