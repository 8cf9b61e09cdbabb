//! The metadata extractor.
//!
//! The OEM region follows the header and the common and QTI regions that the
//! header declares. Its first 12 bytes hold the version triple: major, minor
//! and anti-rollback counter, each a little-endian `u32`.

use vstd::prelude::*;
use crate::bytes::{le_u32, read_le_u32};
use crate::header_scan::{
    find_hash_header, first_header, first_header_at, HASH_HDR_SIZE, MAX_VERSION,
    lemma_found_header_below_ceiling,
};

verus! {

/// Size in bytes of the version triple.
pub const OEM_TRIPLE_SIZE: usize = 12;

/// Upper bound on a sane anti-rollback counter.
pub const MAX_ARB: u32 = 127;

/// The recovered version triple, with the place it was found at.
#[derive(Clone, Copy, Debug, PartialEq, Eq)]
pub struct HashInfo {
    pub oem_major: u32,
    pub oem_minor: u32,
    pub oem_arb: u32,
    /// File offset of the segment that held the header.
    pub used_seg_off: u64,
    /// Offset of the header within that segment.
    pub used_header_off: usize,
}

impl HashInfo {
    /// Each value lies within its sanity bound.
    pub open spec fn wf(&self) -> bool {
        &&& self.oem_major <= MAX_VERSION
        &&& self.oem_minor <= MAX_VERSION
        &&& self.oem_arb <= MAX_ARB
    }
}

/// Where the OEM region starts, for a header at `h`: right after the header
/// and the common and QTI regions.
pub open spec fn oem_region_offset(seg: Seq<u8>, h: int) -> int {
    h + HASH_HDR_SIZE + le_u32(seg, h + 4) + le_u32(seg, h + 8)
}

/// The version triple that a header at `h` leads to, if the triple lies
/// within the segment and its values are sane.
pub open spec fn metadata_at(seg: Seq<u8>, seg_off: u64, h: int) -> Option<HashInfo> {
    let oem_off = oem_region_offset(seg, h);
    if 0 <= h && h + HASH_HDR_SIZE <= seg.len() && oem_off + OEM_TRIPLE_SIZE <= seg.len()
        && le_u32(seg, oem_off) <= MAX_VERSION && le_u32(seg, oem_off + 4) <= MAX_VERSION
        && le_u32(seg, oem_off + 8) <= MAX_ARB {
        Some(
            HashInfo {
                oem_major: le_u32(seg, oem_off) as u32,
                oem_minor: le_u32(seg, oem_off + 4) as u32,
                oem_arb: le_u32(seg, oem_off + 8) as u32,
                used_seg_off: seg_off,
                used_header_off: h as usize,
            },
        )
    } else {
        None
    }
}

/// What one segment yields: the triple behind its first header. A segment
/// without a header yields nothing, and so does one whose first header leads
/// to a triple that is cut off or out of range; no later offset is tried.
pub open spec fn segment_metadata(seg: Seq<u8>, seg_off: u64) -> Option<HashInfo> {
    match first_header(seg) {
        Some(h) => metadata_at(seg, seg_off, h),
        None => None,
    }
}

/// Computes the start of the OEM region for the header at `header_off`, or
/// `None` when the header itself or the 12 bytes of the triple do not lie
/// within the segment.
pub fn locate_oem_region(seg: &[u8], header_off: usize) -> (r: Option<usize>)
    ensures
        r matches Some(oem_off) ==> oem_off as int == oem_region_offset(seg@, header_off as int),
        r is Some <==> header_off + HASH_HDR_SIZE <= seg.len() && oem_region_offset(
            seg@,
            header_off as int,
        ) + OEM_TRIPLE_SIZE <= seg.len(),
{
    let seg_len: usize = seg.len();
    if seg_len < HASH_HDR_SIZE || header_off > seg_len - HASH_HDR_SIZE {
        return None;
    }
    let common_sz: u64 = read_le_u32(seg, header_off + 4) as u64;
    let qti_sz: u64 = read_le_u32(seg, header_off + 8) as u64;
    let room: u64 = (seg_len - HASH_HDR_SIZE - header_off) as u64;
    if common_sz + qti_sz + OEM_TRIPLE_SIZE as u64 > room {
        return None;
    }
    Some(header_off + HASH_HDR_SIZE + (common_sz + qti_sz) as usize)
}

/// Reads and validates the version triple behind the header at
/// `header_off`. The match is discarded, not reported as an error, when the
/// triple is cut off by the end of the segment or a value is out of range.
pub fn extract_at_header(seg: &[u8], seg_off: u64, header_off: usize) -> (r: Option<HashInfo>)
    ensures
        r == metadata_at(seg@, seg_off, header_off as int),
        r matches Some(info) ==> info.wf(),
{
    let oem_off: usize = match locate_oem_region(seg, header_off) {
        Some(o) => o,
        None => {
            return None;
        },
    };
    let major: u32 = read_le_u32(seg, oem_off);
    let minor: u32 = read_le_u32(seg, oem_off + 4);
    let arb: u32 = read_le_u32(seg, oem_off + 8);
    if major > MAX_VERSION || minor > MAX_VERSION || arb > MAX_ARB {
        return None;
    }
    Some(
        HashInfo {
            oem_major: major,
            oem_minor: minor,
            oem_arb: arb,
            used_seg_off: seg_off,
            used_header_off: header_off,
        },
    )
}

/// Scans one fully buffered segment for the header and extracts the version
/// triple behind it. `seg_off` is the segment's offset in the file and is
/// only recorded in the result.
pub fn try_extract_hash_info(seg_data: &[u8], seg_off: u64) -> (r: Option<HashInfo>)
    ensures
        r == segment_metadata(seg_data@, seg_off),
        r matches Some(info) ==> {
            &&& info.wf()
            &&& info.used_seg_off == seg_off
            &&& first_header_at(seg_data@, info.used_header_off as int)
        },
{
    match find_hash_header(seg_data) {
        Some(header_off) => extract_at_header(seg_data, seg_off, header_off),
        None => None,
    }
}

/// A segment that holds an accepted header at its first scanned match `h`,
/// and a sane triple behind it, yields exactly that triple.
pub proof fn lemma_embedded_triple_recovered(
    seg: Seq<u8>,
    seg_off: u64,
    h: int,
    major: u32,
    minor: u32,
    arb: u32,
)
    requires
        first_header_at(seg, h),
        oem_region_offset(seg, h) + OEM_TRIPLE_SIZE <= seg.len(),
        le_u32(seg, oem_region_offset(seg, h)) == major,
        le_u32(seg, oem_region_offset(seg, h) + 4) == minor,
        le_u32(seg, oem_region_offset(seg, h) + 8) == arb,
        major <= MAX_VERSION,
        minor <= MAX_VERSION,
        arb <= MAX_ARB,
    ensures
        segment_metadata(seg, seg_off) == Some(
            HashInfo {
                oem_major: major,
                oem_minor: minor,
                oem_arb: arb,
                used_seg_off: seg_off,
                used_header_off: h as usize,
            },
        ),
{
    crate::header_scan::lemma_first_header_is(seg, h);
}

/// Whatever a segment yields is sane and was read behind the segment's
/// first header.
pub proof fn lemma_segment_metadata_sound(seg: Seq<u8>, seg_off: u64)
    requires
        segment_metadata(seg, seg_off) is Some,
    ensures
        segment_metadata(seg, seg_off)->0.wf(),
        segment_metadata(seg, seg_off)->0.used_seg_off == seg_off,
        first_header_at(seg, segment_metadata(seg, seg_off)->0.used_header_off as int),
        segment_metadata(seg, seg_off)->0.used_header_off < crate::header_scan::HASH_SCAN_MAX,
{
    let h = first_header(seg)->0;
    lemma_found_header_below_ceiling(seg, h);
}

} // verus!
