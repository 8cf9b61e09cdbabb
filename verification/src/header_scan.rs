//! The heuristic header scanner.
//!
//! The region that holds the OEM metadata starts with a 36-byte header of
//! little-endian `u32` fields. Nothing marks it: a header is recognised only
//! by its first five fields being plausible. The scanner walks the first
//! 4 KiB of a segment in steps of 4 bytes and reports the first offset whose
//! fields pass.

use vstd::prelude::*;
use crate::bytes::{le_u32, read_le_u32};

verus! {

/// Size in bytes of the fixed-layout header.
pub const HASH_HDR_SIZE: usize = 36;

/// Only offsets below this bound are scanned for a header.
pub const HASH_SCAN_MAX: usize = 0x1000;

/// Distance between two scanned offsets: the header is 4-byte aligned.
pub const HASH_SCAN_STRIDE: usize = 4;

pub const MIN_VERSION: u32 = 1;

pub const MAX_VERSION: u32 = 1000;

pub const MAX_COMMON_SZ: u32 = 0x1000;

pub const MAX_QTI_SZ: u32 = 0x1000;

pub const MAX_OEM_SZ: u32 = 0x4000;

pub const MAX_HASH_TBL_SZ: u32 = 0x10000;

/// The first five fields of a header, as decoded at `offset` in a segment.
#[derive(Clone, Copy, Debug, PartialEq, Eq)]
pub struct CandidateHeader {
    pub version: u32,
    pub common_size: u32,
    pub qti_size: u32,
    pub oem_size: u32,
    pub hash_table_size: u32,
    pub offset: usize,
}

impl CandidateHeader {
    /// Every field lies in its sanity range. A zero hash-table size is
    /// never sane; any other size up to 64 KiB is, whether or not it is a
    /// multiple of 32.
    pub open spec fn fields_sane(&self) -> bool {
        &&& MIN_VERSION <= self.version <= MAX_VERSION
        &&& self.common_size <= MAX_COMMON_SZ
        &&& self.qti_size <= MAX_QTI_SZ
        &&& self.oem_size <= MAX_OEM_SZ
        &&& 1 <= self.hash_table_size <= MAX_HASH_TBL_SZ
    }

    /// The header and the three regions it declares end within a segment of
    /// `seg_len` bytes.
    pub open spec fn fits(&self, seg_len: int) -> bool {
        self.offset + HASH_HDR_SIZE + self.common_size + self.qti_size + self.oem_size <= seg_len
    }

    /// The invariant of an accepted header.
    pub open spec fn plausible(&self, seg_len: int) -> bool {
        self.fields_sane() && self.fits(seg_len)
    }

    /// Decides whether this header is accepted in a segment of `seg_len`
    /// bytes.
    pub fn is_plausible(&self, seg_len: usize) -> (b: bool)
        ensures
            b == self.plausible(seg_len as int),
            self.hash_table_size == 0 ==> !b,
    {
        if self.version < MIN_VERSION || self.version > MAX_VERSION {
            return false;
        }
        if self.common_size > MAX_COMMON_SZ || self.qti_size > MAX_QTI_SZ || self.oem_size
            > MAX_OEM_SZ {
            return false;
        }
        if self.hash_table_size == 0 || self.hash_table_size > MAX_HASH_TBL_SZ {
            return false;
        }
        if self.offset > seg_len {
            return false;
        }
        let regions: u64 = HASH_HDR_SIZE as u64 + self.common_size as u64 + self.qti_size as u64
            + self.oem_size as u64;
        regions <= (seg_len - self.offset) as u64
    }
}

/// The header fields that the bytes at `off` spell.
pub open spec fn header_at(seg: Seq<u8>, off: int) -> CandidateHeader {
    CandidateHeader {
        version: le_u32(seg, off) as u32,
        common_size: le_u32(seg, off + 4) as u32,
        qti_size: le_u32(seg, off + 8) as u32,
        oem_size: le_u32(seg, off + 12) as u32,
        hash_table_size: le_u32(seg, off + 16) as u32,
        offset: off as usize,
    }
}

/// A whole header fits at `off` and its fields are accepted.
pub open spec fn plausible_header_at(seg: Seq<u8>, off: int) -> bool {
    &&& 0 <= off
    &&& off + HASH_HDR_SIZE <= seg.len()
    &&& header_at(seg, off).plausible(seg.len() as int)
}

/// `off` is one of the offsets that the scanner visits.
pub open spec fn scan_offset(off: int) -> bool {
    0 <= off < HASH_SCAN_MAX && off % (HASH_SCAN_STRIDE as int) == 0
}

/// `h` is the lowest scanned offset that holds an accepted header.
pub open spec fn first_header_at(seg: Seq<u8>, h: int) -> bool {
    &&& scan_offset(h)
    &&& plausible_header_at(seg, h)
    &&& forall|k: int| scan_offset(k) && k < h ==> !#[trigger] plausible_header_at(seg, k)
}

/// No scanned offset holds an accepted header.
pub open spec fn no_header(seg: Seq<u8>) -> bool {
    forall|k: int| scan_offset(k) ==> !#[trigger] plausible_header_at(seg, k)
}

/// The offset that the scanner reports for `seg`, if any.
pub open spec fn first_header(seg: Seq<u8>) -> Option<int> {
    if exists|h: int| first_header_at(seg, h) {
        Some(choose|h: int| first_header_at(seg, h))
    } else {
        None
    }
}

/// An accepted header at a scanned offset, that is at a multiple of 4 below
/// 4096, is reported unless a lower scanned offset is accepted before it.
/// At most one offset is the first header of a segment.
pub proof fn lemma_first_header_is(seg: Seq<u8>, h: int)
    requires
        first_header_at(seg, h),
    ensures
        first_header(seg) == Some(h),
{
    let c = choose|c: int| first_header_at(seg, c);
    assert(first_header_at(seg, c));
    if c < h {
        assert(!plausible_header_at(seg, c));
    } else if h < c {
        assert(!plausible_header_at(seg, h));
    }
}

/// Where no scanned offset is accepted, `first_header` is `None`.
pub proof fn lemma_first_header_none(seg: Seq<u8>)
    requires
        no_header(seg),
    ensures
        first_header(seg) == None::<int>,
{
    if exists|h: int| first_header_at(seg, h) {
        let c = choose|c: int| first_header_at(seg, c);
        assert(!plausible_header_at(seg, c));
    }
}

/// Decodes the header fields at `off`, or `None` when fewer than 36 bytes
/// remain there.
pub fn read_candidate_header(seg: &[u8], off: usize) -> (r: Option<CandidateHeader>)
    ensures
        r == if off + HASH_HDR_SIZE <= seg@.len() {
            Some(header_at(seg@, off as int))
        } else {
            None
        },
{
    let seg_len: usize = seg.len();
    if seg_len < HASH_HDR_SIZE || off > seg_len - HASH_HDR_SIZE {
        return None;
    }
    Some(
        CandidateHeader {
            version: read_le_u32(seg, off),
            common_size: read_le_u32(seg, off + 4),
            qti_size: read_le_u32(seg, off + 8),
            oem_size: read_le_u32(seg, off + 12),
            hash_table_size: read_le_u32(seg, off + 16),
            offset: off,
        },
    )
}

/// Scans `seg` for the header: offsets 0, 4, 8, ... below 4096, in ascending
/// order, as long as 36 bytes remain. Returns the first offset whose fields
/// are accepted. There is no scoring and no backtracking.
pub fn find_hash_header(seg: &[u8]) -> (r: Option<usize>)
    ensures
        match r {
            Some(h) => first_header_at(seg@, h as int) && first_header(seg@) == Some(h as int),
            None => no_header(seg@) && first_header(seg@) == None::<int>,
        },
{
    let seg_len: usize = seg.len();
    let mut off: usize = 0;
    while off < HASH_SCAN_MAX
        invariant
            seg_len == seg@.len(),
            off <= HASH_SCAN_MAX,
            off % HASH_SCAN_STRIDE == 0,
            forall|k: int| scan_offset(k) && k < off ==> !#[trigger] plausible_header_at(seg@, k),
        decreases HASH_SCAN_MAX - off,
    {
        match read_candidate_header(seg, off) {
            None => {
                proof {
                    lemma_first_header_none(seg@);
                }
                return None;
            },
            Some(header) => {
                if header.is_plausible(seg_len) {
                    proof {
                        lemma_first_header_is(seg@, off as int);
                    }
                    return Some(off);
                }
            },
        }
        off += HASH_SCAN_STRIDE;
    }
    proof {
        lemma_first_header_none(seg@);
    }
    None
}

/// A header whose hash-table-size field is zero is not accepted, whatever
/// its other fields hold.
pub proof fn lemma_zero_hash_table_size_rejected(seg: Seq<u8>, off: int)
    requires
        le_u32(seg, off + 16) == 0,
    ensures
        !plausible_header_at(seg, off),
        first_header(seg) != Some(off),
{
    if first_header(seg) == Some(off) {
        let c = choose|c: int| first_header_at(seg, c);
        assert(first_header_at(seg, c));
    }
}

/// The scan ceiling: the reported offset is a multiple of 4 below 4096, and
/// a whole header lies at it.
pub proof fn lemma_found_header_below_ceiling(seg: Seq<u8>, h: int)
    requires
        first_header(seg) == Some(h),
    ensures
        0 <= h < HASH_SCAN_MAX,
        h % 4 == 0,
        h + HASH_HDR_SIZE <= seg.len(),
        first_header_at(seg, h),
{
    let c = choose|c: int| first_header_at(seg, c);
    assert(first_header_at(seg, c));
}

/// A header that begins at 4096 or later is never reported, no matter how
/// plausible its fields are.
pub proof fn lemma_header_beyond_ceiling_not_found(seg: Seq<u8>, h: int)
    requires
        h >= HASH_SCAN_MAX,
    ensures
        first_header(seg) != Some(h),
{
    if first_header(seg) == Some(h) {
        lemma_found_header_below_ceiling(seg, h);
    }
}

/// Some lower or equal offset is always reported where any scanned offset
/// holds an accepted header: a plausible header within reach is never lost.
pub proof fn lemma_some_header_found(seg: Seq<u8>, h: int)
    requires
        scan_offset(h),
        plausible_header_at(seg, h),
    ensures
        first_header(seg) is Some,
        first_header(seg)->0 <= h,
    decreases h,
{
    if forall|k: int| scan_offset(k) && k < h ==> !#[trigger] plausible_header_at(seg, k) {
        lemma_first_header_is(seg, h);
    } else {
        let k = choose|k: int| scan_offset(k) && k < h && plausible_header_at(seg, k);
        lemma_some_header_found(seg, k);
    }
}

} // verus!
