//! The whole run over a file held in memory: validate the container, read
//! the program-header table, classify the segments, scan the candidates.

use vstd::prelude::*;
use crate::bytes::le_u32;
use crate::candidate::{
    classify_entries, group_of, lemma_rejected_segment_warned,
    lemma_skipped_segment_ignored, warnings_of, PriorityTier, SegmentCandidate, SegmentWarning,
    MAX_SEGMENT_SIZE,
};
use crate::container::{
    container_header, lemma_header_verdict_from_prefix, parse_container_header, FormatError,
    HeaderError, StructuralError, ELF_HEADER_SIZE,
};
use crate::header_scan::{first_header_at, MAX_VERSION};
use crate::metadata::{
    lemma_embedded_triple_recovered, oem_region_offset, HashInfo, MAX_ARB, OEM_TRIPLE_SIZE,
};
use crate::program_header::{
    program_headers, read_program_headers, table_within, ProgramHeaderEntry,
};
use crate::scan::{
    first_match_from, lemma_first_match_is, match_at, scan_image, scan_result, segment_bytes,
    NotFoundError,
};

verus! {

/// Why no version triple was recovered from a file.
#[derive(Clone, Copy, Debug, PartialEq, Eq)]
pub enum ExtractError {
    /// The file is not a container of the supported kind.
    Format(FormatError),
    /// The program-header table has an unusable shape.
    Structure(StructuralError),
    /// Every candidate segment was scanned in vain.
    NotFound(NotFoundError),
    /// The file ends before the container header or before a record of the
    /// program-header table: what a read from the file would report as a
    /// short read.
    ShortRead,
}

/// What a run over a file gave.
#[derive(Debug, PartialEq, Eq)]
pub struct Extraction {
    /// The recovered version triple, or why there is none.
    pub result: Result<HashInfo, ExtractError>,
    /// The segments that were skipped with a warning, in table order.
    pub warnings: Vec<SegmentWarning>,
}

/// The order in which the segments of a table are scanned: the candidates
/// of the reserved type in table order, then all other candidates in table
/// order.
pub open spec fn scan_order_of(entries: Seq<ProgramHeaderEntry>, file_len: u64) -> Seq<
    SegmentCandidate,
> {
    group_of(entries, file_len, PriorityTier::Reserved) + group_of(
        entries,
        file_len,
        PriorityTier::Other,
    )
}

/// The result of a run over the file `image`.
pub open spec fn extraction_outcome(image: Seq<u8>) -> Result<HashInfo, ExtractError> {
    if image.len() < ELF_HEADER_SIZE {
        Err(ExtractError::ShortRead)
    } else {
        match container_header(image) {
            Err(HeaderError::Format(e)) => Err(ExtractError::Format(e)),
            Err(HeaderError::Structure(e)) => Err(ExtractError::Structure(e)),
            Ok(header) => if !table_within(header, image.len() as int) {
                Err(ExtractError::ShortRead)
            } else {
                let entries = program_headers(image, header);
                match scan_result(scan_order_of(entries, image.len() as u64), image) {
                    Ok(info) => Ok(info),
                    Err(e) => Err(ExtractError::NotFound(e)),
                }
            },
        }
    }
}

/// The warnings of a run over the file `image`: none unless the whole
/// program-header table was read.
pub open spec fn extraction_warnings(image: Seq<u8>) -> Seq<SegmentWarning> {
    if image.len() < ELF_HEADER_SIZE {
        Seq::empty()
    } else {
        match container_header(image) {
            Ok(header) => if table_within(header, image.len() as int) {
                warnings_of(program_headers(image, header), image.len() as u64)
            } else {
                Seq::empty()
            },
            Err(_) => Seq::empty(),
        }
    }
}

/// Recovers the OEM version triple from a file held in memory.
///
/// A format or structural error is reported before any program header is
/// read. A segment that exceeds the file or the 20 MiB cap is skipped with
/// a warning and the run goes on. The first candidate that yields a sane
/// triple ends the run; `NoValidHashSegment` is reported only after every
/// candidate of both groups was scanned.
pub fn extract_oem_metadata(image: &[u8]) -> (r: Extraction)
    ensures
        r.result == extraction_outcome(image@),
        r.warnings@ == extraction_warnings(image@),
{
    if image.len() < ELF_HEADER_SIZE {
        return Extraction { result: Err(ExtractError::ShortRead), warnings: Vec::new() };
    }
    let header = match parse_container_header(image) {
        Ok(header) => header,
        Err(HeaderError::Format(e)) => {
            return Extraction { result: Err(ExtractError::Format(e)), warnings: Vec::new() };
        },
        Err(HeaderError::Structure(e)) => {
            return Extraction { result: Err(ExtractError::Structure(e)), warnings: Vec::new() };
        },
    };
    let entries = match read_program_headers(image, &header) {
        Some(entries) => entries,
        None => {
            return Extraction { result: Err(ExtractError::ShortRead), warnings: Vec::new() };
        },
    };
    let file_len: u64 = image.len() as u64;
    let groups = classify_entries(entries.as_slice(), file_len);
    let result = match scan_image(image, &groups) {
        Ok(info) => Ok(info),
        Err(e) => Err(ExtractError::NotFound(e)),
    };
    Extraction { result, warnings: groups.warnings }
}

/// Two runs over the same bytes give the same result and the same
/// warnings.
pub proof fn lemma_extraction_deterministic(first: Seq<u8>, second: Seq<u8>)
    requires
        first =~= second,
    ensures
        extraction_outcome(first) == extraction_outcome(second),
        extraction_warnings(first) == extraction_warnings(second),
{
}

/// A wrong signature, word width or byte order ends the run with its own
/// error, and the first 64 bytes alone decide it: no program header, and
/// nothing else behind the container header, has any part in it.
pub proof fn lemma_format_error_is_immediate(image: Seq<u8>, other: Seq<u8>, e: FormatError)
    requires
        image.len() >= ELF_HEADER_SIZE,
        other.len() >= ELF_HEADER_SIZE,
        image.take(ELF_HEADER_SIZE as int) == other.take(ELF_HEADER_SIZE as int),
        container_header(image) == Err::<crate::container::ContainerHeader, HeaderError>(
            HeaderError::Format(e),
        ),
    ensures
        extraction_outcome(image) == Err::<HashInfo, ExtractError>(ExtractError::Format(e)),
        extraction_outcome(other) == Err::<HashInfo, ExtractError>(ExtractError::Format(e)),
        extraction_warnings(image).len() == 0,
        extraction_warnings(other).len() == 0,
{
    lemma_header_verdict_from_prefix(image, other);
}

/// A valid container with a header embedded in a reserved-type segment
/// gives back exactly the embedded triple, provided that the scan reaches
/// it: no earlier reserved-type candidate yields a triple, and the header
/// is the first accepted one in its segment.
pub proof fn lemma_embedded_metadata_recovered(
    image: Seq<u8>,
    k: int,
    h: int,
    major: u32,
    minor: u32,
    arb: u32,
)
    requires
        image.len() >= ELF_HEADER_SIZE,
        container_header(image) is Ok,
        table_within(container_header(image)->Ok_0, image.len() as int),
        ({
            let entries = program_headers(image, container_header(image)->Ok_0);
            let priority = group_of(entries, image.len() as u64, PriorityTier::Reserved);
            let seg = segment_bytes(image, priority[k]);
            &&& 0 <= k < priority.len()
            &&& forall|j: int| 0 <= j < k ==> #[trigger] match_at(priority, image, j) is None
            &&& first_header_at(seg, h)
            &&& oem_region_offset(seg, h) + OEM_TRIPLE_SIZE <= seg.len()
            &&& le_u32(seg, oem_region_offset(seg, h)) == major
            &&& le_u32(seg, oem_region_offset(seg, h) + 4) == minor
            &&& le_u32(seg, oem_region_offset(seg, h) + 8) == arb
        }),
        major <= MAX_VERSION,
        minor <= MAX_VERSION,
        arb <= MAX_ARB,
    ensures
        extraction_outcome(image) == Ok::<HashInfo, ExtractError>(
            HashInfo {
                oem_major: major,
                oem_minor: minor,
                oem_arb: arb,
                used_seg_off: group_of(
                    program_headers(image, container_header(image)->Ok_0),
                    image.len() as u64,
                    PriorityTier::Reserved,
                )[k].offset,
                used_header_off: h as usize,
            },
        ),
{
    let entries = program_headers(image, container_header(image)->Ok_0);
    let file_len = image.len() as u64;
    let priority = group_of(entries, file_len, PriorityTier::Reserved);
    let order = scan_order_of(entries, file_len);
    let seg = segment_bytes(image, priority[k]);
    lemma_embedded_triple_recovered(seg, priority[k].offset, h, major, minor, arb);
    assert(order[k] == priority[k]);
    assert forall|j: int| 0 <= j < k && j < order.len() implies #[trigger] match_at(
        order,
        image,
        j,
    ) is None by {
        assert(order[j] == priority[j]);
        assert(match_at(priority, image, j) is None);
    }
    lemma_first_match_is(order, image, k);
}

/// A segment larger than 20 MiB is skipped with a warning. It does not end
/// the run and has no part in its result: the candidates are scanned as if
/// the table did not hold it.
pub proof fn lemma_oversized_segment_skipped(
    entries: Seq<ProgramHeaderEntry>,
    file_len: u64,
    image: Seq<u8>,
    k: int,
)
    requires
        0 <= k < entries.len(),
        entries[k].file_size > MAX_SEGMENT_SIZE,
    ensures
        exists|w: SegmentWarning|
            #[trigger] warnings_of(entries, file_len).contains(w) && w.index == entries[k].index
                && w.size == entries[k].file_size,
        scan_order_of(entries, file_len) == scan_order_of(entries.remove(k), file_len),
        scan_result(scan_order_of(entries, file_len), image) == scan_result(
            scan_order_of(entries.remove(k), file_len),
            image,
        ),
{
    lemma_rejected_segment_warned(entries, file_len, k);
    lemma_skipped_segment_ignored(entries, file_len, PriorityTier::Reserved, k);
    lemma_skipped_segment_ignored(entries, file_len, PriorityTier::Other, k);
}

} // verus!
