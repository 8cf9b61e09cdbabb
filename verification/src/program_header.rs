//! The program-header reader.
//!
//! A program-header record describes one region of the file. Of each record
//! only the first 56 bytes are decoded, and of those only the type tag, the
//! file offset and the file size.

use vstd::prelude::*;
use vstd::slice::slice_subrange;
use crate::bytes::{le_u32, le_u64, read_le_u32, read_le_u64};
use crate::container::{ContainerHeader, PH_PREFIX_SIZE};

verus! {

/// Position of the type tag within a record.
pub const P_TYPE: usize = 0;

/// Position of the file offset within a record.
pub const P_OFFSET: usize = 8;

/// Position of the file size within a record.
pub const P_FILESZ: usize = 32;

/// One record of the program-header table.
#[derive(Clone, Copy, Debug, PartialEq, Eq)]
pub struct ProgramHeaderEntry {
    pub p_type: u32,
    /// File offset of the region.
    pub offset: u64,
    /// Number of bytes that the region takes in the file.
    pub file_size: u64,
    /// Ordinal position of the record in the table.
    pub index: usize,
}

/// The record that the 56 bytes at `at` spell, tagged with `index`.
pub open spec fn program_header_at(bytes: Seq<u8>, at: int, index: usize) -> ProgramHeaderEntry {
    ProgramHeaderEntry {
        p_type: le_u32(bytes, at + P_TYPE) as u32,
        offset: le_u64(bytes, at + P_OFFSET) as u64,
        file_size: le_u64(bytes, at + P_FILESZ) as u64,
        index,
    }
}

/// Decodes one record from its first 56 bytes. Bytes behind them are not
/// looked at.
pub fn parse_program_header(record: &[u8], index: usize) -> (r: ProgramHeaderEntry)
    requires
        record.len() >= PH_PREFIX_SIZE,
    ensures
        r == program_header_at(record@, 0, index),
{
    ProgramHeaderEntry {
        p_type: read_le_u32(record, P_TYPE),
        offset: read_le_u64(record, P_OFFSET),
        file_size: read_le_u64(record, P_FILESZ),
        index,
    }
}

/// The decoded prefix of every record of the table lies within a file of
/// `image_len` bytes.
pub open spec fn table_within(header: ContainerHeader, image_len: int) -> bool {
    forall|i: int|
        0 <= i < header.ph_count ==> #[trigger] header.entry_offset_spec(i) + PH_PREFIX_SIZE
            <= image_len
}

/// The records of the table of `image`, in table order, each tagged with
/// its position.
pub open spec fn program_headers(image: Seq<u8>, header: ContainerHeader) -> Seq<
    ProgramHeaderEntry,
> {
    Seq::new(
        header.ph_count as nat,
        |i: int| program_header_at(image, header.entry_offset_spec(i), i as usize),
    )
}

/// A record decoded from a copy of its bytes is the record decoded in
/// place.
pub proof fn lemma_program_header_in_place(image: Seq<u8>, at: int, index: usize)
    requires
        0 <= at,
        at + PH_PREFIX_SIZE <= image.len(),
    ensures
        program_header_at(image.subrange(at, at + PH_PREFIX_SIZE), 0, index) == program_header_at(
            image,
            at,
            index,
        ),
{
    let record = image.subrange(at, at + PH_PREFIX_SIZE);
    assert forall|k: int| 0 <= k < PH_PREFIX_SIZE implies record[k] == image[at + k] by {}
}

/// Reads the whole program-header table from a file held in memory.
/// `None` stands for a short read: some record's 56-byte prefix does not
/// lie within the file.
pub fn read_program_headers(image: &[u8], header: &ContainerHeader) -> (r: Option<
    Vec<ProgramHeaderEntry>,
>)
    ensures
        r is Some <==> table_within(*header, image@.len() as int),
        r matches Some(entries) ==> entries@ == program_headers(image@, *header),
{
    let image_len: usize = image.len();
    let count: usize = header.ph_count as usize;
    let mut entries: Vec<ProgramHeaderEntry> = Vec::new();
    let mut i: usize = 0;
    while i < count
        invariant
            image_len == image@.len(),
            count == header.ph_count,
            i <= count,
            entries@.len() == i,
            forall|k: int|
                0 <= k < i ==> #[trigger] header.entry_offset_spec(k) + PH_PREFIX_SIZE
                    <= image_len,
            forall|k: int|
                0 <= k < i ==> entries@[k] == program_header_at(
                    image@,
                    header.entry_offset_spec(k),
                    k as usize,
                ),
        decreases count - i,
    {
        let at: usize = match header.entry_offset(i) {
            Some(off) => {
                if image_len < PH_PREFIX_SIZE || off > (image_len - PH_PREFIX_SIZE) as u64 {
                    return None;
                }
                off as usize
            },
            None => {
                return None;
            },
        };
        let record = slice_subrange(image, at, at + PH_PREFIX_SIZE);
        proof {
            lemma_program_header_in_place(image@, at as int, i);
        }
        entries.push(parse_program_header(record, i));
        i += 1;
    }
    assert(entries@ =~= program_headers(image@, *header));
    Some(entries)
}

} // verus!
