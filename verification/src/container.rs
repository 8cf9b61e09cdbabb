//! The container validator.
//!
//! The container is a 64-bit little-endian ELF image. Only the first 64
//! bytes of the file are looked at: the signature, the word-width and
//! byte-order markers, and the place and shape of the program-header table.

use vstd::prelude::*;
use crate::bytes::{le_u16, le_u64, read_le_u16, read_le_u64};

verus! {

/// Size in bytes of the fixed container header.
pub const ELF_HEADER_SIZE: usize = 64;

/// The four signature bytes: `0x7f`, `E`, `L`, `F`.
pub const ELF_MAGIC: [u8; 4] = [0x7f, 0x45, 0x4c, 0x46];

/// Position of the word-width marker.
pub const EI_CLASS: usize = 4;

/// Position of the byte-order marker.
pub const EI_DATA: usize = 5;

/// Word-width marker of a 64-bit container.
pub const ELFCLASS64: u8 = 2;

/// Byte-order marker of a little-endian container.
pub const ELFDATA2LSB: u8 = 1;

/// Position of the program-header table's file offset.
pub const E_PHOFF: usize = 0x20;

/// Position of the size of one program-header record.
pub const E_PHENTSIZE: usize = 0x36;

/// Position of the number of program-header records.
pub const E_PHNUM: usize = 0x38;

/// Number of leading bytes of a program-header record that are decoded; a
/// record may not be shorter.
pub const PH_PREFIX_SIZE: usize = 56;

/// The file is not a container of the supported kind.
#[derive(Clone, Copy, Debug, PartialEq, Eq)]
pub enum FormatError {
    NotRecognizedContainer,
    UnsupportedWordWidth,
    UnsupportedByteOrder,
}

/// The program-header table has an unusable shape.
#[derive(Clone, Copy, Debug, PartialEq, Eq)]
pub enum StructuralError {
    InvalidProgramHeaderTable,
}

/// Why a container header was rejected.
#[derive(Clone, Copy, Debug, PartialEq, Eq)]
pub enum HeaderError {
    Format(FormatError),
    Structure(StructuralError),
}

/// What the validator keeps of the container header.
#[derive(Clone, Copy, Debug, PartialEq, Eq)]
pub struct ContainerHeader {
    pub signature: [u8; 4],
    pub word_width: u8,
    pub byte_order: u8,
    /// File offset of the program-header table.
    pub ph_offset: u64,
    /// Size in bytes of one record of the table.
    pub ph_entry_size: u16,
    /// Number of records in the table.
    pub ph_count: u16,
}

impl ContainerHeader {
    /// The invariant of an accepted header.
    pub open spec fn wf(&self) -> bool {
        &&& self.signature@ == ELF_MAGIC@
        &&& self.word_width == ELFCLASS64
        &&& self.byte_order == ELFDATA2LSB
        &&& self.ph_entry_size >= PH_PREFIX_SIZE
        &&& self.ph_count > 0
    }

    /// File offset of record `index` of the program-header table, without
    /// regard to machine limits.
    pub open spec fn entry_offset_spec(&self, index: int) -> int {
        self.ph_offset + index * self.ph_entry_size
    }

    /// File offset of record `index` of the program-header table. `None`
    /// for an index past the table, and for an offset that no 64-bit seek
    /// can reach.
    pub fn entry_offset(&self, index: usize) -> (r: Option<u64>)
        ensures
            r is Some <==> index < self.ph_count && self.entry_offset_spec(index as int)
                <= u64::MAX,
            r matches Some(off) ==> off as int == self.entry_offset_spec(index as int),
    {
        if index >= self.ph_count as usize {
            return None;
        }
        let i: u64 = index as u64;
        let entry_size: u64 = self.ph_entry_size as u64;
        assert(i * entry_size <= 0xffff * 0xffff) by (nonlinear_arith)
            requires
                0 <= i <= 0xffff,
                0 <= entry_size <= 0xffff,
        ;
        let delta: u64 = i * entry_size;
        if delta > u64::MAX - self.ph_offset {
            return None;
        }
        Some(self.ph_offset + delta)
    }
}

/// The signature bytes stand at the start of `ehdr`.
pub open spec fn has_signature(ehdr: Seq<u8>) -> bool {
    ehdr.len() >= 4 && ehdr.subrange(0, 4) == ELF_MAGIC@
}

/// What the validator makes of the first 64 bytes of a file. The checks run
/// in a fixed order, and the first one that fails names the error.
pub open spec fn container_header(ehdr: Seq<u8>) -> Result<ContainerHeader, HeaderError> {
    if !has_signature(ehdr) {
        Err(HeaderError::Format(FormatError::NotRecognizedContainer))
    } else if ehdr[EI_CLASS as int] != ELFCLASS64 {
        Err(HeaderError::Format(FormatError::UnsupportedWordWidth))
    } else if ehdr[EI_DATA as int] != ELFDATA2LSB {
        Err(HeaderError::Format(FormatError::UnsupportedByteOrder))
    } else if le_u16(ehdr, E_PHENTSIZE as int) < PH_PREFIX_SIZE || le_u16(ehdr, E_PHNUM as int)
        == 0 {
        Err(HeaderError::Structure(StructuralError::InvalidProgramHeaderTable))
    } else {
        Ok(
            ContainerHeader {
                signature: ELF_MAGIC,
                word_width: ELFCLASS64,
                byte_order: ELFDATA2LSB,
                ph_offset: le_u64(ehdr, E_PHOFF as int) as u64,
                ph_entry_size: le_u16(ehdr, E_PHENTSIZE as int) as u16,
                ph_count: le_u16(ehdr, E_PHNUM as int) as u16,
            },
        )
    }
}

/// Validates the fixed header of a file, given its first 64 bytes, and
/// extracts the place and shape of the program-header table.
pub fn parse_container_header(ehdr: &[u8]) -> (r: Result<ContainerHeader, HeaderError>)
    requires
        ehdr.len() >= ELF_HEADER_SIZE,
    ensures
        r == container_header(ehdr@),
        r matches Ok(header) ==> header.wf(),
{
    if ehdr[0] != ELF_MAGIC[0] || ehdr[1] != ELF_MAGIC[1] || ehdr[2] != ELF_MAGIC[2] || ehdr[3]
        != ELF_MAGIC[3] {
        assert(!has_signature(ehdr@)) by {
            if has_signature(ehdr@) {
                let head = ehdr@.subrange(0, 4);
                assert(head[0] == ehdr@[0] && head[1] == ehdr@[1] && head[2] == ehdr@[2]
                    && head[3] == ehdr@[3]);
            }
        }
        return Err(HeaderError::Format(FormatError::NotRecognizedContainer));
    }
    assert(has_signature(ehdr@)) by {
        assert(ehdr@.subrange(0, 4) =~= ELF_MAGIC@);
    }
    if ehdr[EI_CLASS] != ELFCLASS64 {
        return Err(HeaderError::Format(FormatError::UnsupportedWordWidth));
    }
    if ehdr[EI_DATA] != ELFDATA2LSB {
        return Err(HeaderError::Format(FormatError::UnsupportedByteOrder));
    }
    let ph_offset: u64 = read_le_u64(ehdr, E_PHOFF);
    let ph_entry_size: u16 = read_le_u16(ehdr, E_PHENTSIZE);
    let ph_count: u16 = read_le_u16(ehdr, E_PHNUM);
    if ph_entry_size < PH_PREFIX_SIZE as u16 || ph_count == 0 {
        return Err(HeaderError::Structure(StructuralError::InvalidProgramHeaderTable));
    }
    Ok(
        ContainerHeader {
            signature: ELF_MAGIC,
            word_width: ELFCLASS64,
            byte_order: ELFDATA2LSB,
            ph_offset,
            ph_entry_size,
            ph_count,
        },
    )
}

/// The validator's verdict rests on the first 64 bytes alone: nothing
/// behind them, and so no program header, is consulted.
pub proof fn lemma_header_verdict_from_prefix(a: Seq<u8>, b: Seq<u8>)
    requires
        a.len() >= ELF_HEADER_SIZE,
        b.len() >= ELF_HEADER_SIZE,
        a.take(ELF_HEADER_SIZE as int) == b.take(ELF_HEADER_SIZE as int),
    ensures
        container_header(a) == container_header(b),
{
    let n = ELF_HEADER_SIZE as int;
    assert forall|i: int| 0 <= i < n implies a[i] == b[i] by {
        assert(a.take(n)[i] == a[i]);
        assert(b.take(n)[i] == b[i]);
    }
    assert(a.subrange(0, 4) =~= b.subrange(0, 4));
}

/// A wrong signature, word width or byte order is each reported by its own
/// error, in this order of precedence, whatever the rest of the header holds.
pub proof fn lemma_format_errors_distinct(ehdr: Seq<u8>)
    requires
        ehdr.len() >= ELF_HEADER_SIZE,
    ensures
        !has_signature(ehdr) <==> container_header(ehdr) == Err::<ContainerHeader, HeaderError>(
            HeaderError::Format(FormatError::NotRecognizedContainer),
        ),
        has_signature(ehdr) && ehdr[EI_CLASS as int] != ELFCLASS64 <==> container_header(ehdr)
            == Err::<ContainerHeader, HeaderError>(
            HeaderError::Format(FormatError::UnsupportedWordWidth),
        ),
        has_signature(ehdr) && ehdr[EI_CLASS as int] == ELFCLASS64 && ehdr[EI_DATA as int]
            != ELFDATA2LSB <==> container_header(ehdr) == Err::<ContainerHeader, HeaderError>(
            HeaderError::Format(FormatError::UnsupportedByteOrder),
        ),
{
}

} // verus!
