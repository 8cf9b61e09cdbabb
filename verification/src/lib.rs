//! Heuristic recovery of the OEM version triple (major, minor, anti-rollback)
//! that a vendor embeds in an undocumented region of a 64-bit little-endian
//! ELF boot image.
//!
//! No index locates the region. The library validates the container header,
//! decodes the program-header table, sorts the segments into a priority group
//! (reserved type) and a fallback group, and scans each candidate segment for
//! a fixed-layout header whose fields are plausible. The first segment whose
//! header leads to a sane version triple wins.

pub mod bytes;
pub mod container;
pub mod program_header;
pub mod candidate;
pub mod header_scan;
pub mod metadata;
pub mod scan;
pub mod image;
