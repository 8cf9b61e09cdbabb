use hashseg::header_scan::{
    find_hash_header, read_candidate_header, CandidateHeader, HASH_HDR_SIZE, HASH_SCAN_MAX,
};
use hashseg::metadata::{extract_at_header, locate_oem_region, try_extract_hash_info, HashInfo};

fn put_u32(buf: &mut [u8], off: usize, v: u32) {
    buf[off..off + 4].copy_from_slice(&v.to_le_bytes());
}

fn put_header(buf: &mut [u8], off: usize, fields: [u32; 5]) {
    for (i, v) in fields.iter().enumerate() {
        put_u32(buf, off + 4 * i, *v);
    }
}

fn put_triple(buf: &mut [u8], off: usize, major: u32, minor: u32, arb: u32) {
    put_u32(buf, off, major);
    put_u32(buf, off + 4, minor);
    put_u32(buf, off + 8, arb);
}

fn header(fields: [u32; 5], offset: usize) -> CandidateHeader {
    CandidateHeader {
        version: fields[0],
        common_size: fields[1],
        qti_size: fields[2],
        oem_size: fields[3],
        hash_table_size: fields[4],
        offset,
    }
}

/// A 512-byte segment with a header at 64 and the triple 5, 2, 1 behind it.
fn sample_segment() -> Vec<u8> {
    let mut seg = vec![0u8; 512];
    put_header(&mut seg, 64, [3, 8, 8, 0, 32]);
    put_triple(&mut seg, 116, 5, 2, 1);
    seg
}

#[test]
fn header_constants() {
    assert_eq!(HASH_HDR_SIZE, 36);
    assert_eq!(HASH_SCAN_MAX, 4096);
}

#[test]
fn candidate_header_is_decoded_in_place() {
    let seg = sample_segment();
    assert_eq!(read_candidate_header(&seg, 64), Some(header([3, 8, 8, 0, 32], 64)));
    assert_eq!(read_candidate_header(&seg, 0), Some(header([0, 0, 0, 0, 0], 0)));
    assert_eq!(read_candidate_header(&seg, 62), Some(header([3 << 16, 8 << 16, 8 << 16, 0, 32 << 16], 62)));
}

#[test]
fn candidate_header_needs_36_bytes() {
    let seg = sample_segment();
    assert!(read_candidate_header(&seg, 512 - 36).is_some());
    assert_eq!(read_candidate_header(&seg, 512 - 35), None);
    assert_eq!(read_candidate_header(&seg, 512), None);
    assert_eq!(read_candidate_header(&seg, usize::MAX), None);
    assert_eq!(read_candidate_header(&seg[..35], 0), None);
    assert_eq!(read_candidate_header(&[], 0), None);
}

#[test]
fn version_range_is_1_to_1000() {
    assert!(!header([0, 0, 0, 0, 1], 0).is_plausible(4096));
    assert!(header([1, 0, 0, 0, 1], 0).is_plausible(4096));
    assert!(header([1000, 0, 0, 0, 1], 0).is_plausible(4096));
    assert!(!header([1001, 0, 0, 0, 1], 0).is_plausible(4096));
    assert!(!header([u32::MAX, 0, 0, 0, 1], 0).is_plausible(4096));
}

#[test]
fn region_sizes_are_bounded() {
    let len = 1 << 20;
    assert!(header([1, 4096, 4096, 16384, 1], 0).is_plausible(len));
    assert!(!header([1, 4097, 0, 0, 1], 0).is_plausible(len));
    assert!(!header([1, 0, 4097, 0, 1], 0).is_plausible(len));
    assert!(!header([1, 0, 0, 16385, 1], 0).is_plausible(len));
    assert!(!header([1, u32::MAX, u32::MAX, u32::MAX, 1], 0).is_plausible(len));
}

#[test]
fn hash_table_size_is_1_to_65536() {
    assert!(!header([1, 0, 0, 0, 0], 0).is_plausible(4096));
    assert!(header([1, 0, 0, 0, 1], 0).is_plausible(4096));
    assert!(header([1, 0, 0, 0, 65536], 0).is_plausible(4096));
    assert!(!header([1, 0, 0, 0, 65537], 0).is_plausible(4096));
    assert!(header([1, 0, 0, 0, 33], 0).is_plausible(4096));
}

#[test]
fn zero_hash_table_size_is_never_accepted() {
    for version in [1u32, 3, 1000] {
        for common in [0u32, 8, 4096] {
            for oem in [0u32, 16384] {
                assert!(!header([version, common, 8, oem, 0], 0).is_plausible(1 << 20));
            }
        }
    }
    let mut seg = sample_segment();
    put_u32(&mut seg, 64 + 16, 0);
    assert_eq!(find_hash_header(&seg), None);
    assert_eq!(try_extract_hash_info(&seg, 0), None);
}

#[test]
fn declared_regions_must_fit() {
    let h = header([3, 8, 8, 100, 32], 64);
    assert!(h.is_plausible(64 + 36 + 116));
    assert!(!h.is_plausible(64 + 36 + 115));
    assert!(!h.is_plausible(64));
    assert!(!h.is_plausible(0));
    assert!(!header([3, 8, 8, 100, 32], usize::MAX).is_plausible(usize::MAX));
}

#[test]
fn header_at_64_is_found() {
    assert_eq!(find_hash_header(&sample_segment()), Some(64));
}

#[test]
fn header_at_offset_zero_is_found() {
    let mut seg = vec![0u8; 36];
    put_header(&mut seg, 0, [1, 0, 0, 0, 1]);
    assert_eq!(find_hash_header(&seg), Some(0));
    assert_eq!(find_hash_header(&seg[..35]), None);
}

#[test]
fn segment_without_header_yields_none() {
    assert_eq!(find_hash_header(&[]), None);
    assert_eq!(find_hash_header(&[0u8; 35]), None);
    assert_eq!(find_hash_header(&vec![0u8; 8192]), None);
    assert_eq!(find_hash_header(&vec![0xffu8; 8192]), None);
}

#[test]
fn first_accepted_offset_wins() {
    let mut seg = sample_segment();
    put_header(&mut seg, 200, [7, 0, 0, 0, 64]);
    assert_eq!(find_hash_header(&seg), Some(64));
    put_header(&mut seg, 8, [9, 0, 0, 0, 64]);
    assert_eq!(find_hash_header(&seg), Some(8));
}

#[test]
fn scan_steps_by_four() {
    for shift in 1..4usize {
        let mut seg = vec![0u8; 512];
        put_header(&mut seg, 64 + shift, [3, 8, 8, 0, 32]);
        assert_eq!(find_hash_header(&seg), None);
    }
}

#[test]
fn scan_ceiling_is_4096() {
    let mut seg = vec![0u8; 8192];
    put_header(&mut seg, 4092, [3, 8, 8, 0, 32]);
    assert_eq!(find_hash_header(&seg), Some(4092));

    let mut seg = vec![0u8; 8192];
    put_header(&mut seg, 4096, [3, 8, 8, 0, 32]);
    assert_eq!(find_hash_header(&seg), None);

    let mut seg = vec![0u8; 8192];
    put_header(&mut seg, 4100, [3, 8, 8, 0, 32]);
    assert_eq!(find_hash_header(&seg), None);
}

#[test]
fn header_near_the_ceiling_needs_room() {
    let mut seg = vec![0u8; 4092 + 36];
    put_header(&mut seg, 4092, [3, 0, 0, 0, 32]);
    assert_eq!(find_hash_header(&seg), Some(4092));
    assert_eq!(find_hash_header(&seg[..4092 + 35]), None);
}

#[test]
fn header_whose_regions_overrun_is_passed_over() {
    let mut seg = vec![0u8; 512];
    put_header(&mut seg, 64, [3, 8, 8, 512, 32]);
    put_header(&mut seg, 128, [4, 0, 0, 0, 16]);
    assert_eq!(find_hash_header(&seg), Some(128));
}

#[test]
fn oem_region_follows_common_and_qti() {
    let seg = sample_segment();
    assert_eq!(locate_oem_region(&seg, 64), Some(116));
    assert_eq!(locate_oem_region(&seg, 0), Some(36));
    assert_eq!(locate_oem_region(&seg, 512 - 36), None);
    assert_eq!(locate_oem_region(&seg, 512), None);
    let mut seg = vec![0u8; 512];
    put_header(&mut seg, 0, [1, 400, 64, 0, 1]);
    assert_eq!(locate_oem_region(&seg, 0), Some(500));
    put_header(&mut seg, 0, [1, 400, 65, 0, 1]);
    assert_eq!(locate_oem_region(&seg, 0), None);
    put_header(&mut seg, 0, [1, u32::MAX, u32::MAX, 0, 1]);
    assert_eq!(locate_oem_region(&seg, 0), None);
}

#[test]
fn triple_behind_the_header_is_extracted() {
    let seg = sample_segment();
    let expected = HashInfo {
        oem_major: 5,
        oem_minor: 2,
        oem_arb: 1,
        used_seg_off: 0x3000,
        used_header_off: 64,
    };
    assert_eq!(extract_at_header(&seg, 0x3000, 64), Some(expected));
    assert_eq!(try_extract_hash_info(&seg, 0x3000), Some(expected));
}

#[test]
fn triple_bounds_are_1000_1000_127() {
    let mut seg = sample_segment();
    put_triple(&mut seg, 116, 1000, 1000, 127);
    let info = try_extract_hash_info(&seg, 0).unwrap();
    assert_eq!((info.oem_major, info.oem_minor, info.oem_arb), (1000, 1000, 127));
    put_triple(&mut seg, 116, 0, 0, 0);
    let info = try_extract_hash_info(&seg, 0).unwrap();
    assert_eq!((info.oem_major, info.oem_minor, info.oem_arb), (0, 0, 0));
    put_triple(&mut seg, 116, 1001, 0, 0);
    assert_eq!(try_extract_hash_info(&seg, 0), None);
    put_triple(&mut seg, 116, 0, 1001, 0);
    assert_eq!(try_extract_hash_info(&seg, 0), None);
    put_triple(&mut seg, 116, 0, 0, 128);
    assert_eq!(try_extract_hash_info(&seg, 0), None);
}

#[test]
fn cut_off_triple_discards_the_match() {
    let mut seg = vec![0u8; 64 + 36 + 16 + 12];
    put_header(&mut seg, 64, [3, 8, 8, 0, 32]);
    put_triple(&mut seg, 116, 5, 2, 1);
    assert!(try_extract_hash_info(&seg, 0).is_some());
    assert_eq!(find_hash_header(&seg[..127]), Some(64));
    assert_eq!(try_extract_hash_info(&seg[..127], 0), None);
}

#[test]
fn rejected_triple_does_not_move_to_a_later_offset() {
    let mut seg = sample_segment();
    put_triple(&mut seg, 116, 5000, 2, 1);
    put_header(&mut seg, 256, [3, 8, 8, 0, 32]);
    put_triple(&mut seg, 256 + 36 + 16, 7, 7, 7);
    assert_eq!(find_hash_header(&seg), Some(64));
    assert_eq!(try_extract_hash_info(&seg, 0), None);
    assert!(extract_at_header(&seg, 0, 256).is_some());
}

#[test]
fn extraction_at_a_bad_offset_is_none() {
    let seg = sample_segment();
    assert_eq!(extract_at_header(&seg, 0, 512), None);
    assert_eq!(extract_at_header(&seg, 0, 500), None);
    assert_eq!(extract_at_header(&seg, 0, usize::MAX), None);
    assert_eq!(extract_at_header(&[], 0, 0), None);
}

#[test]
fn coincidental_header_shadows_the_embedded_one() {
    let mut seg = sample_segment();
    put_header(&mut seg, 0, [1, 0, 0, 0, 1]);
    assert_eq!(
        try_extract_hash_info(&seg, 9),
        Some(HashInfo {
            oem_major: 0,
            oem_minor: 0,
            oem_arb: 0,
            used_seg_off: 9,
            used_header_off: 0
        })
    );
}
