use hashseg::bytes::{read_le_u16, read_le_u32, read_le_u64};
use hashseg::container::{
    parse_container_header, ContainerHeader, FormatError, HeaderError, StructuralError,
    ELF_MAGIC,
};
use hashseg::program_header::{parse_program_header, read_program_headers, ProgramHeaderEntry};

fn elf_header(ph_offset: u64, ph_entry_size: u16, ph_count: u16) -> Vec<u8> {
    let mut h = vec![0u8; 64];
    h[0..4].copy_from_slice(&[0x7f, b'E', b'L', b'F']);
    h[4] = 2;
    h[5] = 1;
    h[0x20..0x28].copy_from_slice(&ph_offset.to_le_bytes());
    h[0x36..0x38].copy_from_slice(&ph_entry_size.to_le_bytes());
    h[0x38..0x3a].copy_from_slice(&ph_count.to_le_bytes());
    h
}

fn program_header(p_type: u32, offset: u64, file_size: u64) -> Vec<u8> {
    let mut p = vec![0u8; 56];
    p[0..4].copy_from_slice(&p_type.to_le_bytes());
    p[8..16].copy_from_slice(&offset.to_le_bytes());
    p[32..40].copy_from_slice(&file_size.to_le_bytes());
    p
}

#[test]
fn read_le_u16_is_little_endian() {
    let buf = [0x34u8, 0x12, 0xff, 0x00];
    assert_eq!(read_le_u16(&buf, 0), 0x1234);
    assert_eq!(read_le_u16(&buf, 1), 0xff12);
    assert_eq!(read_le_u16(&buf, 2), 0x00ff);
}

#[test]
fn read_le_u32_is_little_endian() {
    let buf = [0x78u8, 0x56, 0x34, 0x12, 0xff, 0xff, 0xff, 0xff];
    assert_eq!(read_le_u32(&buf, 0), 0x1234_5678);
    assert_eq!(read_le_u32(&buf, 1), 0xff12_3456);
    assert_eq!(read_le_u32(&buf, 4), u32::MAX);
}

#[test]
fn read_le_u64_is_little_endian() {
    let buf = [0x01u8, 0x02, 0x03, 0x04, 0x05, 0x06, 0x07, 0x08, 0x09];
    assert_eq!(read_le_u64(&buf, 0), 0x0807_0605_0403_0201);
    assert_eq!(read_le_u64(&buf, 1), 0x0908_0706_0504_0302);
    assert_eq!(read_le_u64(&[0xffu8; 8], 0), u64::MAX);
}

#[test]
fn read_le_agrees_with_from_le_bytes() {
    let buf: Vec<u8> = (0..64u32).map(|i| (i * 37 + 11) as u8).collect();
    for off in 0..56 {
        let mut b2 = [0u8; 2];
        b2.copy_from_slice(&buf[off..off + 2]);
        assert_eq!(read_le_u16(&buf, off), u16::from_le_bytes(b2));
        let mut b4 = [0u8; 4];
        b4.copy_from_slice(&buf[off..off + 4]);
        assert_eq!(read_le_u32(&buf, off), u32::from_le_bytes(b4));
        let mut b8 = [0u8; 8];
        b8.copy_from_slice(&buf[off..off + 8]);
        assert_eq!(read_le_u64(&buf, off), u64::from_le_bytes(b8));
    }
}

#[test]
fn container_header_is_accepted() {
    let h = elf_header(0x40, 56, 3);
    let parsed = parse_container_header(&h);
    assert_eq!(
        parsed,
        Ok(ContainerHeader {
            signature: ELF_MAGIC,
            word_width: 2,
            byte_order: 1,
            ph_offset: 0x40,
            ph_entry_size: 56,
            ph_count: 3,
        })
    );
}

#[test]
fn container_header_reads_wide_fields() {
    let h = elf_header(0x0102_0304_0506_0708, 0xabcd, 0xffff);
    let parsed = parse_container_header(&h).unwrap();
    assert_eq!(parsed.ph_offset, 0x0102_0304_0506_0708);
    assert_eq!(parsed.ph_entry_size, 0xabcd);
    assert_eq!(parsed.ph_count, 0xffff);
}

#[test]
fn container_header_looks_at_the_first_64_bytes_only() {
    let mut long = elf_header(0x40, 64, 2);
    let short = long.clone();
    long.extend_from_slice(&[0xeeu8; 100]);
    assert_eq!(parse_container_header(&long), parse_container_header(&short));
}

#[test]
fn wrong_signature_is_not_recognized() {
    for i in 0..4 {
        let mut h = elf_header(0x40, 56, 1);
        h[i] ^= 0x01;
        assert_eq!(
            parse_container_header(&h),
            Err(HeaderError::Format(FormatError::NotRecognizedContainer))
        );
    }
}

#[test]
fn wrong_word_width_is_unsupported() {
    let mut h = elf_header(0x40, 56, 1);
    h[4] = 1;
    assert_eq!(
        parse_container_header(&h),
        Err(HeaderError::Format(FormatError::UnsupportedWordWidth))
    );
}

#[test]
fn wrong_byte_order_is_unsupported() {
    let mut h = elf_header(0x40, 56, 1);
    h[5] = 2;
    assert_eq!(
        parse_container_header(&h),
        Err(HeaderError::Format(FormatError::UnsupportedByteOrder))
    );
}

#[test]
fn header_checks_run_in_order() {
    let mut h = elf_header(0x40, 0, 0);
    h[5] = 2;
    assert_eq!(
        parse_container_header(&h),
        Err(HeaderError::Format(FormatError::UnsupportedByteOrder))
    );
    h[4] = 1;
    assert_eq!(
        parse_container_header(&h),
        Err(HeaderError::Format(FormatError::UnsupportedWordWidth))
    );
    h[0] = 0;
    assert_eq!(
        parse_container_header(&h),
        Err(HeaderError::Format(FormatError::NotRecognizedContainer))
    );
}

#[test]
fn short_or_empty_table_is_invalid() {
    let invalid = Err(HeaderError::Structure(StructuralError::InvalidProgramHeaderTable));
    assert_eq!(parse_container_header(&elf_header(0x40, 55, 1)), invalid);
    assert_eq!(parse_container_header(&elf_header(0x40, 0, 1)), invalid);
    assert_eq!(parse_container_header(&elf_header(0x40, 56, 0)), invalid);
    assert!(parse_container_header(&elf_header(0x40, 56, 1)).is_ok());
    assert!(parse_container_header(&elf_header(0x40, 57, 1)).is_ok());
}

#[test]
fn entry_offset_is_table_offset_plus_index_times_size() {
    let h = parse_container_header(&elf_header(0x40, 56, 3)).unwrap();
    assert_eq!(h.entry_offset(0), Some(0x40));
    assert_eq!(h.entry_offset(1), Some(0x40 + 56));
    assert_eq!(h.entry_offset(2), Some(0x40 + 112));
    assert_eq!(h.entry_offset(3), None);
    let wide = parse_container_header(&elf_header(1000, 0xffff, 0xffff)).unwrap();
    assert_eq!(wide.entry_offset(0xfffe), Some(1000 + 0xfffe * 0xffff));
}

#[test]
fn entry_offset_beyond_u64_is_none() {
    let h = parse_container_header(&elf_header(u64::MAX - 100, 56, 3)).unwrap();
    assert_eq!(h.entry_offset(0), Some(u64::MAX - 100));
    assert_eq!(h.entry_offset(1), Some(u64::MAX - 44));
    assert_eq!(h.entry_offset(2), None);
}

#[test]
fn program_header_fields_are_decoded() {
    let mut record = program_header(0x6000_0001, 0x1122_3344_5566_7788, 0x0000_0000_0001_0000);
    record[4..8].copy_from_slice(&[0xaa; 4]);
    record[16..32].copy_from_slice(&[0xbb; 16]);
    record[40..56].copy_from_slice(&[0xcc; 16]);
    assert_eq!(
        parse_program_header(&record, 7),
        ProgramHeaderEntry {
            p_type: 0x6000_0001,
            offset: 0x1122_3344_5566_7788,
            file_size: 0x1_0000,
            index: 7,
        }
    );
}

#[test]
fn program_header_ignores_bytes_behind_the_prefix() {
    let mut record = program_header(1, 2, 3);
    let short = parse_program_header(&record, 0);
    record.extend_from_slice(&[0xffu8; 8]);
    assert_eq!(parse_program_header(&record, 0), short);
}

#[test]
fn table_is_read_in_order_with_ordinals() {
    let mut image = elf_header(64, 72, 3);
    for i in 0..3u64 {
        image.extend_from_slice(&program_header(i as u32, 100 * i, 10 * i));
        image.extend_from_slice(&[0xffu8; 16]);
    }
    let header = parse_container_header(&image).unwrap();
    let entries = read_program_headers(&image, &header).unwrap();
    assert_eq!(entries.len(), 3);
    for i in 0..3usize {
        assert_eq!(
            entries[i],
            ProgramHeaderEntry {
                p_type: i as u32,
                offset: 100 * i as u64,
                file_size: 10 * i as u64,
                index: i,
            }
        );
    }
}

#[test]
fn table_needs_only_the_prefix_of_its_last_record() {
    let mut image = elf_header(64, 72, 2);
    image.extend_from_slice(&program_header(0, 1, 2));
    image.extend_from_slice(&[0u8; 16]);
    image.extend_from_slice(&program_header(5, 6, 7));
    let header = parse_container_header(&image).unwrap();
    assert_eq!(image.len(), 64 + 72 + 56);
    assert_eq!(read_program_headers(&image, &header).unwrap().len(), 2);
    image.pop();
    assert_eq!(read_program_headers(&image, &header), None);
}

#[test]
fn table_behind_the_end_of_the_file_is_a_short_read() {
    let image = elf_header(u64::MAX - 10, 56, 1);
    let header = parse_container_header(&image).unwrap();
    assert_eq!(read_program_headers(&image, &header), None);
    let image = elf_header(64, 56, 1);
    let header = parse_container_header(&image).unwrap();
    assert_eq!(read_program_headers(&image, &header), None);
}
