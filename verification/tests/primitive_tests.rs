use brsar_rs::brsar::extension_bytes;
use brsar_rs::bytes::{get_key_bit, get_u16, get_u32, has_bytes, read_nul_string};
use brsar_rs::common::{decode_file_header, decode_raw_reference, decode_typed_id, Endian};
use brsar_rs::error::DecodeError;
use brsar_rs::file_block::extract;
use brsar_rs::info::SoundType;

#[test]
fn u16_reads_respect_endianness() {
    let d = [0x12u8, 0x34];
    assert_eq!(get_u16(&d, 0, Endian::Big), 0x1234);
    assert_eq!(get_u16(&d, 0, Endian::Little), 0x3412);
}

#[test]
fn u32_reads_respect_endianness() {
    let d = [0x12u8, 0x34, 0x56, 0x78, 0x9A];
    assert_eq!(get_u32(&d, 0, Endian::Big), 0x12345678);
    assert_eq!(get_u32(&d, 0, Endian::Little), 0x78563412);
    assert_eq!(get_u32(&d, 1, Endian::Big), 0x3456789A);
}

#[test]
fn has_bytes_checks_bounds() {
    let d = [0u8; 4];
    assert!(has_bytes(&d, 0, 4));
    assert!(has_bytes(&d, 4, 0));
    assert!(!has_bytes(&d, 0, 5));
    assert!(!has_bytes(&d, 5, 0));
}

#[test]
fn nul_string_stops_at_terminator() {
    let d = b"boom\0tail\0";
    assert_eq!(read_nul_string(d, 0), Ok(b"boom".to_vec()));
    assert_eq!(read_nul_string(d, 5), Ok(b"tail".to_vec()));
}

#[test]
fn nul_string_without_terminator_is_eof() {
    let d = b"boom";
    assert_eq!(read_nul_string(d, 0), Err(DecodeError::UnexpectedEof));
    assert_eq!(read_nul_string(d, 9), Err(DecodeError::UnexpectedEof));
}

#[test]
fn key_bits_are_msb_first() {
    // 0xA5 = 1010 0101
    let d = [0xA5u8, 0x01];
    let expected = [true, false, true, false, false, true, false, true];
    for (i, e) in expected.iter().enumerate() {
        assert_eq!(get_key_bit(&d, i), *e, "bit {}", i);
    }
    assert_eq!(get_key_bit(&d, 15), true); // LSB of the second byte
}

#[test]
fn file_header_fields_decode() {
    let mut d = vec![0u8; 16];
    d[0..4].copy_from_slice(b"RSAR");
    d[4] = 0xFE;
    d[5] = 0xFF;
    d[6..8].copy_from_slice(&0x0104u16.to_be_bytes());
    d[8..12].copy_from_slice(&0x1000u32.to_be_bytes());
    d[12..14].copy_from_slice(&0x40u16.to_be_bytes());
    d[14..16].copy_from_slice(&3u16.to_be_bytes());
    let h = decode_file_header(&d).unwrap();
    assert_eq!(&h.magic, b"RSAR");
    assert_eq!(h.endian, Endian::Big);
    assert_eq!(h.version, 0x0104);
    assert_eq!(h.file_size, 0x1000);
    assert_eq!(h.header_size, 0x40);
    assert_eq!(h.block_count, 3);
}

#[test]
fn short_file_header_is_eof() {
    let d = [0x52u8, 0x53, 0x41, 0x52, 0xFE, 0xFF, 0x01];
    assert_eq!(decode_file_header(&d), Err(DecodeError::UnexpectedEof));
}

#[test]
fn typed_id_keeps_raw_bytes() {
    let d = [0x03u8, 0xAA, 0xBB, 0xCC];
    let t = decode_typed_id(&d, 0).unwrap();
    assert_eq!(t.ty, 3);
    assert_eq!(t.id, [0xAA, 0xBB, 0xCC]);
}

#[test]
fn raw_reference_reads_envelope_and_offset() {
    let d = [0x01u8, 0x02, 0x00, 0x00, 0x00, 0x00, 0x01, 0x20];
    let r = decode_raw_reference(&d, 0, Endian::Big).unwrap();
    assert_eq!(r.layout.is_relative, 1);
    assert_eq!(r.layout.ty, 2);
    assert_eq!(r.offset, 0x120);
}

#[test]
fn extension_bytes_name_each_kind() {
    assert_eq!(extension_bytes(SoundType::Sequence), b"brseq".to_vec());
    assert_eq!(extension_bytes(SoundType::Stream), b"brstm".to_vec());
    assert_eq!(extension_bytes(SoundType::Wave), b"brwav".to_vec());
    assert_eq!(extension_bytes(SoundType::Invalid), b"bin".to_vec());
}

#[test]
fn extract_copies_exactly_the_range() {
    let d: Vec<u8> = (0u8..32).collect();
    let f = extract(&d, 4, 8).unwrap();
    assert_eq!(f.0, (4u8..12).collect::<Vec<u8>>());
    assert_eq!(extract(&d, 30, 8), Err(DecodeError::UnexpectedEof));
    assert_eq!(extract(&d, 32, 0).unwrap().0, Vec::<u8>::new());
}
