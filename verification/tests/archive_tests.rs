use brsar_rs::brsar::{decode_brsar, BRSAR};
use brsar_rs::common::decode_generic_file;
use brsar_rs::error::{DecodeError, Mismatch, RefSite, TableKind};
use brsar_rs::file_block::extract;
use brsar_rs::info::{SoundDetails, SoundType};

fn w16(b: &mut Vec<u8>, pos: usize, v: u16, le: bool) {
    let x = if le { v.to_le_bytes() } else { v.to_be_bytes() };
    b[pos..pos + 2].copy_from_slice(&x);
}

fn w32(b: &mut Vec<u8>, pos: usize, v: u32, le: bool) {
    let x = if le { v.to_le_bytes() } else { v.to_be_bytes() };
    b[pos..pos + 4].copy_from_slice(&x);
}

fn wref(b: &mut Vec<u8>, pos: usize, off: u32, le: bool) {
    b[pos] = 1; // relative
    b[pos + 1] = 0;
    w16(b, pos + 2, 0, le);
    w32(b, pos + 4, off, le);
}

fn header(b: &mut Vec<u8>, file_size: u32, le: bool) {
    b[0..4].copy_from_slice(b"RSAR");
    // the endian mark itself is always read big-endian
    if le {
        b[4] = 0xFF;
        b[5] = 0xFE;
    } else {
        b[4] = 0xFE;
        b[5] = 0xFF;
    }
    w16(b, 6, 0x0104, le);
    w32(b, 8, file_size, le);
    w16(b, 12, 0x40, le);
    w16(b, 14, 3, le);
}

/// The smallest valid archive: three blocks whose tables are all
/// empty.
fn build_empty(le: bool) -> Vec<u8> {
    let mut b = vec![0u8; 0x100];
    header(&mut b, 0x100, le);
    w32(&mut b, 16, 0x40, le); // SYMB offset
    w32(&mut b, 20, 0x20, le); // SYMB len
    w32(&mut b, 24, 0x60, le); // INFO offset
    w32(&mut b, 28, 80, le); // INFO len
    w32(&mut b, 32, 0xC0, le); // FILE offset
    w32(&mut b, 36, 8, le); // FILE len
    // SYMB: header plus zero padding; the five body-relative pointers
    // are zero, so the string table and the tries read zero counts.
    b[0x40..0x44].copy_from_slice(b"SYMB");
    w32(&mut b, 0x44, 0x20, le);
    // INFO: six references into the padding: five zero-count tables
    // and a zeroed archive-info record.
    b[0x60..0x64].copy_from_slice(b"INFO");
    w32(&mut b, 0x64, 80, le);
    let i = 0x68;
    for k in 0..5 {
        wref(&mut b, i + 8 * k, 48, le);
    }
    wref(&mut b, i + 40, 52, le);
    w32(&mut b, i + 48, 0, le);
    // FILE: header only
    b[0xC0..0xC4].copy_from_slice(b"FILE");
    w32(&mut b, 0xC4, 8, le);
    b
}

/// One wave sound named "boom" whose payload lies in the FILE block.
fn build_sample(le: bool) -> Vec<u8> {
    let mut b = vec![0u8; 0x280];
    header(&mut b, 0x280, le);
    w32(&mut b, 16, 0x40, le); // SYMB offset
    w32(&mut b, 20, 56, le); // SYMB len
    w32(&mut b, 24, 0x140, le); // INFO offset
    w32(&mut b, 28, 304, le); // INFO len
    w32(&mut b, 32, 0x100, le); // FILE offset
    w32(&mut b, 36, 0x40, le); // FILE len

    // SYMB block
    b[0x40..0x44].copy_from_slice(b"SYMB");
    w32(&mut b, 0x44, 56, le);
    let s = 0x48;
    w32(&mut b, s, 20, le); // string table
    w32(&mut b, s + 4, 40, le); // sound tree
    w32(&mut b, s + 8, 40, le); // player tree
    w32(&mut b, s + 12, 40, le); // group tree
    w32(&mut b, s + 16, 40, le); // bank tree
    w32(&mut b, s + 20, 1, le); // string count
    w32(&mut b, s + 24, 32, le); // pointer to the one string
    b[s + 32..s + 37].copy_from_slice(b"boom\0");
    w32(&mut b, s + 40, 0xFFFFFFFF, le); // empty trie: sentinel root
    w32(&mut b, s + 44, 0, le); // node count 0

    // FILE block with a recognizable payload at 0x120..0x130
    b[0x100..0x104].copy_from_slice(b"FILE");
    w32(&mut b, 0x104, 0x40, le);
    for k in 0..0x10 {
        b[0x120 + k] = 0xA0 + k as u8;
    }

    // INFO block
    b[0x140..0x144].copy_from_slice(b"INFO");
    w32(&mut b, 0x144, 304, le);
    let i = 0x148;
    wref(&mut b, i, 48, le); // sound table
    wref(&mut b, i + 8, 104, le); // bank table
    wref(&mut b, i + 16, 104, le); // player table
    wref(&mut b, i + 24, 108, le); // file table
    wref(&mut b, i + 32, 168, le); // group table
    wref(&mut b, i + 40, 256, le); // sound archive info
    w32(&mut b, i + 48, 1, le); // sound count
    wref(&mut b, i + 52, 60, le);
    // SoundInfo at i+60
    w32(&mut b, i + 60, 0, le); // string_id
    w32(&mut b, i + 64, 0, le); // file_id
    // player_id, sound_info_3d: zeros (absolute null -> None)
    b[i + 80] = 0x7F; // volume
    b[i + 81] = 0x40; // player_priority
    b[i + 82] = 3; // sound_type: wave
    b[i + 83] = 0; // remote_filter
    wref(&mut b, i + 84, 276, le); // details
    // user: zeros
    b[i + 100] = 0; // pan_mode
    b[i + 101] = 1; // pan_curve
    w32(&mut b, i + 104, 0, le); // bank & player count
    w32(&mut b, i + 108, 1, le); // file count
    wref(&mut b, i + 112, 120, le);
    // FileInfo at i+120
    w32(&mut b, i + 120, 0x10, le); // file_size
    w32(&mut b, i + 124, 0, le); // archive_size
    w32(&mut b, i + 128, 0xFFFFFFFF, le); // file_id
    // external_file: zeros (absolute null -> None)
    wref(&mut b, i + 140, 148, le); // file positions
    w32(&mut b, i + 148, 1, le); // position count
    wref(&mut b, i + 152, 160, le);
    w32(&mut b, i + 160, 0, le); // group_index
    w32(&mut b, i + 164, 0, le); // item_index
    w32(&mut b, i + 168, 1, le); // group count
    wref(&mut b, i + 172, 180, le);
    // GroupInfo at i+180
    w32(&mut b, i + 184, 0xFFFFFFFF, le); // group_id
    // external_file: zeros (absolute null -> None)
    w32(&mut b, i + 196, 0x100, le); // file_base
    w32(&mut b, i + 200, 0x40, le); // total_size
    w32(&mut b, i + 204, 0, le); // archive_base
    w32(&mut b, i + 208, 0, le); // archive_size
    wref(&mut b, i + 212, 220, le); // entries
    w32(&mut b, i + 220, 1, le); // entry count
    wref(&mut b, i + 224, 232, le);
    // GroupEntry at i+232
    w32(&mut b, i + 236, 0x20, le); // file_offset
    w32(&mut b, i + 240, 0x10, le); // file_size
    // SoundArchiveInfo at i+256
    w16(&mut b, i + 256, 1, le); // max_sequences
    w16(&mut b, i + 258, 2, le); // max_seq_tracks
    // WaveDetails at i+276
    w32(&mut b, i + 276, 0x1234, le); // sound_data_node
    b
}

fn decode_ok(b: &[u8]) -> BRSAR {
    decode_brsar(b).expect("archive should decode")
}

#[test]
fn s1_smallest_valid_file_decodes_empty() {
    let b = build_empty(false);
    let a = decode_ok(&b);
    assert_eq!(&a.header.magic, b"RSAR");
    assert_eq!(a.header.block_count, 3);
    assert_eq!(a.symbol.block.string_table.0.len(), 0);
    assert_eq!(a.symbol.block.sound_tree.nodes.len(), 0);
    assert_eq!(a.info.block.sound_table.0.len(), 0);
    assert_eq!(a.info.block.bank_table.0.len(), 0);
    assert_eq!(a.info.block.player_table.0.len(), 0);
    assert_eq!(a.info.block.file_table.0.len(), 0);
    assert_eq!(a.info.block.group_table.0.len(), 0);
    assert!(a.extents_within_file_block());
}

#[test]
fn s1_resolve_on_any_index_is_out_of_bounds() {
    let b = build_empty(false);
    let a = decode_ok(&b);
    for idx in [0usize, 1, 7] {
        match a.resolve_sound(idx) {
            Err(e) => assert_eq!(
                e,
                DecodeError::IndexOutOfBounds { table: TableKind::SoundTable, index: idx, len: 0 }
            ),
            Ok(_) => panic!("resolve_sound({}) should fail on an empty archive", idx),
        }
    }
}

#[test]
fn s2_one_wave_sound_resolves() {
    let b = build_sample(false);
    let a = decode_ok(&b);
    assert_eq!(a.symbol.block.string_table.0.len(), 1);
    assert_eq!(a.symbol.block.string_table.0[0], b"boom".to_vec());
    let r = a.resolve_sound(0).expect("sound 0 should resolve");
    assert_eq!(r.name, b"boom".to_vec());
    assert_eq!(r.extension, b"brwav".to_vec());
    assert_eq!(r.bytes_range, (0x120u64, 0x10u32));
}

#[test]
fn s2_sound_fields_and_null_policy() {
    let b = build_sample(false);
    let a = decode_ok(&b);
    let s = &a.info.block.sound_table.0[0];
    assert_eq!(s.sound_type, SoundType::Wave);
    assert!(s.sound_info_3d.is_none());
    assert_eq!(s.volume, 0x7F);
    match &s.details {
        SoundDetails::Wave(w) => assert_eq!(w.sound_data_node, 0x1234),
        other => panic!("expected wave details, got {:?}", other),
    }
    let f = &a.info.block.file_table.0[0];
    assert_eq!(f.external_file, None);
    assert_eq!(f.file_positions.0.len(), 1);
    let g = &a.info.block.group_table.0[0];
    assert_eq!(g.external_file, None);
    assert_eq!(g.file_base, 0x100);
    assert_eq!(g.entries.0.len(), 1);
}

#[test]
fn s2_extract_payload_bytes() {
    let b = build_sample(false);
    let a = decode_ok(&b);
    let r = a.resolve_sound(0).unwrap();
    let f = extract(&b, r.bytes_range.0 as usize, r.bytes_range.1 as usize).unwrap();
    let expected: Vec<u8> = (0..0x10).map(|k| 0xA0 + k as u8).collect();
    assert_eq!(f.0, expected);
}

#[test]
fn s2_file_span_and_extents() {
    let b = build_sample(false);
    let a = decode_ok(&b);
    assert_eq!(a.file_span(), (0x108u64, 0x38u32));
    assert!(a.extents_within_file_block());
}

#[test]
fn extent_outside_file_block_is_flagged() {
    let mut b = build_sample(false);
    let i = 0x148;
    w32(&mut b, i + 236, 0x1000, false); // file_offset far past the block
    let a = decode_ok(&b);
    assert!(!a.extents_within_file_block());
}

#[test]
fn s4_little_endian_archive_matches_big_endian() {
    let be = decode_ok(&build_sample(false));
    let le = decode_ok(&build_sample(true));
    assert_eq!(be.header.endian, brsar_rs::common::Endian::Big);
    assert_eq!(le.header.endian, brsar_rs::common::Endian::Little);
    assert_eq!(be.header.version, le.header.version);
    assert_eq!(be.header.file_size, le.header.file_size);
    assert_eq!(be.header.block_count, le.header.block_count);
    assert_eq!(be.symbol.block, le.symbol.block);
    assert_eq!(be.info.block, le.info.block);
    assert_eq!(be.file.block, le.file.block);
    let rb = be.resolve_sound(0).unwrap();
    let rl = le.resolve_sound(0).unwrap();
    assert_eq!(rb.name, rl.name);
    assert_eq!(rb.extension, rl.extension);
    assert_eq!(rb.bytes_range, rl.bytes_range);
}

#[test]
fn s5_bad_magic_rejected() {
    let mut b = build_sample(false);
    b[0..4].copy_from_slice(b"XXXX");
    match decode_brsar(&b) {
        Err(e) => assert_eq!(e, DecodeError::BadMagic { expected: *b"RSAR", got: *b"XXXX" }),
        Ok(_) => panic!("a wrong magic must be rejected"),
    }
}

#[test]
fn s6_block_length_mismatch_rejected() {
    let mut b = build_sample(false);
    w32(&mut b, 8, 0x400, false); // keep the bounds check satisfied
    w32(&mut b, 28, 0x200, false); // INFO ptr len no longer matches its header
    assert_eq!(
        decode_brsar(&b),
        Err(DecodeError::StructuralMismatch(Mismatch::BlockLength))
    );
}

#[test]
fn bad_endian_mark_rejected() {
    let mut b = build_sample(false);
    b[4] = 0xBE;
    b[5] = 0xEF;
    assert_eq!(decode_brsar(&b), Err(DecodeError::BadEndianMark(0xBEEF)));
}

#[test]
fn unsupported_version_rejected() {
    let mut b = build_sample(false);
    w16(&mut b, 6, 0x0105, false);
    assert_eq!(decode_brsar(&b), Err(DecodeError::UnsupportedVersion(0x0105)));
}

#[test]
fn wrong_block_count_rejected() {
    let mut b = build_sample(false);
    w16(&mut b, 14, 2, false);
    assert_eq!(
        decode_brsar(&b),
        Err(DecodeError::StructuralMismatch(Mismatch::BlockCount))
    );
}

#[test]
fn unaligned_block_rejected() {
    let mut b = build_sample(false);
    w32(&mut b, 16, 0x44, false);
    assert_eq!(
        decode_brsar(&b),
        Err(DecodeError::StructuralMismatch(Mismatch::BlockAlignment))
    );
}

#[test]
fn block_past_file_size_rejected() {
    let mut b = build_sample(false);
    w32(&mut b, 20, 0xFFFF_0000, false);
    assert_eq!(
        decode_brsar(&b),
        Err(DecodeError::StructuralMismatch(Mismatch::BlockOutOfFile))
    );
}

#[test]
fn null_sound_table_reference_is_fatal() {
    let mut b = build_sample(false);
    let i = 0x148;
    for k in 0..8 {
        b[i + k] = 0; // absolute reference with offset 0
    }
    assert_eq!(
        decode_brsar(&b),
        Err(DecodeError::NullAbsoluteReference(RefSite::SoundTable))
    );
}

#[test]
fn file_without_positions_has_no_payload() {
    let mut b = build_sample(false);
    let i = 0x148;
    w32(&mut b, i + 148, 0, false); // position count 0
    let a = decode_ok(&b);
    match a.resolve_sound(0) {
        Err(e) => assert_eq!(e, DecodeError::NoPayload),
        Ok(_) => panic!("a file record without positions should have no payload"),
    }
}

#[test]
fn sequence_sound_gets_sequence_details() {
    let mut b = build_sample(false);
    let i = 0x148;
    b[i + 82] = 1; // sound_type: sequence
    let a = decode_ok(&b);
    let s = &a.info.block.sound_table.0[0];
    assert_eq!(s.sound_type, SoundType::Sequence);
    match &s.details {
        SoundDetails::Sequence(q) => assert_eq!(q.seq_label_entry, 0x1234),
        other => panic!("expected sequence details, got {:?}", other),
    }
}

#[test]
fn stream_sound_gets_stream_details() {
    let mut b = build_sample(false);
    let i = 0x148;
    b[i + 82] = 2;
    let a = decode_ok(&b);
    let s = &a.info.block.sound_table.0[0];
    assert_eq!(s.sound_type, SoundType::Stream);
    match &s.details {
        SoundDetails::Stream(q) => assert_eq!(q.start_pos, 0x1234),
        other => panic!("expected stream details, got {:?}", other),
    }
}

#[test]
fn unknown_sound_type_keeps_raw_tag() {
    let mut b = build_sample(false);
    let i = 0x148;
    b[i + 82] = 7;
    let a = decode_ok(&b);
    let s = &a.info.block.sound_table.0[0];
    assert_eq!(s.sound_type, SoundType::Invalid);
    assert_eq!(s.details, SoundDetails::Unknown(7));
    let r = a.resolve_sound(0).unwrap();
    assert_eq!(r.extension, b"bin".to_vec());
}

#[test]
fn generic_file_inspection_lists_blocks() {
    let b = build_sample(false);
    let g = decode_generic_file(&b).expect("generic decode should work");
    assert_eq!(&g.header.magic, b"RSAR");
    assert_eq!(g.blocks.len(), 3);
    assert_eq!(&g.blocks[0].block.header.magic, b"SYMB");
    assert_eq!(&g.blocks[1].block.header.magic, b"INFO");
    assert_eq!(&g.blocks[2].block.header.magic, b"FILE");
    for p in &g.blocks {
        assert_eq!(p.block.header.size, p.len);
        assert_eq!(p.block.body.len(), p.len as usize);
    }
}

#[test]
fn s1_little_endian_empty_archive_decodes_too() {
    let a = decode_ok(&build_empty(true));
    assert_eq!(a.header.endian, brsar_rs::common::Endian::Little);
    assert_eq!(a.info.block.sound_table.0.len(), 0);
}

#[test]
fn resolve_reports_the_table_an_index_missed() {
    let i = 0x148;
    // string_id beyond the one-string table
    let mut b = build_sample(false);
    w32(&mut b, i + 60, 9, false);
    match decode_ok(&b).resolve_sound(0) {
        Err(DecodeError::IndexOutOfBounds { table, index, len }) => {
            assert_eq!(table, TableKind::StringTable);
            assert_eq!(index, 9);
            assert_eq!(len, 1);
        },
        other => panic!("expected a string-table miss, got {:?}", other),
    }
    // file_id beyond the file table
    let mut b = build_sample(false);
    w32(&mut b, i + 64, 3, false);
    match decode_ok(&b).resolve_sound(0) {
        Err(DecodeError::IndexOutOfBounds { table, .. }) => assert_eq!(table, TableKind::FileTable),
        other => panic!("expected a file-table miss, got {:?}", other),
    }
    // group_index beyond the group table
    let mut b = build_sample(false);
    w32(&mut b, i + 160, 5, false);
    match decode_ok(&b).resolve_sound(0) {
        Err(DecodeError::IndexOutOfBounds { table, .. }) => assert_eq!(table, TableKind::GroupTable),
        other => panic!("expected a group-table miss, got {:?}", other),
    }
    // item_index beyond the group's entries
    let mut b = build_sample(false);
    w32(&mut b, i + 164, 2, false);
    match decode_ok(&b).resolve_sound(0) {
        Err(DecodeError::IndexOutOfBounds { table, .. }) => {
            assert_eq!(table, TableKind::GroupEntries)
        },
        other => panic!("expected a group-entry miss, got {:?}", other),
    }
}

#[test]
fn external_file_name_is_kept_when_present() {
    let mut b = build_sample(false);
    let i = 0x148;
    // point the file record's external reference at the name "boom"
    // stored in the SYMB block, via an absolute reference
    b[i + 132] = 0; // absolute
    b[i + 133] = 0;
    w16(&mut b, i + 134, 0, false);
    w32(&mut b, i + 136, 0x68, false); // "boom\0" lies at 0x68
    let a = decode_ok(&b);
    assert_eq!(a.info.block.file_table.0[0].external_file, Some(b"boom".to_vec()));
}

#[test]
fn truncated_file_is_unexpected_eof() {
    let b = build_sample(false);
    assert_eq!(decode_brsar(&b[..3]), Err(DecodeError::UnexpectedEof));
    assert_eq!(decode_brsar(&b[..10]), Err(DecodeError::UnexpectedEof));
    assert_eq!(decode_brsar(&b[..20]), Err(DecodeError::UnexpectedEof));
}
