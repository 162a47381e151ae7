//! The archive facade: the whole-file decoder that frames the three
//! blocks, and the resolution of a sound index to its name, extension
//! and byte range inside the FILE block.

use vstd::prelude::*;

use crate::bytes::{get_bytes4, get_u32, has_bytes, sbytes4, su32};
use crate::common::{decode_file_header, spec_block_header, spec_file_header, BlockPtr,
    BlockPtrView, Endian, FileHeader};
use crate::error::{decodes_to, DecodeError, Mismatch, TableKind};
use crate::file_block::{decode_file_block, spec_file_block, FileBlock};
use crate::info::{decode_info_block, lemma_info_block_sounds_consistent, sound_details_consistent,
    spec_info_block, InfoBlock, InfoBlockView, SoundType};
use crate::symbol::{decode_symbol_block, spec_symbol_block, SymbolBlock, SymbolBlockView};

verus! {

broadcast use vstd::array::group_array_axioms;

/// The magic of the whole file.
pub open spec fn rsar_magic() -> [u8; 4] {
    [0x52u8, 0x53u8, 0x41u8, 0x52u8]
}

/// The magic of the SYMB block.
pub open spec fn symb_magic() -> [u8; 4] {
    [0x53u8, 0x59u8, 0x4Du8, 0x42u8]
}

/// The magic of the INFO block.
pub open spec fn info_magic() -> [u8; 4] {
    [0x49u8, 0x4Eu8, 0x46u8, 0x4Fu8]
}

/// The magic of the FILE block.
pub open spec fn file_magic() -> [u8; 4] {
    [0x46u8, 0x49u8, 0x4Cu8, 0x45u8]
}

/// The decoded archive: the file header and the three block pointers
/// with their decoded blocks.
#[derive(Debug, Clone, PartialEq)]
pub struct BRSAR {
    pub header: FileHeader,
    pub symbol: BlockPtr<SymbolBlock>,
    pub info: BlockPtr<InfoBlock>,
    pub file: BlockPtr<FileBlock>,
}

/// Abstraction of a `BRSAR`.
pub struct BrsarView {
    pub header: FileHeader,
    pub symbol: BlockPtrView<SymbolBlockView>,
    pub info: BlockPtrView<InfoBlockView>,
    pub file: BlockPtrView<FileBlock>,
}

impl DeepView for BRSAR {
    type V = BrsarView;

    open spec fn deep_view(&self) -> BrsarView {
        BrsarView {
            header: self.header,
            symbol: self.symbol.deep_view(),
            info: self.info.deep_view(),
            file: self.file.deep_view(),
        }
    }
}

/// The checks of one entry of the block index at position `p`: the
/// offset is 0x20-aligned, the block lies within the declared file
/// size, and the block header at the offset carries the expected magic
/// and a size equal to the entry's length.  Yields the offset and
/// length.
pub open spec fn spec_checked_block_ptr(
    d: Seq<u8>,
    p: int,
    en: Endian,
    expected: [u8; 4],
    file_size: u32,
) -> Result<(u32, u32), DecodeError> {
    if !(0 <= p && p + 8 <= d.len()) {
        Err(DecodeError::UnexpectedEof)
    } else {
        let off = su32(d, p, en);
        let ln = su32(d, p + 4, en);
        if off % 0x20 != 0 {
            Err(DecodeError::StructuralMismatch(Mismatch::BlockAlignment))
        } else if off + ln > file_size {
            Err(DecodeError::StructuralMismatch(Mismatch::BlockOutOfFile))
        } else {
            match spec_block_header(d, off as int, en) {
                Err(e) => Err(e),
                Ok(bh) => if bh.magic != expected {
                    Err(DecodeError::BadMagic { expected, got: bh.magic })
                } else if bh.size != ln {
                    Err(DecodeError::StructuralMismatch(Mismatch::BlockLength))
                } else {
                    Ok((off, ln))
                },
            }
        }
    }
}

fn check_block_ptr(d: &[u8], p: usize, en: Endian, expected: [u8; 4], file_size: u32) -> (r: Result<
    (u32, u32),
    DecodeError,
>)
    ensures
        match spec_checked_block_ptr(d@, p as int, en, expected, file_size) {
            Ok(v) => r == Ok::<(u32, u32), DecodeError>(v),
            Err(e) => r == Err::<(u32, u32), DecodeError>(e),
        },
{
    if !has_bytes(d, p, 8) {
        return Err(DecodeError::UnexpectedEof);
    }
    let off = get_u32(d, p, en);
    let ln = get_u32(d, p + 4, en);
    if off % 0x20 != 0 {
        return Err(DecodeError::StructuralMismatch(Mismatch::BlockAlignment));
    }
    if off as u64 + ln as u64 > file_size as u64 {
        return Err(DecodeError::StructuralMismatch(Mismatch::BlockOutOfFile));
    }
    let bh = match crate::common::decode_block_header(d, off as usize, en) {
        Ok(v) => v,
        Err(e) => {
            return Err(e);
        },
    };
    if !(bh.magic[0] == expected[0] && bh.magic[1] == expected[1] && bh.magic[2] == expected[2]
        && bh.magic[3] == expected[3]) {
        proof {
            assert(bh.magic != expected) by {
                assert(!(bh.magic =~= expected));
            }
        }
        return Err(DecodeError::BadMagic { expected, got: bh.magic });
    }
    proof {
        assert(bh.magic =~= expected);
    }
    if bh.size != ln {
        return Err(DecodeError::StructuralMismatch(Mismatch::BlockLength));
    }
    Ok((off, ln))
}

/// The whole archive: the magic is judged before anything else is
/// read; then the header with its endian mark, the version and the
/// block count are checked; then the three entries of the block index
/// are validated and their blocks decoded, SYMB, INFO and FILE in
/// order.
pub open spec fn spec_brsar(d: Seq<u8>) -> Result<BrsarView, DecodeError> {
    if d.len() < 4 {
        Err(DecodeError::UnexpectedEof)
    } else if sbytes4(d, 0) != rsar_magic() {
        Err(DecodeError::BadMagic { expected: rsar_magic(), got: sbytes4(d, 0) })
    } else {
        match spec_file_header(d) {
            Err(e) => Err(e),
            Ok(h) => if h.version != 0x0104 {
                Err(DecodeError::UnsupportedVersion(h.version))
            } else if h.block_count != 3 {
                Err(DecodeError::StructuralMismatch(Mismatch::BlockCount))
            } else {
                let en = h.endian;
                match spec_checked_block_ptr(d, 16, en, symb_magic(), h.file_size) {
                    Err(e) => Err(e),
                    Ok((o0, l0)) => match spec_symbol_block(d, o0 as int, en) {
                        Err(e) => Err(e),
                        Ok(symb) => match spec_checked_block_ptr(
                            d,
                            24,
                            en,
                            info_magic(),
                            h.file_size,
                        ) {
                            Err(e) => Err(e),
                            Ok((o1, l1)) => match spec_info_block(d, o1 as int, en) {
                                Err(e) => Err(e),
                                Ok(info) => match spec_checked_block_ptr(
                                    d,
                                    32,
                                    en,
                                    file_magic(),
                                    h.file_size,
                                ) {
                                    Err(e) => Err(e),
                                    Ok((o2, l2)) => match spec_file_block(d, o2 as int, en) {
                                        Err(e) => Err(e),
                                        Ok(file) => Ok(
                                            BrsarView {
                                                header: h,
                                                symbol: BlockPtrView {
                                                    offset: o0,
                                                    block: symb,
                                                    len: l0,
                                                },
                                                info: BlockPtrView {
                                                    offset: o1,
                                                    block: info,
                                                    len: l1,
                                                },
                                                file: BlockPtrView {
                                                    offset: o2,
                                                    block: file,
                                                    len: l2,
                                                },
                                            },
                                        ),
                                    },
                                },
                            },
                        },
                    },
                }
            },
        }
    }
}

/// Decodes a whole archive from a byte buffer.  On success the value
/// is exactly `spec_brsar(d@)`, and with it the structural invariants
/// of the container hold: the magic reads RSAR, the version is the
/// supported one, the block count is three, every block lies within
/// the declared file size at a 0x20-aligned offset, every block
/// header's size equals its index entry's length, and every sound's
/// details variant agrees with its type.
pub fn decode_brsar(d: &[u8]) -> (r: Result<BRSAR, DecodeError>)
    ensures
        decodes_to(r, spec_brsar(d@)),
        r is Ok ==> {
            let a = r->Ok_0;
            &&& a.header.magic == rsar_magic()
            &&& a.header.version == 0x0104
            &&& a.header.block_count == 3
            &&& a.symbol.offset % 0x20 == 0 && a.symbol.offset + a.symbol.len
                <= a.header.file_size
            &&& a.info.offset % 0x20 == 0 && a.info.offset + a.info.len <= a.header.file_size
            &&& a.file.offset % 0x20 == 0 && a.file.offset + a.file.len <= a.header.file_size
            &&& a.symbol.block.header.magic == symb_magic() && a.symbol.block.header.size
                == a.symbol.len
            &&& a.info.block.header.magic == info_magic() && a.info.block.header.size == a.info.len
            &&& a.file.block.header.magic == file_magic() && a.file.block.header.size == a.file.len
            &&& forall|i: int|
                0 <= i < a.info.block.sound_table.0@.len() ==> sound_details_consistent(
                    #[trigger] a.info.block.sound_table.0@[i],
                )
        },
{
    if !has_bytes(d, 0, 4) {
        return Err(DecodeError::UnexpectedEof);
    }
    let got = get_bytes4(d, 0);
    if !(got[0] == 0x52 && got[1] == 0x53 && got[2] == 0x41 && got[3] == 0x52) {
        proof {
            assert(!(got =~= rsar_magic()));
        }
        return Err(DecodeError::BadMagic { expected: [0x52, 0x53, 0x41, 0x52], got });
    }
    proof {
        assert(got =~= rsar_magic());
    }
    let h = match decode_file_header(d) {
        Ok(v) => v,
        Err(e) => {
            return Err(e);
        },
    };
    if h.version != 0x0104 {
        return Err(DecodeError::UnsupportedVersion(h.version));
    }
    if h.block_count != 3 {
        return Err(DecodeError::StructuralMismatch(Mismatch::BlockCount));
    }
    let en = h.endian;
    let (o0, l0) = match check_block_ptr(d, 16, en, [0x53, 0x59, 0x4D, 0x42], h.file_size) {
        Ok(v) => v,
        Err(e) => {
            proof {
                assert([0x53u8, 0x59u8, 0x4Du8, 0x42u8] =~= symb_magic());
            }
            return Err(e);
        },
    };
    proof {
        assert([0x53u8, 0x59u8, 0x4Du8, 0x42u8] =~= symb_magic());
    }
    let symb = match decode_symbol_block(d, o0 as usize, en) {
        Ok(v) => v,
        Err(e) => {
            return Err(e);
        },
    };
    let (o1, l1) = match check_block_ptr(d, 24, en, [0x49, 0x4E, 0x46, 0x4F], h.file_size) {
        Ok(v) => v,
        Err(e) => {
            proof {
                assert([0x49u8, 0x4Eu8, 0x46u8, 0x4Fu8] =~= info_magic());
            }
            return Err(e);
        },
    };
    proof {
        assert([0x49u8, 0x4Eu8, 0x46u8, 0x4Fu8] =~= info_magic());
    }
    let info = match decode_info_block(d, o1 as usize, en) {
        Ok(v) => v,
        Err(e) => {
            return Err(e);
        },
    };
    let (o2, l2) = match check_block_ptr(d, 32, en, [0x46, 0x49, 0x4C, 0x45], h.file_size) {
        Ok(v) => v,
        Err(e) => {
            proof {
                assert([0x46u8, 0x49u8, 0x4Cu8, 0x45u8] =~= file_magic());
            }
            return Err(e);
        },
    };
    proof {
        assert([0x46u8, 0x49u8, 0x4Cu8, 0x45u8] =~= file_magic());
    }
    let file = match decode_file_block(d, o2 as usize, en) {
        Ok(v) => v,
        Err(e) => {
            return Err(e);
        },
    };
    let result = BRSAR {
        header: h,
        symbol: BlockPtr { offset: o0, block: symb, len: l0 },
        info: BlockPtr { offset: o1, block: info, len: l1 },
        file: BlockPtr { offset: o2, block: file, len: l2 },
    };
    proof {
        lemma_info_block_sounds_consistent(d@, o1 as int, en);
        let mv = spec_info_block(d@, o1 as int, en)->Ok_0;
        assert forall|i: int|
            0 <= i < result.info.block.sound_table.0@.len() implies sound_details_consistent(
            #[trigger] result.info.block.sound_table.0@[i],
        ) by {
            assert(result.info.block.sound_table.deep_view()[i]
                == result.info.block.sound_table.0@[i].deep_view());
            assert(mv.sound_table[i] == result.info.block.sound_table.0@[i]);
        }
    }
    Ok(result)
}

/// A resolved sound: its name from the string table, the file
/// extension its type implies, and the byte range of its payload in
/// file coordinates.  The range is exposed, never materialized: many
/// sounds may reference overlapping regions.
#[derive(Debug)]
pub struct ResolvedSound {
    pub name: Vec<u8>,
    pub extension: Vec<u8>,
    pub bytes_range: (u64, u32),
}

/// Abstraction of a `ResolvedSound`.
pub struct ResolvedSoundView {
    pub name: Seq<u8>,
    pub extension: Seq<u8>,
    pub bytes_range: (u64, u32),
}

impl DeepView for ResolvedSound {
    type V = ResolvedSoundView;

    open spec fn deep_view(&self) -> ResolvedSoundView {
        ResolvedSoundView {
            name: self.name.deep_view(),
            extension: self.extension.deep_view(),
            bytes_range: self.bytes_range,
        }
    }
}

/// The file extension a sound's type implies: `brseq`, `brstm` and
/// `brwav` for the three known kinds, `bin` otherwise, as bytes.
pub open spec fn spec_extension(t: SoundType) -> Seq<u8> {
    match t {
        SoundType::Sequence => seq![0x62u8, 0x72u8, 0x73u8, 0x65u8, 0x71u8],
        SoundType::Stream => seq![0x62u8, 0x72u8, 0x73u8, 0x74u8, 0x6Du8],
        SoundType::Wave => seq![0x62u8, 0x72u8, 0x77u8, 0x61u8, 0x76u8],
        SoundType::Invalid => seq![0x62u8, 0x69u8, 0x6Eu8],
    }
}

pub fn extension_bytes(t: SoundType) -> (r: Vec<u8>)
    ensures
        r@ == spec_extension(t),
{
    let mut v: Vec<u8> = Vec::new();
    match t {
        SoundType::Sequence => {
            v.push(0x62);
            v.push(0x72);
            v.push(0x73);
            v.push(0x65);
            v.push(0x71);
            assert(v@ =~= spec_extension(t));
        },
        SoundType::Stream => {
            v.push(0x62);
            v.push(0x72);
            v.push(0x73);
            v.push(0x74);
            v.push(0x6D);
            assert(v@ =~= spec_extension(t));
        },
        SoundType::Wave => {
            v.push(0x62);
            v.push(0x72);
            v.push(0x77);
            v.push(0x61);
            v.push(0x76);
            assert(v@ =~= spec_extension(t));
        },
        SoundType::Invalid => {
            v.push(0x62);
            v.push(0x69);
            v.push(0x6E);
            assert(v@ =~= spec_extension(t));
        },
    }
    v
}

/// Resolution of a sound index against a decoded archive: the sound
/// names a string and a file record; the file's first position names a
/// group and an entry in it; the entry's offset, measured from the
/// group's file base, and its size form the byte range.  Each lookup
/// is checked and reports the table it missed; a file record without
/// positions has no payload.
pub open spec fn spec_resolve_sound(a: BrsarView, idx: usize) -> Result<
    ResolvedSoundView,
    DecodeError,
> {
    let sounds = a.info.block.sound_table;
    if idx as int >= sounds.len() {
        Err(
            DecodeError::IndexOutOfBounds {
                table: TableKind::SoundTable,
                index: idx,
                len: sounds.len() as usize,
            },
        )
    } else {
        let s = sounds[idx as int];
        let strs = a.symbol.block.string_table;
        if s.string_id as int >= strs.len() {
            Err(
                DecodeError::IndexOutOfBounds {
                    table: TableKind::StringTable,
                    index: s.string_id as usize,
                    len: strs.len() as usize,
                },
            )
        } else {
            let files = a.info.block.file_table;
            if s.file_id as int >= files.len() {
                Err(
                    DecodeError::IndexOutOfBounds {
                        table: TableKind::FileTable,
                        index: s.file_id as usize,
                        len: files.len() as usize,
                    },
                )
            } else {
                let f = files[s.file_id as int];
                if f.file_positions.len() == 0 {
                    Err(DecodeError::NoPayload)
                } else {
                    let p0 = f.file_positions[0];
                    let groups = a.info.block.group_table;
                    if p0.group_index as int >= groups.len() {
                        Err(
                            DecodeError::IndexOutOfBounds {
                                table: TableKind::GroupTable,
                                index: p0.group_index as usize,
                                len: groups.len() as usize,
                            },
                        )
                    } else {
                        let g = groups[p0.group_index as int];
                        if p0.item_index as int >= g.entries.len() {
                            Err(
                                DecodeError::IndexOutOfBounds {
                                    table: TableKind::GroupEntries,
                                    index: p0.item_index as usize,
                                    len: g.entries.len() as usize,
                                },
                            )
                        } else {
                            let e = g.entries[p0.item_index as int];
                            Ok(
                                ResolvedSoundView {
                                    name: strs[s.string_id as int],
                                    extension: spec_extension(s.sound_type),
                                    bytes_range: (
                                        (g.file_base as u64 + e.file_offset as u64) as u64,
                                        e.file_size,
                                    ),
                                },
                            )
                        }
                    }
                }
            }
        }
    }
}

impl BRSAR {
    /// The byte range of the FILE block's body in file coordinates:
    /// it starts after the block's eight-byte header and runs to the
    /// end of the block.
    pub fn file_span(&self) -> (r: (u64, u32))
        ensures
            r.0 == self.file.offset + 8,
            r.1 == if self.file.len >= 8 {
                (self.file.len - 8) as u32
            } else {
                0u32
            },
    {
        (self.file.offset as u64 + 8, if self.file.len >= 8 {
            self.file.len - 8
        } else {
            0
        })
    }

    /// Resolves a sound index to its name, extension and payload byte
    /// range, exactly as `spec_resolve_sound` states.
    pub fn resolve_sound(&self, sound_index: usize) -> (r: Result<ResolvedSound, DecodeError>)
        ensures
            decodes_to(r, spec_resolve_sound(self.deep_view(), sound_index)),
    {
        broadcast use crate::bytes::lemma_vec_u8_deep_view;

        let ghost a = self.deep_view();
        let sounds = &self.info.block.sound_table.0;
        if sound_index >= sounds.len() {
            return Err(
                DecodeError::IndexOutOfBounds {
                    table: TableKind::SoundTable,
                    index: sound_index,
                    len: sounds.len(),
                },
            );
        }
        let s = &sounds[sound_index];
        proof {
            assert(a.info.block.sound_table[sound_index as int] == sounds@[sound_index as int]);
        }
        let strs = &self.symbol.block.string_table.0;
        if s.string_id as usize >= strs.len() {
            return Err(
                DecodeError::IndexOutOfBounds {
                    table: TableKind::StringTable,
                    index: s.string_id as usize,
                    len: strs.len(),
                },
            );
        }
        let files = &self.info.block.file_table.0;
        if s.file_id as usize >= files.len() {
            return Err(
                DecodeError::IndexOutOfBounds {
                    table: TableKind::FileTable,
                    index: s.file_id as usize,
                    len: files.len(),
                },
            );
        }
        let f = &files[s.file_id as usize];
        proof {
            assert(a.info.block.file_table[s.file_id as int] == files@[s.file_id as int].deep_view());
        }
        if f.file_positions.0.len() == 0 {
            return Err(DecodeError::NoPayload);
        }
        let p0 = f.file_positions.0[0];
        let groups = &self.info.block.group_table.0;
        if p0.group_index as usize >= groups.len() {
            return Err(
                DecodeError::IndexOutOfBounds {
                    table: TableKind::GroupTable,
                    index: p0.group_index as usize,
                    len: groups.len(),
                },
            );
        }
        let g = &groups[p0.group_index as usize];
        proof {
            assert(a.info.block.group_table[p0.group_index as int] == groups@[p0.group_index
                as int].deep_view());
        }
        if p0.item_index as usize >= g.entries.0.len() {
            return Err(
                DecodeError::IndexOutOfBounds {
                    table: TableKind::GroupEntries,
                    index: p0.item_index as usize,
                    len: g.entries.0.len(),
                },
            );
        }
        let e = g.entries.0[p0.item_index as usize];
        let name = clone_bytes(&strs[s.string_id as usize]);
        proof {
            assert(a.symbol.block.string_table[s.string_id as int] == strs@[s.string_id
                as int].deep_view());
        }
        Ok(
            ResolvedSound {
                name,
                extension: extension_bytes(s.sound_type),
                bytes_range: (g.file_base as u64 + e.file_offset as u64, e.file_size),
            },
        )
    }

    /// True exactly when every entry of every group lies within the
    /// FILE block's body.
    pub fn extents_within_file_block(&self) -> (r: bool)
        ensures
            r == spec_extents_ok(self.deep_view()),
    {
        let ghost a = self.deep_view();
        let body_start = self.file.offset as u64 + 8;
        let body_end = self.file.offset as u64 + self.file.len as u64;
        let groups = &self.info.block.group_table.0;
        let mut gi: usize = 0;
        while gi < groups.len()
            invariant
                gi <= groups@.len(),
                a == self.deep_view(),
                groups@ == self.info.block.group_table.0@,
                body_start == a.file.offset + 8,
                body_end == a.file.offset + a.file.len,
                forall|gj: int, ej: int|
                    0 <= gj < gi as int && 0 <= ej < a.info.block.group_table[gj].entries.len()
                        ==> spec_extent_within(
                        a,
                        a.info.block.group_table[gj],
                        #[trigger] a.info.block.group_table[gj].entries[ej],
                    ),
            decreases groups@.len() - gi,
        {
            let g = &groups[gi];
            proof {
                assert(a.info.block.group_table[gi as int] == groups@[gi as int].deep_view());
            }
            let mut ei: usize = 0;
            while ei < g.entries.0.len()
                invariant
                    ei <= g.entries.0@.len(),
                    a == self.deep_view(),
                    g.deep_view() == a.info.block.group_table[gi as int],
                    0 <= gi < a.info.block.group_table.len(),
                    body_start == a.file.offset + 8,
                    body_end == a.file.offset + a.file.len,
                    forall|ej: int|
                        0 <= ej < ei as int ==> spec_extent_within(
                            a,
                            a.info.block.group_table[gi as int],
                            #[trigger] a.info.block.group_table[gi as int].entries[ej],
                        ),
                decreases g.entries.0@.len() - ei,
            {
                let e = g.entries.0[ei];
                proof {
                    assert(a.info.block.group_table[gi as int].entries[ei as int] == g.entries.0@[ei
                        as int]);
                }
                let lo = g.file_base as u64 + e.file_offset as u64;
                let hi = lo + e.file_size as u64;
                if !(body_start <= lo && hi <= body_end) {
                    proof {
                        assert(!spec_extent_within(
                            a,
                            a.info.block.group_table[gi as int],
                            a.info.block.group_table[gi as int].entries[ei as int],
                        ));
                    }
                    return false;
                }
                ei = ei + 1;
            }
            gi = gi + 1;
        }
        true
    }
}

/// Copies a name out of the string table.
fn clone_bytes(v: &Vec<u8>) -> (r: Vec<u8>)
    ensures
        r@ == v@,
{
    let mut out: Vec<u8> = Vec::new();
    let mut i: usize = 0;
    while i < v.len()
        invariant
            i <= v@.len(),
            out@ =~= v@.subrange(0, i as int),
        decreases v@.len() - i,
    {
        out.push(v[i]);
        assert(out@ =~= v@.subrange(0, i as int + 1));
        i = i + 1;
    }
    proof {
        assert(v@.subrange(0, v@.len() as int) =~= v@);
    }
    out
}

/// One entry lies within the FILE block's body: its range, measured
/// from the owning group's file base, starts no earlier than the byte
/// after the block header and ends no later than the block's end.
pub open spec fn spec_extent_within(
    a: BrsarView,
    g: crate::info::GroupInfoView,
    e: crate::info::GroupEntry,
) -> bool {
    &&& a.file.offset + 8 <= g.file_base + e.file_offset
    &&& g.file_base + e.file_offset + e.file_size <= a.file.offset + a.file.len
}

/// Every entry of every group lies within the FILE block's body.
pub open spec fn spec_extents_ok(a: BrsarView) -> bool {
    forall|gi: int, ei: int|
        0 <= gi < a.info.block.group_table.len() && 0 <= ei
            < a.info.block.group_table[gi].entries.len() ==> spec_extent_within(
            a,
            a.info.block.group_table[gi],
            #[trigger] a.info.block.group_table[gi].entries[ei],
        )
}

/// The facade inherits extent containment: in an archive whose extent
/// check holds, every byte range that `resolve_sound` hands out lies
/// within the FILE block's body.
pub proof fn lemma_resolved_range_within_file_block(a: BrsarView, idx: usize)
    requires
        spec_extents_ok(a),
        (spec_resolve_sound(a, idx) is Ok),
    ensures
        a.file.offset + 8 <= spec_resolve_sound(a, idx)->Ok_0.bytes_range.0,
        spec_resolve_sound(a, idx)->Ok_0.bytes_range.0 + spec_resolve_sound(
            a,
            idx,
        )->Ok_0.bytes_range.1 <= a.file.offset + a.file.len,
{
    let sounds = a.info.block.sound_table;
    let s = sounds[idx as int];
    let f = a.info.block.file_table[s.file_id as int];
    let p0 = f.file_positions[0];
    lemma_extents_within(a, p0.group_index as int, p0.item_index as int);
}

/// Extent containment, spelled out: in an archive whose extent check
/// holds, the byte range `(g.file_base + e.file_offset, e.file_size)`
/// of every group entry `e` under every group `g` lies within the
/// FILE block's body.  The check is a property of the file's contents,
/// not of decoding: the decoder accepts archives whose entries point
/// elsewhere, and for those the check returns false.
pub proof fn lemma_extents_within(a: BrsarView, gi: int, ei: int)
    requires
        spec_extents_ok(a),
        0 <= gi < a.info.block.group_table.len(),
        0 <= ei < a.info.block.group_table[gi].entries.len(),
    ensures
        a.file.offset + 8 <= a.info.block.group_table[gi].file_base
            + a.info.block.group_table[gi].entries[ei].file_offset,
        a.info.block.group_table[gi].file_base + a.info.block.group_table[gi].entries[ei].file_offset
            + a.info.block.group_table[gi].entries[ei].file_size <= a.file.offset + a.file.len,
{
}

} // verus!
