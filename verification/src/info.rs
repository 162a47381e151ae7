//! The INFO block: tables of sound, bank, player, file and group
//! records, each reached through an eight-byte reference, and the
//! archive-wide limits record.

use vstd::prelude::*;

use crate::bytes::{get_u16, get_u32, get_u8, has_bytes, read_nul_string, spec_nul_string, su16,
    su32};
use crate::common::{decode_block_header, decode_raw_reference, decode_typed_id, opt_ref_target,
    ref_target, req_ref_target, spec_block_header, spec_opt_ref_target, spec_raw_reference,
    spec_ref_target, spec_req_ref, spec_typed_id, BlockHeader, Endian, RawReference, Table, TypedId};
use crate::error::{decodes_to, DecodeError, Mismatch, RefSite};

verus! {

/// The kind of a sound, as the byte that selects its details variant.
/// Values outside the known set decode as `Invalid`; the raw byte is
/// kept in the details' `Unknown` variant.
#[derive(Debug, Clone, Copy, PartialEq, Eq, Structural)]
pub enum SoundType {
    Invalid,
    Sequence,
    Stream,
    Wave,
}

impl DeepView for SoundType {
    type V = SoundType;

    open spec fn deep_view(&self) -> SoundType {
        *self
    }
}

/// How a sound is panned across two speakers.
#[derive(Debug, Clone, Copy, PartialEq, Eq, Structural)]
pub enum PanMode {
    Dual,
    Balance,
}

impl DeepView for PanMode {
    type V = PanMode;

    open spec fn deep_view(&self) -> PanMode {
        *self
    }
}

/// The curve that maps a pan position to channel volumes.
#[derive(Debug, Clone, Copy, PartialEq, Eq, Structural)]
pub enum PanCurve {
    Sqrt,
    Sqrt0Db,
    Sqrt0DbClamp,
    SinCos,
    SinCos0Db,
    SinCos0DbClamp,
    Linear,
    Linear0Db,
    Linear0DbClamp,
}

impl DeepView for PanCurve {
    type V = PanCurve;

    open spec fn deep_view(&self) -> PanCurve {
        *self
    }
}

/// Details of a sequence sound.
#[derive(Debug, Clone, Copy, PartialEq, Eq)]
pub struct SeqDetails {
    pub seq_label_entry: u32,
    pub soundbank_index: u32,
    pub unknown: [u8; 3],
    pub alloc_track: u8,
    pub priority: u8,
    pub unknown2: [u8; 7],
}

impl DeepView for SeqDetails {
    type V = SeqDetails;

    open spec fn deep_view(&self) -> SeqDetails {
        *self
    }
}

/// Details of a streamed sound.
#[derive(Debug, Clone, Copy, PartialEq, Eq)]
pub struct StreamDetails {
    pub start_pos: u32,
    pub unknown: u8,
    pub channel_count: u8,
    pub alloc_track: u8,
    pub unknown2: [u8; 5],
}

impl DeepView for StreamDetails {
    type V = StreamDetails;

    open spec fn deep_view(&self) -> StreamDetails {
        *self
    }
}

/// Details of a wave sound.
#[derive(Debug, Clone, Copy, PartialEq, Eq)]
pub struct WaveDetails {
    pub sound_data_node: u32,
    pub unknown: [u8; 3],
    pub alloc_track: u8,
    pub priority: u8,
    pub unknown2: [u8; 7],
}

impl DeepView for WaveDetails {
    type V = WaveDetails;

    open spec fn deep_view(&self) -> WaveDetails {
        *self
    }
}

/// The variant behind a sound's details reference.  The variant is
/// selected by the parent record's `sound_type` byte, not by the
/// envelope tag; a byte outside the known set is reported as
/// `Unknown` and the record decodes on.
#[derive(Debug, Clone, Copy, PartialEq, Eq)]
pub enum SoundDetails {
    Sequence(SeqDetails),
    Stream(StreamDetails),
    Wave(WaveDetails),
    Unknown(u8),
}

impl DeepView for SoundDetails {
    type V = SoundDetails;

    open spec fn deep_view(&self) -> SoundDetails {
        *self
    }
}

/// One sound record of the INFO block.
#[derive(Debug, Clone, Copy, PartialEq, Eq)]
pub struct SoundInfo {
    pub string_id: u32,
    pub file_id: u32,
    pub player_id: TypedId,
    /// Optional reference to 3D parameters; an absolute null is `None`.
    pub sound_info_3d: Option<RawReference>,
    pub volume: u8,
    pub player_priority: u8,
    pub sound_type: SoundType,
    pub remote_filter: u8,
    pub details: SoundDetails,
    pub user: [u32; 2],
    pub pan_mode: PanMode,
    pub pan_curve: PanCurve,
    pub actor_player_id: u8,
    pub reserved: u8,
}

impl DeepView for SoundInfo {
    type V = SoundInfo;

    open spec fn deep_view(&self) -> SoundInfo {
        *self
    }
}

/// The sound type selected by a tag byte; bytes outside the known set
/// fall back to `Invalid`.
pub open spec fn spec_sound_type(b: u8) -> SoundType {
    if b == 1 {
        SoundType::Sequence
    } else if b == 2 {
        SoundType::Stream
    } else if b == 3 {
        SoundType::Wave
    } else {
        SoundType::Invalid
    }
}

pub fn sound_type_of(b: u8) -> (r: SoundType)
    ensures
        r == spec_sound_type(b),
{
    if b == 1 {
        SoundType::Sequence
    } else if b == 2 {
        SoundType::Stream
    } else if b == 3 {
        SoundType::Wave
    } else {
        SoundType::Invalid
    }
}

/// The twenty bytes of a sequence sound's details at position `p`.
pub open spec fn spec_seq_details(d: Seq<u8>, p: int, en: Endian) -> Result<
    SeqDetails,
    DecodeError,
> {
    if !(0 <= p && p + 20 <= d.len()) {
        Err(DecodeError::UnexpectedEof)
    } else {
        Ok(
            SeqDetails {
                seq_label_entry: su32(d, p, en),
                soundbank_index: su32(d, p + 4, en),
                unknown: [d[p + 8], d[p + 9], d[p + 10]],
                alloc_track: d[p + 11],
                priority: d[p + 12],
                unknown2: [
                    d[p + 13],
                    d[p + 14],
                    d[p + 15],
                    d[p + 16],
                    d[p + 17],
                    d[p + 18],
                    d[p + 19],
                ],
            },
        )
    }
}

pub fn decode_seq_details(d: &[u8], pos: usize, en: Endian) -> (r: Result<SeqDetails, DecodeError>)
    ensures
        decodes_to(r, spec_seq_details(d@, pos as int, en)),
{
    if !has_bytes(d, pos, 20) {
        return Err(DecodeError::UnexpectedEof);
    }
    Ok(
        SeqDetails {
            seq_label_entry: get_u32(d, pos, en),
            soundbank_index: get_u32(d, pos + 4, en),
            unknown: [get_u8(d, pos + 8), get_u8(d, pos + 9), get_u8(d, pos + 10)],
            alloc_track: get_u8(d, pos + 11),
            priority: get_u8(d, pos + 12),
            unknown2: [
                get_u8(d, pos + 13),
                get_u8(d, pos + 14),
                get_u8(d, pos + 15),
                get_u8(d, pos + 16),
                get_u8(d, pos + 17),
                get_u8(d, pos + 18),
                get_u8(d, pos + 19),
            ],
        },
    )
}

/// The twelve bytes of a streamed sound's details at position `p`.
pub open spec fn spec_stream_details(d: Seq<u8>, p: int, en: Endian) -> Result<
    StreamDetails,
    DecodeError,
> {
    if !(0 <= p && p + 12 <= d.len()) {
        Err(DecodeError::UnexpectedEof)
    } else {
        Ok(
            StreamDetails {
                start_pos: su32(d, p, en),
                unknown: d[p + 4],
                channel_count: d[p + 5],
                alloc_track: d[p + 6],
                unknown2: [d[p + 7], d[p + 8], d[p + 9], d[p + 10], d[p + 11]],
            },
        )
    }
}

pub fn decode_stream_details(d: &[u8], pos: usize, en: Endian) -> (r: Result<
    StreamDetails,
    DecodeError,
>)
    ensures
        decodes_to(r, spec_stream_details(d@, pos as int, en)),
{
    if !has_bytes(d, pos, 12) {
        return Err(DecodeError::UnexpectedEof);
    }
    Ok(
        StreamDetails {
            start_pos: get_u32(d, pos, en),
            unknown: get_u8(d, pos + 4),
            channel_count: get_u8(d, pos + 5),
            alloc_track: get_u8(d, pos + 6),
            unknown2: [
                get_u8(d, pos + 7),
                get_u8(d, pos + 8),
                get_u8(d, pos + 9),
                get_u8(d, pos + 10),
                get_u8(d, pos + 11),
            ],
        },
    )
}

/// The sixteen bytes of a wave sound's details at position `p`.
pub open spec fn spec_wave_details(d: Seq<u8>, p: int, en: Endian) -> Result<
    WaveDetails,
    DecodeError,
> {
    if !(0 <= p && p + 16 <= d.len()) {
        Err(DecodeError::UnexpectedEof)
    } else {
        Ok(
            WaveDetails {
                sound_data_node: su32(d, p, en),
                unknown: [d[p + 4], d[p + 5], d[p + 6]],
                alloc_track: d[p + 7],
                priority: d[p + 8],
                unknown2: [
                    d[p + 9],
                    d[p + 10],
                    d[p + 11],
                    d[p + 12],
                    d[p + 13],
                    d[p + 14],
                    d[p + 15],
                ],
            },
        )
    }
}

pub fn decode_wave_details(d: &[u8], pos: usize, en: Endian) -> (r: Result<
    WaveDetails,
    DecodeError,
>)
    ensures
        decodes_to(r, spec_wave_details(d@, pos as int, en)),
{
    if !has_bytes(d, pos, 16) {
        return Err(DecodeError::UnexpectedEof);
    }
    Ok(
        WaveDetails {
            sound_data_node: get_u32(d, pos, en),
            unknown: [get_u8(d, pos + 4), get_u8(d, pos + 5), get_u8(d, pos + 6)],
            alloc_track: get_u8(d, pos + 7),
            priority: get_u8(d, pos + 8),
            unknown2: [
                get_u8(d, pos + 9),
                get_u8(d, pos + 10),
                get_u8(d, pos + 11),
                get_u8(d, pos + 12),
                get_u8(d, pos + 13),
                get_u8(d, pos + 14),
                get_u8(d, pos + 15),
            ],
        },
    )
}

/// The details behind the reference at `refpos`, selected by the
/// parent's `sound_type` byte `tag`: 1 is a sequence, 2 a stream, 3 a
/// wave; any other tag yields `Unknown(tag)` without resolving the
/// reference.  A known tag resolves the reference against `origin`,
/// rejecting an absolute null.
pub open spec fn spec_sound_details(
    d: Seq<u8>,
    refpos: int,
    en: Endian,
    origin: int,
    tag: u8,
) -> Result<SoundDetails, DecodeError> {
    match spec_raw_reference(d, refpos, en) {
        Err(e) => Err(e),
        Ok(r) => if tag == 1 {
            match spec_ref_target(r, origin, RefSite::SoundDetails) {
                Err(e) => Err(e),
                Ok(t) => match spec_seq_details(d, t, en) {
                    Err(e) => Err(e),
                    Ok(v) => Ok(SoundDetails::Sequence(v)),
                },
            }
        } else if tag == 2 {
            match spec_ref_target(r, origin, RefSite::SoundDetails) {
                Err(e) => Err(e),
                Ok(t) => match spec_stream_details(d, t, en) {
                    Err(e) => Err(e),
                    Ok(v) => Ok(SoundDetails::Stream(v)),
                },
            }
        } else if tag == 3 {
            match spec_ref_target(r, origin, RefSite::SoundDetails) {
                Err(e) => Err(e),
                Ok(t) => match spec_wave_details(d, t, en) {
                    Err(e) => Err(e),
                    Ok(v) => Ok(SoundDetails::Wave(v)),
                },
            }
        } else {
            Ok(SoundDetails::Unknown(tag))
        },
    }
}

pub fn decode_sound_details(d: &[u8], refpos: usize, en: Endian, origin: usize, tag: u8) -> (r:
    Result<SoundDetails, DecodeError>)
    requires
        origin <= d@.len(),
    ensures
        decodes_to(r, spec_sound_details(d@, refpos as int, en, origin as int, tag)),
{
    let raw = match decode_raw_reference(d, refpos, en) {
        Ok(r) => r,
        Err(e) => {
            return Err(e);
        },
    };
    if tag == 1 {
        let t = match ref_target(&raw, d.len(), origin, RefSite::SoundDetails) {
            Ok(t) => t,
            Err(e) => {
                return Err(e);
            },
        };
        match decode_seq_details(d, t, en) {
            Ok(v) => Ok(SoundDetails::Sequence(v)),
            Err(e) => Err(e),
        }
    } else if tag == 2 {
        let t = match ref_target(&raw, d.len(), origin, RefSite::SoundDetails) {
            Ok(t) => t,
            Err(e) => {
                return Err(e);
            },
        };
        match decode_stream_details(d, t, en) {
            Ok(v) => Ok(SoundDetails::Stream(v)),
            Err(e) => Err(e),
        }
    } else if tag == 3 {
        let t = match ref_target(&raw, d.len(), origin, RefSite::SoundDetails) {
            Ok(t) => t,
            Err(e) => {
                return Err(e);
            },
        };
        match decode_wave_details(d, t, en) {
            Ok(v) => Ok(SoundDetails::Wave(v)),
            Err(e) => Err(e),
        }
    } else {
        Ok(SoundDetails::Unknown(tag))
    }
}

/// The forty-four bytes of a sound record at position `p`.  The pan
/// bytes must name known variants; the details reference is resolved
/// against `origin` under the record's own type byte.
pub open spec fn spec_sound_info(d: Seq<u8>, p: int, en: Endian, origin: int) -> Result<
    SoundInfo,
    DecodeError,
> {
    if !(0 <= p && p + 44 <= d.len()) {
        Err(DecodeError::UnexpectedEof)
    } else if d[p + 40] > 1 {
        Err(DecodeError::StructuralMismatch(Mismatch::PanMode))
    } else if d[p + 41] > 8 {
        Err(DecodeError::StructuralMismatch(Mismatch::PanCurve))
    } else {
        match spec_sound_details(d, p + 24, en, origin, d[p + 22]) {
            Err(e) => Err(e),
            Ok(det) => match spec_raw_reference(d, p + 12, en) {
                Err(e) => Err(e),
                Ok(r3d) => Ok(
                    SoundInfo {
                        string_id: su32(d, p, en),
                        file_id: su32(d, p + 4, en),
                        player_id: spec_typed_id(d, p + 8)->Ok_0,
                        sound_info_3d: if r3d.layout.is_relative == 0 && r3d.offset == 0 {
                            None
                        } else {
                            Some(r3d)
                        },
                        volume: d[p + 20],
                        player_priority: d[p + 21],
                        sound_type: spec_sound_type(d[p + 22]),
                        remote_filter: d[p + 23],
                        details: det,
                        user: [su32(d, p + 32, en), su32(d, p + 36, en)],
                        pan_mode: spec_pan_mode(d[p + 40])->Ok_0,
                        pan_curve: spec_pan_curve(d[p + 41])->Ok_0,
                        actor_player_id: d[p + 42],
                        reserved: d[p + 43],
                    },
                ),
            },
        }
    }
}

/// The pan mode named by a byte; bytes past the known set are
/// rejected.
pub open spec fn spec_pan_mode(b: u8) -> Result<PanMode, DecodeError> {
    if b == 0 {
        Ok(PanMode::Dual)
    } else if b == 1 {
        Ok(PanMode::Balance)
    } else {
        Err(DecodeError::StructuralMismatch(Mismatch::PanMode))
    }
}

/// The pan curve named by a byte; bytes past the known set are
/// rejected.
pub open spec fn spec_pan_curve(b: u8) -> Result<PanCurve, DecodeError> {
    if b == 0 {
        Ok(PanCurve::Sqrt)
    } else if b == 1 {
        Ok(PanCurve::Sqrt0Db)
    } else if b == 2 {
        Ok(PanCurve::Sqrt0DbClamp)
    } else if b == 3 {
        Ok(PanCurve::SinCos)
    } else if b == 4 {
        Ok(PanCurve::SinCos0Db)
    } else if b == 5 {
        Ok(PanCurve::SinCos0DbClamp)
    } else if b == 6 {
        Ok(PanCurve::Linear)
    } else if b == 7 {
        Ok(PanCurve::Linear0Db)
    } else if b == 8 {
        Ok(PanCurve::Linear0DbClamp)
    } else {
        Err(DecodeError::StructuralMismatch(Mismatch::PanCurve))
    }
}

pub fn pan_mode_of(b: u8) -> (r: Result<PanMode, DecodeError>)
    ensures
        r == spec_pan_mode(b),
{
    if b == 0 {
        Ok(PanMode::Dual)
    } else if b == 1 {
        Ok(PanMode::Balance)
    } else {
        Err(DecodeError::StructuralMismatch(Mismatch::PanMode))
    }
}

pub fn pan_curve_of(b: u8) -> (r: Result<PanCurve, DecodeError>)
    ensures
        r == spec_pan_curve(b),
{
    if b == 0 {
        Ok(PanCurve::Sqrt)
    } else if b == 1 {
        Ok(PanCurve::Sqrt0Db)
    } else if b == 2 {
        Ok(PanCurve::Sqrt0DbClamp)
    } else if b == 3 {
        Ok(PanCurve::SinCos)
    } else if b == 4 {
        Ok(PanCurve::SinCos0Db)
    } else if b == 5 {
        Ok(PanCurve::SinCos0DbClamp)
    } else if b == 6 {
        Ok(PanCurve::Linear)
    } else if b == 7 {
        Ok(PanCurve::Linear0Db)
    } else if b == 8 {
        Ok(PanCurve::Linear0DbClamp)
    } else {
        Err(DecodeError::StructuralMismatch(Mismatch::PanCurve))
    }
}

pub fn decode_sound_info(d: &[u8], pos: usize, en: Endian, origin: usize) -> (r: Result<
    SoundInfo,
    DecodeError,
>)
    requires
        origin <= d@.len(),
    ensures
        decodes_to(r, spec_sound_info(d@, pos as int, en, origin as int)),
{
    if !has_bytes(d, pos, 44) {
        return Err(DecodeError::UnexpectedEof);
    }
    let pm = match pan_mode_of(get_u8(d, pos + 40)) {
        Ok(v) => v,
        Err(e) => {
            return Err(e);
        },
    };
    let pc = match pan_curve_of(get_u8(d, pos + 41)) {
        Ok(v) => v,
        Err(e) => {
            return Err(e);
        },
    };
    let tag = get_u8(d, pos + 22);
    let det = match decode_sound_details(d, pos + 24, en, origin, tag) {
        Ok(v) => v,
        Err(e) => {
            return Err(e);
        },
    };
    let r3d = match decode_raw_reference(d, pos + 12, en) {
        Ok(v) => v,
        Err(e) => {
            return Err(e);
        },
    };
    let player_id = match decode_typed_id(d, pos + 8) {
        Ok(v) => v,
        Err(e) => {
            return Err(e);
        },
    };
    Ok(
        SoundInfo {
            string_id: get_u32(d, pos, en),
            file_id: get_u32(d, pos + 4, en),
            player_id,
            sound_info_3d: if r3d.layout.is_relative == 0 && r3d.offset == 0 {
                None
            } else {
                Some(r3d)
            },
            volume: get_u8(d, pos + 20),
            player_priority: get_u8(d, pos + 21),
            sound_type: sound_type_of(tag),
            remote_filter: get_u8(d, pos + 23),
            details: det,
            user: [get_u32(d, pos + 32, en), get_u32(d, pos + 36, en)],
            pan_mode: pm,
            pan_curve: pc,
            actor_player_id: get_u8(d, pos + 42),
            reserved: get_u8(d, pos + 43),
        },
    )
}

/// A sound record decodes with a details variant that matches its
/// type: a sequence sound carries sequence details, a stream sound
/// stream details, a wave sound wave details, and a sound of any
/// other type carries the raw tag.
pub proof fn lemma_sound_details_match(d: Seq<u8>, p: int, en: Endian, origin: int)
    requires
        spec_sound_info(d, p, en, origin) is Ok,
    ensures
        sound_details_consistent(spec_sound_info(d, p, en, origin)->Ok_0),
{
}

/// The details variant a sound record carries agrees with its
/// `sound_type`.
pub open spec fn sound_details_consistent(s: SoundInfo) -> bool {
    &&& s.sound_type == SoundType::Sequence ==> s.details is Sequence
    &&& s.sound_type == SoundType::Stream ==> s.details is Stream
    &&& s.sound_type == SoundType::Wave ==> s.details is Wave
    &&& s.sound_type == SoundType::Invalid ==> s.details is Unknown
}

/// One bank record of the INFO block.
#[derive(Debug, Clone, Copy, PartialEq, Eq)]
pub struct BankInfo {
    pub string_id: TypedId,
    pub file_id: TypedId,
    pub reserved: u32,
}

impl DeepView for BankInfo {
    type V = BankInfo;

    open spec fn deep_view(&self) -> BankInfo {
        *self
    }
}

/// One player record of the INFO block.
#[derive(Debug, Clone, Copy, PartialEq, Eq)]
pub struct PlayerInfo {
    pub string_id: TypedId,
    pub max_sounds: u8,
    pub padding: [u8; 3],
    pub heap_space: u32,
    pub reserved: u32,
}

impl DeepView for PlayerInfo {
    type V = PlayerInfo;

    open spec fn deep_view(&self) -> PlayerInfo {
        *self
    }
}

/// Where a file's bytes lie: an index into the group table and the
/// index of an entry inside that group.
#[derive(Debug, Clone, Copy, PartialEq, Eq, Structural)]
pub struct FilePosition {
    pub group_index: u32,
    pub item_index: u32,
}

impl DeepView for FilePosition {
    type V = FilePosition;

    open spec fn deep_view(&self) -> FilePosition {
        *self
    }
}

/// One entry of a group: offsets measured from the owning group's
/// `file_base` and `archive_base`.  The entry's bytes are never copied
/// out at decode time; the triple (base, offset, size) locates them.
#[derive(Debug, Clone, Copy, PartialEq, Eq)]
pub struct GroupEntry {
    pub file_id: TypedId,
    pub file_offset: u32,
    pub file_size: u32,
    pub archive_offset: u32,
    pub archive_size: u32,
    pub reserved: u32,
}

impl DeepView for GroupEntry {
    type V = GroupEntry;

    open spec fn deep_view(&self) -> GroupEntry {
        *self
    }
}

/// The archive-wide limits record.
#[derive(Debug, Clone, Copy, PartialEq, Eq, Structural)]
pub struct SoundArchiveInfo {
    pub max_sequences: u16,
    pub max_seq_tracks: u16,
    pub max_streams: u16,
    pub max_stream_tracks: u16,
    pub max_stream_channels: u16,
    pub max_waves: u16,
    pub max_wave_tracks: u16,
    pub padding: u16,
    pub reserved: u32,
}

impl DeepView for SoundArchiveInfo {
    type V = SoundArchiveInfo;

    open spec fn deep_view(&self) -> SoundArchiveInfo {
        *self
    }
}

/// One file record of the INFO block.
#[derive(Debug, Clone, PartialEq)]
pub struct FileInfo {
    pub file_size: u32,
    pub archive_size: u32,
    pub file_id: i32,
    /// Name of an external file when the bytes live outside the
    /// archive; an absolute null reference is `None`.
    pub external_file: Option<Vec<u8>>,
    pub file_positions: Table<FilePosition>,
}

/// Abstraction of a `FileInfo`.
pub struct FileInfoView {
    pub file_size: u32,
    pub archive_size: u32,
    pub file_id: i32,
    pub external_file: Option<Seq<u8>>,
    pub file_positions: Seq<FilePosition>,
}

impl DeepView for FileInfo {
    type V = FileInfoView;

    open spec fn deep_view(&self) -> FileInfoView {
        FileInfoView {
            file_size: self.file_size,
            archive_size: self.archive_size,
            file_id: self.file_id,
            external_file: self.external_file.deep_view(),
            file_positions: self.file_positions.deep_view(),
        }
    }
}

/// One group record of the INFO block.  `file_base` and `archive_base`
/// are the origins against which each entry's offsets are measured.
#[derive(Debug, Clone, PartialEq)]
pub struct GroupInfo {
    pub string_id: TypedId,
    pub group_id: i32,
    /// Name of an external file; an absolute null reference is `None`.
    pub external_file: Option<Vec<u8>>,
    pub file_base: u32,
    pub total_size: u32,
    pub archive_base: u32,
    pub archive_size: u32,
    pub entries: Table<GroupEntry>,
}

/// Abstraction of a `GroupInfo`.
pub struct GroupInfoView {
    pub string_id: TypedId,
    pub group_id: i32,
    pub external_file: Option<Seq<u8>>,
    pub file_base: u32,
    pub total_size: u32,
    pub archive_base: u32,
    pub archive_size: u32,
    pub entries: Seq<GroupEntry>,
}

impl DeepView for GroupInfo {
    type V = GroupInfoView;

    open spec fn deep_view(&self) -> GroupInfoView {
        GroupInfoView {
            string_id: self.string_id,
            group_id: self.group_id,
            external_file: self.external_file.deep_view(),
            file_base: self.file_base,
            total_size: self.total_size,
            archive_base: self.archive_base,
            archive_size: self.archive_size,
            entries: self.entries.deep_view(),
        }
    }
}

/// The twelve bytes of a bank record at position `p`.
pub open spec fn spec_bank_info(d: Seq<u8>, p: int, en: Endian) -> Result<BankInfo, DecodeError> {
    if !(0 <= p && p + 12 <= d.len()) {
        Err(DecodeError::UnexpectedEof)
    } else {
        Ok(
            BankInfo {
                string_id: spec_typed_id(d, p)->Ok_0,
                file_id: spec_typed_id(d, p + 4)->Ok_0,
                reserved: su32(d, p + 8, en),
            },
        )
    }
}

pub fn decode_bank_info(d: &[u8], pos: usize, en: Endian) -> (r: Result<BankInfo, DecodeError>)
    ensures
        decodes_to(r, spec_bank_info(d@, pos as int, en)),
{
    if !has_bytes(d, pos, 12) {
        return Err(DecodeError::UnexpectedEof);
    }
    let string_id = match decode_typed_id(d, pos) {
        Ok(v) => v,
        Err(e) => {
            return Err(e);
        },
    };
    let file_id = match decode_typed_id(d, pos + 4) {
        Ok(v) => v,
        Err(e) => {
            return Err(e);
        },
    };
    Ok(BankInfo { string_id, file_id, reserved: get_u32(d, pos + 8, en) })
}

/// The sixteen bytes of a player record at position `p`.
pub open spec fn spec_player_info(d: Seq<u8>, p: int, en: Endian) -> Result<
    PlayerInfo,
    DecodeError,
> {
    if !(0 <= p && p + 16 <= d.len()) {
        Err(DecodeError::UnexpectedEof)
    } else {
        Ok(
            PlayerInfo {
                string_id: spec_typed_id(d, p)->Ok_0,
                max_sounds: d[p + 4],
                padding: [d[p + 5], d[p + 6], d[p + 7]],
                heap_space: su32(d, p + 8, en),
                reserved: su32(d, p + 12, en),
            },
        )
    }
}

pub fn decode_player_info(d: &[u8], pos: usize, en: Endian) -> (r: Result<PlayerInfo, DecodeError>)
    ensures
        decodes_to(r, spec_player_info(d@, pos as int, en)),
{
    if !has_bytes(d, pos, 16) {
        return Err(DecodeError::UnexpectedEof);
    }
    let string_id = match decode_typed_id(d, pos) {
        Ok(v) => v,
        Err(e) => {
            return Err(e);
        },
    };
    Ok(
        PlayerInfo {
            string_id,
            max_sounds: get_u8(d, pos + 4),
            padding: [get_u8(d, pos + 5), get_u8(d, pos + 6), get_u8(d, pos + 7)],
            heap_space: get_u32(d, pos + 8, en),
            reserved: get_u32(d, pos + 12, en),
        },
    )
}

/// The eight bytes of a file position at position `p`.
pub open spec fn spec_file_position(d: Seq<u8>, p: int, en: Endian) -> Result<
    FilePosition,
    DecodeError,
> {
    if !(0 <= p && p + 8 <= d.len()) {
        Err(DecodeError::UnexpectedEof)
    } else {
        Ok(FilePosition { group_index: su32(d, p, en), item_index: su32(d, p + 4, en) })
    }
}

pub fn decode_file_position(d: &[u8], pos: usize, en: Endian) -> (r: Result<
    FilePosition,
    DecodeError,
>)
    ensures
        decodes_to(r, spec_file_position(d@, pos as int, en)),
{
    if !has_bytes(d, pos, 8) {
        return Err(DecodeError::UnexpectedEof);
    }
    Ok(FilePosition { group_index: get_u32(d, pos, en), item_index: get_u32(d, pos + 4, en) })
}

/// The twenty-four bytes of a group entry at position `p`.
pub open spec fn spec_group_entry(d: Seq<u8>, p: int, en: Endian) -> Result<
    GroupEntry,
    DecodeError,
> {
    if !(0 <= p && p + 24 <= d.len()) {
        Err(DecodeError::UnexpectedEof)
    } else {
        Ok(
            GroupEntry {
                file_id: spec_typed_id(d, p)->Ok_0,
                file_offset: su32(d, p + 4, en),
                file_size: su32(d, p + 8, en),
                archive_offset: su32(d, p + 12, en),
                archive_size: su32(d, p + 16, en),
                reserved: su32(d, p + 20, en),
            },
        )
    }
}

pub fn decode_group_entry(d: &[u8], pos: usize, en: Endian) -> (r: Result<GroupEntry, DecodeError>)
    ensures
        decodes_to(r, spec_group_entry(d@, pos as int, en)),
{
    if !has_bytes(d, pos, 24) {
        return Err(DecodeError::UnexpectedEof);
    }
    let file_id = match decode_typed_id(d, pos) {
        Ok(v) => v,
        Err(e) => {
            return Err(e);
        },
    };
    Ok(
        GroupEntry {
            file_id,
            file_offset: get_u32(d, pos + 4, en),
            file_size: get_u32(d, pos + 8, en),
            archive_offset: get_u32(d, pos + 12, en),
            archive_size: get_u32(d, pos + 16, en),
            reserved: get_u32(d, pos + 20, en),
        },
    )
}

/// The twenty bytes of the archive-wide limits record at position `p`.
pub open spec fn spec_sound_archive_info(d: Seq<u8>, p: int, en: Endian) -> Result<
    SoundArchiveInfo,
    DecodeError,
> {
    if !(0 <= p && p + 20 <= d.len()) {
        Err(DecodeError::UnexpectedEof)
    } else {
        Ok(
            SoundArchiveInfo {
                max_sequences: su16(d, p, en),
                max_seq_tracks: su16(d, p + 2, en),
                max_streams: su16(d, p + 4, en),
                max_stream_tracks: su16(d, p + 6, en),
                max_stream_channels: su16(d, p + 8, en),
                max_waves: su16(d, p + 10, en),
                max_wave_tracks: su16(d, p + 12, en),
                padding: su16(d, p + 14, en),
                reserved: su32(d, p + 16, en),
            },
        )
    }
}

pub fn decode_sound_archive_info(d: &[u8], pos: usize, en: Endian) -> (r: Result<
    SoundArchiveInfo,
    DecodeError,
>)
    ensures
        decodes_to(r, spec_sound_archive_info(d@, pos as int, en)),
{
    if !has_bytes(d, pos, 20) {
        return Err(DecodeError::UnexpectedEof);
    }
    Ok(
        SoundArchiveInfo {
            max_sequences: get_u16(d, pos, en),
            max_seq_tracks: get_u16(d, pos + 2, en),
            max_streams: get_u16(d, pos + 4, en),
            max_stream_tracks: get_u16(d, pos + 6, en),
            max_stream_channels: get_u16(d, pos + 8, en),
            max_waves: get_u16(d, pos + 10, en),
            max_wave_tracks: get_u16(d, pos + 12, en),
            padding: get_u16(d, pos + 14, en),
            reserved: get_u32(d, pos + 16, en),
        },
    )
}


/// The file position behind the reference at `p`, resolved against `origin`.
pub open spec fn spec_ref_file_position(d: Seq<u8>, p: int, en: Endian, origin: int) -> Result<
    FilePosition,
    DecodeError,
> {
    match spec_req_ref(d, p, en, origin, RefSite::FilePositionEntry) {
        Err(e) => Err(e),
        Ok(t) => spec_file_position(d, t, en),
    }
}

/// The `n` referenced file positions whose references start at `p`, eight
/// bytes apart.
pub open spec fn spec_file_positions(d: Seq<u8>, p: int, en: Endian, origin: int, n: int) -> Result<
    Seq<FilePosition>,
    DecodeError,
>
    decreases n,
{
    if n <= 0 {
        Ok(Seq::empty())
    } else {
        match spec_ref_file_position(d, p, en, origin) {
            Err(e) => Err(e),
            Ok(v) => match spec_file_positions(d, p + 8, en, origin, n - 1) {
                Err(e) => Err(e),
                Ok(rest) => Ok(seq![v] + rest),
            },
        }
    }
}

/// The file position table at `p`: a 32-bit count and that many referenced
/// records.
pub open spec fn spec_file_position_table(d: Seq<u8>, p: int, en: Endian, origin: int) -> Result<
    Seq<FilePosition>,
    DecodeError,
> {
    if !(0 <= p && p + 4 <= d.len()) {
        Err(DecodeError::UnexpectedEof)
    } else {
        spec_file_positions(d, p + 4, en, origin, su32(d, p, en) as int)
    }
}

pub fn decode_file_position_table(d: &[u8], pos: usize, en: Endian, origin: usize) -> (r: Result<
    Table<FilePosition>,
    DecodeError,
>)
    requires
        origin <= d@.len(),
    ensures
        decodes_to(r, spec_file_position_table(d@, pos as int, en, origin as int)),
{
    if !has_bytes(d, pos, 4) {
        return Err(DecodeError::UnexpectedEof);
    }
    let count = get_u32(d, pos, en) as usize;
    let mut out: Vec<FilePosition> = Vec::new();
    let mut q: usize = pos + 4;
    let mut i: usize = 0;
    while i < count
        invariant
            i <= count,
            origin <= d@.len(),
            d@.len() <= usize::MAX,
            q == pos + 4 + 8 * i as int,
            pos + 4 <= d@.len(),
            count == su32(d@, pos as int, en),
            spec_file_positions(d@, pos as int + 4, en, origin as int, count as int) == match spec_file_positions(
                d@,
                q as int,
                en,
                origin as int,
                count - i,
            ) {
                Ok(rest) => Ok::<_, DecodeError>(out.deep_view() + rest),
                Err(e) => Err::<Seq<FilePosition>, _>(e),
            },
        decreases count - i,
    {
        let ghost old_out = out.deep_view();
        let t = match req_ref_target(d, q, en, origin, RefSite::FilePositionEntry) {
            Ok(t) => t,
            Err(e) => {
                return Err(e);
            },
        };
        let v = match decode_file_position(d, t, en) {
            Ok(v) => v,
            Err(e) => {
                return Err(e);
            },
        };
        let ghost vv = v.deep_view();
        out.push(v);
        proof {
            assert(out.deep_view() =~= old_out.push(vv));
            if spec_file_positions(d@, q as int + 8, en, origin as int, count - i - 1) is Ok {
                crate::common::lemma_acc_push(
                    old_out,
                    vv,
                    spec_file_positions(d@, q as int + 8, en, origin as int, count - i - 1)->Ok_0,
                );
            }
        }
        q = q + 8;
        i = i + 1;
    }
    proof {
        assert(out.deep_view() + Seq::<FilePosition>::empty() =~= out.deep_view());
    }
    Ok(Table(out))
}


/// The group entry behind the reference at `p`, resolved against `origin`.
pub open spec fn spec_ref_group_entry_item(d: Seq<u8>, p: int, en: Endian, origin: int) -> Result<
    GroupEntry,
    DecodeError,
> {
    match spec_req_ref(d, p, en, origin, RefSite::GroupEntryItem) {
        Err(e) => Err(e),
        Ok(t) => spec_group_entry(d, t, en),
    }
}

/// The `n` referenced group entrys whose references start at `p`, eight
/// bytes apart.
pub open spec fn spec_group_entries(d: Seq<u8>, p: int, en: Endian, origin: int, n: int) -> Result<
    Seq<GroupEntry>,
    DecodeError,
>
    decreases n,
{
    if n <= 0 {
        Ok(Seq::empty())
    } else {
        match spec_ref_group_entry_item(d, p, en, origin) {
            Err(e) => Err(e),
            Ok(v) => match spec_group_entries(d, p + 8, en, origin, n - 1) {
                Err(e) => Err(e),
                Ok(rest) => Ok(seq![v] + rest),
            },
        }
    }
}

/// The group entry table at `p`: a 32-bit count and that many referenced
/// records.
pub open spec fn spec_group_entry_table(d: Seq<u8>, p: int, en: Endian, origin: int) -> Result<
    Seq<GroupEntry>,
    DecodeError,
> {
    if !(0 <= p && p + 4 <= d.len()) {
        Err(DecodeError::UnexpectedEof)
    } else {
        spec_group_entries(d, p + 4, en, origin, su32(d, p, en) as int)
    }
}

pub fn decode_group_entry_table(d: &[u8], pos: usize, en: Endian, origin: usize) -> (r: Result<
    Table<GroupEntry>,
    DecodeError,
>)
    requires
        origin <= d@.len(),
    ensures
        decodes_to(r, spec_group_entry_table(d@, pos as int, en, origin as int)),
{
    if !has_bytes(d, pos, 4) {
        return Err(DecodeError::UnexpectedEof);
    }
    let count = get_u32(d, pos, en) as usize;
    let mut out: Vec<GroupEntry> = Vec::new();
    let mut q: usize = pos + 4;
    let mut i: usize = 0;
    while i < count
        invariant
            i <= count,
            origin <= d@.len(),
            d@.len() <= usize::MAX,
            q == pos + 4 + 8 * i as int,
            pos + 4 <= d@.len(),
            count == su32(d@, pos as int, en),
            spec_group_entries(d@, pos as int + 4, en, origin as int, count as int) == match spec_group_entries(
                d@,
                q as int,
                en,
                origin as int,
                count - i,
            ) {
                Ok(rest) => Ok::<_, DecodeError>(out.deep_view() + rest),
                Err(e) => Err::<Seq<GroupEntry>, _>(e),
            },
        decreases count - i,
    {
        let ghost old_out = out.deep_view();
        let t = match req_ref_target(d, q, en, origin, RefSite::GroupEntryItem) {
            Ok(t) => t,
            Err(e) => {
                return Err(e);
            },
        };
        let v = match decode_group_entry(d, t, en) {
            Ok(v) => v,
            Err(e) => {
                return Err(e);
            },
        };
        let ghost vv = v.deep_view();
        out.push(v);
        proof {
            assert(out.deep_view() =~= old_out.push(vv));
            if spec_group_entries(d@, q as int + 8, en, origin as int, count - i - 1) is Ok {
                crate::common::lemma_acc_push(
                    old_out,
                    vv,
                    spec_group_entries(d@, q as int + 8, en, origin as int, count - i - 1)->Ok_0,
                );
            }
        }
        q = q + 8;
        i = i + 1;
    }
    proof {
        assert(out.deep_view() + Seq::<GroupEntry>::empty() =~= out.deep_view());
    }
    Ok(Table(out))
}


/// The bank record behind the reference at `p`, resolved against `origin`.
pub open spec fn spec_ref_bank_info(d: Seq<u8>, p: int, en: Endian, origin: int) -> Result<
    BankInfo,
    DecodeError,
> {
    match spec_req_ref(d, p, en, origin, RefSite::BankEntry) {
        Err(e) => Err(e),
        Ok(t) => spec_bank_info(d, t, en),
    }
}

/// The `n` referenced bank records whose references start at `p`, eight
/// bytes apart.
pub open spec fn spec_bank_infos(d: Seq<u8>, p: int, en: Endian, origin: int, n: int) -> Result<
    Seq<BankInfo>,
    DecodeError,
>
    decreases n,
{
    if n <= 0 {
        Ok(Seq::empty())
    } else {
        match spec_ref_bank_info(d, p, en, origin) {
            Err(e) => Err(e),
            Ok(v) => match spec_bank_infos(d, p + 8, en, origin, n - 1) {
                Err(e) => Err(e),
                Ok(rest) => Ok(seq![v] + rest),
            },
        }
    }
}

/// The bank record table at `p`: a 32-bit count and that many referenced
/// records.
pub open spec fn spec_bank_table(d: Seq<u8>, p: int, en: Endian, origin: int) -> Result<
    Seq<BankInfo>,
    DecodeError,
> {
    if !(0 <= p && p + 4 <= d.len()) {
        Err(DecodeError::UnexpectedEof)
    } else {
        spec_bank_infos(d, p + 4, en, origin, su32(d, p, en) as int)
    }
}

pub fn decode_bank_table(d: &[u8], pos: usize, en: Endian, origin: usize) -> (r: Result<
    Table<BankInfo>,
    DecodeError,
>)
    requires
        origin <= d@.len(),
    ensures
        decodes_to(r, spec_bank_table(d@, pos as int, en, origin as int)),
{
    if !has_bytes(d, pos, 4) {
        return Err(DecodeError::UnexpectedEof);
    }
    let count = get_u32(d, pos, en) as usize;
    let mut out: Vec<BankInfo> = Vec::new();
    let mut q: usize = pos + 4;
    let mut i: usize = 0;
    while i < count
        invariant
            i <= count,
            origin <= d@.len(),
            d@.len() <= usize::MAX,
            q == pos + 4 + 8 * i as int,
            pos + 4 <= d@.len(),
            count == su32(d@, pos as int, en),
            spec_bank_infos(d@, pos as int + 4, en, origin as int, count as int) == match spec_bank_infos(
                d@,
                q as int,
                en,
                origin as int,
                count - i,
            ) {
                Ok(rest) => Ok::<_, DecodeError>(out.deep_view() + rest),
                Err(e) => Err::<Seq<BankInfo>, _>(e),
            },
        decreases count - i,
    {
        let ghost old_out = out.deep_view();
        let t = match req_ref_target(d, q, en, origin, RefSite::BankEntry) {
            Ok(t) => t,
            Err(e) => {
                return Err(e);
            },
        };
        let v = match decode_bank_info(d, t, en) {
            Ok(v) => v,
            Err(e) => {
                return Err(e);
            },
        };
        let ghost vv = v.deep_view();
        out.push(v);
        proof {
            assert(out.deep_view() =~= old_out.push(vv));
            if spec_bank_infos(d@, q as int + 8, en, origin as int, count - i - 1) is Ok {
                crate::common::lemma_acc_push(
                    old_out,
                    vv,
                    spec_bank_infos(d@, q as int + 8, en, origin as int, count - i - 1)->Ok_0,
                );
            }
        }
        q = q + 8;
        i = i + 1;
    }
    proof {
        assert(out.deep_view() + Seq::<BankInfo>::empty() =~= out.deep_view());
    }
    Ok(Table(out))
}


/// The player record behind the reference at `p`, resolved against `origin`.
pub open spec fn spec_ref_player_info(d: Seq<u8>, p: int, en: Endian, origin: int) -> Result<
    PlayerInfo,
    DecodeError,
> {
    match spec_req_ref(d, p, en, origin, RefSite::PlayerEntry) {
        Err(e) => Err(e),
        Ok(t) => spec_player_info(d, t, en),
    }
}

/// The `n` referenced player records whose references start at `p`, eight
/// bytes apart.
pub open spec fn spec_player_infos(d: Seq<u8>, p: int, en: Endian, origin: int, n: int) -> Result<
    Seq<PlayerInfo>,
    DecodeError,
>
    decreases n,
{
    if n <= 0 {
        Ok(Seq::empty())
    } else {
        match spec_ref_player_info(d, p, en, origin) {
            Err(e) => Err(e),
            Ok(v) => match spec_player_infos(d, p + 8, en, origin, n - 1) {
                Err(e) => Err(e),
                Ok(rest) => Ok(seq![v] + rest),
            },
        }
    }
}

/// The player record table at `p`: a 32-bit count and that many referenced
/// records.
pub open spec fn spec_player_table(d: Seq<u8>, p: int, en: Endian, origin: int) -> Result<
    Seq<PlayerInfo>,
    DecodeError,
> {
    if !(0 <= p && p + 4 <= d.len()) {
        Err(DecodeError::UnexpectedEof)
    } else {
        spec_player_infos(d, p + 4, en, origin, su32(d, p, en) as int)
    }
}

pub fn decode_player_table(d: &[u8], pos: usize, en: Endian, origin: usize) -> (r: Result<
    Table<PlayerInfo>,
    DecodeError,
>)
    requires
        origin <= d@.len(),
    ensures
        decodes_to(r, spec_player_table(d@, pos as int, en, origin as int)),
{
    if !has_bytes(d, pos, 4) {
        return Err(DecodeError::UnexpectedEof);
    }
    let count = get_u32(d, pos, en) as usize;
    let mut out: Vec<PlayerInfo> = Vec::new();
    let mut q: usize = pos + 4;
    let mut i: usize = 0;
    while i < count
        invariant
            i <= count,
            origin <= d@.len(),
            d@.len() <= usize::MAX,
            q == pos + 4 + 8 * i as int,
            pos + 4 <= d@.len(),
            count == su32(d@, pos as int, en),
            spec_player_infos(d@, pos as int + 4, en, origin as int, count as int) == match spec_player_infos(
                d@,
                q as int,
                en,
                origin as int,
                count - i,
            ) {
                Ok(rest) => Ok::<_, DecodeError>(out.deep_view() + rest),
                Err(e) => Err::<Seq<PlayerInfo>, _>(e),
            },
        decreases count - i,
    {
        let ghost old_out = out.deep_view();
        let t = match req_ref_target(d, q, en, origin, RefSite::PlayerEntry) {
            Ok(t) => t,
            Err(e) => {
                return Err(e);
            },
        };
        let v = match decode_player_info(d, t, en) {
            Ok(v) => v,
            Err(e) => {
                return Err(e);
            },
        };
        let ghost vv = v.deep_view();
        out.push(v);
        proof {
            assert(out.deep_view() =~= old_out.push(vv));
            if spec_player_infos(d@, q as int + 8, en, origin as int, count - i - 1) is Ok {
                crate::common::lemma_acc_push(
                    old_out,
                    vv,
                    spec_player_infos(d@, q as int + 8, en, origin as int, count - i - 1)->Ok_0,
                );
            }
        }
        q = q + 8;
        i = i + 1;
    }
    proof {
        assert(out.deep_view() + Seq::<PlayerInfo>::empty() =~= out.deep_view());
    }
    Ok(Table(out))
}


/// The sound record behind the reference at `p`, resolved against `origin`.
pub open spec fn spec_ref_sound_info(d: Seq<u8>, p: int, en: Endian, origin: int) -> Result<
    SoundInfo,
    DecodeError,
> {
    match spec_req_ref(d, p, en, origin, RefSite::SoundEntry) {
        Err(e) => Err(e),
        Ok(t) => spec_sound_info(d, t, en, origin),
    }
}

/// The `n` referenced sound records whose references start at `p`, eight
/// bytes apart.
pub open spec fn spec_sound_infos(d: Seq<u8>, p: int, en: Endian, origin: int, n: int) -> Result<
    Seq<SoundInfo>,
    DecodeError,
>
    decreases n,
{
    if n <= 0 {
        Ok(Seq::empty())
    } else {
        match spec_ref_sound_info(d, p, en, origin) {
            Err(e) => Err(e),
            Ok(v) => match spec_sound_infos(d, p + 8, en, origin, n - 1) {
                Err(e) => Err(e),
                Ok(rest) => Ok(seq![v] + rest),
            },
        }
    }
}

/// The sound record table at `p`: a 32-bit count and that many referenced
/// records.
pub open spec fn spec_sound_table(d: Seq<u8>, p: int, en: Endian, origin: int) -> Result<
    Seq<SoundInfo>,
    DecodeError,
> {
    if !(0 <= p && p + 4 <= d.len()) {
        Err(DecodeError::UnexpectedEof)
    } else {
        spec_sound_infos(d, p + 4, en, origin, su32(d, p, en) as int)
    }
}

pub fn decode_sound_table(d: &[u8], pos: usize, en: Endian, origin: usize) -> (r: Result<
    Table<SoundInfo>,
    DecodeError,
>)
    requires
        origin <= d@.len(),
    ensures
        decodes_to(r, spec_sound_table(d@, pos as int, en, origin as int)),
{
    if !has_bytes(d, pos, 4) {
        return Err(DecodeError::UnexpectedEof);
    }
    let count = get_u32(d, pos, en) as usize;
    let mut out: Vec<SoundInfo> = Vec::new();
    let mut q: usize = pos + 4;
    let mut i: usize = 0;
    while i < count
        invariant
            i <= count,
            origin <= d@.len(),
            d@.len() <= usize::MAX,
            q == pos + 4 + 8 * i as int,
            pos + 4 <= d@.len(),
            count == su32(d@, pos as int, en),
            spec_sound_infos(d@, pos as int + 4, en, origin as int, count as int) == match spec_sound_infos(
                d@,
                q as int,
                en,
                origin as int,
                count - i,
            ) {
                Ok(rest) => Ok::<_, DecodeError>(out.deep_view() + rest),
                Err(e) => Err::<Seq<SoundInfo>, _>(e),
            },
        decreases count - i,
    {
        let ghost old_out = out.deep_view();
        let t = match req_ref_target(d, q, en, origin, RefSite::SoundEntry) {
            Ok(t) => t,
            Err(e) => {
                return Err(e);
            },
        };
        let v = match decode_sound_info(d, t, en, origin) {
            Ok(v) => v,
            Err(e) => {
                return Err(e);
            },
        };
        let ghost vv = v.deep_view();
        out.push(v);
        proof {
            assert(out.deep_view() =~= old_out.push(vv));
            if spec_sound_infos(d@, q as int + 8, en, origin as int, count - i - 1) is Ok {
                crate::common::lemma_acc_push(
                    old_out,
                    vv,
                    spec_sound_infos(d@, q as int + 8, en, origin as int, count - i - 1)->Ok_0,
                );
            }
        }
        q = q + 8;
        i = i + 1;
    }
    proof {
        assert(out.deep_view() + Seq::<SoundInfo>::empty() =~= out.deep_view());
    }
    Ok(Table(out))
}

/// The twenty-eight bytes of a file record at position `p`, with its
/// optional external-file name and its position table resolved against
/// `origin` in declaration order.
pub open spec fn spec_file_info(d: Seq<u8>, p: int, en: Endian, origin: int) -> Result<
    FileInfoView,
    DecodeError,
> {
    if !(0 <= p && p + 28 <= d.len()) {
        Err(DecodeError::UnexpectedEof)
    } else {
        let ext_res: Result<Option<Seq<u8>>, DecodeError> = match spec_opt_ref_target(
            spec_raw_reference(d, p + 12, en)->Ok_0,
            origin,
        ) {
            None => Ok(None),
            Some(t) => match spec_nul_string(d, t) {
                Err(e) => Err(e),
                Ok(s) => Ok(Some(s)),
            },
        };
        match ext_res {
            Err(e) => Err(e),
            Ok(ext) => match spec_req_ref(d, p + 20, en, origin, RefSite::FilePositionTable) {
                Err(e) => Err(e),
                Ok(t2) => match spec_file_position_table(d, t2, en, origin) {
                    Err(e) => Err(e),
                    Ok(ps) => Ok(
                        FileInfoView {
                            file_size: su32(d, p, en),
                            archive_size: su32(d, p + 4, en),
                            file_id: su32(d, p + 8, en) as i32,
                            external_file: ext,
                            file_positions: ps,
                        },
                    ),
                },
            },
        }
    }
}

pub fn decode_file_info(d: &[u8], pos: usize, en: Endian, origin: usize) -> (r: Result<
    FileInfo,
    DecodeError,
>)
    requires
        origin <= d@.len(),
    ensures
        decodes_to(r, spec_file_info(d@, pos as int, en, origin as int)),
{
    broadcast use crate::bytes::lemma_vec_u8_deep_view;

    if !has_bytes(d, pos, 28) {
        return Err(DecodeError::UnexpectedEof);
    }
    let ext_ref = match decode_raw_reference(d, pos + 12, en) {
        Ok(v) => v,
        Err(e) => {
            return Err(e);
        },
    };
    let external_file = match opt_ref_target(&ext_ref, d.len(), origin) {
        None => None,
        Some(t) => match read_nul_string(d, t) {
            Ok(s) => Some(s),
            Err(e) => {
                return Err(e);
            },
        },
    };
    let t2 = match req_ref_target(d, pos + 20, en, origin, RefSite::FilePositionTable) {
        Ok(t) => t,
        Err(e) => {
            return Err(e);
        },
    };
    let file_positions = match decode_file_position_table(d, t2, en, origin) {
        Ok(v) => v,
        Err(e) => {
            return Err(e);
        },
    };
    Ok(
        FileInfo {
            file_size: get_u32(d, pos, en),
            archive_size: get_u32(d, pos + 4, en),
            file_id: get_u32(d, pos + 8, en) as i32,
            external_file,
            file_positions,
        },
    )
}

/// The forty bytes of a group record at position `p`, with its
/// optional external-file name and its entry table resolved against
/// `origin` in declaration order.
pub open spec fn spec_group_info(d: Seq<u8>, p: int, en: Endian, origin: int) -> Result<
    GroupInfoView,
    DecodeError,
> {
    if !(0 <= p && p + 40 <= d.len()) {
        Err(DecodeError::UnexpectedEof)
    } else {
        let ext_res: Result<Option<Seq<u8>>, DecodeError> = match spec_opt_ref_target(
            spec_raw_reference(d, p + 8, en)->Ok_0,
            origin,
        ) {
            None => Ok(None),
            Some(t) => match spec_nul_string(d, t) {
                Err(e) => Err(e),
                Ok(s) => Ok(Some(s)),
            },
        };
        match ext_res {
            Err(e) => Err(e),
            Ok(ext) => match spec_req_ref(d, p + 32, en, origin, RefSite::GroupEntryTable) {
                Err(e) => Err(e),
                Ok(t2) => match spec_group_entry_table(d, t2, en, origin) {
                    Err(e) => Err(e),
                    Ok(es) => Ok(
                        GroupInfoView {
                            string_id: spec_typed_id(d, p)->Ok_0,
                            group_id: su32(d, p + 4, en) as i32,
                            external_file: ext,
                            file_base: su32(d, p + 16, en),
                            total_size: su32(d, p + 20, en),
                            archive_base: su32(d, p + 24, en),
                            archive_size: su32(d, p + 28, en),
                            entries: es,
                        },
                    ),
                },
            },
        }
    }
}

pub fn decode_group_info(d: &[u8], pos: usize, en: Endian, origin: usize) -> (r: Result<
    GroupInfo,
    DecodeError,
>)
    requires
        origin <= d@.len(),
    ensures
        decodes_to(r, spec_group_info(d@, pos as int, en, origin as int)),
{
    broadcast use crate::bytes::lemma_vec_u8_deep_view;

    if !has_bytes(d, pos, 40) {
        return Err(DecodeError::UnexpectedEof);
    }
    let string_id = match decode_typed_id(d, pos) {
        Ok(v) => v,
        Err(e) => {
            return Err(e);
        },
    };
    let ext_ref = match decode_raw_reference(d, pos + 8, en) {
        Ok(v) => v,
        Err(e) => {
            return Err(e);
        },
    };
    let external_file = match opt_ref_target(&ext_ref, d.len(), origin) {
        None => None,
        Some(t) => match read_nul_string(d, t) {
            Ok(s) => Some(s),
            Err(e) => {
                return Err(e);
            },
        },
    };
    let t2 = match req_ref_target(d, pos + 32, en, origin, RefSite::GroupEntryTable) {
        Ok(t) => t,
        Err(e) => {
            return Err(e);
        },
    };
    let entries = match decode_group_entry_table(d, t2, en, origin) {
        Ok(v) => v,
        Err(e) => {
            return Err(e);
        },
    };
    Ok(
        GroupInfo {
            string_id,
            group_id: get_u32(d, pos + 4, en) as i32,
            external_file,
            file_base: get_u32(d, pos + 16, en),
            total_size: get_u32(d, pos + 20, en),
            archive_base: get_u32(d, pos + 24, en),
            archive_size: get_u32(d, pos + 28, en),
            entries,
        },
    )
}


/// The file record behind the reference at `p`, resolved against `origin`.
pub open spec fn spec_ref_file_info_rec(d: Seq<u8>, p: int, en: Endian, origin: int) -> Result<
    FileInfoView,
    DecodeError,
> {
    match spec_req_ref(d, p, en, origin, RefSite::FileEntry) {
        Err(e) => Err(e),
        Ok(t) => spec_file_info(d, t, en, origin),
    }
}

/// The `n` referenced file records whose references start at `p`, eight
/// bytes apart.
pub open spec fn spec_file_infos(d: Seq<u8>, p: int, en: Endian, origin: int, n: int) -> Result<
    Seq<FileInfoView>,
    DecodeError,
>
    decreases n,
{
    if n <= 0 {
        Ok(Seq::empty())
    } else {
        match spec_ref_file_info_rec(d, p, en, origin) {
            Err(e) => Err(e),
            Ok(v) => match spec_file_infos(d, p + 8, en, origin, n - 1) {
                Err(e) => Err(e),
                Ok(rest) => Ok(seq![v] + rest),
            },
        }
    }
}

/// The file record table at `p`: a 32-bit count and that many referenced
/// records.
pub open spec fn spec_file_table(d: Seq<u8>, p: int, en: Endian, origin: int) -> Result<
    Seq<FileInfoView>,
    DecodeError,
> {
    if !(0 <= p && p + 4 <= d.len()) {
        Err(DecodeError::UnexpectedEof)
    } else {
        spec_file_infos(d, p + 4, en, origin, su32(d, p, en) as int)
    }
}

pub fn decode_file_table(d: &[u8], pos: usize, en: Endian, origin: usize) -> (r: Result<
    Table<FileInfo>,
    DecodeError,
>)
    requires
        origin <= d@.len(),
    ensures
        decodes_to(r, spec_file_table(d@, pos as int, en, origin as int)),
{
    if !has_bytes(d, pos, 4) {
        return Err(DecodeError::UnexpectedEof);
    }
    let count = get_u32(d, pos, en) as usize;
    let mut out: Vec<FileInfo> = Vec::new();
    let mut q: usize = pos + 4;
    let mut i: usize = 0;
    while i < count
        invariant
            i <= count,
            origin <= d@.len(),
            d@.len() <= usize::MAX,
            q == pos + 4 + 8 * i as int,
            pos + 4 <= d@.len(),
            count == su32(d@, pos as int, en),
            spec_file_infos(d@, pos as int + 4, en, origin as int, count as int) == match spec_file_infos(
                d@,
                q as int,
                en,
                origin as int,
                count - i,
            ) {
                Ok(rest) => Ok::<_, DecodeError>(out.deep_view() + rest),
                Err(e) => Err::<Seq<FileInfoView>, _>(e),
            },
        decreases count - i,
    {
        let ghost old_out = out.deep_view();
        let t = match req_ref_target(d, q, en, origin, RefSite::FileEntry) {
            Ok(t) => t,
            Err(e) => {
                return Err(e);
            },
        };
        let v = match decode_file_info(d, t, en, origin) {
            Ok(v) => v,
            Err(e) => {
                return Err(e);
            },
        };
        let ghost vv = v.deep_view();
        out.push(v);
        proof {
            assert(out.deep_view() =~= old_out.push(vv));
            if spec_file_infos(d@, q as int + 8, en, origin as int, count - i - 1) is Ok {
                crate::common::lemma_acc_push(
                    old_out,
                    vv,
                    spec_file_infos(d@, q as int + 8, en, origin as int, count - i - 1)->Ok_0,
                );
            }
        }
        q = q + 8;
        i = i + 1;
    }
    proof {
        assert(out.deep_view() + Seq::<FileInfoView>::empty() =~= out.deep_view());
    }
    Ok(Table(out))
}


/// The group record behind the reference at `p`, resolved against `origin`.
pub open spec fn spec_ref_group_info_rec(d: Seq<u8>, p: int, en: Endian, origin: int) -> Result<
    GroupInfoView,
    DecodeError,
> {
    match spec_req_ref(d, p, en, origin, RefSite::GroupEntry) {
        Err(e) => Err(e),
        Ok(t) => spec_group_info(d, t, en, origin),
    }
}

/// The `n` referenced group records whose references start at `p`, eight
/// bytes apart.
pub open spec fn spec_group_infos(d: Seq<u8>, p: int, en: Endian, origin: int, n: int) -> Result<
    Seq<GroupInfoView>,
    DecodeError,
>
    decreases n,
{
    if n <= 0 {
        Ok(Seq::empty())
    } else {
        match spec_ref_group_info_rec(d, p, en, origin) {
            Err(e) => Err(e),
            Ok(v) => match spec_group_infos(d, p + 8, en, origin, n - 1) {
                Err(e) => Err(e),
                Ok(rest) => Ok(seq![v] + rest),
            },
        }
    }
}

/// The group record table at `p`: a 32-bit count and that many referenced
/// records.
pub open spec fn spec_group_table(d: Seq<u8>, p: int, en: Endian, origin: int) -> Result<
    Seq<GroupInfoView>,
    DecodeError,
> {
    if !(0 <= p && p + 4 <= d.len()) {
        Err(DecodeError::UnexpectedEof)
    } else {
        spec_group_infos(d, p + 4, en, origin, su32(d, p, en) as int)
    }
}

pub fn decode_group_table(d: &[u8], pos: usize, en: Endian, origin: usize) -> (r: Result<
    Table<GroupInfo>,
    DecodeError,
>)
    requires
        origin <= d@.len(),
    ensures
        decodes_to(r, spec_group_table(d@, pos as int, en, origin as int)),
{
    if !has_bytes(d, pos, 4) {
        return Err(DecodeError::UnexpectedEof);
    }
    let count = get_u32(d, pos, en) as usize;
    let mut out: Vec<GroupInfo> = Vec::new();
    let mut q: usize = pos + 4;
    let mut i: usize = 0;
    while i < count
        invariant
            i <= count,
            origin <= d@.len(),
            d@.len() <= usize::MAX,
            q == pos + 4 + 8 * i as int,
            pos + 4 <= d@.len(),
            count == su32(d@, pos as int, en),
            spec_group_infos(d@, pos as int + 4, en, origin as int, count as int) == match spec_group_infos(
                d@,
                q as int,
                en,
                origin as int,
                count - i,
            ) {
                Ok(rest) => Ok::<_, DecodeError>(out.deep_view() + rest),
                Err(e) => Err::<Seq<GroupInfoView>, _>(e),
            },
        decreases count - i,
    {
        let ghost old_out = out.deep_view();
        let t = match req_ref_target(d, q, en, origin, RefSite::GroupEntry) {
            Ok(t) => t,
            Err(e) => {
                return Err(e);
            },
        };
        let v = match decode_group_info(d, t, en, origin) {
            Ok(v) => v,
            Err(e) => {
                return Err(e);
            },
        };
        let ghost vv = v.deep_view();
        out.push(v);
        proof {
            assert(out.deep_view() =~= old_out.push(vv));
            if spec_group_infos(d@, q as int + 8, en, origin as int, count - i - 1) is Ok {
                crate::common::lemma_acc_push(
                    old_out,
                    vv,
                    spec_group_infos(d@, q as int + 8, en, origin as int, count - i - 1)->Ok_0,
                );
            }
        }
        q = q + 8;
        i = i + 1;
    }
    proof {
        assert(out.deep_view() + Seq::<GroupInfoView>::empty() =~= out.deep_view());
    }
    Ok(Table(out))
}

/// The decoded INFO block: its header and its six resolved tables.
#[derive(Debug, Clone, PartialEq)]
pub struct InfoBlock {
    pub header: BlockHeader,
    pub sound_table: Table<SoundInfo>,
    pub bank_table: Table<BankInfo>,
    pub player_table: Table<PlayerInfo>,
    pub file_table: Table<FileInfo>,
    pub group_table: Table<GroupInfo>,
    pub sound_archive_info: SoundArchiveInfo,
}

/// Abstraction of an `InfoBlock`.
pub struct InfoBlockView {
    pub header: BlockHeader,
    pub sound_table: Seq<SoundInfo>,
    pub bank_table: Seq<BankInfo>,
    pub player_table: Seq<PlayerInfo>,
    pub file_table: Seq<FileInfoView>,
    pub group_table: Seq<GroupInfoView>,
    pub sound_archive_info: SoundArchiveInfo,
}

impl DeepView for InfoBlock {
    type V = InfoBlockView;

    open spec fn deep_view(&self) -> InfoBlockView {
        InfoBlockView {
            header: self.header,
            sound_table: self.sound_table.deep_view(),
            bank_table: self.bank_table.deep_view(),
            player_table: self.player_table.deep_view(),
            file_table: self.file_table.deep_view(),
            group_table: self.group_table.deep_view(),
            sound_archive_info: self.sound_archive_info,
        }
    }
}

/// The INFO block at position `off`: its eight-byte header, then six
/// references at the block body's start, resolved in declaration
/// order against the body's origin `off + 8`.
pub open spec fn spec_info_block(d: Seq<u8>, off: int, en: Endian) -> Result<
    InfoBlockView,
    DecodeError,
> {
    match spec_block_header(d, off, en) {
        Err(e) => Err(e),
        Ok(h) => {
            let origin = off + 8;
            if origin + 48 > d.len() {
                Err(DecodeError::UnexpectedEof)
            } else {
                match spec_req_ref(d, origin, en, origin, RefSite::SoundTable) {
                    Err(e) => Err(e),
                    Ok(t0) => match spec_sound_table(d, t0, en, origin) {
                        Err(e) => Err(e),
                        Ok(sounds) => match spec_req_ref(
                            d,
                            origin + 8,
                            en,
                            origin,
                            RefSite::BankTable,
                        ) {
                            Err(e) => Err(e),
                            Ok(t1) => match spec_bank_table(d, t1, en, origin) {
                                Err(e) => Err(e),
                                Ok(banks) => match spec_req_ref(
                                    d,
                                    origin + 16,
                                    en,
                                    origin,
                                    RefSite::PlayerTable,
                                ) {
                                    Err(e) => Err(e),
                                    Ok(t2) => match spec_player_table(d, t2, en, origin) {
                                        Err(e) => Err(e),
                                        Ok(players) => match spec_req_ref(
                                            d,
                                            origin + 24,
                                            en,
                                            origin,
                                            RefSite::FileTable,
                                        ) {
                                            Err(e) => Err(e),
                                            Ok(t3) => match spec_file_table(d, t3, en, origin) {
                                                Err(e) => Err(e),
                                                Ok(files) => match spec_req_ref(
                                                    d,
                                                    origin + 32,
                                                    en,
                                                    origin,
                                                    RefSite::GroupTable,
                                                ) {
                                                    Err(e) => Err(e),
                                                    Ok(t4) => match spec_group_table(
                                                        d,
                                                        t4,
                                                        en,
                                                        origin,
                                                    ) {
                                                        Err(e) => Err(e),
                                                        Ok(groups) => match spec_req_ref(
                                                            d,
                                                            origin + 40,
                                                            en,
                                                            origin,
                                                            RefSite::SoundArchiveInfo,
                                                        ) {
                                                            Err(e) => Err(e),
                                                            Ok(t5) => match spec_sound_archive_info(
                                                                d,
                                                                t5,
                                                                en,
                                                            ) {
                                                                Err(e) => Err(e),
                                                                Ok(sai) => Ok(
                                                                    InfoBlockView {
                                                                        header: h,
                                                                        sound_table: sounds,
                                                                        bank_table: banks,
                                                                        player_table: players,
                                                                        file_table: files,
                                                                        group_table: groups,
                                                                        sound_archive_info: sai,
                                                                    },
                                                                ),
                                                            },
                                                        },
                                                    },
                                                },
                                            },
                                        },
                                    },
                                },
                            },
                        },
                    },
                }
            }
        },
    }
}

pub fn decode_info_block(d: &[u8], off: usize, en: Endian) -> (r: Result<InfoBlock, DecodeError>)
    ensures
        decodes_to(r, spec_info_block(d@, off as int, en)),
{
    let header = match decode_block_header(d, off, en) {
        Ok(v) => v,
        Err(e) => {
            return Err(e);
        },
    };
    if !has_bytes(d, off, 8) {
        return Err(DecodeError::UnexpectedEof);
    }
    let origin = off + 8;
    if !has_bytes(d, origin, 48) {
        return Err(DecodeError::UnexpectedEof);
    }
    let t0 = match req_ref_target(d, origin, en, origin, RefSite::SoundTable) {
        Ok(t) => t,
        Err(e) => {
            return Err(e);
        },
    };
    let sound_table = match decode_sound_table(d, t0, en, origin) {
        Ok(v) => v,
        Err(e) => {
            return Err(e);
        },
    };
    let t1 = match req_ref_target(d, origin + 8, en, origin, RefSite::BankTable) {
        Ok(t) => t,
        Err(e) => {
            return Err(e);
        },
    };
    let bank_table = match decode_bank_table(d, t1, en, origin) {
        Ok(v) => v,
        Err(e) => {
            return Err(e);
        },
    };
    let t2 = match req_ref_target(d, origin + 16, en, origin, RefSite::PlayerTable) {
        Ok(t) => t,
        Err(e) => {
            return Err(e);
        },
    };
    let player_table = match decode_player_table(d, t2, en, origin) {
        Ok(v) => v,
        Err(e) => {
            return Err(e);
        },
    };
    let t3 = match req_ref_target(d, origin + 24, en, origin, RefSite::FileTable) {
        Ok(t) => t,
        Err(e) => {
            return Err(e);
        },
    };
    let file_table = match decode_file_table(d, t3, en, origin) {
        Ok(v) => v,
        Err(e) => {
            return Err(e);
        },
    };
    let t4 = match req_ref_target(d, origin + 32, en, origin, RefSite::GroupTable) {
        Ok(t) => t,
        Err(e) => {
            return Err(e);
        },
    };
    let group_table = match decode_group_table(d, t4, en, origin) {
        Ok(v) => v,
        Err(e) => {
            return Err(e);
        },
    };
    let t5 = match req_ref_target(d, origin + 40, en, origin, RefSite::SoundArchiveInfo) {
        Ok(t) => t,
        Err(e) => {
            return Err(e);
        },
    };
    let sound_archive_info = match decode_sound_archive_info(d, t5, en) {
        Ok(v) => v,
        Err(e) => {
            return Err(e);
        },
    };
    Ok(
        InfoBlock {
            header,
            sound_table,
            bank_table,
            player_table,
            file_table,
            group_table,
            sound_archive_info,
        },
    )
}

/// Every sound record of a successfully decoded sound sequence carries
/// a details variant that matches its type.
pub proof fn lemma_sound_infos_consistent(d: Seq<u8>, p: int, en: Endian, origin: int, n: int)
    requires
        spec_sound_infos(d, p, en, origin, n) is Ok,
    ensures
        forall|i: int|
            0 <= i < spec_sound_infos(d, p, en, origin, n)->Ok_0.len()
                ==> sound_details_consistent(#[trigger] spec_sound_infos(d, p, en, origin, n)->Ok_0[i]),
    decreases n,
{
    if n > 0 {
        lemma_sound_infos_consistent(d, p + 8, en, origin, n - 1);
        let v = spec_ref_sound_info(d, p, en, origin)->Ok_0;
        let t = spec_req_ref(d, p, en, origin, RefSite::SoundEntry)->Ok_0;
        lemma_sound_details_match(d, t, en, origin);
        let rest = spec_sound_infos(d, p + 8, en, origin, n - 1)->Ok_0;
        assert forall|i: int| 0 <= i < (seq![v] + rest).len() implies sound_details_consistent(
            #[trigger] (seq![v] + rest)[i],
        ) by {
            if i > 0 {
                assert((seq![v] + rest)[i] == rest[i - 1]);
            }
        }
    }
}

/// Every sound of a successfully decoded INFO block carries a details
/// variant that matches its type.
pub proof fn lemma_info_block_sounds_consistent(d: Seq<u8>, off: int, en: Endian)
    requires
        spec_info_block(d, off, en) is Ok,
    ensures
        forall|i: int|
            0 <= i < spec_info_block(d, off, en)->Ok_0.sound_table.len()
                ==> sound_details_consistent(
                #[trigger] spec_info_block(d, off, en)->Ok_0.sound_table[i],
            ),
{
    let origin = off + 8;
    let t0 = spec_req_ref(d, origin, en, origin, RefSite::SoundTable)->Ok_0;
    lemma_sound_infos_consistent(d, t0 + 4, en, origin, su32(d, t0, en) as int);
}

} // verus!
