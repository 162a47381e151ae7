//! Error kinds of the decoder, and the shape that every decode result has.

use vstd::prelude::*;

verus! {

/// A reference position inside the archive, reported when a required
/// absolute reference holds the reserved null value 0.
#[derive(Debug, Clone, Copy, PartialEq, Eq)]
pub enum RefSite {
    SoundTable,
    BankTable,
    PlayerTable,
    FileTable,
    GroupTable,
    SoundArchiveInfo,
    SoundEntry,
    BankEntry,
    PlayerEntry,
    FileEntry,
    GroupEntry,
    SoundDetails,
    FilePositionTable,
    FilePositionEntry,
    GroupEntryTable,
    GroupEntryItem,
}

/// A table consulted by the archive facade, reported when an index
/// falls beyond its length.
#[derive(Debug, Clone, Copy, PartialEq, Eq)]
pub enum TableKind {
    SoundTable,
    StringTable,
    FileTable,
    GroupTable,
    GroupEntries,
}

/// The structural check that failed on a block pointer.
#[derive(Debug, Clone, Copy, PartialEq, Eq)]
pub enum Mismatch {
    /// The file header declares a block count other than 3.
    BlockCount,
    /// A block's offset is not aligned to a 0x20 boundary.
    BlockAlignment,
    /// A block's `offset + len` exceeds the declared file size.
    BlockOutOfFile,
    /// A block header's inner `size` differs from the outer pointer's `len`.
    BlockLength,
    /// A sound record's pan-mode byte lies outside the known set.
    PanMode,
    /// A sound record's pan-curve byte lies outside the known set.
    PanCurve,
}

/// Everything that can go wrong while decoding an archive or resolving
/// a sound.  Structural failures abort decoding; `NoPayload` and
/// `NotFound` are conditions a caller may treat as non-fatal.
#[derive(Debug, Clone, Copy, PartialEq, Eq)]
pub enum DecodeError {
    /// An underlying read or seek failed.  Decoding from an in-memory
    /// buffer never produces this; it is for callers that feed the
    /// decoder from fallible sources.
    Io,
    /// A read ran past the end of the buffer.
    UnexpectedEof,
    /// A file or block magic differed from the expected four bytes.
    BadMagic { expected: [u8; 4], got: [u8; 4] },
    /// The two-byte endian mark was neither 0xFEFF nor 0xFFFE.
    BadEndianMark(u16),
    /// The version field holds a value outside the known set.
    UnsupportedVersion(u16),
    /// A structural invariant of the block index failed.
    StructuralMismatch(Mismatch),
    /// A required absolute reference was 0.
    NullAbsoluteReference(RefSite),
    /// A table index was out of range.
    IndexOutOfBounds { table: TableKind, index: usize, len: usize },
    /// A Patricia lookup found no node.
    NotFound,
    /// A file record has no position entry, so there are no bytes to
    /// extract for the sound that names it.
    NoPayload,
}

/// Relates an executable decode result to its mathematical counterpart:
/// both sides succeed with the same abstract value, or both fail with
/// the same error.
pub open spec fn decodes_to<T: DeepView>(
    r: Result<T, DecodeError>,
    m: Result<T::V, DecodeError>,
) -> bool {
    match r {
        Ok(v) => m == Ok::<T::V, DecodeError>(v.deep_view()),
        Err(e) => m == Err::<T::V, DecodeError>(e),
    }
}

} // verus!
