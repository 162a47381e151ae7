//! The FILE block: its body is raw audio payloads, never parsed here.
//! The INFO block's group tables dictate its substructure; the decoder
//! records only the block header and leaves the bytes in place.

use vstd::prelude::*;

use crate::bytes::lemma_vec_u8_deep_view;
use crate::common::{decode_block_header, read_bytes, spec_block_header, spec_bytes, BlockHeader,
    Endian};
use crate::error::{decodes_to, DecodeError};

verus! {

/// The decoded FILE block: only its header.  The body stays in the
/// source buffer and is located by the block pointer's offset and
/// length.
#[derive(Debug, Clone, Copy, PartialEq, Eq)]
pub struct FileBlock {
    pub header: BlockHeader,
}

impl DeepView for FileBlock {
    type V = FileBlock;

    open spec fn deep_view(&self) -> FileBlock {
        *self
    }
}

/// A run of raw payload bytes copied out of the source on demand.
#[derive(Debug, Clone, PartialEq)]
pub struct File(pub Vec<u8>);

impl DeepView for File {
    type V = Seq<u8>;

    open spec fn deep_view(&self) -> Seq<u8> {
        self.0.deep_view()
    }
}

/// The FILE block at position `off`: its eight-byte header and nothing
/// more.
pub open spec fn spec_file_block(d: Seq<u8>, off: int, en: Endian) -> Result<
    FileBlock,
    DecodeError,
> {
    match spec_block_header(d, off, en) {
        Err(e) => Err(e),
        Ok(h) => Ok(FileBlock { header: h }),
    }
}

pub fn decode_file_block(d: &[u8], off: usize, en: Endian) -> (r: Result<FileBlock, DecodeError>)
    ensures
        decodes_to(r, spec_file_block(d@, off as int, en)),
{
    match decode_block_header(d, off, en) {
        Ok(h) => Ok(FileBlock { header: h }),
        Err(e) => Err(e),
    }
}

/// Copies the `len` bytes at `start` out of the source, for payload
/// extraction from an in-memory archive.
pub fn extract(d: &[u8], start: usize, len: usize) -> (r: Result<File, DecodeError>)
    ensures
        decodes_to(r, match spec_bytes(d@, start as int, len as int) {
            Err(e) => Err::<Seq<u8>, DecodeError>(e),
            Ok(s) => Ok::<Seq<u8>, DecodeError>(s),
        }),
{
    broadcast use lemma_vec_u8_deep_view;

    match read_bytes(d, start, len) {
        Ok(v) => Ok(File(v)),
        Err(e) => Err(e),
    }
}

} // verus!
