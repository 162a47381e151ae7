//! Shared framing of the container: byte order, the file header, the
//! block index, reference envelopes, tables and small wrappers.

use vstd::prelude::*;

use crate::bytes::{get_bytes4, get_u16, get_u32, get_u8, has_bytes, sbytes4, su16, su32};
use crate::error::{decodes_to, DecodeError, RefSite};

verus! {

/// Byte order of every multi-byte field after the endian mark.
#[derive(Debug, Clone, Copy, PartialEq, Eq, Structural)]
pub enum Endian {
    Big,
    Little,
}

impl DeepView for Endian {
    type V = Endian;

    open spec fn deep_view(&self) -> Endian {
        *self
    }
}

/// The fixed-width fields at the start of every file of this family.
/// The endian mark defines the byte order of everything after it and
/// is itself always read big-endian.
#[derive(Debug, Clone, Copy, PartialEq, Eq)]
pub struct FileHeader {
    pub magic: [u8; 4],
    pub endian: Endian,
    pub version: u16,
    pub file_size: u32,
    pub header_size: u16,
    pub block_count: u16,
}

impl DeepView for FileHeader {
    type V = FileHeader;

    open spec fn deep_view(&self) -> FileHeader {
        *self
    }
}

/// The eight bytes at the start of every block: a four-byte magic and
/// the block's declared size.
#[derive(Debug, Clone, Copy, PartialEq, Eq)]
pub struct BlockHeader {
    pub magic: [u8; 4],
    pub size: u32,
}

impl DeepView for BlockHeader {
    type V = BlockHeader;

    open spec fn deep_view(&self) -> BlockHeader {
        *self
    }
}

/// One entry of the block index: where a block lies and how long it
/// is, together with the block decoded from that position.
#[derive(Debug, Clone, PartialEq)]
pub struct BlockPtr<T> {
    pub offset: u32,
    pub block: T,
    pub len: u32,
}

/// Abstraction of a `BlockPtr` whose block has been abstracted.
pub struct BlockPtrView<B> {
    pub offset: u32,
    pub block: B,
    pub len: u32,
}

impl<T: DeepView> DeepView for BlockPtr<T> {
    type V = BlockPtrView<T::V>;

    open spec fn deep_view(&self) -> BlockPtrView<T::V> {
        BlockPtrView { offset: self.offset, block: self.block.deep_view(), len: self.len }
    }
}

/// A length-prefixed homogeneous table: a 32-bit count followed by
/// that many elements.
#[derive(Debug, Clone, PartialEq)]
pub struct Table<T>(pub Vec<T>);

impl<T: DeepView> DeepView for Table<T> {
    type V = Seq<T::V>;

    open spec fn deep_view(&self) -> Seq<T::V> {
        self.0.deep_view()
    }
}

/// The four-byte envelope preceding every reference offset.
#[derive(Debug, Clone, Copy, PartialEq, Eq, Structural)]
pub struct ReferenceLayout {
    pub is_relative: u8,
    pub ty: u8,
    pub padding: u16,
}

impl DeepView for ReferenceLayout {
    type V = ReferenceLayout;

    open spec fn deep_view(&self) -> ReferenceLayout {
        *self
    }
}

/// A reference as it stands in the file: its envelope and its 32-bit
/// offset, before resolution.
#[derive(Debug, Clone, Copy, PartialEq, Eq, Structural)]
pub struct RawReference {
    pub layout: ReferenceLayout,
    pub offset: u32,
}

impl DeepView for RawReference {
    type V = RawReference;

    open spec fn deep_view(&self) -> RawReference {
        *self
    }
}

/// A one-byte type tag followed by a three-byte packed identifier.
#[derive(Debug, Clone, Copy, PartialEq, Eq)]
pub struct TypedId {
    pub ty: u8,
    pub id: [u8; 3],
}

impl DeepView for TypedId {
    type V = TypedId;

    open spec fn deep_view(&self) -> TypedId {
        *self
    }
}

/// Encoding of a wave payload's samples.
#[derive(Debug, Clone, Copy, PartialEq, Eq, Structural)]
pub enum SoundEncoding {
    SPcm8,
    SPcm16,
    DspAdpcm,
}

impl DeepView for SoundEncoding {
    type V = SoundEncoding;

    open spec fn deep_view(&self) -> SoundEncoding {
        *self
    }
}

/// A variable-length integer as some schemas of this family store it.
#[derive(Debug, Clone, Copy, PartialEq, Eq, Structural)]
pub struct VarLen(pub u128);

impl DeepView for VarLen {
    type V = VarLen;

    open spec fn deep_view(&self) -> VarLen {
        *self
    }
}

/// A recorded reader position, for callers that keep track of where a
/// field was read from.
#[derive(Debug, Clone, Copy, PartialEq, Eq, Structural)]
pub struct CurPos(pub u64);

impl DeepView for CurPos {
    type V = CurPos;

    open spec fn deep_view(&self) -> CurPos {
        *self
    }
}

/// A block whose body is kept as raw bytes.
#[derive(Debug, Clone, PartialEq)]
pub struct GenericBlock {
    pub header: BlockHeader,
    pub body: Vec<u8>,
}

/// Abstraction of a `GenericBlock`.
pub struct GenericBlockView {
    pub header: BlockHeader,
    pub body: Seq<u8>,
}

impl DeepView for GenericBlock {
    type V = GenericBlockView;

    open spec fn deep_view(&self) -> GenericBlockView {
        GenericBlockView { header: self.header, body: self.body.deep_view() }
    }
}

/// A file of this family read without a schema: its header and every
/// block as raw bytes, for inspection.
#[derive(Debug, Clone, PartialEq)]
pub struct GenericFile {
    pub header: FileHeader,
    pub blocks: Vec<BlockPtr<GenericBlock>>,
}

/// Abstraction of a `GenericFile`.
pub struct GenericFileView {
    pub header: FileHeader,
    pub blocks: Seq<BlockPtrView<GenericBlockView>>,
}

impl DeepView for GenericFile {
    type V = GenericFileView;

    open spec fn deep_view(&self) -> GenericFileView {
        GenericFileView { header: self.header, blocks: self.blocks.deep_view() }
    }
}

/// The endianness denoted by the two-byte mark: 0xFEFF is big-endian,
/// 0xFFFE little-endian, anything else is rejected.
pub open spec fn spec_endian_mark(m: u16) -> Result<Endian, DecodeError> {
    if m == 0xFEFF {
        Ok(Endian::Big)
    } else if m == 0xFFFE {
        Ok(Endian::Little)
    } else {
        Err(DecodeError::BadEndianMark(m))
    }
}

/// The file header decoded from the first sixteen bytes: magic, endian
/// mark, version, file size, header size and block count.  The fields
/// after the mark are read in the detected byte order.  No field value
/// is judged here beyond the mark itself; schema-level deciders reject
/// unknown magics and versions.
pub open spec fn spec_file_header(d: Seq<u8>) -> Result<FileHeader, DecodeError> {
    if d.len() < 6 {
        Err(DecodeError::UnexpectedEof)
    } else {
        match spec_endian_mark(su16(d, 4, Endian::Big)) {
            Err(e) => Err(e),
            Ok(en) => if d.len() < 16 {
                Err(DecodeError::UnexpectedEof)
            } else {
                Ok(
                    FileHeader {
                        magic: sbytes4(d, 0),
                        endian: en,
                        version: su16(d, 6, en),
                        file_size: su32(d, 8, en),
                        header_size: su16(d, 12, en),
                        block_count: su16(d, 14, en),
                    },
                )
            },
        }
    }
}

pub fn decode_file_header(d: &[u8]) -> (r: Result<FileHeader, DecodeError>)
    ensures
        decodes_to(r, spec_file_header(d@)),
{
    if !has_bytes(d, 0, 6) {
        return Err(DecodeError::UnexpectedEof);
    }
    let mark = get_u16(d, 4, Endian::Big);
    let en = if mark == 0xFEFF {
        Endian::Big
    } else if mark == 0xFFFE {
        Endian::Little
    } else {
        return Err(DecodeError::BadEndianMark(mark));
    };
    if !has_bytes(d, 0, 16) {
        return Err(DecodeError::UnexpectedEof);
    }
    Ok(
        FileHeader {
            magic: get_bytes4(d, 0),
            endian: en,
            version: get_u16(d, 6, en),
            file_size: get_u32(d, 8, en),
            header_size: get_u16(d, 12, en),
            block_count: get_u16(d, 14, en),
        },
    )
}

/// Endian flip at the framing level: a sixteen-byte header whose
/// multi-byte fields are stored byte-swapped, under the opposite
/// endian mark, decodes to the same values with only the endianness
/// differing.  Together with the byte-order symmetry of `su16` and
/// `su32` this is why an archive written in either byte order carries
/// the same structure.
pub proof fn lemma_file_header_flip(d: Seq<u8>, f: Seq<u8>)
    requires
        d.len() >= 16,
        f.len() >= 16,
        spec_endian_mark(su16(d, 4, Endian::Big)) == Ok::<Endian, DecodeError>(Endian::Big),
        spec_endian_mark(su16(f, 4, Endian::Big)) == Ok::<Endian, DecodeError>(Endian::Little),
        f[0] == d[0] && f[1] == d[1] && f[2] == d[2] && f[3] == d[3],
        f[6] == d[7] && f[7] == d[6],
        f[8] == d[11] && f[9] == d[10] && f[10] == d[9] && f[11] == d[8],
        f[12] == d[13] && f[13] == d[12],
        f[14] == d[15] && f[15] == d[14],
    ensures
        (spec_file_header(f) is Ok),
        (spec_file_header(d) is Ok),
        spec_file_header(f)->Ok_0 == (FileHeader {
            endian: Endian::Little,
            ..spec_file_header(d)->Ok_0
        }),
{
    crate::bytes::lemma_su16_flip(d, 6, f, 6);
    crate::bytes::lemma_su32_flip(d, 8, f, 8);
    crate::bytes::lemma_su16_flip(d, 12, f, 12);
    crate::bytes::lemma_su16_flip(d, 14, f, 14);
    assert(sbytes4(f, 0) =~= sbytes4(d, 0));
}

/// The block header at position `p`: four magic bytes and a 32-bit
/// size.
pub open spec fn spec_block_header(d: Seq<u8>, p: int, en: Endian) -> Result<
    BlockHeader,
    DecodeError,
> {
    if !(0 <= p && p + 8 <= d.len()) {
        Err(DecodeError::UnexpectedEof)
    } else {
        Ok(BlockHeader { magic: sbytes4(d, p), size: su32(d, p + 4, en) })
    }
}

pub fn decode_block_header(d: &[u8], pos: usize, en: Endian) -> (r: Result<
    BlockHeader,
    DecodeError,
>)
    ensures
        decodes_to(r, spec_block_header(d@, pos as int, en)),
{
    if !has_bytes(d, pos, 8) {
        return Err(DecodeError::UnexpectedEof);
    }
    Ok(BlockHeader { magic: get_bytes4(d, pos), size: get_u32(d, pos + 4, en) })
}

/// The four-byte typed identifier at position `p`.  Its identifier
/// bytes are kept in file order; no byte order applies to them.
pub open spec fn spec_typed_id(d: Seq<u8>, p: int) -> Result<TypedId, DecodeError> {
    if !(0 <= p && p + 4 <= d.len()) {
        Err(DecodeError::UnexpectedEof)
    } else {
        Ok(TypedId { ty: d[p], id: [d[p + 1], d[p + 2], d[p + 3]] })
    }
}

pub fn decode_typed_id(d: &[u8], pos: usize) -> (r: Result<TypedId, DecodeError>)
    ensures
        decodes_to(r, spec_typed_id(d@, pos as int)),
{
    if !has_bytes(d, pos, 4) {
        return Err(DecodeError::UnexpectedEof);
    }
    Ok(TypedId { ty: get_u8(d, pos), id: [get_u8(d, pos + 1), get_u8(d, pos + 2), get_u8(d, pos + 3)] })
}

/// The eight-byte reference at position `p`: its envelope and its
/// offset, unresolved.
pub open spec fn spec_raw_reference(d: Seq<u8>, p: int, en: Endian) -> Result<
    RawReference,
    DecodeError,
> {
    if !(0 <= p && p + 8 <= d.len()) {
        Err(DecodeError::UnexpectedEof)
    } else {
        Ok(
            RawReference {
                layout: ReferenceLayout {
                    is_relative: d[p],
                    ty: d[p + 1],
                    padding: su16(d, p + 2, en),
                },
                offset: su32(d, p + 4, en),
            },
        )
    }
}

pub fn decode_raw_reference(d: &[u8], pos: usize, en: Endian) -> (r: Result<
    RawReference,
    DecodeError,
>)
    ensures
        decodes_to(r, spec_raw_reference(d@, pos as int, en)),
{
    if !has_bytes(d, pos, 8) {
        return Err(DecodeError::UnexpectedEof);
    }
    Ok(
        RawReference {
            layout: ReferenceLayout {
                is_relative: get_u8(d, pos),
                ty: get_u8(d, pos + 1),
                padding: get_u16(d, pos + 2, en),
            },
            offset: get_u32(d, pos + 4, en),
        },
    )
}

/// Where a reference points: a relative reference is measured from the
/// current origin, an absolute one from the file start.  An absolute
/// reference of 0 is the reserved null and is rejected at a required
/// site.
pub open spec fn spec_ref_target(r: RawReference, origin: int, site: RefSite) -> Result<
    int,
    DecodeError,
> {
    if r.layout.is_relative != 0 {
        Ok(origin + r.offset)
    } else if r.offset == 0 {
        Err(DecodeError::NullAbsoluteReference(site))
    } else {
        Ok(r.offset as int)
    }
}

/// Where an optional reference points: an absolute null yields `None`
/// instead of an error.
pub open spec fn spec_opt_ref_target(r: RawReference, origin: int) -> Option<int> {
    if r.layout.is_relative != 0 {
        Some(origin + r.offset)
    } else if r.offset == 0 {
        None
    } else {
        Some(r.offset as int)
    }
}

/// Resolves a required reference to a buffer position.  A target past
/// the end of the buffer is clamped to the buffer length; every decoder
/// fails with `UnexpectedEof` there, exactly as it would at the true
/// target.
pub fn ref_target(r: &RawReference, d_len: usize, origin: usize, site: RefSite) -> (res: Result<
    usize,
    DecodeError,
>)
    requires
        origin <= d_len,
    ensures
        match spec_ref_target(*r, origin as int, site) {
            Ok(t) => res is Ok && (res->Ok_0 == t || (t > d_len && res->Ok_0 == d_len)),
            Err(e) => res == Err::<usize, DecodeError>(e),
        },
{
    if r.layout.is_relative != 0 {
        let off = r.offset as usize;
        if off > d_len - origin {
            Ok(d_len)
        } else {
            Ok(origin + off)
        }
    } else if r.offset == 0 {
        Err(DecodeError::NullAbsoluteReference(site))
    } else {
        let off = r.offset as usize;
        if off > d_len {
            Ok(d_len)
        } else {
            Ok(off)
        }
    }
}

/// Resolves an optional reference to a buffer position, with the same
/// clamping as `ref_target`.
pub fn opt_ref_target(r: &RawReference, d_len: usize, origin: usize) -> (res: Option<usize>)
    requires
        origin <= d_len,
    ensures
        match spec_opt_ref_target(*r, origin as int) {
            Some(t) => res is Some && (res->0 == t || (t > d_len && res->0 == d_len)),
            None => res is None,
        },
{
    if r.layout.is_relative != 0 {
        let off = r.offset as usize;
        if off > d_len - origin {
            Some(d_len)
        } else {
            Some(origin + off)
        }
    } else if r.offset == 0 {
        None
    } else {
        let off = r.offset as usize;
        if off > d_len {
            Some(d_len)
        } else {
            Some(off)
        }
    }
}

/// A required reference read at `p` and resolved against `origin`:
/// the envelope and offset are read, then the target is computed under
/// the null policy of `spec_ref_target`.
pub open spec fn spec_req_ref(d: Seq<u8>, p: int, en: Endian, origin: int, site: RefSite) -> Result<
    int,
    DecodeError,
> {
    match spec_raw_reference(d, p, en) {
        Err(e) => Err(e),
        Ok(r) => spec_ref_target(r, origin, site),
    }
}

/// Reads a required reference and resolves it, clamping a target past
/// the buffer end to the buffer length as `ref_target` does.
pub fn req_ref_target(d: &[u8], pos: usize, en: Endian, origin: usize, site: RefSite) -> (r: Result<
    usize,
    DecodeError,
>)
    requires
        origin <= d@.len(),
    ensures
        match spec_req_ref(d@, pos as int, en, origin as int, site) {
            Ok(t) => r is Ok && (r->Ok_0 == t || (t > d@.len() && r->Ok_0 == d@.len())),
            Err(e) => r == Err::<usize, DecodeError>(e),
        },
{
    let raw = match decode_raw_reference(d, pos, en) {
        Ok(v) => v,
        Err(e) => {
            return Err(e);
        },
    };
    ref_target(&raw, d.len(), origin, site)
}

/// The `n` bytes at position `p`.
pub open spec fn spec_bytes(d: Seq<u8>, p: int, n: int) -> Result<Seq<u8>, DecodeError> {
    if !(0 <= p && 0 <= n && p + n <= d.len()) {
        Err(DecodeError::UnexpectedEof)
    } else {
        Ok(d.subrange(p, p + n))
    }
}

pub fn read_bytes(d: &[u8], pos: usize, n: usize) -> (r: Result<Vec<u8>, DecodeError>)
    ensures
        decodes_to(r, spec_bytes(d@, pos as int, n as int)),
{
    broadcast use crate::bytes::lemma_vec_u8_deep_view;

    if !has_bytes(d, pos, n) {
        return Err(DecodeError::UnexpectedEof);
    }
    let mut out: Vec<u8> = Vec::new();
    let mut i: usize = 0;
    while i < n
        invariant
            i <= n,
            pos + n <= d@.len(),
            d@.len() <= usize::MAX,
            out@ =~= d@.subrange(pos as int, pos as int + i as int),
        decreases n - i,
    {
        out.push(d[pos + i]);
        assert(out@ =~= d@.subrange(pos as int, pos as int + i as int + 1));
        i = i + 1;
    }
    Ok(out)
}

/// The block pointer at position `p` of the index together with the
/// raw block it points to.
pub open spec fn spec_generic_block_ptr(d: Seq<u8>, p: int, en: Endian) -> Result<
    BlockPtrView<GenericBlockView>,
    DecodeError,
> {
    if !(0 <= p && p + 8 <= d.len()) {
        Err(DecodeError::UnexpectedEof)
    } else {
        let off = su32(d, p, en);
        let ln = su32(d, p + 4, en);
        match spec_generic_block(d, off as int, en) {
            Err(e) => Err(e),
            Ok(blk) => Ok(BlockPtrView { offset: off, block: blk, len: ln }),
        }
    }
}

/// The raw block at position `q`: its header followed by exactly
/// `header.size` body bytes.
pub open spec fn spec_generic_block(d: Seq<u8>, q: int, en: Endian) -> Result<
    GenericBlockView,
    DecodeError,
> {
    match spec_block_header(d, q, en) {
        Err(e) => Err(e),
        Ok(h) => match spec_bytes(d, q + 8, h.size as int) {
            Err(e) => Err(e),
            Ok(body) => Ok(GenericBlockView { header: h, body }),
        },
    }
}

pub fn decode_generic_block(d: &[u8], pos: usize, en: Endian) -> (r: Result<
    GenericBlock,
    DecodeError,
>)
    ensures
        decodes_to(r, spec_generic_block(d@, pos as int, en)),
{
    let h = match decode_block_header(d, pos, en) {
        Ok(h) => h,
        Err(e) => {
            return Err(e);
        },
    };
    let size = h.size as usize;
    if !has_bytes(d, pos, 8) {
        return Err(DecodeError::UnexpectedEof);
    }
    let body = match read_bytes(d, pos + 8, size) {
        Ok(b) => b,
        Err(e) => {
            return Err(e);
        },
    };
    Ok(GenericBlock { header: h, body })
}

/// The `n` block pointers starting at position `p`, eight bytes apart.
pub open spec fn spec_generic_block_ptrs(d: Seq<u8>, p: int, en: Endian, n: int) -> Result<
    Seq<BlockPtrView<GenericBlockView>>,
    DecodeError,
>
    decreases n,
{
    if n <= 0 {
        Ok(Seq::empty())
    } else {
        match spec_generic_block_ptr(d, p, en) {
            Err(e) => Err(e),
            Ok(b) => match spec_generic_block_ptrs(d, p + 8, en, n - 1) {
                Err(e) => Err(e),
                Ok(rest) => Ok(seq![b] + rest),
            },
        }
    }
}

/// A whole file read without a schema: the header and `block_count`
/// raw blocks, for inspection.  No magic, version or size is judged.
pub open spec fn spec_generic_file(d: Seq<u8>) -> Result<GenericFileView, DecodeError> {
    match spec_file_header(d) {
        Err(e) => Err(e),
        Ok(h) => match spec_generic_block_ptrs(d, 16, h.endian, h.block_count as int) {
            Err(e) => Err(e),
            Ok(blocks) => Ok(GenericFileView { header: h, blocks }),
        },
    }
}

pub fn decode_generic_file(d: &[u8]) -> (r: Result<GenericFile, DecodeError>)
    ensures
        decodes_to(r, spec_generic_file(d@)),
{
    let h = match decode_file_header(d) {
        Ok(h) => h,
        Err(e) => {
            return Err(e);
        },
    };
    let en = h.endian;
    let n = h.block_count as usize;
    let mut blocks: Vec<BlockPtr<GenericBlock>> = Vec::new();
    let mut i: usize = 0;
    while i < n
        invariant
            i <= n,
            n <= 0xFFFF,
            spec_file_header(d@) == Ok::<FileHeader, DecodeError>(h),
            en == h.endian,
            n as int == h.block_count as int,
            blocks.deep_view().len() == i as int,
            spec_generic_block_ptrs(d@, 16, en, n as int) == match spec_generic_block_ptrs(
                d@,
                16 + 8 * i as int,
                en,
                n - i,
            ) {
                Ok(rest) => Ok::<_, DecodeError>(blocks.deep_view() + rest),
                Err(e) => Err::<Seq<BlockPtrView<GenericBlockView>>, _>(e),
            },
        decreases n - i,
    {
        let ghost old_blocks = blocks.deep_view();
        let b = match decode_generic_block_ptr_at(d, 16 + 8 * i, en) {
            Ok(b) => b,
            Err(e) => {
                proof {
                    assert(spec_generic_block_ptrs(d@, 16 + 8 * i as int, en, n - i)
                        == Err::<Seq<BlockPtrView<GenericBlockView>>, DecodeError>(e));
                }
                return Err(e);
            },
        };
        blocks.push(b);
        proof {
            assert(blocks.deep_view() =~= old_blocks.push(b.deep_view()));
            if spec_generic_block_ptrs(d@, 16 + 8 * i as int + 8, en, n - i - 1) is Ok {
                lemma_acc_push(
                    old_blocks,
                    b.deep_view(),
                    spec_generic_block_ptrs(d@, 16 + 8 * i as int + 8, en, n - i - 1)->Ok_0,
                );
            }
        }
        i = i + 1;
    }
    proof {
        assert(blocks.deep_view() + Seq::<BlockPtrView<GenericBlockView>>::empty()
            =~= blocks.deep_view());
    }
    Ok(GenericFile { header: h, blocks })
}

/// Concatenation algebra of the table loops: growing the finished
/// prefix by one element absorbs the head of the pending tail.
pub proof fn lemma_acc_push<T>(acc: Seq<T>, b: T, rest: Seq<T>)
    ensures
        acc + (seq![b] + rest) == acc.push(b) + rest,
{
    assert(acc + (seq![b] + rest) =~= acc.push(b) + rest);
}

fn decode_generic_block_ptr_at(d: &[u8], pos: usize, en: Endian) -> (r: Result<
    BlockPtr<GenericBlock>,
    DecodeError,
>)
    ensures
        decodes_to(r, spec_generic_block_ptr(d@, pos as int, en)),
{
    if !has_bytes(d, pos, 8) {
        return Err(DecodeError::UnexpectedEof);
    }
    let off = get_u32(d, pos, en);
    let ln = get_u32(d, pos + 4, en);
    let off_us = off as usize;
    let blk = if off_us > d.len() {
        assert(spec_generic_block(d@, off as int, en) == Err::<GenericBlockView, _>(
            DecodeError::UnexpectedEof,
        ));
        return Err(DecodeError::UnexpectedEof);
    } else {
        match decode_generic_block(d, off_us, en) {
            Ok(b) => b,
            Err(e) => {
                return Err(e);
            },
        }
    };
    Ok(BlockPtr { offset: off, block: blk, len: ln })
}

} // verus!
