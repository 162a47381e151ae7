//! Endian-aware primitive reads over a byte buffer: fixed-width
//! integers, null-terminated strings, and MSB-first bit access into a
//! key for the Patricia trie.

use vstd::prelude::*;

use crate::common::Endian;
use crate::error::DecodeError;

verus! {

/// The 16-bit integer held at position `p`, in the given byte order.
pub open spec fn su16(d: Seq<u8>, p: int, en: Endian) -> u16
    recommends
        0 <= p,
        p + 2 <= d.len(),
{
    match en {
        Endian::Big => ((d[p] as int) * 0x100 + (d[p + 1] as int)) as u16,
        Endian::Little => ((d[p + 1] as int) * 0x100 + (d[p] as int)) as u16,
    }
}

/// The 32-bit integer held at position `p`, in the given byte order.
pub open spec fn su32(d: Seq<u8>, p: int, en: Endian) -> u32
    recommends
        0 <= p,
        p + 4 <= d.len(),
{
    match en {
        Endian::Big => ((d[p] as int) * 0x1000000 + (d[p + 1] as int) * 0x10000 + (d[p + 2]
            as int) * 0x100 + (d[p + 3] as int)) as u32,
        Endian::Little => ((d[p + 3] as int) * 0x1000000 + (d[p + 2] as int) * 0x10000 + (d[p + 1]
            as int) * 0x100 + (d[p] as int)) as u32,
    }
}

/// True when `n` bytes are available at position `pos`.
pub fn has_bytes(d: &[u8], pos: usize, n: usize) -> (r: bool)
    ensures
        r == (pos + n <= d@.len()),
        d@.len() <= usize::MAX,
{
    let l = d.len();
    pos <= l && n <= l - pos
}

pub fn get_u8(d: &[u8], pos: usize) -> (r: u8)
    requires
        pos < d@.len(),
    ensures
        r == d@[pos as int],
{
    d[pos]
}

pub fn get_u16(d: &[u8], pos: usize, en: Endian) -> (r: u16)
    requires
        pos + 2 <= d@.len(),
    ensures
        r == su16(d@, pos as int, en),
{
    let b0 = d[pos];
    let b1 = d[pos + 1];
    match en {
        Endian::Big => (b0 as u16) * 0x100 + (b1 as u16),
        Endian::Little => (b1 as u16) * 0x100 + (b0 as u16),
    }
}

pub fn get_u32(d: &[u8], pos: usize, en: Endian) -> (r: u32)
    requires
        pos + 4 <= d@.len(),
    ensures
        r == su32(d@, pos as int, en),
{
    let b0 = d[pos];
    let b1 = d[pos + 1];
    let b2 = d[pos + 2];
    let b3 = d[pos + 3];
    match en {
        Endian::Big => (b0 as u32) * 0x1000000 + (b1 as u32) * 0x10000 + (b2 as u32) * 0x100 + (b3
            as u32),
        Endian::Little => (b3 as u32) * 0x1000000 + (b2 as u32) * 0x10000 + (b1 as u32) * 0x100 + (
        b0 as u32),
    }
}

/// The four bytes at position `p`, as a fixed array.
pub open spec fn sbytes4(d: Seq<u8>, p: int) -> [u8; 4]
    recommends
        0 <= p,
        p + 4 <= d.len(),
{
    [d[p], d[p + 1], d[p + 2], d[p + 3]]
}

pub fn get_bytes4(d: &[u8], pos: usize) -> (r: [u8; 4])
    requires
        pos + 4 <= d@.len(),
    ensures
        r == sbytes4(d@, pos as int),
{
    [d[pos], d[pos + 1], d[pos + 2], d[pos + 3]]
}

/// Two buffers hold the same 16-bit field at `p` with its bytes
/// swapped.
pub open spec fn swapped2(d: Seq<u8>, f: Seq<u8>, p: int) -> bool {
    f[p] == d[p + 1] && f[p + 1] == d[p]
}

/// Two buffers hold the same 32-bit field at `p` with its bytes
/// swapped.
pub open spec fn swapped4(d: Seq<u8>, f: Seq<u8>, p: int) -> bool {
    f[p] == d[p + 3] && f[p + 1] == d[p + 2] && f[p + 2] == d[p + 1] && f[p + 3] == d[p]
}

/// Byte-order symmetry of 16-bit reads: a field whose two bytes are
/// swapped reads the same value in the opposite byte order.  This is
/// the field-level heart of endianness independence: an archive whose
/// multi-byte fields are all stored swapped, under the opposite endian
/// mark, carries the same values everywhere.
pub proof fn lemma_su16_flip(d: Seq<u8>, p: int, f: Seq<u8>, q: int)
    requires
        0 <= p,
        p + 2 <= d.len(),
        0 <= q,
        q + 2 <= f.len(),
        f[q] == d[p + 1],
        f[q + 1] == d[p],
    ensures
        su16(f, q, Endian::Little) == su16(d, p, Endian::Big),
        su16(f, q, Endian::Big) == su16(d, p, Endian::Little),
{
}

/// Byte-order symmetry of 32-bit reads, as `lemma_su16_flip`.
pub proof fn lemma_su32_flip(d: Seq<u8>, p: int, f: Seq<u8>, q: int)
    requires
        0 <= p,
        p + 4 <= d.len(),
        0 <= q,
        q + 4 <= f.len(),
        f[q] == d[p + 3],
        f[q + 1] == d[p + 2],
        f[q + 2] == d[p + 1],
        f[q + 3] == d[p],
    ensures
        su32(f, q, Endian::Little) == su32(d, p, Endian::Big),
        su32(f, q, Endian::Big) == su32(d, p, Endian::Little),
{
}

/// A vector of bytes abstracts to the sequence of exactly those bytes.
pub broadcast proof fn lemma_vec_u8_deep_view(v: Vec<u8>)
    ensures
        #[trigger] v.deep_view() == v@,
{
    assert(v.deep_view() =~= v@);
}

/// The position of the first zero byte at or after `p`, or the buffer
/// length when no zero byte follows.
pub open spec fn nul_pos(d: Seq<u8>, p: int) -> int
    decreases d.len() - p,
{
    if !(0 <= p < d.len()) {
        d.len() as int
    } else if d[p] == 0 {
        p
    } else {
        nul_pos(d, p + 1)
    }
}

pub proof fn lemma_nul_pos_at(d: Seq<u8>, p: int, i: int)
    requires
        0 <= p <= i <= d.len(),
        forall|j: int| p <= j < i ==> d[j] != 0,
        i == d.len() || d[i] == 0,
    ensures
        nul_pos(d, p) == i,
    decreases i - p,
{
    if p < i {
        lemma_nul_pos_at(d, p + 1, i);
    }
}

/// The null-terminated string starting at `p`: the bytes up to the
/// first zero, which is consumed but not part of the value.  Fails
/// when no terminator lies inside the buffer.
pub open spec fn spec_nul_string(d: Seq<u8>, p: int) -> Result<Seq<u8>, DecodeError> {
    if nul_pos(d, p) == d.len() {
        Err(DecodeError::UnexpectedEof)
    } else {
        Ok(d.subrange(p, nul_pos(d, p)))
    }
}

pub fn read_nul_string(d: &[u8], pos: usize) -> (r: Result<Vec<u8>, DecodeError>)
    ensures
        crate::error::decodes_to(r, spec_nul_string(d@, pos as int)),
{
    broadcast use lemma_vec_u8_deep_view;

    let mut out: Vec<u8> = Vec::new();
    let mut i: usize = pos;
    loop
        invariant
            pos <= i,
            i <= d@.len() || i == pos,
            pos <= d@.len() ==> i <= d@.len(),
            pos <= d@.len() ==> out@ =~= d@.subrange(pos as int, i as int),
            forall|j: int| pos <= j < i ==> d@[j] != 0,
        ensures
            (i >= d@.len() || d@[i as int] == 0),
            pos <= i,
            pos <= d@.len() ==> i <= d@.len(),
            pos <= d@.len() ==> out@ =~= d@.subrange(pos as int, i as int),
            forall|j: int| pos <= j < i ==> d@[j] != 0,
        decreases d@.len() - i,
    {
        if i >= d.len() {
            break ;
        }
        let b = d[i];
        if b == 0 {
            break ;
        }
        out.push(b);
        assert(out@ =~= d@.subrange(pos as int, i as int + 1));
        i = i + 1;
    }
    if i >= d.len() {
        if pos > d.len() {
            assert(nul_pos(d@, pos as int) == d@.len());
        } else {
            proof {
                lemma_nul_pos_at(d@, pos as int, d@.len() as int);
            }
        }
        Err(DecodeError::UnexpectedEof)
    } else {
        proof {
            lemma_nul_pos_at(d@, pos as int, i as int);
        }
        Ok(out)
    }
}

/// Two buffers agree byte for byte on the `n` positions from `p`.
pub open spec fn same_bytes(d: Seq<u8>, f: Seq<u8>, p: int, n: int) -> bool {
    forall|j: int| p <= j < p + n ==> f[j] == d[j]
}

/// Two buffers hold the same null-terminated string at `p`: they agree
/// up to and including the terminator.
pub open spec fn string_flipped(d: Seq<u8>, f: Seq<u8>, p: int) -> bool {
    same_bytes(d, f, p, nul_pos(d, p) + 1 - p)
}

/// Bounds and characterization of `nul_pos`: it lies between `p` and
/// the buffer length, every byte before it is nonzero, and it points
/// at a zero byte whenever it lies inside the buffer.
pub proof fn lemma_nul_pos_props(d: Seq<u8>, p: int)
    requires
        0 <= p <= d.len(),
    ensures
        p <= nul_pos(d, p) <= d.len(),
        nul_pos(d, p) < d.len() ==> d[nul_pos(d, p)] == 0,
        forall|j: int| p <= j < nul_pos(d, p) ==> d[j] != 0,
    decreases d.len() - p,
{
    if p < d.len() && d[p] != 0 {
        lemma_nul_pos_props(d, p + 1);
    }
}

proof fn lemma_nul_pos_flip(d: Seq<u8>, f: Seq<u8>, p: int)
    requires
        f.len() == d.len(),
        0 <= p,
        string_flipped(d, f, p),
    ensures
        nul_pos(f, p) == nul_pos(d, p),
    decreases d.len() - p,
{
    if p < d.len() {
        lemma_nul_pos_props(d, p);
        assert(f[p] == d[p]);
        if d[p] != 0 {
            lemma_nul_pos_flip(d, f, p + 1);
        }
    }
}

/// A string region that two buffers share reads the same string in
/// either byte order: null-terminated strings carry no multi-byte
/// fields, so an endian flip leaves them untouched.
pub proof fn lemma_nul_string_flip(d: Seq<u8>, f: Seq<u8>, p: int)
    requires
        f.len() == d.len(),
        0 <= p,
        string_flipped(d, f, p),
    ensures
        spec_nul_string(f, p) == spec_nul_string(d, p),
{
    lemma_nul_pos_flip(d, f, p);
    if nul_pos(d, p) < d.len() {
        if p <= d.len() {
            lemma_nul_pos_props(d, p);
        }
        assert(f.subrange(p, nul_pos(f, p)) =~= d.subrange(p, nul_pos(d, p)));
        assert(nul_pos(f, p) != f.len());
        assert(spec_nul_string(f, p) =~~= spec_nul_string(d, p));
    } else {
        if p <= d.len() {
            lemma_nul_pos_props(d, p);
        }
        assert(nul_pos(d, p) == d.len());
    }
}

/// Bit `i` of a key, MSB-first within each byte: bit `8*a + b` is bit
/// `b` (0 = most significant) of byte `a`.
pub open spec fn key_bit(k: Seq<u8>, i: int) -> bool
    recommends
        0 <= i,
        i / 8 < k.len(),
{
    (k[i / 8] >> ((7 - (i % 8)) as u8)) & 1 == 1
}

pub fn get_key_bit(k: &[u8], i: usize) -> (r: bool)
    requires
        i / 8 < k@.len(),
    ensures
        r == key_bit(k@, i as int),
{
    let b = k[i / 8];
    (b >> ((7 - (i % 8)) as u8)) & 1 == 1
}

} // verus!
