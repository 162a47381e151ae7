//! The SYMB block: a table of null-terminated names and four Patricia
//! tries that resolve names to sound, player, group and bank records.

use vstd::prelude::*;

use crate::bytes::{get_u32, has_bytes, read_nul_string, spec_nul_string, su32};
use crate::common::{decode_block_header, spec_block_header, BlockHeader, Endian, Table};
use crate::error::{decodes_to, DecodeError};
use crate::patricia::{decode_patricia_tree, spec_patricia_tree, PatriciaTree, PatriciaTreeView};

verus! {

/// The decoded SYMB block: the string table that underlies every name
/// lookup, and one trie per record kind.
#[derive(Debug, Clone, PartialEq)]
pub struct SymbolBlock {
    pub header: BlockHeader,
    pub string_table: Table<Vec<u8>>,
    pub sound_tree: PatriciaTree,
    pub player_tree: PatriciaTree,
    pub group_tree: PatriciaTree,
    pub bank_tree: PatriciaTree,
}

/// Abstraction of a `SymbolBlock`.
pub struct SymbolBlockView {
    pub header: BlockHeader,
    pub string_table: Seq<Seq<u8>>,
    pub sound_tree: PatriciaTreeView,
    pub player_tree: PatriciaTreeView,
    pub group_tree: PatriciaTreeView,
    pub bank_tree: PatriciaTreeView,
}

impl DeepView for SymbolBlock {
    type V = SymbolBlockView;

    open spec fn deep_view(&self) -> SymbolBlockView {
        SymbolBlockView {
            header: self.header,
            string_table: self.string_table.deep_view(),
            sound_tree: self.sound_tree.deep_view(),
            player_tree: self.player_tree.deep_view(),
            group_tree: self.group_tree.deep_view(),
            bank_tree: self.bank_tree.deep_view(),
        }
    }
}

/// The name behind the plain 32-bit pointer at `p`: the pointer is
/// measured from `origin` and its target is a null-terminated string.
pub open spec fn spec_ref_string(d: Seq<u8>, p: int, en: Endian, origin: int) -> Result<
    Seq<u8>,
    DecodeError,
> {
    if !(0 <= p && p + 4 <= d.len()) {
        Err(DecodeError::UnexpectedEof)
    } else {
        spec_nul_string(d, origin + su32(d, p, en))
    }
}

/// The `n` referenced names whose pointer words start at `p`, four
/// bytes apart.
pub open spec fn spec_strings(d: Seq<u8>, p: int, en: Endian, origin: int, n: int) -> Result<
    Seq<Seq<u8>>,
    DecodeError,
>
    decreases n,
{
    if n <= 0 {
        Ok(Seq::empty())
    } else {
        match spec_ref_string(d, p, en, origin) {
            Err(e) => Err(e),
            Ok(v) => match spec_strings(d, p + 4, en, origin, n - 1) {
                Err(e) => Err(e),
                Ok(rest) => Ok(seq![v] + rest),
            },
        }
    }
}

/// The string table at `p`: a 32-bit count and that many referenced
/// names.
pub open spec fn spec_string_table(d: Seq<u8>, p: int, en: Endian, origin: int) -> Result<
    Seq<Seq<u8>>,
    DecodeError,
> {
    if !(0 <= p && p + 4 <= d.len()) {
        Err(DecodeError::UnexpectedEof)
    } else {
        spec_strings(d, p + 4, en, origin, su32(d, p, en) as int)
    }
}

pub fn decode_string_table(d: &[u8], pos: usize, en: Endian, origin: usize) -> (r: Result<
    Table<Vec<u8>>,
    DecodeError,
>)
    requires
        origin <= d@.len(),
    ensures
        decodes_to(r, spec_string_table(d@, pos as int, en, origin as int)),
{
    broadcast use crate::bytes::lemma_vec_u8_deep_view;

    if !has_bytes(d, pos, 4) {
        return Err(DecodeError::UnexpectedEof);
    }
    let count = get_u32(d, pos, en) as usize;
    let mut out: Vec<Vec<u8>> = Vec::new();
    let mut q: usize = pos + 4;
    let mut i: usize = 0;
    while i < count
        invariant
            i <= count,
            origin <= d@.len(),
            d@.len() <= usize::MAX,
            q == pos + 4 + 4 * i as int,
            pos + 4 <= d@.len(),
            count == su32(d@, pos as int, en),
            spec_strings(d@, pos as int + 4, en, origin as int, count as int) == match spec_strings(
                d@,
                q as int,
                en,
                origin as int,
                count - i,
            ) {
                Ok(rest) => Ok::<_, DecodeError>(out.deep_view() + rest),
                Err(e) => Err::<Seq<Seq<u8>>, _>(e),
            },
        decreases count - i,
    {
        let ghost old_out = out.deep_view();
        if !has_bytes(d, q, 4) {
            return Err(DecodeError::UnexpectedEof);
        }
        let w = get_u32(d, q, en) as usize;
        let t = if w > d.len() - origin {
            d.len()
        } else {
            origin + w
        };
        let v = match read_nul_string(d, t) {
            Ok(v) => v,
            Err(e) => {
                return Err(e);
            },
        };
        let ghost vv = v.deep_view();
        out.push(v);
        proof {
            assert(out.deep_view() =~= old_out.push(vv));
            if spec_strings(d@, q as int + 4, en, origin as int, count - i - 1) is Ok {
                crate::common::lemma_acc_push(
                    old_out,
                    vv,
                    spec_strings(d@, q as int + 4, en, origin as int, count - i - 1)->Ok_0,
                );
            }
        }
        q = q + 4;
        i = i + 1;
    }
    proof {
        assert(out.deep_view() + Seq::<Seq<u8>>::empty() =~= out.deep_view());
    }
    Ok(Table(out))
}

/// The SYMB block at position `off`: its eight-byte header, then five
/// plain 32-bit pointers at the body's start — string table, sound
/// trie, player trie, group trie, bank trie — each measured from the
/// body's origin `off + 8` and resolved in declaration order.
pub open spec fn spec_symbol_block(d: Seq<u8>, off: int, en: Endian) -> Result<
    SymbolBlockView,
    DecodeError,
> {
    match spec_block_header(d, off, en) {
        Err(e) => Err(e),
        Ok(h) => {
            let origin = off + 8;
            if origin + 20 > d.len() {
                Err(DecodeError::UnexpectedEof)
            } else {
                match spec_string_table(d, origin + su32(d, origin, en), en, origin) {
                    Err(e) => Err(e),
                    Ok(strs) => match spec_patricia_tree(d, origin + su32(d, origin + 4, en), en) {
                        Err(e) => Err(e),
                        Ok(sound_tree) => match spec_patricia_tree(
                            d,
                            origin + su32(d, origin + 8, en),
                            en,
                        ) {
                            Err(e) => Err(e),
                            Ok(player_tree) => match spec_patricia_tree(
                                d,
                                origin + su32(d, origin + 12, en),
                                en,
                            ) {
                                Err(e) => Err(e),
                                Ok(group_tree) => match spec_patricia_tree(
                                    d,
                                    origin + su32(d, origin + 16, en),
                                    en,
                                ) {
                                    Err(e) => Err(e),
                                    Ok(bank_tree) => Ok(
                                        SymbolBlockView {
                                            header: h,
                                            string_table: strs,
                                            sound_tree,
                                            player_tree,
                                            group_tree,
                                            bank_tree,
                                        },
                                    ),
                                },
                            },
                        },
                    },
                }
            }
        },
    }
}

/// Resolves one of the body-relative pointers of the SYMB block,
/// clamping a target past the buffer end to the buffer length; every
/// decoder fails with `UnexpectedEof` there, exactly as it would at
/// the true target.
fn symb_target(d_len: usize, origin: usize, w: u32) -> (t: usize)
    requires
        origin <= d_len,
    ensures
        t == origin + w || (origin + w > d_len && t == d_len),
{
    let wu = w as usize;
    if wu > d_len - origin {
        d_len
    } else {
        origin + wu
    }
}

pub fn decode_symbol_block(d: &[u8], off: usize, en: Endian) -> (r: Result<
    SymbolBlock,
    DecodeError,
>)
    ensures
        decodes_to(r, spec_symbol_block(d@, off as int, en)),
{
    let header = match decode_block_header(d, off, en) {
        Ok(v) => v,
        Err(e) => {
            return Err(e);
        },
    };
    if !has_bytes(d, off, 8) {
        return Err(DecodeError::UnexpectedEof);
    }
    let origin = off + 8;
    if !has_bytes(d, origin, 20) {
        return Err(DecodeError::UnexpectedEof);
    }
    let t0 = symb_target(d.len(), origin, get_u32(d, origin, en));
    let string_table = match decode_string_table(d, t0, en, origin) {
        Ok(v) => v,
        Err(e) => {
            return Err(e);
        },
    };
    let t1 = symb_target(d.len(), origin, get_u32(d, origin + 4, en));
    let sound_tree = match decode_patricia_tree(d, t1, en) {
        Ok(v) => v,
        Err(e) => {
            return Err(e);
        },
    };
    let t2 = symb_target(d.len(), origin, get_u32(d, origin + 8, en));
    let player_tree = match decode_patricia_tree(d, t2, en) {
        Ok(v) => v,
        Err(e) => {
            return Err(e);
        },
    };
    let t3 = symb_target(d.len(), origin, get_u32(d, origin + 12, en));
    let group_tree = match decode_patricia_tree(d, t3, en) {
        Ok(v) => v,
        Err(e) => {
            return Err(e);
        },
    };
    let t4 = symb_target(d.len(), origin, get_u32(d, origin + 16, en));
    let bank_tree = match decode_patricia_tree(d, t4, en) {
        Ok(v) => v,
        Err(e) => {
            return Err(e);
        },
    };
    Ok(SymbolBlock { header, string_table, sound_tree, player_tree, group_tree, bank_tree })
}

} // verus!
