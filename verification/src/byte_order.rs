//! Byte-order independence, proved level by level: two buffers that
//! hold the same archive — every multi-byte field byte-swapped, every
//! single byte and string equal — decode to the same structures under
//! opposite endian marks.  Each `*_flipped` predicate states, for one
//! layer of the format, what "the same archive in the other byte
//! order" means; the lemma beside it carries the equality one layer
//! up, to the whole-archive statement at the bottom of this file.

use vstd::prelude::*;

use crate::brsar::{file_magic, info_magic, rsar_magic, spec_brsar, spec_checked_block_ptr,
    symb_magic, BrsarView};
use crate::bytes::{lemma_nul_string_flip, lemma_su16_flip, lemma_su32_flip, same_bytes, sbytes4,
    string_flipped, su16, su32, swapped2, swapped4};
use crate::common::{spec_block_header, spec_file_header, spec_opt_ref_target, spec_raw_reference,
    spec_req_ref, Endian, FileHeader};
use crate::error::RefSite;
use crate::info::{spec_bank_info, spec_bank_infos, spec_bank_table, spec_file_info,
    spec_file_infos, spec_file_position, spec_file_position_table, spec_file_positions,
    spec_file_table, spec_group_entries, spec_group_entry, spec_group_entry_table,
    spec_group_info, spec_group_infos, spec_group_table, spec_info_block, spec_player_info,
    spec_player_infos, spec_player_table, spec_ref_bank_info, spec_ref_file_info_rec,
    spec_ref_file_position, spec_ref_group_entry_item, spec_ref_group_info_rec,
    spec_ref_player_info, spec_ref_sound_info, spec_seq_details, spec_sound_archive_info,
    spec_sound_details, spec_sound_info, spec_sound_infos, spec_sound_table, spec_stream_details,
    spec_wave_details};
use crate::patricia::tree_flipped;
use crate::symbol::{spec_ref_string, spec_string_table, spec_strings, spec_symbol_block};

verus! {

broadcast use vstd::array::group_array_axioms;

/// The two buffers hold the same block header at `p`: equal magic
/// bytes, byte-swapped size.
pub open spec fn block_header_flipped(d: Seq<u8>, f: Seq<u8>, p: int) -> bool {
    p + 8 <= d.len() ==> {
        &&& same_bytes(d, f, p, 4)
        &&& swapped4(d, f, p + 4)
    }
}

pub proof fn lemma_block_header_flip(d: Seq<u8>, f: Seq<u8>, p: int)
    requires
        f.len() == d.len(),
        0 <= p,
        block_header_flipped(d, f, p),
    ensures
        spec_block_header(f, p, Endian::Little) == spec_block_header(d, p, Endian::Big),
{
    if p + 8 <= d.len() {
        lemma_su32_flip(d, p + 4, f, p + 4);
        assert(sbytes4(f, p) =~= sbytes4(d, p));
    }
}

/// The two buffers hold the same typed identifier at `p`: all four
/// bytes equal, since no field of it is multi-byte.
pub proof fn lemma_typed_id_flip(d: Seq<u8>, f: Seq<u8>, p: int)
    requires
        f.len() == d.len(),
        0 <= p,
        p + 4 <= d.len() ==> same_bytes(d, f, p, 4),
    ensures
        crate::common::spec_typed_id(f, p) == crate::common::spec_typed_id(d, p),
{
    if p + 4 <= d.len() {
        assert(crate::common::spec_typed_id(f, p)->Ok_0.id =~= crate::common::spec_typed_id(
            d,
            p,
        )->Ok_0.id);
    }
}

/// The two buffers hold the same reference at `p`: equal envelope
/// bytes, byte-swapped padding and offset.
pub open spec fn reference_flipped(d: Seq<u8>, f: Seq<u8>, p: int) -> bool {
    p + 8 <= d.len() ==> {
        &&& f[p] == d[p]
        &&& f[p + 1] == d[p + 1]
        &&& swapped2(d, f, p + 2)
        &&& swapped4(d, f, p + 4)
    }
}

pub proof fn lemma_reference_flip(d: Seq<u8>, f: Seq<u8>, p: int)
    requires
        f.len() == d.len(),
        0 <= p,
        reference_flipped(d, f, p),
    ensures
        spec_raw_reference(f, p, Endian::Little) == spec_raw_reference(d, p, Endian::Big),
{
    if p + 8 <= d.len() {
        lemma_su16_flip(d, p + 2, f, p + 2);
        lemma_su32_flip(d, p + 4, f, p + 4);
    }
}

/// A flipped reference resolves to the same target, or fails the same
/// way, at any site.
pub proof fn lemma_req_ref_flip(d: Seq<u8>, f: Seq<u8>, p: int, origin: int, site: RefSite)
    requires
        f.len() == d.len(),
        0 <= p,
        reference_flipped(d, f, p),
    ensures
        spec_req_ref(f, p, Endian::Little, origin, site) == spec_req_ref(
            d,
            p,
            Endian::Big,
            origin,
            site,
        ),
{
    lemma_reference_flip(d, f, p);
}

/// The two buffers hold the same sequence details at `p`.
pub open spec fn seq_details_flipped(d: Seq<u8>, f: Seq<u8>, p: int) -> bool {
    p + 20 <= d.len() ==> {
        &&& swapped4(d, f, p)
        &&& swapped4(d, f, p + 4)
        &&& same_bytes(d, f, p + 8, 12)
    }
}

pub proof fn lemma_seq_details_flip(d: Seq<u8>, f: Seq<u8>, p: int)
    requires
        f.len() == d.len(),
        0 <= p,
        seq_details_flipped(d, f, p),
    ensures
        spec_seq_details(f, p, Endian::Little) == spec_seq_details(d, p, Endian::Big),
{
    if p + 20 <= d.len() {
        lemma_su32_flip(d, p, f, p);
        lemma_su32_flip(d, p + 4, f, p + 4);
        assert(spec_seq_details(f, p, Endian::Little)->Ok_0.unknown =~= spec_seq_details(
            d,
            p,
            Endian::Big,
        )->Ok_0.unknown);
        assert(spec_seq_details(f, p, Endian::Little)->Ok_0.unknown2 =~= spec_seq_details(
            d,
            p,
            Endian::Big,
        )->Ok_0.unknown2);
    }
}

/// The two buffers hold the same stream details at `p`.
pub open spec fn stream_details_flipped(d: Seq<u8>, f: Seq<u8>, p: int) -> bool {
    p + 12 <= d.len() ==> {
        &&& swapped4(d, f, p)
        &&& same_bytes(d, f, p + 4, 8)
    }
}

pub proof fn lemma_stream_details_flip(d: Seq<u8>, f: Seq<u8>, p: int)
    requires
        f.len() == d.len(),
        0 <= p,
        stream_details_flipped(d, f, p),
    ensures
        spec_stream_details(f, p, Endian::Little) == spec_stream_details(d, p, Endian::Big),
{
    if p + 12 <= d.len() {
        lemma_su32_flip(d, p, f, p);
        assert(spec_stream_details(f, p, Endian::Little)->Ok_0.unknown2 =~= spec_stream_details(
            d,
            p,
            Endian::Big,
        )->Ok_0.unknown2);
    }
}

/// The two buffers hold the same wave details at `p`.
pub open spec fn wave_details_flipped(d: Seq<u8>, f: Seq<u8>, p: int) -> bool {
    p + 16 <= d.len() ==> {
        &&& swapped4(d, f, p)
        &&& same_bytes(d, f, p + 4, 12)
    }
}

pub proof fn lemma_wave_details_flip(d: Seq<u8>, f: Seq<u8>, p: int)
    requires
        f.len() == d.len(),
        0 <= p,
        wave_details_flipped(d, f, p),
    ensures
        spec_wave_details(f, p, Endian::Little) == spec_wave_details(d, p, Endian::Big),
{
    if p + 16 <= d.len() {
        lemma_su32_flip(d, p, f, p);
        assert(spec_wave_details(f, p, Endian::Little)->Ok_0.unknown =~= spec_wave_details(
            d,
            p,
            Endian::Big,
        )->Ok_0.unknown);
        assert(spec_wave_details(f, p, Endian::Little)->Ok_0.unknown2 =~= spec_wave_details(
            d,
            p,
            Endian::Big,
        )->Ok_0.unknown2);
    }
}

/// The two buffers hold the same details reference at `refpos` for a
/// sound of type `tag`: the reference itself is flipped, and so is the
/// details record it resolves to under a known tag.
pub open spec fn sound_details_flipped(
    d: Seq<u8>,
    f: Seq<u8>,
    refpos: int,
    origin: int,
    tag: u8,
) -> bool {
    &&& reference_flipped(d, f, refpos)
    &&& match spec_req_ref(d, refpos, Endian::Big, origin, RefSite::SoundDetails) {
        Ok(t) => {
            &&& (tag == 1 ==> seq_details_flipped(d, f, t))
            &&& (tag == 2 ==> stream_details_flipped(d, f, t))
            &&& (tag == 3 ==> wave_details_flipped(d, f, t))
        },
        Err(_) => true,
    }
}

pub proof fn lemma_sound_details_flip(d: Seq<u8>, f: Seq<u8>, refpos: int, origin: int, tag: u8)
    requires
        f.len() == d.len(),
        0 <= refpos,
        sound_details_flipped(d, f, refpos, origin, tag),
    ensures
        spec_sound_details(f, refpos, Endian::Little, origin, tag) == spec_sound_details(
            d,
            refpos,
            Endian::Big,
            origin,
            tag,
        ),
{
    lemma_reference_flip(d, f, refpos);
    match spec_req_ref(d, refpos, Endian::Big, origin, RefSite::SoundDetails) {
        Ok(t) => {
            if 0 <= t {
                if tag == 1 {
                    lemma_seq_details_flip(d, f, t);
                } else if tag == 2 {
                    lemma_stream_details_flip(d, f, t);
                } else if tag == 3 {
                    lemma_wave_details_flip(d, f, t);
                }
            }
        },
        Err(_) => {},
    }
}

/// The two buffers hold the same sound record at `p`: every multi-byte
/// field byte-swapped, every single byte equal, and the details behind
/// the record's reference flipped as well.
pub open spec fn sound_info_flipped(d: Seq<u8>, f: Seq<u8>, p: int, origin: int) -> bool {
    p + 44 <= d.len() ==> {
        &&& swapped4(d, f, p)
        &&& swapped4(d, f, p + 4)
        &&& same_bytes(d, f, p + 8, 4)
        &&& reference_flipped(d, f, p + 12)
        &&& same_bytes(d, f, p + 20, 4)
        &&& sound_details_flipped(d, f, p + 24, origin, d[p + 22])
        &&& swapped4(d, f, p + 32)
        &&& swapped4(d, f, p + 36)
        &&& same_bytes(d, f, p + 40, 4)
    }
}

pub proof fn lemma_sound_info_flip(d: Seq<u8>, f: Seq<u8>, p: int, origin: int)
    requires
        f.len() == d.len(),
        0 <= p,
        sound_info_flipped(d, f, p, origin),
    ensures
        spec_sound_info(f, p, Endian::Little, origin) == spec_sound_info(d, p, Endian::Big, origin),
{
    if p + 44 <= d.len() {
        lemma_su32_flip(d, p, f, p);
        lemma_su32_flip(d, p + 4, f, p + 4);
        lemma_typed_id_flip(d, f, p + 8);
        lemma_reference_flip(d, f, p + 12);
        lemma_sound_details_flip(d, f, p + 24, origin, d[p + 22]);
        lemma_su32_flip(d, p + 32, f, p + 32);
        lemma_su32_flip(d, p + 36, f, p + 36);
        if spec_sound_info(d, p, Endian::Big, origin) is Ok {
            assert(spec_sound_info(f, p, Endian::Little, origin)->Ok_0.user =~= spec_sound_info(
                d,
                p,
                Endian::Big,
                origin,
            )->Ok_0.user);
        }
    }
}

/// The two buffers hold the same bank record at `p`.
pub open spec fn bank_info_flipped(d: Seq<u8>, f: Seq<u8>, p: int) -> bool {
    p + 12 <= d.len() ==> {
        &&& same_bytes(d, f, p, 8)
        &&& swapped4(d, f, p + 8)
    }
}

pub proof fn lemma_bank_info_flip(d: Seq<u8>, f: Seq<u8>, p: int)
    requires
        f.len() == d.len(),
        0 <= p,
        bank_info_flipped(d, f, p),
    ensures
        spec_bank_info(f, p, Endian::Little) == spec_bank_info(d, p, Endian::Big),
{
    if p + 12 <= d.len() {
        lemma_typed_id_flip(d, f, p);
        lemma_typed_id_flip(d, f, p + 4);
        lemma_su32_flip(d, p + 8, f, p + 8);
    }
}

/// The two buffers hold the same player record at `p`.
pub open spec fn player_info_flipped(d: Seq<u8>, f: Seq<u8>, p: int) -> bool {
    p + 16 <= d.len() ==> {
        &&& same_bytes(d, f, p, 8)
        &&& swapped4(d, f, p + 8)
        &&& swapped4(d, f, p + 12)
    }
}

pub proof fn lemma_player_info_flip(d: Seq<u8>, f: Seq<u8>, p: int)
    requires
        f.len() == d.len(),
        0 <= p,
        player_info_flipped(d, f, p),
    ensures
        spec_player_info(f, p, Endian::Little) == spec_player_info(d, p, Endian::Big),
{
    if p + 16 <= d.len() {
        lemma_typed_id_flip(d, f, p);
        lemma_su32_flip(d, p + 8, f, p + 8);
        lemma_su32_flip(d, p + 12, f, p + 12);
        assert(spec_player_info(f, p, Endian::Little)->Ok_0.padding =~= spec_player_info(
            d,
            p,
            Endian::Big,
        )->Ok_0.padding);
    }
}

/// The two buffers hold the same file position at `p`.
pub open spec fn file_position_flipped(d: Seq<u8>, f: Seq<u8>, p: int) -> bool {
    p + 8 <= d.len() ==> {
        &&& swapped4(d, f, p)
        &&& swapped4(d, f, p + 4)
    }
}

pub proof fn lemma_file_position_flip(d: Seq<u8>, f: Seq<u8>, p: int)
    requires
        f.len() == d.len(),
        0 <= p,
        file_position_flipped(d, f, p),
    ensures
        spec_file_position(f, p, Endian::Little) == spec_file_position(d, p, Endian::Big),
{
    if p + 8 <= d.len() {
        lemma_su32_flip(d, p, f, p);
        lemma_su32_flip(d, p + 4, f, p + 4);
    }
}

/// The two buffers hold the same group entry at `p`.
pub open spec fn group_entry_flipped(d: Seq<u8>, f: Seq<u8>, p: int) -> bool {
    p + 24 <= d.len() ==> {
        &&& same_bytes(d, f, p, 4)
        &&& swapped4(d, f, p + 4)
        &&& swapped4(d, f, p + 8)
        &&& swapped4(d, f, p + 12)
        &&& swapped4(d, f, p + 16)
        &&& swapped4(d, f, p + 20)
    }
}

pub proof fn lemma_group_entry_flip(d: Seq<u8>, f: Seq<u8>, p: int)
    requires
        f.len() == d.len(),
        0 <= p,
        group_entry_flipped(d, f, p),
    ensures
        spec_group_entry(f, p, Endian::Little) == spec_group_entry(d, p, Endian::Big),
{
    if p + 24 <= d.len() {
        lemma_typed_id_flip(d, f, p);
        lemma_su32_flip(d, p + 4, f, p + 4);
        lemma_su32_flip(d, p + 8, f, p + 8);
        lemma_su32_flip(d, p + 12, f, p + 12);
        lemma_su32_flip(d, p + 16, f, p + 16);
        lemma_su32_flip(d, p + 20, f, p + 20);
    }
}

/// The two buffers hold the same archive-wide limits record at `p`.
pub open spec fn sound_archive_info_flipped(d: Seq<u8>, f: Seq<u8>, p: int) -> bool {
    p + 20 <= d.len() ==> {
        &&& swapped2(d, f, p)
        &&& swapped2(d, f, p + 2)
        &&& swapped2(d, f, p + 4)
        &&& swapped2(d, f, p + 6)
        &&& swapped2(d, f, p + 8)
        &&& swapped2(d, f, p + 10)
        &&& swapped2(d, f, p + 12)
        &&& swapped2(d, f, p + 14)
        &&& swapped4(d, f, p + 16)
    }
}

pub proof fn lemma_sound_archive_info_flip(d: Seq<u8>, f: Seq<u8>, p: int)
    requires
        f.len() == d.len(),
        0 <= p,
        sound_archive_info_flipped(d, f, p),
    ensures
        spec_sound_archive_info(f, p, Endian::Little) == spec_sound_archive_info(
            d,
            p,
            Endian::Big,
        ),
{
    if p + 20 <= d.len() {
        lemma_su16_flip(d, p, f, p);
        lemma_su16_flip(d, p + 2, f, p + 2);
        lemma_su16_flip(d, p + 4, f, p + 4);
        lemma_su16_flip(d, p + 6, f, p + 6);
        lemma_su16_flip(d, p + 8, f, p + 8);
        lemma_su16_flip(d, p + 10, f, p + 10);
        lemma_su16_flip(d, p + 12, f, p + 12);
        lemma_su16_flip(d, p + 14, f, p + 14);
        lemma_su32_flip(d, p + 16, f, p + 16);
    }
}


/// The reference at `q` and the file position behind it are flipped.
pub open spec fn position_elem_flipped(d: Seq<u8>, f: Seq<u8>, q: int, origin: int) -> bool {
    &&& reference_flipped(d, f, q)
    &&& match spec_req_ref(d, q, Endian::Big, origin, RefSite::FilePositionEntry) {
        Ok(t) => file_position_flipped(d, f, t),
        Err(_) => true,
    }
}

/// The `i`-th reference slot after `base` and its file position are flipped.
pub open spec fn position_elem_flipped_at(d: Seq<u8>, f: Seq<u8>, base: int, origin: int, i: int) -> bool {
    position_elem_flipped(d, f, base + 8 * i, origin)
}

proof fn lemma_position_elem_flip(d: Seq<u8>, f: Seq<u8>, q: int, origin: int)
    requires
        f.len() == d.len(),
        0 <= q,
        0 <= origin,
        position_elem_flipped(d, f, q, origin),
    ensures
        spec_ref_file_position(f, q, Endian::Little, origin) == spec_ref_file_position(d, q, Endian::Big, origin),
{
    lemma_req_ref_flip(d, f, q, origin, RefSite::FilePositionEntry);
    match spec_req_ref(d, q, Endian::Big, origin, RefSite::FilePositionEntry) {
        Ok(t) => {
            lemma_file_position_flip(d, f, t);
        },
        Err(_) => {},
    }
}

proof fn lemma_position_seq_flip(d: Seq<u8>, f: Seq<u8>, p: int, origin: int, n: int)
    requires
        f.len() == d.len(),
        0 <= p,
        0 <= origin,
        forall|i: int| 0 <= i < n ==> #[trigger] position_elem_flipped_at(d, f, p, origin, i),
    ensures
        spec_file_positions(f, p, Endian::Little, origin, n) == spec_file_positions(d, p, Endian::Big, origin, n),
    decreases n,
{
    if n > 0 {
        assert(position_elem_flipped_at(d, f, p, origin, 0));
        lemma_position_elem_flip(d, f, p, origin);
        assert forall|i: int| 0 <= i < n - 1 implies #[trigger] position_elem_flipped_at(
            d,
            f,
            p + 8,
            origin,
            i,
        ) by {
            assert(position_elem_flipped_at(d, f, p, origin, i + 1));
        }
        lemma_position_seq_flip(d, f, p + 8, origin, n - 1);
    }
}

/// The two buffers hold the same file position table at `p`: a byte-swapped
/// count and flipped referenced records.
pub open spec fn position_table_flipped(d: Seq<u8>, f: Seq<u8>, p: int, origin: int) -> bool {
    p + 4 <= d.len() ==> {
        &&& swapped4(d, f, p)
        &&& forall|i: int|
            0 <= i < su32(d, p, Endian::Big) ==> #[trigger] position_elem_flipped_at(
                d,
                f,
                p + 4,
                origin,
                i,
            )
    }
}

pub proof fn lemma_position_table_flip(d: Seq<u8>, f: Seq<u8>, p: int, origin: int)
    requires
        f.len() == d.len(),
        0 <= p,
        0 <= origin,
        position_table_flipped(d, f, p, origin),
    ensures
        spec_file_position_table(f, p, Endian::Little, origin) == spec_file_position_table(d, p, Endian::Big, origin),
{
    if p + 4 <= d.len() {
        lemma_su32_flip(d, p, f, p);
        lemma_position_seq_flip(d, f, p + 4, origin, su32(d, p, Endian::Big) as int);
    }
}


/// The reference at `q` and the group entry behind it are flipped.
pub open spec fn entry_elem_flipped(d: Seq<u8>, f: Seq<u8>, q: int, origin: int) -> bool {
    &&& reference_flipped(d, f, q)
    &&& match spec_req_ref(d, q, Endian::Big, origin, RefSite::GroupEntryItem) {
        Ok(t) => group_entry_flipped(d, f, t),
        Err(_) => true,
    }
}

/// The `i`-th reference slot after `base` and its group entry are flipped.
pub open spec fn entry_elem_flipped_at(d: Seq<u8>, f: Seq<u8>, base: int, origin: int, i: int) -> bool {
    entry_elem_flipped(d, f, base + 8 * i, origin)
}

proof fn lemma_entry_elem_flip(d: Seq<u8>, f: Seq<u8>, q: int, origin: int)
    requires
        f.len() == d.len(),
        0 <= q,
        0 <= origin,
        entry_elem_flipped(d, f, q, origin),
    ensures
        spec_ref_group_entry_item(f, q, Endian::Little, origin) == spec_ref_group_entry_item(d, q, Endian::Big, origin),
{
    lemma_req_ref_flip(d, f, q, origin, RefSite::GroupEntryItem);
    match spec_req_ref(d, q, Endian::Big, origin, RefSite::GroupEntryItem) {
        Ok(t) => {
            lemma_group_entry_flip(d, f, t);
        },
        Err(_) => {},
    }
}

proof fn lemma_entry_seq_flip(d: Seq<u8>, f: Seq<u8>, p: int, origin: int, n: int)
    requires
        f.len() == d.len(),
        0 <= p,
        0 <= origin,
        forall|i: int| 0 <= i < n ==> #[trigger] entry_elem_flipped_at(d, f, p, origin, i),
    ensures
        spec_group_entries(f, p, Endian::Little, origin, n) == spec_group_entries(d, p, Endian::Big, origin, n),
    decreases n,
{
    if n > 0 {
        assert(entry_elem_flipped_at(d, f, p, origin, 0));
        lemma_entry_elem_flip(d, f, p, origin);
        assert forall|i: int| 0 <= i < n - 1 implies #[trigger] entry_elem_flipped_at(
            d,
            f,
            p + 8,
            origin,
            i,
        ) by {
            assert(entry_elem_flipped_at(d, f, p, origin, i + 1));
        }
        lemma_entry_seq_flip(d, f, p + 8, origin, n - 1);
    }
}

/// The two buffers hold the same group entry table at `p`: a byte-swapped
/// count and flipped referenced records.
pub open spec fn entry_table_flipped(d: Seq<u8>, f: Seq<u8>, p: int, origin: int) -> bool {
    p + 4 <= d.len() ==> {
        &&& swapped4(d, f, p)
        &&& forall|i: int|
            0 <= i < su32(d, p, Endian::Big) ==> #[trigger] entry_elem_flipped_at(
                d,
                f,
                p + 4,
                origin,
                i,
            )
    }
}

pub proof fn lemma_entry_table_flip(d: Seq<u8>, f: Seq<u8>, p: int, origin: int)
    requires
        f.len() == d.len(),
        0 <= p,
        0 <= origin,
        entry_table_flipped(d, f, p, origin),
    ensures
        spec_group_entry_table(f, p, Endian::Little, origin) == spec_group_entry_table(d, p, Endian::Big, origin),
{
    if p + 4 <= d.len() {
        lemma_su32_flip(d, p, f, p);
        lemma_entry_seq_flip(d, f, p + 4, origin, su32(d, p, Endian::Big) as int);
    }
}


/// The reference at `q` and the bank record behind it are flipped.
pub open spec fn bank_elem_flipped(d: Seq<u8>, f: Seq<u8>, q: int, origin: int) -> bool {
    &&& reference_flipped(d, f, q)
    &&& match spec_req_ref(d, q, Endian::Big, origin, RefSite::BankEntry) {
        Ok(t) => bank_info_flipped(d, f, t),
        Err(_) => true,
    }
}

/// The `i`-th reference slot after `base` and its bank record are flipped.
pub open spec fn bank_elem_flipped_at(d: Seq<u8>, f: Seq<u8>, base: int, origin: int, i: int) -> bool {
    bank_elem_flipped(d, f, base + 8 * i, origin)
}

proof fn lemma_bank_elem_flip(d: Seq<u8>, f: Seq<u8>, q: int, origin: int)
    requires
        f.len() == d.len(),
        0 <= q,
        0 <= origin,
        bank_elem_flipped(d, f, q, origin),
    ensures
        spec_ref_bank_info(f, q, Endian::Little, origin) == spec_ref_bank_info(d, q, Endian::Big, origin),
{
    lemma_req_ref_flip(d, f, q, origin, RefSite::BankEntry);
    match spec_req_ref(d, q, Endian::Big, origin, RefSite::BankEntry) {
        Ok(t) => {
            lemma_bank_info_flip(d, f, t);
        },
        Err(_) => {},
    }
}

proof fn lemma_bank_seq_flip(d: Seq<u8>, f: Seq<u8>, p: int, origin: int, n: int)
    requires
        f.len() == d.len(),
        0 <= p,
        0 <= origin,
        forall|i: int| 0 <= i < n ==> #[trigger] bank_elem_flipped_at(d, f, p, origin, i),
    ensures
        spec_bank_infos(f, p, Endian::Little, origin, n) == spec_bank_infos(d, p, Endian::Big, origin, n),
    decreases n,
{
    if n > 0 {
        assert(bank_elem_flipped_at(d, f, p, origin, 0));
        lemma_bank_elem_flip(d, f, p, origin);
        assert forall|i: int| 0 <= i < n - 1 implies #[trigger] bank_elem_flipped_at(
            d,
            f,
            p + 8,
            origin,
            i,
        ) by {
            assert(bank_elem_flipped_at(d, f, p, origin, i + 1));
        }
        lemma_bank_seq_flip(d, f, p + 8, origin, n - 1);
    }
}

/// The two buffers hold the same bank record table at `p`: a byte-swapped
/// count and flipped referenced records.
pub open spec fn bank_table_flipped(d: Seq<u8>, f: Seq<u8>, p: int, origin: int) -> bool {
    p + 4 <= d.len() ==> {
        &&& swapped4(d, f, p)
        &&& forall|i: int|
            0 <= i < su32(d, p, Endian::Big) ==> #[trigger] bank_elem_flipped_at(
                d,
                f,
                p + 4,
                origin,
                i,
            )
    }
}

pub proof fn lemma_bank_table_flip(d: Seq<u8>, f: Seq<u8>, p: int, origin: int)
    requires
        f.len() == d.len(),
        0 <= p,
        0 <= origin,
        bank_table_flipped(d, f, p, origin),
    ensures
        spec_bank_table(f, p, Endian::Little, origin) == spec_bank_table(d, p, Endian::Big, origin),
{
    if p + 4 <= d.len() {
        lemma_su32_flip(d, p, f, p);
        lemma_bank_seq_flip(d, f, p + 4, origin, su32(d, p, Endian::Big) as int);
    }
}


/// The reference at `q` and the player record behind it are flipped.
pub open spec fn player_elem_flipped(d: Seq<u8>, f: Seq<u8>, q: int, origin: int) -> bool {
    &&& reference_flipped(d, f, q)
    &&& match spec_req_ref(d, q, Endian::Big, origin, RefSite::PlayerEntry) {
        Ok(t) => player_info_flipped(d, f, t),
        Err(_) => true,
    }
}

/// The `i`-th reference slot after `base` and its player record are flipped.
pub open spec fn player_elem_flipped_at(d: Seq<u8>, f: Seq<u8>, base: int, origin: int, i: int) -> bool {
    player_elem_flipped(d, f, base + 8 * i, origin)
}

proof fn lemma_player_elem_flip(d: Seq<u8>, f: Seq<u8>, q: int, origin: int)
    requires
        f.len() == d.len(),
        0 <= q,
        0 <= origin,
        player_elem_flipped(d, f, q, origin),
    ensures
        spec_ref_player_info(f, q, Endian::Little, origin) == spec_ref_player_info(d, q, Endian::Big, origin),
{
    lemma_req_ref_flip(d, f, q, origin, RefSite::PlayerEntry);
    match spec_req_ref(d, q, Endian::Big, origin, RefSite::PlayerEntry) {
        Ok(t) => {
            lemma_player_info_flip(d, f, t);
        },
        Err(_) => {},
    }
}

proof fn lemma_player_seq_flip(d: Seq<u8>, f: Seq<u8>, p: int, origin: int, n: int)
    requires
        f.len() == d.len(),
        0 <= p,
        0 <= origin,
        forall|i: int| 0 <= i < n ==> #[trigger] player_elem_flipped_at(d, f, p, origin, i),
    ensures
        spec_player_infos(f, p, Endian::Little, origin, n) == spec_player_infos(d, p, Endian::Big, origin, n),
    decreases n,
{
    if n > 0 {
        assert(player_elem_flipped_at(d, f, p, origin, 0));
        lemma_player_elem_flip(d, f, p, origin);
        assert forall|i: int| 0 <= i < n - 1 implies #[trigger] player_elem_flipped_at(
            d,
            f,
            p + 8,
            origin,
            i,
        ) by {
            assert(player_elem_flipped_at(d, f, p, origin, i + 1));
        }
        lemma_player_seq_flip(d, f, p + 8, origin, n - 1);
    }
}

/// The two buffers hold the same player record table at `p`: a byte-swapped
/// count and flipped referenced records.
pub open spec fn player_table_flipped(d: Seq<u8>, f: Seq<u8>, p: int, origin: int) -> bool {
    p + 4 <= d.len() ==> {
        &&& swapped4(d, f, p)
        &&& forall|i: int|
            0 <= i < su32(d, p, Endian::Big) ==> #[trigger] player_elem_flipped_at(
                d,
                f,
                p + 4,
                origin,
                i,
            )
    }
}

pub proof fn lemma_player_table_flip(d: Seq<u8>, f: Seq<u8>, p: int, origin: int)
    requires
        f.len() == d.len(),
        0 <= p,
        0 <= origin,
        player_table_flipped(d, f, p, origin),
    ensures
        spec_player_table(f, p, Endian::Little, origin) == spec_player_table(d, p, Endian::Big, origin),
{
    if p + 4 <= d.len() {
        lemma_su32_flip(d, p, f, p);
        lemma_player_seq_flip(d, f, p + 4, origin, su32(d, p, Endian::Big) as int);
    }
}


/// The reference at `q` and the sound record behind it are flipped.
pub open spec fn sound_elem_flipped(d: Seq<u8>, f: Seq<u8>, q: int, origin: int) -> bool {
    &&& reference_flipped(d, f, q)
    &&& match spec_req_ref(d, q, Endian::Big, origin, RefSite::SoundEntry) {
        Ok(t) => sound_info_flipped(d, f, t, origin),
        Err(_) => true,
    }
}

/// The `i`-th reference slot after `base` and its sound record are flipped.
pub open spec fn sound_elem_flipped_at(d: Seq<u8>, f: Seq<u8>, base: int, origin: int, i: int) -> bool {
    sound_elem_flipped(d, f, base + 8 * i, origin)
}

proof fn lemma_sound_elem_flip(d: Seq<u8>, f: Seq<u8>, q: int, origin: int)
    requires
        f.len() == d.len(),
        0 <= q,
        0 <= origin,
        sound_elem_flipped(d, f, q, origin),
    ensures
        spec_ref_sound_info(f, q, Endian::Little, origin) == spec_ref_sound_info(d, q, Endian::Big, origin),
{
    lemma_req_ref_flip(d, f, q, origin, RefSite::SoundEntry);
    match spec_req_ref(d, q, Endian::Big, origin, RefSite::SoundEntry) {
        Ok(t) => {
            lemma_sound_info_flip(d, f, t, origin);
        },
        Err(_) => {},
    }
}

proof fn lemma_sound_seq_flip(d: Seq<u8>, f: Seq<u8>, p: int, origin: int, n: int)
    requires
        f.len() == d.len(),
        0 <= p,
        0 <= origin,
        forall|i: int| 0 <= i < n ==> #[trigger] sound_elem_flipped_at(d, f, p, origin, i),
    ensures
        spec_sound_infos(f, p, Endian::Little, origin, n) == spec_sound_infos(d, p, Endian::Big, origin, n),
    decreases n,
{
    if n > 0 {
        assert(sound_elem_flipped_at(d, f, p, origin, 0));
        lemma_sound_elem_flip(d, f, p, origin);
        assert forall|i: int| 0 <= i < n - 1 implies #[trigger] sound_elem_flipped_at(
            d,
            f,
            p + 8,
            origin,
            i,
        ) by {
            assert(sound_elem_flipped_at(d, f, p, origin, i + 1));
        }
        lemma_sound_seq_flip(d, f, p + 8, origin, n - 1);
    }
}

/// The two buffers hold the same sound record table at `p`: a byte-swapped
/// count and flipped referenced records.
pub open spec fn sound_table_flipped(d: Seq<u8>, f: Seq<u8>, p: int, origin: int) -> bool {
    p + 4 <= d.len() ==> {
        &&& swapped4(d, f, p)
        &&& forall|i: int|
            0 <= i < su32(d, p, Endian::Big) ==> #[trigger] sound_elem_flipped_at(
                d,
                f,
                p + 4,
                origin,
                i,
            )
    }
}

pub proof fn lemma_sound_table_flip(d: Seq<u8>, f: Seq<u8>, p: int, origin: int)
    requires
        f.len() == d.len(),
        0 <= p,
        0 <= origin,
        sound_table_flipped(d, f, p, origin),
    ensures
        spec_sound_table(f, p, Endian::Little, origin) == spec_sound_table(d, p, Endian::Big, origin),
{
    if p + 4 <= d.len() {
        lemma_su32_flip(d, p, f, p);
        lemma_sound_seq_flip(d, f, p + 4, origin, su32(d, p, Endian::Big) as int);
    }
}

/// The optional string reference at `p` is flipped: the reference
/// itself, and the name it resolves to when it is not null.
pub open spec fn opt_string_ref_flipped(d: Seq<u8>, f: Seq<u8>, p: int, origin: int) -> bool {
    &&& reference_flipped(d, f, p)
    &&& (p + 8 <= d.len() ==> match spec_opt_ref_target(
        spec_raw_reference(d, p, Endian::Big)->Ok_0,
        origin,
    ) {
        Some(t) => string_flipped(d, f, t),
        None => true,
    })
}

/// The two buffers hold the same file record at `p`, its optional
/// external name, and its position table.
pub open spec fn file_info_flipped(d: Seq<u8>, f: Seq<u8>, p: int, origin: int) -> bool {
    p + 28 <= d.len() ==> {
        &&& swapped4(d, f, p)
        &&& swapped4(d, f, p + 4)
        &&& swapped4(d, f, p + 8)
        &&& opt_string_ref_flipped(d, f, p + 12, origin)
        &&& reference_flipped(d, f, p + 20)
        &&& match spec_req_ref(d, p + 20, Endian::Big, origin, RefSite::FilePositionTable) {
            Ok(t) => position_table_flipped(d, f, t, origin),
            Err(_) => true,
        }
    }
}

pub proof fn lemma_file_info_flip(d: Seq<u8>, f: Seq<u8>, p: int, origin: int)
    requires
        f.len() == d.len(),
        0 <= p,
        0 <= origin,
        file_info_flipped(d, f, p, origin),
    ensures
        spec_file_info(f, p, Endian::Little, origin) == spec_file_info(d, p, Endian::Big, origin),
{
    if p + 28 <= d.len() {
        lemma_su32_flip(d, p, f, p);
        lemma_su32_flip(d, p + 4, f, p + 4);
        lemma_su32_flip(d, p + 8, f, p + 8);
        lemma_reference_flip(d, f, p + 12);
        match spec_opt_ref_target(spec_raw_reference(d, p + 12, Endian::Big)->Ok_0, origin) {
            Some(t) => {
                lemma_nul_string_flip(d, f, t);
            },
            None => {},
        }
        lemma_req_ref_flip(d, f, p + 20, origin, RefSite::FilePositionTable);
        match spec_req_ref(d, p + 20, Endian::Big, origin, RefSite::FilePositionTable) {
            Ok(t) => {
                lemma_position_table_flip(d, f, t, origin);
            },
            Err(_) => {},
        }
    }
}

/// The two buffers hold the same group record at `p`, its optional
/// external name, and its entry table.
pub open spec fn group_info_flipped(d: Seq<u8>, f: Seq<u8>, p: int, origin: int) -> bool {
    p + 40 <= d.len() ==> {
        &&& same_bytes(d, f, p, 4)
        &&& swapped4(d, f, p + 4)
        &&& opt_string_ref_flipped(d, f, p + 8, origin)
        &&& swapped4(d, f, p + 16)
        &&& swapped4(d, f, p + 20)
        &&& swapped4(d, f, p + 24)
        &&& swapped4(d, f, p + 28)
        &&& reference_flipped(d, f, p + 32)
        &&& match spec_req_ref(d, p + 32, Endian::Big, origin, RefSite::GroupEntryTable) {
            Ok(t) => entry_table_flipped(d, f, t, origin),
            Err(_) => true,
        }
    }
}

pub proof fn lemma_group_info_flip(d: Seq<u8>, f: Seq<u8>, p: int, origin: int)
    requires
        f.len() == d.len(),
        0 <= p,
        0 <= origin,
        group_info_flipped(d, f, p, origin),
    ensures
        spec_group_info(f, p, Endian::Little, origin) == spec_group_info(d, p, Endian::Big, origin),
{
    if p + 40 <= d.len() {
        lemma_typed_id_flip(d, f, p);
        lemma_su32_flip(d, p + 4, f, p + 4);
        lemma_reference_flip(d, f, p + 8);
        match spec_opt_ref_target(spec_raw_reference(d, p + 8, Endian::Big)->Ok_0, origin) {
            Some(t) => {
                lemma_nul_string_flip(d, f, t);
            },
            None => {},
        }
        lemma_su32_flip(d, p + 16, f, p + 16);
        lemma_su32_flip(d, p + 20, f, p + 20);
        lemma_su32_flip(d, p + 24, f, p + 24);
        lemma_su32_flip(d, p + 28, f, p + 28);
        lemma_req_ref_flip(d, f, p + 32, origin, RefSite::GroupEntryTable);
        match spec_req_ref(d, p + 32, Endian::Big, origin, RefSite::GroupEntryTable) {
            Ok(t) => {
                lemma_entry_table_flip(d, f, t, origin);
            },
            Err(_) => {},
        }
    }
}


/// The reference at `q` and the file record behind it are flipped.
pub open spec fn file_elem_flipped(d: Seq<u8>, f: Seq<u8>, q: int, origin: int) -> bool {
    &&& reference_flipped(d, f, q)
    &&& match spec_req_ref(d, q, Endian::Big, origin, RefSite::FileEntry) {
        Ok(t) => file_info_flipped(d, f, t, origin),
        Err(_) => true,
    }
}

/// The `i`-th reference slot after `base` and its file record are flipped.
pub open spec fn file_elem_flipped_at(d: Seq<u8>, f: Seq<u8>, base: int, origin: int, i: int) -> bool {
    file_elem_flipped(d, f, base + 8 * i, origin)
}

proof fn lemma_file_elem_flip(d: Seq<u8>, f: Seq<u8>, q: int, origin: int)
    requires
        f.len() == d.len(),
        0 <= q,
        0 <= origin,
        file_elem_flipped(d, f, q, origin),
    ensures
        spec_ref_file_info_rec(f, q, Endian::Little, origin) == spec_ref_file_info_rec(d, q, Endian::Big, origin),
{
    lemma_req_ref_flip(d, f, q, origin, RefSite::FileEntry);
    match spec_req_ref(d, q, Endian::Big, origin, RefSite::FileEntry) {
        Ok(t) => {
            lemma_file_info_flip(d, f, t, origin);
        },
        Err(_) => {},
    }
}

proof fn lemma_file_seq_flip(d: Seq<u8>, f: Seq<u8>, p: int, origin: int, n: int)
    requires
        f.len() == d.len(),
        0 <= p,
        0 <= origin,
        forall|i: int| 0 <= i < n ==> #[trigger] file_elem_flipped_at(d, f, p, origin, i),
    ensures
        spec_file_infos(f, p, Endian::Little, origin, n) == spec_file_infos(d, p, Endian::Big, origin, n),
    decreases n,
{
    if n > 0 {
        assert(file_elem_flipped_at(d, f, p, origin, 0));
        lemma_file_elem_flip(d, f, p, origin);
        assert forall|i: int| 0 <= i < n - 1 implies #[trigger] file_elem_flipped_at(
            d,
            f,
            p + 8,
            origin,
            i,
        ) by {
            assert(file_elem_flipped_at(d, f, p, origin, i + 1));
        }
        lemma_file_seq_flip(d, f, p + 8, origin, n - 1);
    }
}

/// The two buffers hold the same file record table at `p`: a byte-swapped
/// count and flipped referenced records.
pub open spec fn file_table_flipped(d: Seq<u8>, f: Seq<u8>, p: int, origin: int) -> bool {
    p + 4 <= d.len() ==> {
        &&& swapped4(d, f, p)
        &&& forall|i: int|
            0 <= i < su32(d, p, Endian::Big) ==> #[trigger] file_elem_flipped_at(
                d,
                f,
                p + 4,
                origin,
                i,
            )
    }
}

pub proof fn lemma_file_table_flip(d: Seq<u8>, f: Seq<u8>, p: int, origin: int)
    requires
        f.len() == d.len(),
        0 <= p,
        0 <= origin,
        file_table_flipped(d, f, p, origin),
    ensures
        spec_file_table(f, p, Endian::Little, origin) == spec_file_table(d, p, Endian::Big, origin),
{
    if p + 4 <= d.len() {
        lemma_su32_flip(d, p, f, p);
        lemma_file_seq_flip(d, f, p + 4, origin, su32(d, p, Endian::Big) as int);
    }
}


/// The reference at `q` and the group record behind it are flipped.
pub open spec fn group_elem_flipped(d: Seq<u8>, f: Seq<u8>, q: int, origin: int) -> bool {
    &&& reference_flipped(d, f, q)
    &&& match spec_req_ref(d, q, Endian::Big, origin, RefSite::GroupEntry) {
        Ok(t) => group_info_flipped(d, f, t, origin),
        Err(_) => true,
    }
}

/// The `i`-th reference slot after `base` and its group record are flipped.
pub open spec fn group_elem_flipped_at(d: Seq<u8>, f: Seq<u8>, base: int, origin: int, i: int) -> bool {
    group_elem_flipped(d, f, base + 8 * i, origin)
}

proof fn lemma_group_elem_flip(d: Seq<u8>, f: Seq<u8>, q: int, origin: int)
    requires
        f.len() == d.len(),
        0 <= q,
        0 <= origin,
        group_elem_flipped(d, f, q, origin),
    ensures
        spec_ref_group_info_rec(f, q, Endian::Little, origin) == spec_ref_group_info_rec(d, q, Endian::Big, origin),
{
    lemma_req_ref_flip(d, f, q, origin, RefSite::GroupEntry);
    match spec_req_ref(d, q, Endian::Big, origin, RefSite::GroupEntry) {
        Ok(t) => {
            lemma_group_info_flip(d, f, t, origin);
        },
        Err(_) => {},
    }
}

proof fn lemma_group_seq_flip(d: Seq<u8>, f: Seq<u8>, p: int, origin: int, n: int)
    requires
        f.len() == d.len(),
        0 <= p,
        0 <= origin,
        forall|i: int| 0 <= i < n ==> #[trigger] group_elem_flipped_at(d, f, p, origin, i),
    ensures
        spec_group_infos(f, p, Endian::Little, origin, n) == spec_group_infos(d, p, Endian::Big, origin, n),
    decreases n,
{
    if n > 0 {
        assert(group_elem_flipped_at(d, f, p, origin, 0));
        lemma_group_elem_flip(d, f, p, origin);
        assert forall|i: int| 0 <= i < n - 1 implies #[trigger] group_elem_flipped_at(
            d,
            f,
            p + 8,
            origin,
            i,
        ) by {
            assert(group_elem_flipped_at(d, f, p, origin, i + 1));
        }
        lemma_group_seq_flip(d, f, p + 8, origin, n - 1);
    }
}

/// The two buffers hold the same group record table at `p`: a byte-swapped
/// count and flipped referenced records.
pub open spec fn group_table_flipped(d: Seq<u8>, f: Seq<u8>, p: int, origin: int) -> bool {
    p + 4 <= d.len() ==> {
        &&& swapped4(d, f, p)
        &&& forall|i: int|
            0 <= i < su32(d, p, Endian::Big) ==> #[trigger] group_elem_flipped_at(
                d,
                f,
                p + 4,
                origin,
                i,
            )
    }
}

pub proof fn lemma_group_table_flip(d: Seq<u8>, f: Seq<u8>, p: int, origin: int)
    requires
        f.len() == d.len(),
        0 <= p,
        0 <= origin,
        group_table_flipped(d, f, p, origin),
    ensures
        spec_group_table(f, p, Endian::Little, origin) == spec_group_table(d, p, Endian::Big, origin),
{
    if p + 4 <= d.len() {
        lemma_su32_flip(d, p, f, p);
        lemma_group_seq_flip(d, f, p + 4, origin, su32(d, p, Endian::Big) as int);
    }
}

/// The pointer word at `q` and the name it points to are flipped: the
/// word is byte-swapped and the string bytes are equal.
pub open spec fn string_elem_flipped(d: Seq<u8>, f: Seq<u8>, q: int, origin: int) -> bool {
    q + 4 <= d.len() ==> {
        &&& swapped4(d, f, q)
        &&& string_flipped(d, f, origin + su32(d, q, Endian::Big))
    }
}

/// The `i`-th pointer word after `base` and its name are flipped.
pub open spec fn string_elem_flipped_at(
    d: Seq<u8>,
    f: Seq<u8>,
    base: int,
    origin: int,
    i: int,
) -> bool {
    string_elem_flipped(d, f, base + 4 * i, origin)
}

proof fn lemma_string_elem_flip(d: Seq<u8>, f: Seq<u8>, q: int, origin: int)
    requires
        f.len() == d.len(),
        0 <= q,
        0 <= origin,
        string_elem_flipped(d, f, q, origin),
    ensures
        spec_ref_string(f, q, Endian::Little, origin) == spec_ref_string(d, q, Endian::Big, origin),
{
    if q + 4 <= d.len() {
        lemma_su32_flip(d, q, f, q);
        lemma_nul_string_flip(d, f, origin + su32(d, q, Endian::Big));
    }
}

proof fn lemma_strings_flip(d: Seq<u8>, f: Seq<u8>, p: int, origin: int, n: int)
    requires
        f.len() == d.len(),
        0 <= p,
        0 <= origin,
        forall|i: int| 0 <= i < n ==> #[trigger] string_elem_flipped_at(d, f, p, origin, i),
    ensures
        spec_strings(f, p, Endian::Little, origin, n) == spec_strings(d, p, Endian::Big, origin, n),
    decreases n,
{
    if n > 0 {
        assert(string_elem_flipped_at(d, f, p, origin, 0));
        lemma_string_elem_flip(d, f, p, origin);
        assert forall|i: int| 0 <= i < n - 1 implies #[trigger] string_elem_flipped_at(
            d,
            f,
            p + 4,
            origin,
            i,
        ) by {
            assert(string_elem_flipped_at(d, f, p, origin, i + 1));
        }
        lemma_strings_flip(d, f, p + 4, origin, n - 1);
    }
}

/// The two buffers hold the same string table at `p`.
pub open spec fn string_table_flipped(d: Seq<u8>, f: Seq<u8>, p: int, origin: int) -> bool {
    p + 4 <= d.len() ==> {
        &&& swapped4(d, f, p)
        &&& forall|i: int|
            0 <= i < su32(d, p, Endian::Big) ==> #[trigger] string_elem_flipped_at(
                d,
                f,
                p + 4,
                origin,
                i,
            )
    }
}

pub proof fn lemma_string_table_flip(d: Seq<u8>, f: Seq<u8>, p: int, origin: int)
    requires
        f.len() == d.len(),
        0 <= p,
        0 <= origin,
        string_table_flipped(d, f, p, origin),
    ensures
        spec_string_table(f, p, Endian::Little, origin) == spec_string_table(
            d,
            p,
            Endian::Big,
            origin,
        ),
{
    if p + 4 <= d.len() {
        lemma_su32_flip(d, p, f, p);
        lemma_strings_flip(d, f, p + 4, origin, su32(d, p, Endian::Big) as int);
    }
}

/// The two buffers hold the same SYMB block at `off`: flipped header,
/// byte-swapped body pointers, a flipped string table and four flipped
/// tries.
pub open spec fn symbol_block_flipped(d: Seq<u8>, f: Seq<u8>, off: int) -> bool {
    &&& block_header_flipped(d, f, off)
    &&& (off + 28 <= d.len() ==> {
        let origin = off + 8;
        &&& swapped4(d, f, origin)
        &&& swapped4(d, f, origin + 4)
        &&& swapped4(d, f, origin + 8)
        &&& swapped4(d, f, origin + 12)
        &&& swapped4(d, f, origin + 16)
        &&& string_table_flipped(d, f, origin + su32(d, origin, Endian::Big), origin)
        &&& tree_flipped(d, f, origin + su32(d, origin + 4, Endian::Big))
        &&& tree_flipped(d, f, origin + su32(d, origin + 8, Endian::Big))
        &&& tree_flipped(d, f, origin + su32(d, origin + 12, Endian::Big))
        &&& tree_flipped(d, f, origin + su32(d, origin + 16, Endian::Big))
    })
}

pub proof fn lemma_symbol_block_flip(d: Seq<u8>, f: Seq<u8>, off: int)
    requires
        f.len() == d.len(),
        0 <= off,
        symbol_block_flipped(d, f, off),
    ensures
        spec_symbol_block(f, off, Endian::Little) == spec_symbol_block(d, off, Endian::Big),
{
    lemma_block_header_flip(d, f, off);
    let origin = off + 8;
    if off + 28 <= d.len() {
        lemma_su32_flip(d, origin, f, origin);
        lemma_su32_flip(d, origin + 4, f, origin + 4);
        lemma_su32_flip(d, origin + 8, f, origin + 8);
        lemma_su32_flip(d, origin + 12, f, origin + 12);
        lemma_su32_flip(d, origin + 16, f, origin + 16);
        lemma_string_table_flip(d, f, origin + su32(d, origin, Endian::Big), origin);
        crate::patricia::lemma_patricia_tree_flip(
            d,
            f,
            origin + su32(d, origin + 4, Endian::Big),
        );
        crate::patricia::lemma_patricia_tree_flip(
            d,
            f,
            origin + su32(d, origin + 8, Endian::Big),
        );
        crate::patricia::lemma_patricia_tree_flip(
            d,
            f,
            origin + su32(d, origin + 12, Endian::Big),
        );
        crate::patricia::lemma_patricia_tree_flip(
            d,
            f,
            origin + su32(d, origin + 16, Endian::Big),
        );
    }
}

/// The two buffers hold the same INFO block at `off`: flipped header,
/// six flipped references, and flipped tables behind them.
pub open spec fn info_block_flipped(d: Seq<u8>, f: Seq<u8>, off: int) -> bool {
    &&& block_header_flipped(d, f, off)
    &&& (off + 56 <= d.len() ==> {
        let origin = off + 8;
        &&& reference_flipped(d, f, origin)
        &&& reference_flipped(d, f, origin + 8)
        &&& reference_flipped(d, f, origin + 16)
        &&& reference_flipped(d, f, origin + 24)
        &&& reference_flipped(d, f, origin + 32)
        &&& reference_flipped(d, f, origin + 40)
        &&& match spec_req_ref(d, origin, Endian::Big, origin, RefSite::SoundTable) {
            Ok(t) => sound_table_flipped(d, f, t, origin),
            Err(_) => true,
        }
        &&& match spec_req_ref(d, origin + 8, Endian::Big, origin, RefSite::BankTable) {
            Ok(t) => bank_table_flipped(d, f, t, origin),
            Err(_) => true,
        }
        &&& match spec_req_ref(d, origin + 16, Endian::Big, origin, RefSite::PlayerTable) {
            Ok(t) => player_table_flipped(d, f, t, origin),
            Err(_) => true,
        }
        &&& match spec_req_ref(d, origin + 24, Endian::Big, origin, RefSite::FileTable) {
            Ok(t) => file_table_flipped(d, f, t, origin),
            Err(_) => true,
        }
        &&& match spec_req_ref(d, origin + 32, Endian::Big, origin, RefSite::GroupTable) {
            Ok(t) => group_table_flipped(d, f, t, origin),
            Err(_) => true,
        }
        &&& match spec_req_ref(d, origin + 40, Endian::Big, origin, RefSite::SoundArchiveInfo) {
            Ok(t) => sound_archive_info_flipped(d, f, t),
            Err(_) => true,
        }
    })
}

pub proof fn lemma_info_block_flip(d: Seq<u8>, f: Seq<u8>, off: int)
    requires
        f.len() == d.len(),
        0 <= off,
        info_block_flipped(d, f, off),
    ensures
        spec_info_block(f, off, Endian::Little) == spec_info_block(d, off, Endian::Big),
{
    lemma_block_header_flip(d, f, off);
    let origin = off + 8;
    if off + 56 <= d.len() {
        lemma_req_ref_flip(d, f, origin, origin, RefSite::SoundTable);
        match spec_req_ref(d, origin, Endian::Big, origin, RefSite::SoundTable) {
            Ok(t) => {
                lemma_sound_table_flip(d, f, t, origin);
            },
            Err(_) => {},
        }
        lemma_req_ref_flip(d, f, origin + 8, origin, RefSite::BankTable);
        match spec_req_ref(d, origin + 8, Endian::Big, origin, RefSite::BankTable) {
            Ok(t) => {
                lemma_bank_table_flip(d, f, t, origin);
            },
            Err(_) => {},
        }
        lemma_req_ref_flip(d, f, origin + 16, origin, RefSite::PlayerTable);
        match spec_req_ref(d, origin + 16, Endian::Big, origin, RefSite::PlayerTable) {
            Ok(t) => {
                lemma_player_table_flip(d, f, t, origin);
            },
            Err(_) => {},
        }
        lemma_req_ref_flip(d, f, origin + 24, origin, RefSite::FileTable);
        match spec_req_ref(d, origin + 24, Endian::Big, origin, RefSite::FileTable) {
            Ok(t) => {
                lemma_file_table_flip(d, f, t, origin);
            },
            Err(_) => {},
        }
        lemma_req_ref_flip(d, f, origin + 32, origin, RefSite::GroupTable);
        match spec_req_ref(d, origin + 32, Endian::Big, origin, RefSite::GroupTable) {
            Ok(t) => {
                lemma_group_table_flip(d, f, t, origin);
            },
            Err(_) => {},
        }
        lemma_req_ref_flip(d, f, origin + 40, origin, RefSite::SoundArchiveInfo);
        match spec_req_ref(d, origin + 40, Endian::Big, origin, RefSite::SoundArchiveInfo) {
            Ok(t) => {
                lemma_sound_archive_info_flip(d, f, t);
            },
            Err(_) => {},
        }
    }
}

/// One entry of the block index and the block header it points to are
/// flipped.
pub open spec fn checked_block_ptr_flipped(d: Seq<u8>, f: Seq<u8>, p: int) -> bool {
    p + 8 <= d.len() ==> {
        &&& swapped4(d, f, p)
        &&& swapped4(d, f, p + 4)
        &&& block_header_flipped(d, f, su32(d, p, Endian::Big) as int)
    }
}

pub proof fn lemma_checked_block_ptr_flip(
    d: Seq<u8>,
    f: Seq<u8>,
    p: int,
    expected: [u8; 4],
    file_size: u32,
)
    requires
        f.len() == d.len(),
        0 <= p,
        checked_block_ptr_flipped(d, f, p),
    ensures
        spec_checked_block_ptr(f, p, Endian::Little, expected, file_size)
            == spec_checked_block_ptr(d, p, Endian::Big, expected, file_size),
{
    if p + 8 <= d.len() {
        lemma_su32_flip(d, p, f, p);
        lemma_su32_flip(d, p + 4, f, p + 4);
        lemma_block_header_flip(d, f, su32(d, p, Endian::Big) as int);
    }
}

/// Two buffers hold the same archive in opposite byte orders: the
/// magic and every string are byte-for-byte equal, the endian mark of
/// `d` says big and that of `f` says little, and every multi-byte
/// field of the header, the block index and the three blocks is
/// byte-swapped.
pub open spec fn archive_flipped(d: Seq<u8>, f: Seq<u8>) -> bool {
    &&& f.len() == d.len()
    &&& (4 <= d.len() ==> same_bytes(d, f, 0, 4))
    &&& (6 <= d.len() ==> su16(d, 4, Endian::Big) == 0xFEFF && su16(f, 4, Endian::Big) == 0xFFFE)
    &&& (16 <= d.len() ==> {
        &&& swapped2(d, f, 6)
        &&& swapped4(d, f, 8)
        &&& swapped2(d, f, 12)
        &&& swapped2(d, f, 14)
    })
    &&& (16 <= d.len() ==> {
        &&& checked_block_ptr_flipped(d, f, 16)
        &&& checked_block_ptr_flipped(d, f, 24)
        &&& checked_block_ptr_flipped(d, f, 32)
        &&& symbol_block_flipped(d, f, su32(d, 16, Endian::Big) as int)
        &&& info_block_flipped(d, f, su32(d, 24, Endian::Big) as int)
    })
}

/// Byte-order independence of the whole decoder: flipping every
/// multi-byte integer of an archive and setting the endian mark to the
/// other value yields a file that decodes to the very same structure —
/// the same blocks, tables, tries and strings — with only the header's
/// recorded endianness differing; and a file that the decoder rejects
/// is rejected with the same error in either byte order.
#[verifier::rlimit(100)]
#[verifier::spinoff_prover]
pub proof fn lemma_brsar_flip(d: Seq<u8>, f: Seq<u8>)
    requires
        archive_flipped(d, f),
    ensures
        (spec_brsar(d) is Ok) == (spec_brsar(f) is Ok),
        spec_brsar(d) is Ok ==> spec_brsar(f)->Ok_0 == (BrsarView {
            header: FileHeader { endian: Endian::Little, ..spec_brsar(d)->Ok_0.header },
            ..spec_brsar(d)->Ok_0
        }),
        spec_brsar(d) is Err ==> spec_brsar(f) == spec_brsar(d),
{
    if d.len() < 4 {
        return ;
    }
    assert(sbytes4(f, 0) =~= sbytes4(d, 0));
    if sbytes4(d, 0) != rsar_magic() {
        return ;
    }
    if d.len() < 16 {
        return ;
    }
    crate::common::lemma_file_header_flip(d, f);
    let h = spec_file_header(d)->Ok_0;
    if h.version != 0x0104 || h.block_count != 3 {
        return ;
    }
    lemma_checked_block_ptr_flip(d, f, 16, symb_magic(), h.file_size);
    match spec_checked_block_ptr(d, 16, Endian::Big, symb_magic(), h.file_size) {
        Ok((o0, _l0)) => {
            lemma_symbol_block_flip(d, f, o0 as int);
            match spec_symbol_block(d, o0 as int, Endian::Big) {
                Ok(_) => {
                    lemma_checked_block_ptr_flip(d, f, 24, info_magic(), h.file_size);
                    match spec_checked_block_ptr(d, 24, Endian::Big, info_magic(), h.file_size) {
                        Ok((o1, _l1)) => {
                            lemma_info_block_flip(d, f, o1 as int);
                            match spec_info_block(d, o1 as int, Endian::Big) {
                                Ok(_) => {
                                    lemma_checked_block_ptr_flip(
                                        d,
                                        f,
                                        32,
                                        file_magic(),
                                        h.file_size,
                                    );
                                    match spec_checked_block_ptr(
                                        d,
                                        32,
                                        Endian::Big,
                                        file_magic(),
                                        h.file_size,
                                    ) {
                                        Ok((o2, _l2)) => {
                                            lemma_checked_ptr_gives_header_flip(d, f, 32);
                                            lemma_block_header_flip(d, f, o2 as int);
                                        },
                                        Err(_) => {},
                                    }
                                },
                                Err(_) => {},
                            }
                        },
                        Err(_) => {},
                    }
                },
                Err(_) => {},
            }
        },
        Err(_) => {},
    }
}

/// The premise of a flipped index entry covers the block header it
/// points at.
proof fn lemma_checked_ptr_gives_header_flip(d: Seq<u8>, f: Seq<u8>, p: int)
    requires
        f.len() == d.len(),
        0 <= p,
        checked_block_ptr_flipped(d, f, p),
        p + 8 <= d.len(),
    ensures
        block_header_flipped(d, f, su32(d, p, Endian::Big) as int),
{
}

} // verus!
