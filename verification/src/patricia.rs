//! The Patricia trie of the SYMB block: a flat array of bit-indexed
//! nodes that resolves a byte-string key to a payload by walking bits
//! of the key, MSB-first.

use vstd::prelude::*;

use crate::bytes::{get_key_bit, get_u16, get_u32, has_bytes, key_bit, su16, su32, swapped2,
    swapped4};
use crate::common::Endian;
use crate::error::{decodes_to, DecodeError};

verus! {

/// A leaf payload: an index into the string table and an index into
/// the corresponding INFO table.
#[derive(Debug, Clone, Copy, PartialEq, Eq, Structural)]
pub struct TreeData {
    pub string_index: u32,
    pub item_index: u32,
}

impl DeepView for TreeData {
    type V = TreeData;

    open spec fn deep_view(&self) -> TreeData {
        *self
    }
}

/// One node of the trie.  A leaf carries only its payload; an inner
/// node names the key bit it tests and its two children, where `None`
/// stands for the on-disk sentinel 0xFFFFFFFF.
#[derive(Debug, Clone, Copy, PartialEq, Eq)]
pub struct PatriciaNode {
    pub is_leaf: bool,
    pub bit_index: u16,
    pub left_child: Option<u32>,
    pub right_child: Option<u32>,
    pub data: TreeData,
}

impl DeepView for PatriciaNode {
    type V = PatriciaNode;

    open spec fn deep_view(&self) -> PatriciaNode {
        *self
    }
}

/// The trie: the index of its root node (the sentinel marks an empty
/// tree) and its node array.
#[derive(Debug, Clone, PartialEq)]
pub struct PatriciaTree {
    pub root_index: u32,
    pub nodes: Vec<PatriciaNode>,
}

/// Abstraction of a `PatriciaTree`.
pub struct PatriciaTreeView {
    pub root_index: u32,
    pub nodes: Seq<PatriciaNode>,
}

impl DeepView for PatriciaTree {
    type V = PatriciaTreeView;

    open spec fn deep_view(&self) -> PatriciaTreeView {
        PatriciaTreeView { root_index: self.root_index, nodes: self.nodes.deep_view() }
    }
}

/// A child index as stored on disk: 0xFFFFFFFF means "no such branch".
pub open spec fn spec_child(w: u32) -> Option<u32> {
    if w == 0xFFFFFFFF {
        None
    } else {
        Some(w)
    }
}

/// The twenty-byte node at position `p`: leaf flag, bit index, two
/// child indices and the payload.
pub open spec fn spec_patricia_node(d: Seq<u8>, p: int, en: Endian) -> Result<
    PatriciaNode,
    DecodeError,
> {
    if !(0 <= p && p + 20 <= d.len()) {
        Err(DecodeError::UnexpectedEof)
    } else {
        Ok(
            PatriciaNode {
                is_leaf: su16(d, p, en) != 0,
                bit_index: su16(d, p + 2, en),
                left_child: spec_child(su32(d, p + 4, en)),
                right_child: spec_child(su32(d, p + 8, en)),
                data: TreeData {
                    string_index: su32(d, p + 12, en),
                    item_index: su32(d, p + 16, en),
                },
            },
        )
    }
}

pub fn decode_patricia_node(d: &[u8], pos: usize, en: Endian) -> (r: Result<
    PatriciaNode,
    DecodeError,
>)
    ensures
        decodes_to(r, spec_patricia_node(d@, pos as int, en)),
{
    if !has_bytes(d, pos, 20) {
        return Err(DecodeError::UnexpectedEof);
    }
    let lw = get_u32(d, pos + 4, en);
    let rw = get_u32(d, pos + 8, en);
    Ok(
        PatriciaNode {
            is_leaf: get_u16(d, pos, en) != 0,
            bit_index: get_u16(d, pos + 2, en),
            left_child: if lw == 0xFFFFFFFF {
                None
            } else {
                Some(lw)
            },
            right_child: if rw == 0xFFFFFFFF {
                None
            } else {
                Some(rw)
            },
            data: TreeData { string_index: get_u32(d, pos + 12, en), item_index: get_u32(d, pos + 16, en) },
        },
    )
}

/// The `n` nodes starting at position `p`, twenty bytes apart.
pub open spec fn spec_patricia_nodes(d: Seq<u8>, p: int, en: Endian, n: int) -> Result<
    Seq<PatriciaNode>,
    DecodeError,
>
    decreases n,
{
    if n <= 0 {
        Ok(Seq::empty())
    } else {
        match spec_patricia_node(d, p, en) {
            Err(e) => Err(e),
            Ok(v) => match spec_patricia_nodes(d, p + 20, en, n - 1) {
                Err(e) => Err(e),
                Ok(rest) => Ok(seq![v] + rest),
            },
        }
    }
}

/// The trie at position `p`: a root index, a node count, and that many
/// nodes.
pub open spec fn spec_patricia_tree(d: Seq<u8>, p: int, en: Endian) -> Result<
    PatriciaTreeView,
    DecodeError,
> {
    if !(0 <= p && p + 8 <= d.len()) {
        Err(DecodeError::UnexpectedEof)
    } else {
        match spec_patricia_nodes(d, p + 8, en, su32(d, p + 4, en) as int) {
            Err(e) => Err(e),
            Ok(nodes) => Ok(PatriciaTreeView { root_index: su32(d, p, en), nodes }),
        }
    }
}

pub fn decode_patricia_tree(d: &[u8], pos: usize, en: Endian) -> (r: Result<
    PatriciaTree,
    DecodeError,
>)
    ensures
        decodes_to(r, spec_patricia_tree(d@, pos as int, en)),
{
    if !has_bytes(d, pos, 8) {
        return Err(DecodeError::UnexpectedEof);
    }
    let root = get_u32(d, pos, en);
    let count = get_u32(d, pos + 4, en) as usize;
    let mut nodes: Vec<PatriciaNode> = Vec::new();
    let mut q: usize = pos + 8;
    let mut i: usize = 0;
    while i < count
        invariant
            i <= count,
            q == pos + 8 + 20 * i as int,
            pos + 8 <= d@.len(),
            d@.len() <= usize::MAX,
            root == su32(d@, pos as int, en),
            count == su32(d@, pos as int + 4, en),
            spec_patricia_nodes(d@, pos as int + 8, en, count as int) == match spec_patricia_nodes(
                d@,
                q as int,
                en,
                count - i,
            ) {
                Ok(rest) => Ok::<_, DecodeError>(nodes.deep_view() + rest),
                Err(e) => Err::<Seq<PatriciaNode>, _>(e),
            },
        decreases count - i,
    {
        let ghost old_nodes = nodes.deep_view();
        if !has_bytes(d, q, 20) {
            return Err(DecodeError::UnexpectedEof);
        }
        let v = match decode_patricia_node(d, q, en) {
            Ok(v) => v,
            Err(e) => {
                return Err(e);
            },
        };
        nodes.push(v);
        proof {
            assert(nodes.deep_view() =~= old_nodes.push(v));
            if spec_patricia_nodes(d@, q as int + 20, en, count - i - 1) is Ok {
                crate::common::lemma_acc_push(
                    old_nodes,
                    v,
                    spec_patricia_nodes(d@, q as int + 20, en, count - i - 1)->Ok_0,
                );
            }
        }
        q = q + 20;
        i = i + 1;
    }
    proof {
        assert(nodes.deep_view() + Seq::<PatriciaNode>::empty() =~= nodes.deep_view());
    }
    Ok(PatriciaTree { root_index: root, nodes })
}

/// The traversal of `spec_search`, from node `idx` with `fuel` steps
/// left: stop at a leaf or at a node whose bit lies past the key's
/// end and yield that node's payload; step to the child named by the
/// key bit otherwise.  A missing node, a sentinel branch, or running
/// out of fuel (which only a cyclic node array can cause) yields
/// nothing.
pub open spec fn spec_search_from(
    nodes: Seq<PatriciaNode>,
    key: Seq<u8>,
    idx: int,
    fuel: nat,
) -> Option<TreeData>
    decreases fuel,
{
    if !(0 <= idx < nodes.len()) {
        None
    } else if nodes[idx].is_leaf {
        Some(nodes[idx].data)
    } else if (nodes[idx].bit_index as int) / 8 >= key.len() {
        Some(nodes[idx].data)
    } else {
        let child = if key_bit(key, nodes[idx].bit_index as int) {
            nodes[idx].right_child
        } else {
            nodes[idx].left_child
        };
        match child {
            None => None,
            Some(c) => if fuel == 0 {
                None
            } else {
                spec_search_from(nodes, key, c as int, (fuel - 1) as nat)
            },
        }
    }
}

/// What a lookup of `key` returns: the payload of the node reached
/// from the root by the key's bits.
pub open spec fn spec_search(t: PatriciaTreeView, key: Seq<u8>) -> Option<TreeData> {
    spec_search_from(t.nodes, key, t.root_index as int, t.nodes.len())
}

impl PatriciaTree {
    /// Resolves a byte-string key to a payload by walking the key's
    /// bits from the root.  The traversal stops at the first leaf, or
    /// at the first node whose discriminating bit lies past the end of
    /// the key, and returns that node's payload; a sentinel branch or
    /// an out-of-range node index is `None`.  A node array whose
    /// links form a cycle exhausts its fuel and is `None` as well.
    pub fn search(&self, key: &[u8]) -> (r: Option<TreeData>)
        ensures
            r == spec_search(self.deep_view(), key@),
    {
        let n = self.nodes.len();
        let mut idx: usize = self.root_index as usize;
        let mut fuel: usize = n;
        loop
            invariant
                n == self.nodes@.len(),
                spec_search(self.deep_view(), key@) == spec_search_from(
                    self.deep_view().nodes,
                    key@,
                    idx as int,
                    fuel as nat,
                ),
            decreases fuel,
        {
            proof {
                assert(self.deep_view().nodes.len() == self.nodes@.len());
                if idx < self.nodes@.len() {
                    assert(self.deep_view().nodes[idx as int] == self.nodes@[idx as int]);
                }
            }
            if idx >= n {
                return None;
            }
            let node = self.nodes[idx];
            if node.is_leaf {
                return Some(node.data);
            }
            if node.bit_index as usize / 8 >= key.len() {
                return Some(node.data);
            }
            let bit = get_key_bit(key, node.bit_index as usize);
            let child = if bit {
                node.right_child
            } else {
                node.left_child
            };
            match child {
                None => {
                    return None;
                },
                Some(c) => {
                    if fuel == 0 {
                        return None;
                    }
                    fuel = fuel - 1;
                    idx = c as usize;
                },
            }
        }
    }

    /// The same lookup as `search`, reporting a miss as `NotFound`,
    /// for callers that treat an unresolved name as an error.
    pub fn lookup(&self, key: &[u8]) -> (r: Result<TreeData, DecodeError>)
        ensures
            spec_search(self.deep_view(), key@) matches Some(v) ==> r == Ok::<
                TreeData,
                DecodeError,
            >(v),
            spec_search(self.deep_view(), key@) is None ==> r == Err::<TreeData, DecodeError>(
                DecodeError::NotFound,
            ),
    {
        match self.search(key) {
            Some(v) => Ok(v),
            None => Err(DecodeError::NotFound),
        }
    }

    /// Direct access by node index: the payload of node `idx` when it
    /// exists, for callers that already hold an index.
    pub fn get(&self, idx: usize) -> (r: Option<TreeData>)
        ensures
            idx < self.nodes@.len() ==> r == Some(self.nodes@[idx as int].data),
            idx >= self.nodes@.len() ==> r is None,
    {
        if idx < self.nodes.len() {
            Some(self.nodes[idx].data)
        } else {
            None
        }
    }
}

/// The path premise of the round-trip law: from node `idx`, following
/// at each inner node the branch that the key's bit names, the
/// traversal reaches the leaf `leaf` within `fuel` steps, and no bit
/// tested on the way lies past the key's end.
pub open spec fn descends_to(
    nodes: Seq<PatriciaNode>,
    key: Seq<u8>,
    idx: int,
    leaf: int,
    fuel: nat,
) -> bool
    decreases fuel,
{
    &&& 0 <= idx < nodes.len()
    &&& if nodes[idx].is_leaf {
        idx == leaf
    } else {
        &&& (nodes[idx].bit_index as int) / 8 < key.len()
        &&& fuel > 0
        &&& match (if key_bit(key, nodes[idx].bit_index as int) {
            nodes[idx].right_child
        } else {
            nodes[idx].left_child
        }) {
            Some(c) => descends_to(nodes, key, c as int, leaf, (fuel - 1) as nat),
            None => false,
        }
    }
}

proof fn lemma_search_from_reaches(
    nodes: Seq<PatriciaNode>,
    key: Seq<u8>,
    idx: int,
    leaf: int,
    fuel: nat,
    g: nat,
)
    requires
        descends_to(nodes, key, idx, leaf, fuel),
        fuel <= g,
    ensures
        0 <= leaf < nodes.len(),
        nodes[leaf].is_leaf,
        spec_search_from(nodes, key, idx, g) == Some(nodes[leaf].data),
    decreases fuel,
{
    if !nodes[idx].is_leaf {
        let c = if key_bit(key, nodes[idx].bit_index as int) {
            nodes[idx].right_child
        } else {
            nodes[idx].left_child
        };
        lemma_search_from_reaches(nodes, key, c->0 as int, leaf, (fuel - 1) as nat, (g - 1) as nat);
    }
}

/// A trie indexes a name table when every leaf that names a string is
/// reachable from the root by that string's bits.  Decoded archives
/// built by the format's writers have this shape; arbitrary bytes need
/// not, so the round-trip law below carries it as a premise.
pub open spec fn trie_indexes_names(t: PatriciaTreeView, names: Seq<Seq<u8>>) -> bool {
    forall|l: int|
        0 <= l < t.nodes.len() && (#[trigger] t.nodes[l]).is_leaf && t.nodes[l].data.string_index
            < names.len() ==> descends_to(
            t.nodes,
            names[t.nodes[l].data.string_index as int],
            t.root_index as int,
            l,
            t.nodes.len(),
        )
}

/// Round trip through the string table: in a trie that indexes its
/// name table, looking up the string that a leaf names returns that
/// leaf's payload — a payload whose `string_index` is the leaf's own.
pub proof fn lemma_symbol_round_trip(t: PatriciaTreeView, names: Seq<Seq<u8>>, l: int)
    requires
        trie_indexes_names(t, names),
        0 <= l < t.nodes.len(),
        t.nodes[l].is_leaf,
        t.nodes[l].data.string_index < names.len(),
    ensures
        spec_search(t, names[t.nodes[l].data.string_index as int]) == Some(t.nodes[l].data),
        spec_search(t, names[t.nodes[l].data.string_index as int])->0.string_index == t.nodes[l].data.string_index,
{
    lemma_patricia_round_trip(t, names[t.nodes[l].data.string_index as int], l);
}

/// Round trip of the name index: when the bits of `key` lead from the
/// root to the leaf `leaf` (as `descends_to` states), a lookup of
/// `key` returns exactly that leaf's payload — in particular a payload
/// whose `string_index` is the leaf's own.  Payloads are not checked
/// against the key: for a key whose bits lead elsewhere, the lookup
/// returns whatever stands there, so the premise cannot be dropped.
pub proof fn lemma_patricia_round_trip(t: PatriciaTreeView, key: Seq<u8>, leaf: int)
    requires
        descends_to(t.nodes, key, t.root_index as int, leaf, t.nodes.len()),
    ensures
        0 <= leaf < t.nodes.len(),
        t.nodes[leaf].is_leaf,
        spec_search(t, key) == Some(t.nodes[leaf].data),
        spec_search(t, key)->0.string_index == t.nodes[leaf].data.string_index,
{
    lemma_search_from_reaches(t.nodes, key, t.root_index as int, leaf, t.nodes.len(), t.nodes.len());
}

/// Two buffers hold the same node at `p`, with every multi-byte field
/// byte-swapped, wherever the node lies inside the buffer.
pub open spec fn node_flipped(d: Seq<u8>, f: Seq<u8>, p: int) -> bool {
    p + 20 <= d.len() ==> {
        &&& swapped2(d, f, p)
        &&& swapped2(d, f, p + 2)
        &&& swapped4(d, f, p + 4)
        &&& swapped4(d, f, p + 8)
        &&& swapped4(d, f, p + 12)
        &&& swapped4(d, f, p + 16)
    }
}

/// A node whose fields are stored byte-swapped decodes to the same
/// node in the opposite byte order.
pub proof fn lemma_patricia_node_flip(d: Seq<u8>, f: Seq<u8>, p: int)
    requires
        f.len() == d.len(),
        0 <= p,
        node_flipped(d, f, p),
    ensures
        spec_patricia_node(f, p, Endian::Little) == spec_patricia_node(d, p, Endian::Big),
{
    if p + 20 <= d.len() {
        crate::bytes::lemma_su16_flip(d, p, f, p);
        crate::bytes::lemma_su16_flip(d, p + 2, f, p + 2);
        crate::bytes::lemma_su32_flip(d, p + 4, f, p + 4);
        crate::bytes::lemma_su32_flip(d, p + 8, f, p + 8);
        crate::bytes::lemma_su32_flip(d, p + 12, f, p + 12);
        crate::bytes::lemma_su32_flip(d, p + 16, f, p + 16);
    }
}

/// The `i`-th node slot after `base` holds byte-swapped fields.
pub open spec fn node_flipped_at(d: Seq<u8>, f: Seq<u8>, base: int, i: int) -> bool {
    node_flipped(d, f, base + 20 * i)
}

proof fn lemma_patricia_nodes_flip(d: Seq<u8>, f: Seq<u8>, p: int, n: int)
    requires
        f.len() == d.len(),
        0 <= p,
        forall|i: int| 0 <= i < n ==> #[trigger] node_flipped_at(d, f, p, i),
    ensures
        spec_patricia_nodes(f, p, Endian::Little, n) == spec_patricia_nodes(d, p, Endian::Big, n),
    decreases n,
{
    if n > 0 {
        assert(node_flipped_at(d, f, p, 0));
        lemma_patricia_node_flip(d, f, p);
        assert forall|i: int| 0 <= i < n - 1 implies #[trigger] node_flipped_at(d, f, p + 20, i) by {
            assert(node_flipped_at(d, f, p, i + 1));
        }
        lemma_patricia_nodes_flip(d, f, p + 20, n - 1);
    }
}

/// Two buffers hold the same trie at `p`, with every multi-byte field
/// byte-swapped: the root index, the node count, and every node.
pub open spec fn tree_flipped(d: Seq<u8>, f: Seq<u8>, p: int) -> bool {
    p + 8 <= d.len() ==> {
        &&& swapped4(d, f, p)
        &&& swapped4(d, f, p + 4)
        &&& forall|i: int|
            0 <= i < su32(d, p + 4, Endian::Big) ==> #[trigger] node_flipped_at(d, f, p + 8, i)
    }
}

/// Endianness independence of the trie: a trie whose multi-byte fields
/// are all stored byte-swapped decodes, in the opposite byte order, to
/// exactly the same trie — and therefore answers every lookup the same
/// way.
pub proof fn lemma_patricia_tree_flip(d: Seq<u8>, f: Seq<u8>, p: int)
    requires
        f.len() == d.len(),
        0 <= p,
        tree_flipped(d, f, p),
    ensures
        spec_patricia_tree(f, p, Endian::Little) == spec_patricia_tree(d, p, Endian::Big),
{
    if p + 8 <= d.len() {
        crate::bytes::lemma_su32_flip(d, p, f, p);
        crate::bytes::lemma_su32_flip(d, p + 4, f, p + 4);
        lemma_patricia_nodes_flip(d, f, p + 8, su32(d, p + 4, Endian::Big) as int);
    }
}

} // verus!
