use brsar_rs::common::Endian;
use brsar_rs::error::DecodeError;
use brsar_rs::patricia::{decode_patricia_tree, PatriciaNode, PatriciaTree, TreeData};

fn leaf(string_index: u32, item_index: u32) -> PatriciaNode {
    PatriciaNode {
        is_leaf: true,
        bit_index: 0,
        left_child: None,
        right_child: None,
        data: TreeData { string_index, item_index },
    }
}

fn inner(bit_index: u16, left: Option<u32>, right: Option<u32>) -> PatriciaNode {
    PatriciaNode {
        is_leaf: false,
        bit_index,
        left_child: left,
        right_child: right,
        data: TreeData { string_index: 0xDEAD, item_index: 0xBEEF },
    }
}

#[test]
fn s3_prefix_stop_returns_node_payload() {
    // The root tests bit 100, far past the 32-bit key: the walk stops
    // there and returns the root's own payload.
    let root = PatriciaNode {
        is_leaf: false,
        bit_index: 100,
        left_child: Some(1),
        right_child: None,
        data: TreeData { string_index: 11, item_index: 22 },
    };
    let t = PatriciaTree { root_index: 0, nodes: vec![root, leaf(7, 9)] };
    let r = t.search(b"ab\0\0").expect("prefix stop yields a payload");
    assert_eq!(r.string_index, 11);
    assert_eq!(r.item_index, 22);
}

#[test]
fn p4_round_trip_two_leaves() {
    // "a" = 0x61 and "b" = 0x62 first differ at bit 6 (MSB-first).
    let t = PatriciaTree {
        root_index: 0,
        nodes: vec![inner(6, Some(1), Some(2)), leaf(0, 10), leaf(1, 20)],
    };
    let ra = t.search(b"a").unwrap();
    assert_eq!(ra.string_index, 0);
    assert_eq!(ra.item_index, 10);
    let rb = t.search(b"b").unwrap();
    assert_eq!(rb.string_index, 1);
    assert_eq!(rb.item_index, 20);
}

#[test]
fn p5_get_agrees_with_node_array() {
    let t = PatriciaTree {
        root_index: 0,
        nodes: vec![inner(6, Some(1), Some(2)), leaf(0, 10), leaf(1, 20)],
    };
    for i in 0..t.nodes.len() {
        assert_eq!(t.get(i), Some(t.nodes[i].data));
    }
    assert_eq!(t.get(3), None);
    assert_eq!(t.get(1000), None);
}

#[test]
fn empty_tree_finds_nothing() {
    let t = PatriciaTree { root_index: 0xFFFFFFFF, nodes: vec![] };
    assert_eq!(t.search(b"boom"), None);
    assert_eq!(t.lookup(b"boom"), Err(DecodeError::NotFound));
}

#[test]
fn sentinel_branch_is_not_found() {
    // Bit 6 of "b" is 1 and the right branch is the sentinel.
    let t = PatriciaTree { root_index: 0, nodes: vec![inner(6, Some(1), None), leaf(0, 10)] };
    assert_eq!(t.search(b"b"), None);
}

#[test]
fn cyclic_node_array_terminates_without_result() {
    // Two inner nodes pointing at each other can trap the walk; the
    // lookup runs out of fuel and reports nothing.
    let t = PatriciaTree {
        root_index: 0,
        nodes: vec![inner(0, Some(1), Some(1)), inner(1, Some(0), Some(0))],
    };
    assert_eq!(t.search(b"ab"), None);
}

#[test]
fn out_of_range_root_is_not_found() {
    let t = PatriciaTree { root_index: 5, nodes: vec![leaf(1, 2)] };
    assert_eq!(t.search(b"x"), None);
}

#[test]
fn decode_tree_from_bytes() {
    // root_index, node_count, then one inner and two leaf nodes of
    // twenty bytes each, big-endian.
    let mut b: Vec<u8> = Vec::new();
    b.extend_from_slice(&0u32.to_be_bytes()); // root_index
    b.extend_from_slice(&3u32.to_be_bytes()); // node_count
    // inner node testing bit 6
    b.extend_from_slice(&0u16.to_be_bytes());
    b.extend_from_slice(&6u16.to_be_bytes());
    b.extend_from_slice(&1u32.to_be_bytes());
    b.extend_from_slice(&2u32.to_be_bytes());
    b.extend_from_slice(&0xDEADu32.to_be_bytes());
    b.extend_from_slice(&0xBEEFu32.to_be_bytes());
    // leaf for "a"
    b.extend_from_slice(&1u16.to_be_bytes());
    b.extend_from_slice(&0u16.to_be_bytes());
    b.extend_from_slice(&0xFFFFFFFFu32.to_be_bytes());
    b.extend_from_slice(&0xFFFFFFFFu32.to_be_bytes());
    b.extend_from_slice(&0u32.to_be_bytes());
    b.extend_from_slice(&10u32.to_be_bytes());
    // leaf for "b"
    b.extend_from_slice(&1u16.to_be_bytes());
    b.extend_from_slice(&0u16.to_be_bytes());
    b.extend_from_slice(&0xFFFFFFFFu32.to_be_bytes());
    b.extend_from_slice(&0xFFFFFFFFu32.to_be_bytes());
    b.extend_from_slice(&1u32.to_be_bytes());
    b.extend_from_slice(&20u32.to_be_bytes());
    let t = decode_patricia_tree(&b, 0, Endian::Big).expect("tree should decode");
    assert_eq!(t.root_index, 0);
    assert_eq!(t.nodes.len(), 3);
    assert!(!t.nodes[0].is_leaf);
    assert_eq!(t.nodes[0].bit_index, 6);
    assert_eq!(t.nodes[0].left_child, Some(1));
    assert_eq!(t.nodes[0].right_child, Some(2));
    assert!(t.nodes[1].is_leaf);
    assert_eq!(t.nodes[1].left_child, None); // sentinel children
    assert_eq!(t.search(b"a").unwrap().item_index, 10);
    assert_eq!(t.search(b"b").unwrap().item_index, 20);
}

#[test]
fn decode_tree_truncated_nodes_is_eof() {
    let mut b: Vec<u8> = Vec::new();
    b.extend_from_slice(&0u32.to_be_bytes());
    b.extend_from_slice(&2u32.to_be_bytes()); // two nodes promised
    b.extend_from_slice(&[0u8; 20]); // only one present
    assert_eq!(decode_patricia_tree(&b, 0, Endian::Big), Err(DecodeError::UnexpectedEof));
}
