use trie_nodes::branch::BranchNode;
use trie_nodes::rlp::RlpNodes;

fn fragment(bytes: &[u8]) -> RlpNodes {
    RlpNodes::from_raw(bytes).unwrap()
}

#[test]
fn empty_branch_payload_length_is_17() {
    let branch = BranchNode::default();
    assert_eq!(branch.rlp_payload_length(), 17);
}

#[test]
fn new_branch_with_value_counts_value_bytes() {
    let children: [Vec<RlpNodes>; 16] = Default::default();
    let branch = BranchNode::new(children, Some(vec![0xAA, 0xBB, 0xCC]));
    // 16 empty-slot placeholders plus the three value bytes.
    assert_eq!(branch.rlp_payload_length(), 19);
}

#[test]
fn occupied_slot_contributes_its_fragment_count() {
    let mut branch = BranchNode::default();
    branch.set_child(vec![fragment(&[0x01, 0x02, 0x03])], 5);
    // One fragment replaces the empty-slot placeholder: net length unchanged.
    assert_eq!(branch.rlp_payload_length(), 17);

    branch.set_child(vec![fragment(&[0x01]), fragment(&[0x02])], 5);
    // Two fragments exceed the placeholder by exactly one.
    assert_eq!(branch.rlp_payload_length(), 18);
}

#[test]
fn set_child_then_get_child_returns_same_fragments() {
    let mut branch = BranchNode::default();
    for index in 0..16 {
        let fragments = vec![fragment(&[index as u8, 0x10])];
        branch.set_child(fragments.clone(), index);
        assert_eq!(branch.get_child(index), Some(&fragments));
    }
    assert_eq!(branch.get_child(16), None);
    assert_eq!(branch.get_child(100), None);
}

#[test]
fn set_child_with_empty_fragments_clears_slot() {
    let mut branch = BranchNode::default();
    branch.set_child(vec![fragment(&[0x09])], 7);
    assert!(branch.get_child(7).is_some());
    branch.set_child(Vec::new(), 7);
    assert_eq!(branch.get_child(7), None);
}

#[test]
fn batch_set_children_last_write_wins() {
    let f1 = vec![fragment(&[0x01])];
    let f2 = vec![fragment(&[0x02, 0x03])];

    let mut batched = BranchNode::default();
    batched.batch_set_children(vec![(4, f1.clone()), (4, f2.clone())]);
    assert_eq!(batched.get_child(4), Some(&f2));

    let mut sequential = BranchNode::default();
    sequential.set_child(f1, 4);
    sequential.set_child(f2.clone(), 4);
    assert_eq!(sequential.get_child(4), batched.get_child(4));
}

#[test]
fn batch_set_children_fills_distinct_slots() {
    let mut branch = BranchNode::default();
    let f0 = vec![fragment(&[0xA0])];
    let f9 = vec![fragment(&[0xA9]), fragment(&[0xB9])];
    branch.batch_set_children(vec![(0, f0.clone()), (9, f9.clone())]);
    assert_eq!(branch.get_child(0), Some(&f0));
    assert_eq!(branch.get_child(9), Some(&f9));
    assert_eq!(branch.get_child(1), None);
}

#[test]
fn batch_get_children_preserves_order_of_indices() {
    let mut branch = BranchNode::default();
    let f3 = vec![fragment(&[0x33])];
    branch.set_child(f3.clone(), 3);

    let results = branch.batch_get_children(&[3, 0, 16, 99, 3]);
    assert_eq!(results.len(), 5);
    assert_eq!(results[0], Some(&f3));
    assert_eq!(results[1], None);
    assert_eq!(results[2], None);
    assert_eq!(results[3], None);
    assert_eq!(results[4], Some(&f3));
}
