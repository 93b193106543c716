use trie_node::nibbles::Nibbles;
use trie_node::node::{BranchError, BranchNode, ExtensionNode, HashNode, LeafNode, Node};

fn leaf(raw: &[u8], value: &[u8]) -> Node {
    Node::Leaf(LeafNode::new(Nibbles::from_raw(raw, true), value.to_vec()))
}

#[test]
fn test_swap() {
    let mut node = Node::Leaf(LeafNode::new(
        Nibbles::from_raw(b"123", true),
        b"123".to_vec(),
    ));
    let cp = node.clone();
    assert_eq!(node.take(), cp);
    assert_eq!(node, Node::Empty);
}

#[test]
fn take_leaf_abc_leaves_empty() {
    let initial = LeafNode::new(Nibbles::from_raw(b"abc", true), b"abc".to_vec()).into_node();
    let mut slot = initial.clone();
    let taken = slot.take();
    assert_eq!(taken, initial);
    assert_eq!(slot, Node::Empty);
}

#[test]
fn take_then_swap_back_restores_slot() {
    let v = ExtensionNode::new(Nibbles::from_raw(b"\x12", false), leaf(b"x", b"1")).into_node();
    let mut slot = v.clone();
    let taken = slot.take();
    assert_eq!(slot, Node::Empty);
    let back = slot.swap(taken);
    assert_eq!(back, Node::Empty);
    assert_eq!(slot, v);
}

#[test]
fn swap_twice_returns_prior_values() {
    let initial = leaf(b"k", b"orig");
    let a = leaf(b"k", b"a");
    let b = HashNode::new(&[1, 2, 3]).into_node();
    let mut slot = initial.clone();
    assert_eq!(slot.swap(a.clone()), initial);
    assert_eq!(slot, a);
    assert_eq!(slot.swap(b.clone()), a);
    assert_eq!(slot, b);
}

#[test]
fn new_branch_is_empty() {
    let branch = BranchNode::new();
    for i in 0..16 {
        assert_eq!(*branch.at_children(i), Node::Empty);
    }
    assert_eq!(branch.get_value(), None);
}

#[test]
fn insert_leaf_at_terminal_sets_value_only() {
    let mut branch = BranchNode::new();
    branch.insert(3, leaf(b"c", b"child")).unwrap();
    let before = branch.clone();
    assert_eq!(branch.insert(16, leaf(b"key", b"terminal")), Ok(()));
    assert_eq!(branch.get_value(), Some(&b"terminal"[..]));
    for i in 0..16 {
        assert_eq!(branch.at_children(i), before.at_children(i));
    }
}

#[test]
fn insert_non_leaf_at_terminal_fails() {
    let mut branch = BranchNode::new();
    branch.set_value(Some(b"kept".to_vec()));
    let before = branch.clone();
    assert_eq!(branch.insert(16, Node::Empty), Err(BranchError::NotALeaf));
    assert_eq!(
        branch.insert(16, HashNode::new(b"h").into_node()),
        Err(BranchError::NotALeaf)
    );
    assert_eq!(
        branch.insert(16, BranchNode::new().into_node()),
        Err(BranchError::NotALeaf)
    );
    assert_eq!(branch, before);
    assert_eq!(branch.get_value(), Some(&b"kept"[..]));
}

#[test]
fn insert_past_terminal_fails() {
    let mut branch = BranchNode::new();
    let before = branch.clone();
    assert_eq!(branch.insert(17, leaf(b"a", b"b")), Err(BranchError::IndexOutOfRange));
    assert_eq!(branch, before);
}

#[test]
fn insert_child_replaces_exactly_that_child() {
    let mut branch = BranchNode::new();
    branch.set_value(Some(b"v".to_vec()));
    branch.insert(0, leaf(b"a", b"0")).unwrap();
    branch.insert(15, leaf(b"b", b"15")).unwrap();
    let before = branch.clone();
    let child = HashNode::new(&[9, 9]).into_node();
    assert_eq!(branch.insert(7, child.clone()), Ok(()));
    assert_eq!(*branch.at_children(7), child);
    for i in 0..16 {
        if i != 7 {
            assert_eq!(branch.at_children(i), before.at_children(i));
        }
    }
    assert_eq!(branch.get_value(), Some(&b"v"[..]));
    let replacement = leaf(b"z", b"new");
    branch.insert(15, replacement.clone()).unwrap();
    assert_eq!(*branch.at_children(15), replacement);
}

#[test]
fn child_mut_writes_through() {
    let mut branch = BranchNode::new();
    *branch.child_mut(4) = leaf(b"q", b"4");
    assert_eq!(*branch.at_children(4), leaf(b"q", b"4"));
    let taken = branch.child_mut(4).take();
    assert_eq!(taken, leaf(b"q", b"4"));
    assert_eq!(*branch.at_children(4), Node::Empty);
}

#[test]
fn set_value_none_clears_value() {
    let mut branch = BranchNode::new();
    branch.set_value(Some(vec![1, 2]));
    assert_eq!(branch.get_value(), Some(&[1u8, 2][..]));
    branch.set_value(None);
    assert_eq!(branch.get_value(), None);
}

#[test]
fn same_constructions_are_equal() {
    let build = || {
        let mut branch = BranchNode::new();
        branch.insert(1, leaf(b"a", b"x")).unwrap();
        branch.insert(16, leaf(b"", b"t")).unwrap();
        ExtensionNode::new(Nibbles::from_raw(b"\xab", false), branch.into_node()).into_node()
    };
    assert_eq!(build(), build());
    assert_eq!(build().clone(), build());
}

#[test]
fn changed_leaf_value_breaks_equality() {
    assert_ne!(leaf(b"k", b"one"), leaf(b"k", b"two"));
    assert_ne!(leaf(b"k", b"one"), leaf(b"j", b"one"));
    assert_eq!(leaf(b"k", b"one"), leaf(b"k", b"one"));
}

#[test]
fn changed_branch_child_breaks_equality() {
    let mut x = BranchNode::new();
    let mut y = BranchNode::new();
    x.insert(2, leaf(b"a", b"1")).unwrap();
    y.insert(2, leaf(b"a", b"1")).unwrap();
    assert_eq!(x, y);
    y.insert(9, HashNode::new(b"h").into_node()).unwrap();
    assert_ne!(x, y);
    assert_ne!(x.clone().into_node(), y.clone().into_node());
}

#[test]
fn changed_extension_prefix_breaks_equality() {
    let x = ExtensionNode::new(Nibbles::from_raw(b"\x01", false), leaf(b"a", b"1"));
    let y = ExtensionNode::new(Nibbles::from_raw(b"\x02", false), leaf(b"a", b"1"));
    assert_ne!(x, y);
    assert_eq!(x, x.clone());
}

#[test]
fn different_kinds_are_not_equal() {
    assert_ne!(Node::Empty, HashNode::new(b"").into_node());
    assert_ne!(BranchNode::new().into_node(), Node::Empty);
    assert_ne!(leaf(b"", b""), HashNode::new(b"").into_node());
}

#[test]
fn extension_accessors() {
    let prefix = Nibbles::from_raw(b"\x5a", false);
    let mut ext = ExtensionNode::new(prefix.clone(), Node::Empty);
    assert_eq!(*ext.get_prefix(), prefix);
    assert_eq!(*ext.get_node(), Node::Empty);
    ext.set_node(leaf(b"b", b"2"));
    assert_eq!(*ext.get_node(), leaf(b"b", b"2"));
    assert_eq!(*ext.get_prefix(), prefix);
}

#[test]
fn leaf_and_hash_accessors() {
    let l = LeafNode::new(Nibbles::from_raw(b"ab", true), b"val".to_vec());
    assert_eq!(l.get_value(), b"val");
    assert_eq!(*l.get_key(), Nibbles::from_raw(b"ab", true));
    let h = HashNode::new(&[0xde, 0xad]);
    assert_eq!(h.get_hash(), &[0xde, 0xad]);
    assert_eq!(HashNode::new(&[]).get_hash(), &[] as &[u8]);
}

#[test]
fn nibbles_from_raw_splits_bytes() {
    let n = Nibbles::from_raw(b"\xab\x01", true);
    assert_eq!(n.len(), 5);
    assert_eq!(n.at(0), 10);
    assert_eq!(n.at(1), 11);
    assert_eq!(n.at(2), 0);
    assert_eq!(n.at(3), 1);
    assert_eq!(n.at(4), 16);
    assert!(n.is_leaf());
    let m = Nibbles::from_raw(b"\xab", false);
    assert_eq!(m.len(), 2);
    assert!(!m.is_leaf());
    assert_eq!(Nibbles::from_raw(b"", false).len(), 0);
    assert!(!Nibbles::from_raw(b"", false).is_leaf());
}
