use vstd::prelude::*;
use crate::nibbles::{bytes_eq, Nibbles};

verus! {

/// The mathematical value of a node: each payload by its contents, each child by its own value.
pub enum NodeModel {
    Empty,
    Leaf(Seq<u8>, Seq<u8>),
    Extension(Seq<u8>, Box<NodeModel>),
    Branch(Seq<NodeModel>, Option<Seq<u8>>),
    Hash(Seq<u8>),
}

/// The contents of an optional byte vector.
pub open spec fn opt_bytes(o: Option<Vec<u8>>) -> Option<Seq<u8>> {
    match o {
        Some(v) => Some(v@),
        None => None,
    }
}

/// A node of the trie: nothing, a leaf, an extension, a branch, or the hash of a subtree held
/// elsewhere.
#[derive(Debug)]
pub enum Node {
    Empty,
    Leaf(LeafNode),
    Extension(ExtensionNode),
    Branch(BranchNode),
    Hash(HashNode),
}

impl Node {
    /// The value of the tree rooted at this node.
    pub closed spec fn model(&self) -> NodeModel
        decreases self,
    {
        match self {
            Node::Empty => NodeModel::Empty,
            Node::Leaf(l) => NodeModel::Leaf(l.key@, l.value@),
            Node::Extension(e) => NodeModel::Extension(e.prefix@, Box::new(e.node.model())),
            Node::Branch(b) => NodeModel::Branch(
                Seq::new(
                    b.children@.len(),
                    |i: int|
                        if 0 <= i < b.children@.len() {
                            b.children@[i].model()
                        } else {
                            NodeModel::Empty
                        },
                ),
                opt_bytes(b.value),
            ),
            Node::Hash(h) => NodeModel::Hash(h.hash@),
        }
    }
}

impl View for Node {
    type V = NodeModel;

    open spec fn view(&self) -> NodeModel {
        self.model()
    }
}

/// Putting `n` into a slot that held `slot`: what comes back, and what the slot then holds.
pub open spec fn swapped(slot: Node, n: Node) -> (Node, Node) {
    (slot, n)
}

impl Node {
    /// Puts `n` in this slot and hands back what the slot held.
    pub fn swap(&mut self, n: Node) -> (r: Node)
        ensures
            (r, *final(self)) == swapped(*old(self), n),
    {
        let mut n = n;
        std::mem::swap(self, &mut n);
        n
    }

    /// Moves the node out of this slot, leaving `Empty` behind.
    pub fn take(&mut self) -> (r: Node)
        ensures
            (r, *final(self)) == swapped(*old(self), Node::Empty),
    {
        self.swap(Node::Empty)
    }
}

/// A terminal node: the rest of a key and its value.
#[derive(Debug, Default)]
pub struct LeafNode {
    pub(crate) key: Nibbles,
    pub(crate) value: Vec<u8>,
}

impl LeafNode {
    /// The key held by the leaf.
    pub closed spec fn spec_key(&self) -> Nibbles {
        self.key
    }

    /// The value held by the leaf.
    pub closed spec fn spec_value(&self) -> Vec<u8> {
        self.value
    }

    /// A leaf holding `key` and `value`.
    pub fn new(key: Nibbles, value: Vec<u8>) -> (r: Self)
        ensures
            r.spec_key() == key,
            r.spec_value() == value,
    {
        LeafNode { key, value }
    }

    /// The leaf's value.
    pub fn get_value(&self) -> (r: &[u8])
        ensures
            r@ == self.spec_value()@,
    {
        self.value.as_slice()
    }

    /// The leaf's key.
    pub fn get_key(&self) -> (r: &Nibbles)
        ensures
            *r == self.spec_key(),
    {
        &self.key
    }

    /// The leaf as a node.
    pub fn into_node(self) -> (r: Node)
        ensures
            r == Node::Leaf(self),
    {
        Node::Leaf(self)
    }
}

/// What can go wrong when writing into a branch by index.
#[derive(Debug, Clone, Copy, PartialEq, Eq, Structural)]
pub enum BranchError {
    /// The index is past the terminal slot.
    IndexOutOfRange,
    /// A node other than a leaf was given for the terminal slot.
    NotALeaf,
}

/// The index that stands for the branch's own value rather than a child.
pub const TERMINAL_INDEX: usize = 16;

/// A sixteen-way fork, one child for each nibble, with the value of a key that ends here.
#[derive(Debug)]
pub struct BranchNode {
    children: Vec<Node>,
    value: Option<Vec<u8>>,
}

impl BranchNode {
    #[verifier::type_invariant]
    closed spec fn sixteen_children(&self) -> bool {
        self.children@.len() == 16
    }

    /// The sixteen children, in nibble order.
    pub closed spec fn spec_children(&self) -> Seq<Node> {
        self.children@
    }

    /// The value of the key that ends at this branch, if any.
    pub closed spec fn spec_value(&self) -> Option<Vec<u8>> {
        self.value
    }

    /// A branch whose sixteen children are all `Empty` and which holds no value.
    pub fn new() -> (r: Self)
        ensures
            r.spec_children() == Seq::new(16, |i: int| Node::Empty),
            r.spec_value() is None,
    {
        let mut children: Vec<Node> = Vec::new();
        let mut k: usize = 0;
        while k < 16
            invariant
                k <= 16,
                children@ == Seq::new(k as nat, |i: int| Node::Empty),
            decreases 16 - k,
        {
            children.push(Node::Empty);
            k = k + 1;
            assert(children@ =~= Seq::new(k as nat, |i: int| Node::Empty));
        }
        BranchNode { children, value: None }
    }

    /// Child `i`.
    pub fn at_children(&self, i: usize) -> (r: &Node)
        requires
            i < 16,
        ensures
            *r == self.spec_children()[i as int],
    {
        proof {
            use_type_invariant(self);
        }
        &self.children[i]
    }

    /// Child `i`, to be changed in place.
    pub fn child_mut(&mut self, i: usize) -> (r: &mut Node)
        requires
            i < 16,
        ensures
            *r == old(self).spec_children()[i as int],
            final(self).spec_children() == old(self).spec_children().update(i as int, *final(r)),
            final(self).spec_value() == old(self).spec_value(),
    {
        proof {
            use_type_invariant(&*self);
        }
        &mut self.children[i]
    }

    /// Writes `n` as child `i` below `TERMINAL_INDEX`; at `TERMINAL_INDEX`, stores the value
    /// of the leaf `n` as the branch's own value and drops its key.
    pub fn insert(&mut self, i: usize, n: Node) -> (r: Result<(), BranchError>)
        ensures
            r is Ok <==> (i < 16 || (i == 16 && n is Leaf)),
            i > 16 ==> r == Err::<(), BranchError>(BranchError::IndexOutOfRange),
            i == 16 && !(n is Leaf) ==> r == Err::<(), BranchError>(BranchError::NotALeaf),
            r is Err ==> *final(self) == *old(self),
            i < 16 ==> final(self).spec_children() == old(self).spec_children().update(i as int, n)
                && final(self).spec_value() == old(self).spec_value(),
            i == 16 && n is Leaf ==> final(self).spec_children() == old(self).spec_children()
                && final(self).spec_value() == Some(n->Leaf_0.spec_value()),
    {
        proof {
            use_type_invariant(&*self);
        }
        if i == TERMINAL_INDEX {
            match n {
                Node::Leaf(leaf) => {
                    self.value = Some(leaf.value);
                    Ok(())
                },
                _ => Err(BranchError::NotALeaf),
            }
        } else if i < TERMINAL_INDEX {
            self.children[i] = n;
            Ok(())
        } else {
            Err(BranchError::IndexOutOfRange)
        }
    }

    /// The value of the key that ends at this branch, if any.
    pub fn get_value(&self) -> (r: Option<&[u8]>)
        ensures
            r is None <==> self.spec_value() is None,
            r is Some ==> r->0@ == self.spec_value()->0@,
    {
        match &self.value {
            Some(v) => Some(v.as_slice()),
            None => None,
        }
    }

    /// Replaces the branch's own value; the children stay.
    pub fn set_value(&mut self, value: Option<Vec<u8>>)
        ensures
            final(self).spec_value() == value,
            final(self).spec_children() == old(self).spec_children(),
    {
        proof {
            use_type_invariant(&*self);
        }
        self.value = value
    }

    /// The branch as a node.
    pub fn into_node(self) -> (r: Node)
        ensures
            r == Node::Branch(self),
    {
        Node::Branch(self)
    }
}

/// A shared key prefix over exactly one child.
#[derive(Debug)]
pub struct ExtensionNode {
    pub(crate) prefix: Nibbles,
    pub(crate) node: Box<Node>,
}

impl ExtensionNode {
    /// The shared prefix.
    pub closed spec fn spec_prefix(&self) -> Nibbles {
        self.prefix
    }

    /// The one child.
    pub closed spec fn spec_node(&self) -> Node {
        *self.node
    }

    /// An extension of `prefix` over `node`.
    pub fn new(prefix: Nibbles, node: Node) -> (r: Self)
        ensures
            r.spec_prefix() == prefix,
            r.spec_node() == node,
    {
        ExtensionNode { prefix, node: Box::new(node) }
    }

    /// The shared prefix.
    pub fn get_prefix(&self) -> (r: &Nibbles)
        ensures
            *r == self.spec_prefix(),
    {
        &self.prefix
    }

    /// The child.
    pub fn get_node(&self) -> (r: &Node)
        ensures
            *r == self.spec_node(),
    {
        &self.node
    }

    /// Replaces the child with `n`; the prefix stays.
    pub fn set_node(&mut self, n: Node)
        ensures
            final(self).spec_node() == n,
            final(self).spec_prefix() == old(self).spec_prefix(),
    {
        self.node = Box::new(n)
    }

    /// The extension as a node.
    pub fn into_node(self) -> (r: Node)
        ensures
            r == Node::Extension(self),
    {
        Node::Extension(self)
    }
}

/// The hash of a subtree that is not held in memory.
#[derive(Debug, Default)]
pub struct HashNode {
    hash: Vec<u8>,
}

impl HashNode {
    /// The hash bytes.
    pub closed spec fn spec_hash(&self) -> Seq<u8> {
        self.hash@
    }

    /// A hash node holding a copy of `hash`.
    pub fn new(hash: &[u8]) -> (r: Self)
        ensures
            r.spec_hash() == hash@,
    {
        HashNode { hash: vstd::slice::slice_to_vec(hash) }
    }

    /// The hash bytes.
    pub fn get_hash(&self) -> (r: &[u8])
        ensures
            r@ == self.spec_hash(),
    {
        self.hash.as_slice()
    }

    /// The hash node as a node.
    pub fn into_node(self) -> (r: Node)
        ensures
            r == Node::Hash(self),
    {
        Node::Hash(self)
    }
}

impl View for LeafNode {
    type V = (Seq<u8>, Seq<u8>);

    closed spec fn view(&self) -> (Seq<u8>, Seq<u8>) {
        (self.key@, self.value@)
    }
}

impl View for BranchNode {
    type V = (Seq<NodeModel>, Option<Seq<u8>>);

    closed spec fn view(&self) -> (Seq<NodeModel>, Option<Seq<u8>>) {
        (
            Seq::new(
                self.children@.len(),
                |i: int|
                    if 0 <= i < self.children@.len() {
                        self.children@[i].model()
                    } else {
                        NodeModel::Empty
                    },
            ),
            opt_bytes(self.value),
        )
    }
}

/// The value of a branch node is the value of its children and of its own value.
proof fn lemma_branch_model(b: BranchNode)
    ensures
        Node::Branch(b)@ == NodeModel::Branch(b@.0, b@.1),
{
    assert(Node::Branch(b).model()->Branch_0 =~= b@.0);
}

impl View for ExtensionNode {
    type V = (Seq<u8>, NodeModel);

    closed spec fn view(&self) -> (Seq<u8>, NodeModel) {
        (self.prefix@, self.node@)
    }
}

impl View for HashNode {
    type V = Seq<u8>;

    closed spec fn view(&self) -> Seq<u8> {
        self.hash@
    }
}

fn copy_bytes(v: &Vec<u8>) -> (r: Vec<u8>)
    ensures
        r@ == v@,
{
    vstd::slice::slice_to_vec(v.as_slice())
}

/// A deep copy of `n`.
fn copy_node(n: &Node) -> (r: Node)
    ensures
        r@ == n@,
    decreases n,
{
    match n {
        Node::Empty => Node::Empty,
        Node::Leaf(l) => Node::Leaf(LeafNode { key: l.key.clone(), value: copy_bytes(&l.value) }),
        Node::Extension(e) => {
            let child = copy_node(&e.node);
            Node::Extension(ExtensionNode { prefix: e.prefix.clone(), node: Box::new(child) })
        },
        Node::Branch(b) => {
            let c = copy_branch(b);
            proof {
                lemma_branch_model(c);
                lemma_branch_model(*b);
            }
            Node::Branch(c)
        },
        Node::Hash(h) => Node::Hash(HashNode { hash: copy_bytes(&h.hash) }),
    }
}

fn copy_branch(b: &BranchNode) -> (r: BranchNode)
    ensures
        r@ == b@,
    decreases b,
{
    proof {
        use_type_invariant(b);
    }
    let mut children: Vec<Node> = Vec::new();
    let mut k: usize = 0;
    while k < 16
        invariant
            k <= 16,
            b.children@.len() == 16,
            children@.len() == k,
            forall|j: int| 0 <= j < k ==> #[trigger] children@[j]@ == b.children@[j]@,
        decreases 16 - k,
    {
        proof {
            assert(decreases_to!(b => b.children@[k as int]));
        }
        let c = copy_node(&b.children[k]);
        children.push(c);
        k = k + 1;
    }
    let value = match &b.value {
        Some(v) => Some(copy_bytes(v)),
        None => None,
    };
    let r = BranchNode { children, value };
    assert forall|j: int| 0 <= j < 16 implies r@.0[j] == b@.0[j] by {
        assert(children@[j]@ == b.children@[j]@);
    }
    assert(r@.0 =~= b@.0);
    r
}

impl Clone for Node {
    fn clone(&self) -> (r: Self)
        ensures
            r@ == self@,
    {
        copy_node(self)
    }
}

impl Clone for LeafNode {
    fn clone(&self) -> (r: Self)
        ensures
            r@ == self@,
    {
        LeafNode { key: self.key.clone(), value: copy_bytes(&self.value) }
    }
}

impl Clone for BranchNode {
    fn clone(&self) -> (r: Self)
        ensures
            r@ == self@,
    {
        copy_branch(self)
    }
}

impl Clone for ExtensionNode {
    fn clone(&self) -> (r: Self)
        ensures
            r@ == self@,
    {
        ExtensionNode { prefix: self.prefix.clone(), node: Box::new(copy_node(&self.node)) }
    }
}

impl Clone for HashNode {
    fn clone(&self) -> (r: Self)
        ensures
            r@ == self@,
    {
        HashNode { hash: copy_bytes(&self.hash) }
    }
}

/// Whether the trees rooted at `a` and `b` have the same value.
fn node_eq(a: &Node, b: &Node) -> (r: bool)
    ensures
        r == (a@ == b@),
    decreases a,
{
    match (a, b) {
        (Node::Empty, Node::Empty) => true,
        (Node::Leaf(x), Node::Leaf(y)) => leaf_eq(x, y),
        (Node::Extension(x), Node::Extension(y)) => {
            let same_prefix = x.prefix == y.prefix;
            same_prefix && node_eq(&x.node, &y.node)
        },
        (Node::Branch(x), Node::Branch(y)) => {
            proof {
                lemma_branch_model(*x);
                lemma_branch_model(*y);
            }
            branch_eq(x, y)
        },
        (Node::Hash(x), Node::Hash(y)) => bytes_eq(x.hash.as_slice(), y.hash.as_slice()),
        _ => false,
    }
}

fn leaf_eq(a: &LeafNode, b: &LeafNode) -> (r: bool)
    ensures
        r == (a@ == b@),
{
    let same_key = a.key == b.key;
    same_key && bytes_eq(a.value.as_slice(), b.value.as_slice())
}

fn opt_bytes_eq(a: &Option<Vec<u8>>, b: &Option<Vec<u8>>) -> (r: bool)
    ensures
        r == (opt_bytes(*a) == opt_bytes(*b)),
{
    match (a, b) {
        (Some(x), Some(y)) => bytes_eq(x.as_slice(), y.as_slice()),
        (None, None) => true,
        _ => false,
    }
}

fn branch_eq(a: &BranchNode, b: &BranchNode) -> (r: bool)
    ensures
        r == (a@ == b@),
    decreases a,
{
    proof {
        use_type_invariant(a);
        use_type_invariant(b);
    }
    let mut k: usize = 0;
    while k < 16
        invariant
            k <= 16,
            a.children@.len() == 16,
            b.children@.len() == 16,
            forall|j: int| 0 <= j < k ==> #[trigger] a.children@[j]@ == b.children@[j]@,
        decreases 16 - k,
    {
        proof {
            assert(decreases_to!(a => a.children@[k as int]));
        }
        if !node_eq(&a.children[k], &b.children[k]) {
            assert(a@.0[k as int] != b@.0[k as int]);
            return false;
        }
        k = k + 1;
    }
    assert forall|j: int| 0 <= j < 16 implies a@.0[j] == b@.0[j] by {
        assert(a.children@[j]@ == b.children@[j]@);
    }
    assert(a@.0 =~= b@.0);
    opt_bytes_eq(&a.value, &b.value)
}

impl PartialEq for Node {
    fn eq(&self, other: &Node) -> (r: bool) {
        node_eq(self, other)
    }
}

impl vstd::std_specs::cmp::PartialEqSpecImpl for Node {
    open spec fn obeys_eq_spec() -> bool {
        true
    }

    open spec fn eq_spec(&self, other: &Node) -> bool {
        self@ == other@
    }
}

impl Eq for Node {

}

impl PartialEq for LeafNode {
    fn eq(&self, other: &LeafNode) -> (r: bool) {
        leaf_eq(self, other)
    }
}

impl vstd::std_specs::cmp::PartialEqSpecImpl for LeafNode {
    open spec fn obeys_eq_spec() -> bool {
        true
    }

    open spec fn eq_spec(&self, other: &LeafNode) -> bool {
        self@ == other@
    }
}

impl Eq for LeafNode {

}

impl PartialEq for BranchNode {
    fn eq(&self, other: &BranchNode) -> (r: bool) {
        branch_eq(self, other)
    }
}

impl vstd::std_specs::cmp::PartialEqSpecImpl for BranchNode {
    open spec fn obeys_eq_spec() -> bool {
        true
    }

    open spec fn eq_spec(&self, other: &BranchNode) -> bool {
        self@ == other@
    }
}

impl Eq for BranchNode {

}

impl PartialEq for ExtensionNode {
    fn eq(&self, other: &ExtensionNode) -> (r: bool) {
        let same_prefix = self.prefix == other.prefix;
        same_prefix && node_eq(&self.node, &other.node)
    }
}

impl vstd::std_specs::cmp::PartialEqSpecImpl for ExtensionNode {
    open spec fn obeys_eq_spec() -> bool {
        true
    }

    open spec fn eq_spec(&self, other: &ExtensionNode) -> bool {
        self@ == other@
    }
}

impl Eq for ExtensionNode {

}

impl PartialEq for HashNode {
    fn eq(&self, other: &HashNode) -> (r: bool) {
        bytes_eq(self.hash.as_slice(), other.hash.as_slice())
    }
}

impl vstd::std_specs::cmp::PartialEqSpecImpl for HashNode {
    open spec fn obeys_eq_spec() -> bool {
        true
    }

    open spec fn eq_spec(&self, other: &HashNode) -> bool {
        self@ == other@
    }
}

impl Eq for HashNode {

}

/// Taking the node `v` out of a slot leaves `Empty` there, and putting the taken node back
/// leaves the slot holding `v` again, with `Empty` handed back.
pub proof fn lemma_take_then_restore(v: Node)
    ensures
        swapped(v, Node::Empty).1 == Node::Empty,
        swapped(swapped(v, Node::Empty).1, swapped(v, Node::Empty).0) == (Node::Empty, v),
{
}

/// Swapping `a` and then `b` into a slot that held `s` hands back `s`, then `a`, and leaves `b`
/// in the slot.
pub proof fn lemma_swap_twice(s: Node, a: Node, b: Node)
    ensures
        swapped(s, a) == (s, a),
        swapped(swapped(s, a).1, b) == (a, b),
{
}

/// Two leaves are equal exactly when their keys and their values are.
pub proof fn lemma_leaf_equality(x: LeafNode, y: LeafNode)
    ensures
        Node::Leaf(x)@ == Node::Leaf(y)@ <==> (x.spec_key()@ == y.spec_key()@
            && x.spec_value()@ == y.spec_value()@),
        x@ == y@ <==> Node::Leaf(x)@ == Node::Leaf(y)@,
{
}

/// Two extensions are equal exactly when their prefixes and their children are.
pub proof fn lemma_extension_equality(x: ExtensionNode, y: ExtensionNode)
    ensures
        Node::Extension(x)@ == Node::Extension(y)@ <==> (x.spec_prefix()@ == y.spec_prefix()@
            && x.spec_node()@ == y.spec_node()@),
        x@ == y@ <==> Node::Extension(x)@ == Node::Extension(y)@,
{
}

/// Two branches are equal exactly when each child equals the child at the same index and
/// their own values hold the same bytes.
pub proof fn lemma_branch_equality(x: BranchNode, y: BranchNode)
    ensures
        Node::Branch(x)@ == Node::Branch(y)@ <==> {
            &&& x.spec_children().len() == y.spec_children().len()
            &&& forall|i: int|
                0 <= i < x.spec_children().len() ==> #[trigger] x.spec_children()[i]@
                    == y.spec_children()[i]@
            &&& opt_bytes(x.spec_value()) == opt_bytes(y.spec_value())
        },
        x@ == y@ <==> Node::Branch(x)@ == Node::Branch(y)@,
{
    lemma_branch_model(x);
    lemma_branch_model(y);
    let cx = x.spec_children();
    let cy = y.spec_children();
    assert(x@.0.len() == cx.len() && y@.0.len() == cy.len());
    assert forall|i: int| 0 <= i < cx.len() implies #[trigger] x@.0[i] == cx[i]@ by {}
    assert forall|i: int| 0 <= i < cy.len() implies #[trigger] y@.0[i] == cy[i]@ by {}
    if cx.len() == cy.len() && (forall|i: int| 0 <= i < cx.len() ==> #[trigger] cx[i]@ == cy[i]@) {
        assert forall|i: int| 0 <= i < cx.len() implies x@.0[i] == y@.0[i] by {
            assert(cx[i]@ == cy[i]@);
        }
        assert(x@.0 =~= y@.0);
    }
    if x@.0 == y@.0 {
        assert forall|i: int| 0 <= i < cx.len() implies #[trigger] cx[i]@ == cy[i]@ by {
            assert(x@.0[i] == y@.0[i]);
        }
    }
}

/// Two hash nodes are equal exactly when their hashes hold the same bytes.
pub proof fn lemma_hash_equality(x: HashNode, y: HashNode)
    ensures
        Node::Hash(x)@ == Node::Hash(y)@ <==> x.spec_hash() == y.spec_hash(),
        x@ == y@ <==> Node::Hash(x)@ == Node::Hash(y)@,
{
}

/// Nodes of different kinds are never equal.
pub proof fn lemma_kinds_differ(x: Node, y: Node)
    requires
        x is Empty != y is Empty || x is Leaf != y is Leaf || x is Extension != y is Extension
            || x is Branch != y is Branch || x is Hash != y is Hash,
    ensures
        x@ != y@,
{
}

} // verus!
