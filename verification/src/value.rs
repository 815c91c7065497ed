//! Ruby input values as an arena of plain nodes.
//!
//! Every node that holds other nodes (the items of an array, the keys and
//! values of a hash) refers to them by their index in the arena, and each
//! such index is smaller than the node's own: the arena is built bottom-up,
//! so it can describe any finite Ruby value and holds no cycles.
use vstd::prelude::*;

verus! {

/// What kind of Ruby object a node stands for, with what the coercion
/// rules read from it.
pub enum NodeKind {
    /// `nil`.
    Nil,
    /// `true` or `false`.
    Boolean(bool),
    /// An `Integer` that fits in 64 bits.
    Integer(i64),
    /// An `Integer` outside the 64-bit range.
    BigInteger,
    /// A `Float`.
    Float,
    /// A `String`, with its text when its bytes convert to UTF-8 text
    /// (`None` for one whose bytes do not, such as invalid or binary data).
    String(Option<String>),
    /// An `Array`, with the indices of its items in order.
    Array(Vec<usize>),
    /// A `Hash`, with the indices of its key and value nodes, in the
    /// hash's order, and whether it compares its keys by identity
    /// (`compare_by_identity`), in which case looking up a newly made
    /// string finds no entry.
    Hash(Vec<(usize, usize)>, bool),
    /// Any other object, with the string that its `to_str` gives, for an
    /// object that Ruby converts to a string implicitly.
    Object(Option<String>),
}

/// One Ruby value: its kind, the public name under which error messages
/// mention it, and the registered classes (by id) that it is a kind of.
pub struct InputNode {
    pub kind: NodeKind,
    pub public_name: String,
    pub kind_of: Vec<u64>,
}

/// The indices that a node refers to.
pub open spec fn node_children(kind: NodeKind) -> Set<int> {
    match kind {
        NodeKind::Array(items) => Set::new(|c: int| exists|j: int| 0 <= j < items@.len() && items@[j] == c),
        NodeKind::Hash(entries, _) => Set::new(
            |c: int|
                exists|j: int|
                    0 <= j < entries@.len() && (entries@[j].0 == c || entries@[j].1 == c),
        ),
        _ => Set::empty(),
    }
}

/// Each node refers only to nodes before it.
pub open spec fn nodes_wf(nodes: Seq<InputNode>) -> bool {
    forall|i: int, c: int|
        0 <= i < nodes.len() && #[trigger] node_children(nodes[i].kind).contains(c) ==> 0 <= c < i
}

/// The items of an array node come before it.
pub proof fn lemma_array_items(nodes: Seq<InputNode>, node: int)
    requires
        nodes_wf(nodes),
        0 <= node < nodes.len(),
        nodes[node].kind is Array,
    ensures
        forall|m: int| 0 <= m < nodes[node].kind->Array_0@.len()
            ==> #[trigger] nodes[node].kind->Array_0@[m] < node,
{
    let items = nodes[node].kind->Array_0@;
    assert forall|m: int| 0 <= m < items.len() implies #[trigger] items[m] < node by {
        assert(node_children(nodes[node].kind).contains(items[m] as int));
    }
}

/// The keys and values of a hash node come before it.
pub proof fn lemma_hash_entries(nodes: Seq<InputNode>, node: int)
    requires
        nodes_wf(nodes),
        0 <= node < nodes.len(),
        nodes[node].kind is Hash,
    ensures
        forall|m: int| 0 <= m < nodes[node].kind->Hash_0@.len()
            ==> (#[trigger] nodes[node].kind->Hash_0@[m]).0 < node
                && nodes[node].kind->Hash_0@[m].1 < node,
{
    let entries = nodes[node].kind->Hash_0@;
    assert forall|m: int| 0 <= m < entries.len() implies (#[trigger] entries[m]).0 < node && entries[m].1 < node by {
        assert(node_children(nodes[node].kind).contains(entries[m].0 as int));
        assert(node_children(nodes[node].kind).contains(entries[m].1 as int));
    }
}

/// An arena of Ruby values, built bottom-up.
pub struct InputValues {
    nodes: Vec<InputNode>,
}

impl InputValues {
    #[verifier::type_invariant]
    spec fn inv(self) -> bool {
        nodes_wf(self.nodes@)
    }

    /// The nodes of the arena.
    pub closed spec fn nodes_spec(&self) -> Seq<InputNode> {
        self.nodes@
    }

    /// An empty arena.
    pub fn new() -> (r: Self)
        ensures
            r.nodes_spec().len() == 0,
    {
        InputValues { nodes: Vec::new() }
    }

    /// The nodes of the arena; each refers only to nodes before it.
    pub fn nodes(&self) -> (r: &Vec<InputNode>)
        ensures
            r@ == self.nodes_spec(),
            nodes_wf(r@),
    {
        proof {
            use_type_invariant(self);
        }
        &self.nodes
    }

    /// The number of nodes.
    pub fn len(&self) -> (r: usize)
        ensures
            r == self.nodes_spec().len(),
    {
        self.nodes.len()
    }

    /// Appends `node` and returns its index, or returns `None` and leaves
    /// the arena unchanged when `node` refers to an index that is not
    /// already in the arena.
    pub fn push(&mut self, node: InputNode) -> (r: Option<usize>)
        ensures
            (forall|c: int| #[trigger] node_children(node.kind).contains(c) ==> 0 <= c < old(self).nodes_spec().len())
                ==> r == Some(old(self).nodes_spec().len() as usize)
                && final(self).nodes_spec() == old(self).nodes_spec().push(node),
            !(forall|c: int| #[trigger] node_children(node.kind).contains(c) ==> 0 <= c < old(self).nodes_spec().len())
                ==> r is None && final(self).nodes_spec() == old(self).nodes_spec(),
    {
        proof {
            use_type_invariant(&*self);
        }
        let n = self.nodes.len();
        let ok = match &node.kind {
            NodeKind::Array(items) => {
                let mut ok = true;
                let mut j: usize = 0;
                while j < items.len()
                    invariant
                        j <= items@.len(),
                        ok <==> forall|m: int| 0 <= m < j ==> items@[m] < n,
                    decreases items@.len() - j,
                {
                    if items[j] >= n {
                        ok = false;
                    }
                    j = j + 1;
                }
                ok
            },
            NodeKind::Hash(entries, _) => {
                let mut ok = true;
                let mut j: usize = 0;
                while j < entries.len()
                    invariant
                        j <= entries@.len(),
                        ok <==> forall|m: int|
                            0 <= m < j ==> entries@[m].0 < n && entries@[m].1 < n,
                    decreases entries@.len() - j,
                {
                    if entries[j].0 >= n || entries[j].1 >= n {
                        ok = false;
                    }
                    j = j + 1;
                }
                ok
            },
            _ => true,
        };
        proof {
            let kids = node_children(node.kind);
            if ok {
                assert forall|c: int| #[trigger] kids.contains(c) implies 0 <= c < n by {
                    match &node.kind {
                        NodeKind::Array(items) => {
                            let j = choose|j: int| 0 <= j < items@.len() && items@[j] == c;
                        },
                        NodeKind::Hash(entries, _) => {
                            let j = choose|j: int|
                                0 <= j < entries@.len() && (entries@[j].0 == c || entries@[j].1 == c);
                        },
                        _ => {},
                    }
                }
            } else {
                match &node.kind {
                    NodeKind::Array(items) => {
                        let m = choose|m: int| 0 <= m < items@.len() && !(items@[m] < n);
                        assert(kids.contains(items@[m] as int));
                    },
                    NodeKind::Hash(entries, _) => {
                        let m = choose|m: int|
                            0 <= m < entries@.len() && !(entries@[m].0 < n && entries@[m].1 < n);
                        if !(entries@[m].0 < n) {
                            assert(kids.contains(entries@[m].0 as int));
                        } else {
                            assert(kids.contains(entries@[m].1 as int));
                        }
                    },
                    _ => {},
                }
            }
        }
        if ok {
            let mut nodes: Vec<InputNode> = Vec::new();
            std::mem::swap(&mut nodes, &mut self.nodes);
            nodes.push(node);
            proof {
                assert forall|i: int, c: int|
                    0 <= i < nodes@.len() && #[trigger] node_children(nodes@[i].kind).contains(c)
                    implies 0 <= c < i by {
                    if i < n {
                        assert(nodes@[i] == old(self).nodes@[i]);
                    }
                }
            }
            self.nodes = nodes;
            Some(n)
        } else {
            None
        }
    }
}

} // verus!
