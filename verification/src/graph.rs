//! Depth-robust graphs: the parent relation among the nodes of a replica,
//! and the bridge from raw node data to the leaves of a Merkle tree.

use crate::digest::TreeHash;
use crate::hasher::{digest_of, leaf_of, TreeAlgorithm};
use crate::merkle::MerkleProof;
use crate::sampling::{ascending, bucket_parents, floor_log2, log2_floor, sample_parents};
use crate::text::{decimal, decimal_string};
use vstd::arithmetic::power2::{lemma2_to64, pow2};
use vstd::prelude::*;
use vstd::slice::slice_subrange;
use vstd::string::StringExecFns;

verus! {

/// The depth of a binary tree over `size` leaves: `ceil(log2(size))`, and 0
/// where there is at most one leaf.
pub open spec fn tree_height(size: nat) -> nat {
    if size <= 1 {
        0
    } else {
        floor_log2((size - 1) as nat) + 1
    }
}

/// `tree_height(size)` is the least `h` with `size <= 2^h`.
pub proof fn lemma_tree_height_is_least(size: nat)
    ensures
        size <= pow2(tree_height(size)),
        tree_height(size) > 0 ==> pow2((tree_height(size) - 1) as nat) < size,
{
    lemma2_to64();
    if size > 1 {
        crate::sampling::lemma_floor_log2_bounds((size - 1) as nat);
    }
}

/// The depth of the Merkle tree over `size` leaves.
pub fn graph_height(size: usize) -> (h: usize)
    ensures
        h == tree_height(size as nat),
        size <= pow2(h as nat),
        h > 0 ==> pow2((h - 1) as nat) < size,
{
    proof {
        lemma_tree_height_is_least(size as nat);
    }
    if size <= 1 {
        0
    } else {
        log2_floor(size - 1) + 1
    }
}

/// Why the leaves of a tree could not be computed.
#[derive(Debug, Clone, Copy, PartialEq, Eq, Structural)]
pub enum TreeError {
    /// The data is not `nodes` times `node_size` bytes long.
    ShapeMismatch { actual: usize, node_size: usize, nodes: usize },
    /// The node size is not 16, 32 or 64.
    UnsupportedNodeSize { node_size: usize },
}

impl TreeError {
    /// The text of the error's message.
    pub open spec fn spec_message(&self) -> Seq<char> {
        match *self {
            TreeError::ShapeMismatch { actual, node_size, nodes } => {
                "mismatch of data, node_size and nodes "@ + decimal(actual as nat) + " != "@
                    + decimal(node_size as nat) + " * "@ + decimal(nodes as nat)
            },
            TreeError::UnsupportedNodeSize { node_size } => {
                "invalid node size, must be 16, 32 or 64"@
            },
        }
    }

    /// A message that describes the error, with the lengths that did not
    /// match.
    pub fn message(&self) -> (text: String)
        ensures
            text@ == self.spec_message(),
    {
        match *self {
            TreeError::ShapeMismatch { actual, node_size, nodes } => {
                let mut text: String = String::from_str("mismatch of data, node_size and nodes ");
                text.append(decimal_string(actual).as_str());
                text.append(" != ");
                text.append(decimal_string(node_size).as_str());
                text.append(" * ");
                text.append(decimal_string(nodes).as_str());
                text
            },
            TreeError::UnsupportedNodeSize { node_size } => {
                String::from_str("invalid node size, must be 16, 32 or 64")
            },
        }
    }
}

/// The node sizes that a tree can be built over.
pub open spec fn supported_node_size(node_size: usize) -> bool {
    node_size == 16 || node_size == 32 || node_size == 64
}

/// The bytes of node `i` where every node has `node_size` bytes.
pub open spec fn node_data(data: Seq<u8>, i: int, node_size: int) -> Seq<u8> {
    data.subrange(i * node_size, (i + 1) * node_size)
}

/// What `merkle_leaves` returns for a graph of `nodes` nodes: a shape error
/// where the data is not `nodes * node_size` long; else a size error where
/// the node size is not supported; else one digest per node, each the digest
/// of that node's bytes with no leaf transform applied.
pub open spec fn leaves_result(
    nodes: nat,
    data: Seq<u8>,
    node_size: usize,
    r: Result<Vec<TreeHash>, TreeError>,
) -> bool {
    if data.len() != node_size * nodes {
        r == Err::<Vec<TreeHash>, TreeError>(
            TreeError::ShapeMismatch { actual: data.len() as usize, node_size, nodes: nodes as usize },
        )
    } else if !supported_node_size(node_size) {
        r == Err::<Vec<TreeHash>, TreeError>(TreeError::UnsupportedNodeSize { node_size })
    } else {
        &&& r is Ok
        &&& r->Ok_0@.len() == nodes
        &&& forall|i: int|
            0 <= i < nodes ==> (#[trigger] r->Ok_0@[i])@ == digest_of(
                node_data(data, i, node_size as int),
            )
    }
}

/// A depth-robust graph.
pub trait Graph: Sized {
    /// The number of nodes.
    spec fn spec_size(&self) -> nat;

    /// The number of parents of each node.
    spec fn spec_degree(&self) -> nat;

    /// The seed that the parent relation is derived from.
    spec fn spec_seed(&self) -> Seq<u32>;

    /// The sorted parents of `node`, as a function of the graph and the node.
    spec fn spec_parents(&self, node: usize) -> Seq<usize>;

    /// The nodes whose parents can be computed in `usize` arithmetic.
    spec fn meta_nodes_fit(&self, node: usize) -> bool;

    /// Whether every parent of a node has an index no higher than the node.
    spec fn spec_forward(&self) -> bool;

    /// The size in bytes of the data of all nodes of the graph.
    fn expected_size(&self, node_size: usize) -> (bytes: usize)
        requires
            self.spec_size() * node_size <= usize::MAX,
        ensures
            bytes == self.spec_size() * node_size,
    {
        self.size() * node_size
    }

    /// The leaves of the Merkle tree over `data`: the digest of each node's
    /// bytes, in node order, for a tree builder to start from.
    fn merkle_leaves(&self, data: &[u8], node_size: usize) -> (r: Result<Vec<TreeHash>, TreeError>)
        ensures
            leaves_result(self.spec_size(), data@, node_size, r),
    {
        let nodes: usize = self.size();
        let expected: Option<usize> = node_size.checked_mul(nodes);
        if expected != Some(data.len()) {
            return Err(TreeError::ShapeMismatch { actual: data.len(), node_size, nodes });
        }
        if !(node_size == 16 || node_size == 32 || node_size == 64) {
            return Err(TreeError::UnsupportedNodeSize { node_size });
        }
        let mut a: TreeAlgorithm = TreeAlgorithm::new();
        let mut leaves: Vec<TreeHash> = Vec::new();
        let mut i: usize = 0;
        while i < nodes
            invariant
                i <= nodes,
                data@.len() == node_size * nodes,
                node_size * nodes <= usize::MAX,
                supported_node_size(node_size),
                a@ == Seq::<u8>::empty(),
                leaves@.len() == i,
                forall|t: int|
                    0 <= t < i ==> (#[trigger] leaves@[t])@ == digest_of(
                        node_data(data@, t, node_size as int),
                    ),
            decreases nodes - i,
        {
            assert((i + 1) * node_size <= node_size * nodes) by (nonlinear_arith)
                requires
                    i < nodes,
            ;
            assert(i * node_size + node_size == (i + 1) * node_size) by (nonlinear_arith);
            assert(0 <= i * node_size) by (nonlinear_arith);
            let start: usize = i * node_size;
            let d: &[u8] = slice_subrange(data, start, start + node_size);
            a.write(d);
            let h: TreeHash = a.hash();
            a.reset();
            leaves.push(h);
            i = i + 1;
        }
        Ok(leaves)
    }

    /// The depth of the Merkle tree over the graph's nodes.
    fn merkle_tree_depth(&self) -> (depth: u64)
        ensures
            depth == tree_height(self.spec_size()),
    {
        graph_height(self.size()) as u64
    }

    /// The sorted list of all parents of `node`.
    fn parents(&self, node: usize) -> (p: Vec<usize>)
        requires
            self.meta_nodes_fit(node),
        ensures
            p@ == self.spec_parents(node),
            self.spec_forward() ==> forall|i: int| 0 <= i < p@.len() ==> p@[i] <= node,
    ;

    /// The number of nodes.
    fn size(&self) -> (n: usize)
        ensures
            n == self.spec_size(),
    ;

    /// The number of parents of each node.
    fn degree(&self) -> (d: usize)
        ensures
            d == self.spec_degree(),
    ;

    /// The graph of `nodes` nodes and degree `base_degree` over `seed`. Only
    /// base graphs exist: an expansion degree other than zero is a mistake of
    /// the caller.
    fn new(nodes: usize, base_degree: usize, expansion_degree: usize, seed: [u32; 7]) -> (g: Self)
        requires
            expansion_degree == 0,
        ensures
            g.spec_size() == nodes,
            g.spec_degree() == base_degree,
            g.spec_seed() == seed@,
    ;

    /// The seed that the parent relation is derived from.
    fn seed(&self) -> (s: [u32; 7])
        ensures
            s@ == self.spec_seed(),
    ;

    /// Whether every parent of a node has an index no higher than the node.
    fn forward(&self) -> (b: bool)
        ensures
            b == self.spec_forward(),
    ;
}

/// The graph of the bucket sampling algorithm: `nodes` nodes, each with
/// `base_degree` parents drawn from a generator that is seeded by `seed` and
/// the node's index.
#[derive(Clone, Debug, PartialEq, Eq, Copy)]
pub struct BucketGraph {
    nodes: usize,
    base_degree: usize,
    seed: [u32; 7],
}

impl Graph for BucketGraph {
    closed spec fn spec_size(&self) -> nat {
        self.nodes as nat
    }

    closed spec fn spec_degree(&self) -> nat {
        self.base_degree as nat
    }

    closed spec fn spec_seed(&self) -> Seq<u32> {
        self.seed@
    }

    open spec fn spec_parents(&self, node: usize) -> Seq<usize> {
        bucket_parents(self.spec_seed(), self.spec_degree() as usize, node)
    }

    open spec fn meta_nodes_fit(&self, node: usize) -> bool {
        node * self.spec_degree() + self.spec_degree() <= usize::MAX
    }

    open spec fn spec_forward(&self) -> bool {
        true
    }

    fn parents(&self, node: usize) -> (p: Vec<usize>)
        ensures
            p@.len() == self.spec_degree(),
            ascending(p@),
            node < 2 ==> p@ == Seq::new(self.spec_degree(), |i: int| 0usize),
            node >= 1 ==> forall|i: int| 0 <= i < p@.len() ==> p@[i] < node,
    {
        sample_parents(&self.seed, self.base_degree, node)
    }

    fn size(&self) -> (n: usize) {
        self.nodes
    }

    fn degree(&self) -> (d: usize) {
        self.base_degree
    }

    fn seed(&self) -> (s: [u32; 7]) {
        self.seed
    }

    fn new(nodes: usize, base_degree: usize, expansion_degree: usize, seed: [u32; 7]) -> (g:
        BucketGraph) {
        BucketGraph { nodes, base_degree, seed }
    }

    fn forward(&self) -> (b: bool) {
        true
    }
}

/// Determinism: the parent list of a node is a function of the graph's
/// degree, its seed and the node. Two calls of `parents` return the same
/// list, and so do two graphs of one degree and one seed.
pub proof fn lemma_parents_are_determined(a: BucketGraph, b: BucketGraph, node: usize)
    requires
        a.spec_degree() == b.spec_degree(),
        a.spec_seed() == b.spec_seed(),
    ensures
        a.spec_parents(node) == b.spec_parents(node),
{
}

/// Data-to-leaf: where the leaf of a proof is the leaf transform of the
/// digest that `merkle_leaves` gave to node `i`, which is what a tree
/// builder makes of it, the bytes of node `i` validate against the proof.
pub proof fn lemma_node_data_validates(
    mp: MerkleProof,
    nodes: nat,
    data: Seq<u8>,
    node_size: usize,
    leaves: Vec<TreeHash>,
    i: int,
)
    requires
        leaves_result(nodes, data, node_size, Ok(leaves)),
        0 <= i < nodes,
        mp.spec_leaf() == leaf_of(leaves@[i]@),
    ensures
        mp.spec_validate_data(node_data(data, i, node_size as int)),
{
    assert(node_size * (i + 1) <= node_size * nodes) by (nonlinear_arith)
        requires
            i + 1 <= nodes,
            node_size >= 0,
    ;
    assert(node_size * (i + 1) == i * node_size + node_size) by (nonlinear_arith);
    assert((i + 1) * node_size == i * node_size + node_size) by (nonlinear_arith);
    assert(0 <= i * node_size) by (nonlinear_arith)
        requires
            0 <= i,
            node_size >= 0,
    ;
}

impl BucketGraph {
    /// What `parameter_set_identifier` returns.
    pub open spec fn spec_identifier(&self) -> Seq<char> {
        "drgraph::BucketGraph{size: "@ + decimal(self.spec_size()) + "; degree: "@ + decimal(
            self.spec_degree(),
        ) + "}"@
    }

    /// The name of the graph's parameter set. The seed has no part in it:
    /// two graphs of one size and degree share their parameters.
    pub fn parameter_set_identifier(&self) -> (id: String)
        ensures
            id@ == self.spec_identifier(),
    {
        let mut id: String = String::from_str("drgraph::BucketGraph{size: ");
        id.append(decimal_string(self.nodes).as_str());
        id.append("; degree: ");
        id.append(decimal_string(self.base_degree).as_str());
        id.append("}");
        id
    }
}

} // verus!
