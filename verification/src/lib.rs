//! Depth-robust graphs by bucket sampling, and Merkle proofs over the data
//! of their nodes.

pub mod digest;
pub mod graph;
pub mod hasher;
pub mod merkle;
pub mod prng;
pub mod sampling;
pub mod text;

pub use digest::TreeHash;
pub use graph::{graph_height, BucketGraph, Graph, TreeError};
pub use hasher::{hash_leaf, hash_node, TreeAlgorithm};
pub use merkle::{make_proof_for_test, path_index, proof_into_options, MerkleProof, RawProof};
pub use prng::new_seed;
