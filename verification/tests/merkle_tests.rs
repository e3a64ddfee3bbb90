use drgraph::{
    hash_leaf, hash_node, make_proof_for_test, new_seed, path_index, proof_into_options,
    BucketGraph, Graph, MerkleProof, RawProof, TreeAlgorithm, TreeError, TreeHash,
};
use merkletree::hash::Algorithm;
use merkletree::merkle::{MerkleTree, VecStore};
use merkletree::proof::Proof;
use pairing::bls12_381::{Fr, FrRepr};
use pairing::{Field, PrimeField};
use rand::Rng;
use std::hash::Hasher;

/// The library's hasher behind the tree builder's interface.
#[derive(Default)]
struct TreeHasher(TreeAlgorithm);

fn digest(bytes: [u8; 32]) -> TreeHash {
    TreeHash::from_bytes(bytes).unwrap()
}

impl Hasher for TreeHasher {
    fn write(&mut self, msg: &[u8]) {
        self.0.write(msg)
    }

    fn finish(&self) -> u64 {
        unreachable!()
    }
}

impl Algorithm<[u8; 32]> for TreeHasher {
    fn hash(&mut self) -> [u8; 32] {
        self.0.hash().to_bytes()
    }

    fn reset(&mut self) {
        self.0.reset()
    }

    fn leaf(&mut self, leaf: [u8; 32]) -> [u8; 32] {
        self.0.leaf(digest(leaf)).to_bytes()
    }

    fn node(&mut self, left: [u8; 32], right: [u8; 32], height: usize) -> [u8; 32] {
        self.0.node(digest(left), digest(right), height).to_bytes()
    }
}

type Tree = MerkleTree<[u8; 32], TreeHasher, VecStore<[u8; 32]>>;

fn merkle_tree(g: &BucketGraph, data: &[u8], node_size: usize) -> Result<Tree, TreeError> {
    let leaves = g.merkle_leaves(data, node_size)?;
    Ok(Tree::new(leaves.iter().map(|h| h.to_bytes())))
}

fn raw(proof: &Proof<[u8; 32]>) -> RawProof {
    let lemma: Vec<TreeHash> = proof.lemma().iter().map(|b| digest(*b)).collect();
    RawProof::new(lemma, proof.path().clone()).unwrap()
}

fn field(d: &TreeHash) -> Fr {
    let bytes = d.to_bytes();
    let mut limbs = [0u64; 4];
    for i in 0..4 {
        let mut limb = [0u8; 8];
        limb.copy_from_slice(&bytes[8 * i..8 * i + 8]);
        limbs[i] = u64::from_le_bytes(limb);
    }
    Fr::from_repr(FrRepr(limbs)).unwrap()
}

fn random_data(len: usize) -> Vec<u8> {
    let mut rng = rand::thread_rng();
    (0..len).map(|_| rng.gen()).collect()
}

#[test]
fn gen_proof() {
    let g = BucketGraph::new(5, 3, 0, new_seed());
    let data = vec![2u8; 16 * 5];

    let tree = merkle_tree(&g, &data, 16).unwrap();
    let proof = tree.gen_proof(2);

    assert!(proof.validate::<TreeHasher>());
}

#[test]
fn merklepath() {
    let g = BucketGraph::new(10, 5, 0, new_seed());
    let mut rng = rand::thread_rng();
    let data: Vec<u8> = (0..16 * 10).map(|_| rng.gen()).collect();

    let tree = merkle_tree(&g, data.as_slice(), 16).unwrap();
    for i in 0..10 {
        let proof = tree.gen_proof(i);

        assert!(proof.validate::<TreeHasher>());
        let len = proof.lemma().len();
        let mp: MerkleProof = raw(&proof).into();

        assert_eq!(mp.len(), len);

        assert!(mp.validate(i), "failed to validate valid merkle path");
        let data_slice = &data[i * 16..(i + 1) * 16].to_vec();
        assert!(
            mp.validate_data(&data_slice),
            "failed to validate valid data"
        );
    }
}

#[test]
fn proof_is_bound_to_its_node() {
    let g = BucketGraph::new(5, 3, 0, new_seed());
    let data = vec![2u8; 16 * 5];
    let tree = merkle_tree(&g, &data, 16).unwrap();
    let mp = MerkleProof::from(raw(&tree.gen_proof(2)));
    assert!(mp.validate(2));
    assert!(!mp.validate(3));
    assert!(!mp.validate(0));
    assert!(!mp.validate(2 + 8));
    assert!(!mp.validate(usize::MAX));
}

#[test]
fn every_leaf_round_trips() {
    for &(nodes, node_size) in &[(2usize, 16usize), (3, 32), (8, 64), (13, 16)] {
        let g = BucketGraph::new(nodes, 3, 0, new_seed());
        let data = random_data(nodes * node_size);
        let tree = merkle_tree(&g, &data, node_size).unwrap();
        for i in 0..nodes {
            let proof = tree.gen_proof(i);
            let mp: MerkleProof = raw(&proof).into();
            assert!(mp.validate(i));
            assert_eq!(path_index(mp.path()), i);
            assert_eq!(mp.len(), proof.lemma().len());
            assert_eq!(mp.path().len() as u64, g.merkle_tree_depth());
            assert!(mp.validate_data(&data[i * node_size..(i + 1) * node_size]));
            assert_eq!(mp.leaf(), hash_leaf(&data[i * node_size..(i + 1) * node_size]));
            assert_eq!(mp.root().to_bytes(), tree.root());
            assert_eq!(mp.root, mp.root());
            for j in 0..nodes {
                if j != i {
                    assert!(!mp.validate(j));
                }
            }
        }
    }
}

#[test]
fn conversion_inverts_the_side_bits() {
    let g = BucketGraph::new(10, 5, 0, new_seed());
    let data = random_data(160);
    let tree = merkle_tree(&g, &data, 16).unwrap();
    let proof = tree.gen_proof(6);
    let r = raw(&proof);
    assert_eq!(r.item().to_bytes(), proof.item());
    assert_eq!(r.root().to_bytes(), proof.root());
    assert_eq!(r.lemma().len(), proof.lemma().len());
    assert_eq!(r.path(), proof.path());
    let mp: MerkleProof = r.into();
    assert_eq!(mp.path().len(), proof.path().len());
    for (j, (sibling, is_right)) in mp.path().iter().enumerate() {
        assert_eq!(sibling.to_bytes(), proof.lemma()[j + 1]);
        assert_eq!(*is_right, !proof.path()[j]);
    }
    assert_eq!(mp.leaf().to_bytes(), proof.lemma()[0]);
    assert_eq!(mp.root().to_bytes(), *proof.lemma().last().unwrap());
    // 6 is 110 in binary: left child at the leaf level, right child above.
    let sides: Vec<bool> = mp.path().iter().map(|e| e.1).collect();
    assert_eq!(sides, vec![false, true, true, false]);
}

#[test]
fn wrong_data_does_not_hash_to_the_leaf() {
    let g = BucketGraph::new(4, 2, 0, new_seed());
    let data: Vec<u8> = (0..64u8).collect();
    let tree = merkle_tree(&g, &data, 16).unwrap();
    let mp: MerkleProof = raw(&tree.gen_proof(1)).into();
    assert!(mp.validate_data(&data[16..32]));
    assert!(!mp.validate_data(&data[0..16]));
    assert!(!mp.validate_data(&data[16..31]));
    assert!(!mp.validate_data(&[]));
    assert!(!mp.validate_data(&[0u8; 142]));
    assert!(!mp.validate_data(&vec![0u8; 4096]));
}

#[test]
fn changed_root_does_not_validate() {
    let g = BucketGraph::new(8, 3, 0, new_seed());
    let data = random_data(8 * 32);
    let tree = merkle_tree(&g, &data, 32).unwrap();
    let mut mp: MerkleProof = raw(&tree.gen_proof(5)).into();
    assert!(mp.validate(5));
    let good = mp.root();
    for byte in 0..32 {
        let mut bytes = good.to_bytes();
        bytes[byte] ^= 0x01;
        if let Some(changed) = TreeHash::from_bytes(bytes) {
            mp.root = changed;
            assert!(!mp.validate(5), "byte {}", byte);
        }
    }
    mp.root = good;
    assert!(mp.validate(5));
}

#[test]
fn changed_sibling_or_leaf_does_not_validate() {
    let g = BucketGraph::new(8, 3, 0, new_seed());
    let data = random_data(8 * 16);
    let tree = merkle_tree(&g, &data, 16).unwrap();
    let mp: MerkleProof = raw(&tree.gen_proof(3)).into();
    let other = hash_node(b"something else");
    let mut path = mp.path().clone();
    path[1].0 = other;
    assert!(!make_proof_for_test(mp.root(), mp.leaf(), path).validate(3));
    assert!(!make_proof_for_test(mp.root(), other, mp.path().clone()).validate(3));
    assert!(make_proof_for_test(mp.root(), mp.leaf(), mp.path().clone()).validate(3));
}

#[test]
fn proof_by_hand_validates() {
    let leaf = hash_leaf(&[1u8; 16]);
    let s0 = hash_node(&[2u8; 16]);
    let s1 = hash_node(&[3u8; 16]);
    let mut a = TreeAlgorithm::new();
    // the leaf is a right child at layer 0 and a left child at layer 1
    let h1 = a.node(s0, leaf, 0);
    let root = a.node(h1, s1, 1);
    let mp = make_proof_for_test(root, leaf, vec![(s0, true), (s1, false)]);
    assert_eq!(mp.computed_root(), root);
    assert_eq!(path_index(mp.path()), 1);
    assert!(mp.validate(1));
    assert!(!mp.validate(0));
    assert!(!mp.validate(2));
    let swapped = make_proof_for_test(root, leaf, vec![(s0, false), (s1, true)]);
    assert_ne!(swapped.computed_root(), root);
    assert_eq!(path_index(swapped.path()), 2);
    assert!(!swapped.validate(2));
    // the layer is part of what is hashed
    let flat = a.node(h1, s1, 0);
    assert!(!make_proof_for_test(flat, leaf, vec![(s0, true), (s1, false)]).validate(1));
}

#[test]
fn proof_without_levels_validates_when_leaf_is_root() {
    let d = hash_node(&[5u8; 16]);
    let mp = make_proof_for_test(d, d, Vec::new());
    assert_eq!(mp.len(), 2);
    assert!(mp.validate(0));
    assert!(!mp.validate(1));
    assert!(!make_proof_for_test(TreeHash::default(), d, Vec::new()).validate(0));
}

#[test]
fn path_index_reads_the_leaf_side_bit_as_least_significant() {
    let d = TreeHash::default();
    assert_eq!(path_index(&[]), 0);
    assert_eq!(path_index(&[(d, true)]), 1);
    assert_eq!(path_index(&[(d, true), (d, false), (d, false)]), 1);
    assert_eq!(path_index(&[(d, false), (d, false), (d, true)]), 4);
    assert_eq!(path_index(&[(d, false), (d, true), (d, true)]), 6);
    assert_eq!(path_index(&[(d, true), (d, true), (d, false), (d, true)]), 11);
    let all = vec![(d, true); usize::BITS as usize];
    assert_eq!(path_index(&all), usize::MAX);
}

#[test]
fn paths_too_deep_never_validate() {
    let d = TreeHash::default();
    let deep = make_proof_for_test(d, d, vec![(d, false); 64]);
    assert!(!deep.validate(0));
    let deeper = make_proof_for_test(d, d, vec![(d, false); 200]);
    assert!(!deeper.validate(0));
    assert_eq!(deeper.len(), 202);
}

#[test]
fn serialization_has_the_stated_layout_and_length() {
    let g = BucketGraph::new(10, 5, 0, new_seed());
    let data = random_data(160);
    let tree = merkle_tree(&g, &data, 16).unwrap();
    let mp: MerkleProof = raw(&tree.gen_proof(7)).into();
    let bytes = mp.serialize();
    let levels = mp.path().len();
    assert_eq!(levels, 4);
    assert_eq!(bytes.len(), levels * (32 + 1) + 2 * 32);
    assert_eq!(bytes.len(), 196);
    let mut expected: Vec<u8> = Vec::new();
    for (sibling, is_right) in mp.path() {
        expected.extend(sibling.to_bytes().iter());
        expected.push(if *is_right { 1 } else { 0 });
    }
    expected.extend(mp.leaf().to_bytes().iter());
    expected.extend(mp.root().to_bytes().iter());
    assert_eq!(bytes, expected);
    // 7 is 0111: right child on the three lowest levels
    assert_eq!(bytes[32], 1);
    assert_eq!(bytes[65], 1);
    assert_eq!(bytes[98], 1);
    assert_eq!(bytes[131], 0);
}

#[test]
fn serialization_can_be_read_back() {
    let g = BucketGraph::new(13, 4, 0, new_seed());
    let data = random_data(13 * 32);
    let tree = merkle_tree(&g, &data, 32).unwrap();
    for i in 0..13 {
        let mp: MerkleProof = raw(&tree.gen_proof(i)).into();
        let bytes = mp.serialize();
        let levels = mp.path().len();
        let width = 32;
        let mut path: Vec<(TreeHash, bool)> = Vec::new();
        for j in 0..levels {
            let at = j * (width + 1);
            let mut d = [0u8; 32];
            d.copy_from_slice(&bytes[at..at + width]);
            path.push((digest(d), bytes[at + width] == 1));
        }
        let at = levels * (width + 1);
        let mut leaf = [0u8; 32];
        leaf.copy_from_slice(&bytes[at..at + width]);
        let mut root = [0u8; 32];
        root.copy_from_slice(&bytes[at + width..at + 2 * width]);
        assert_eq!(at + 2 * width, bytes.len());
        let read = make_proof_for_test(digest(root), digest(leaf), path);
        assert_eq!(read.path(), mp.path());
        assert_eq!(read.leaf(), mp.leaf());
        assert_eq!(read.root(), mp.root());
        assert_eq!(read.serialize(), bytes);
        assert!(read.validate(i));
    }
}

#[test]
fn default_proof_is_a_zero_placeholder() {
    let mp = MerkleProof::default(3);
    assert_eq!(mp.len(), 5);
    assert_eq!(mp.path().len(), 3);
    for (sibling, is_right) in mp.path() {
        assert_eq!(*sibling, TreeHash::default());
        assert!(!*is_right);
    }
    assert_eq!(mp.root(), TreeHash::default());
    assert_eq!(mp.leaf(), TreeHash::default());
    assert_eq!(mp.serialize(), vec![0u8; 3 * 33 + 64]);
    assert!(!mp.validate(0));
    assert_eq!(MerkleProof::default(0).len(), 2);
    assert_eq!(MerkleProof::default(0).serialize().len(), 64);
}

#[test]
fn circuit_form_carries_siblings_as_field_elements() {
    let g = BucketGraph::new(10, 5, 0, new_seed());
    let data = random_data(160);
    let tree = merkle_tree(&g, &data, 16).unwrap();
    let proof = tree.gen_proof(9);
    let mp: MerkleProof = raw(&proof).into();
    let options = mp.as_options();
    let pairs = mp.as_pairs();
    assert_eq!(options.len(), mp.path().len());
    assert_eq!(pairs.len(), mp.path().len());
    for (j, (sibling, is_right)) in mp.path().iter().enumerate() {
        assert_eq!(options[j], Some((field(sibling), *is_right)));
        assert_eq!(pairs[j], (field(sibling), *is_right));
        assert_ne!(pairs[j].0, Fr::zero());
    }
    assert_eq!(proof_into_options(raw(&proof)), options);
}

#[test]
fn field_form_of_small_digests() {
    let zero = TreeHash::default();
    assert_eq!(zero.to_field(), Fr::zero());
    let mut unit = [0u8; 32];
    unit[0] = 1;
    assert_eq!(digest(unit).to_field(), Fr::one());
    let mut big = [0u8; 32];
    big[8] = 2;
    assert_eq!(digest(big).to_field(), Fr::from_repr(FrRepr([0, 2, 0, 0])).unwrap());
    let placeholder = MerkleProof::default(2).as_options();
    assert_eq!(placeholder, vec![Some((Fr::zero(), false)), Some((Fr::zero(), false))]);
}

#[test]
fn raw_proof_must_have_two_more_digests_than_bits() {
    let d = TreeHash::default();
    assert!(RawProof::new(vec![d, d, d], vec![true]).is_some());
    assert!(RawProof::new(vec![d, d, d, d], vec![true, false]).is_some());
    assert!(RawProof::new(vec![d, d], vec![]).is_none());
    assert!(RawProof::new(vec![d, d, d], vec![true, false]).is_none());
    assert!(RawProof::new(vec![d, d, d], vec![]).is_none());
    assert!(RawProof::new(vec![], vec![]).is_none());
}
