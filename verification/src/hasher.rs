//! The tree hasher: a Pedersen hash over the Jubjub curve, whose digests are
//! elements of the BLS12-381 scalar field.
//!
//! The hash itself lives in the `sapling-crypto` crate and is not proved
//! here. Its two entry points are named, and everything in this crate that
//! hashes states its result over those names.

use crate::digest::{is_canonical, TreeHash};
use sapling_crypto::pedersen_hash::{pedersen_hash, Personalization};
use vstd::prelude::*;

verus! {

/// The longest input, in bytes, that the hasher can absorb before a digest is
/// taken: six generators of 189 bits each, less six bits of personalization.
pub const MAX_INPUT_BYTES: usize = 141;

/// Internal nodes are hashed with their layer as personalization; the
/// personalization has room for layers below this bound.
pub const MAX_LAYERS: usize = 63;

/// The `u`-coordinate, in canonical bytes, of the Pedersen hash of `bits`
/// under the personalization that is not bound to a tree layer.
pub uninterp spec fn pedersen_digest(bits: Seq<bool>) -> Seq<u8>;

/// The digest of an internal node of layer `layer` with children `left` and
/// `right`: what `sapling_crypto::merkle_hash` returns.
pub uninterp spec fn pedersen_node(layer: nat, left: Seq<u8>, right: Seq<u8>) -> Seq<u8>;

/// The bits of `data`, each byte's least significant bit first.
pub open spec fn bits_of(data: Seq<u8>) -> Seq<bool> {
    Seq::new(8 * data.len(), |i: int| bit_at(data[i / 8], i % 8))
}

/// Bit `t` of `byte`, counted from the least significant.
pub open spec fn bit_at(byte: u8, t: int) -> bool {
    (byte >> (t as u8)) & 1u8 == 1u8
}

/// The digest of a run of absorbed bytes.
pub open spec fn digest_of(data: Seq<u8>) -> Seq<u8> {
    pedersen_digest(bits_of(data))
}

/// The leaf transform: the digest of a digest's own 32 bytes. It carries no
/// layer, which keeps it apart from every internal node.
pub open spec fn leaf_of(payload: Seq<u8>) -> Seq<u8> {
    digest_of(payload)
}

/// The digest that `hash_leaf` gives to raw data: the leaf transform of the
/// data's digest.
pub open spec fn leaf_digest(data: Seq<u8>) -> Seq<u8> {
    leaf_of(digest_of(data))
}

/// Calls `sapling_crypto::pedersen_hash::pedersen_hash` with
/// `Personalization::NoteCommitment` and takes the `u`-coordinate of the
/// point through `jubjub::AffinePoint::get_u` and `to_bytes`. The hash
/// panics when it runs out of generators, which happens beyond 1128 bits.
///
/// Trusted: the bytes are a function of the bits alone and are the canonical
/// encoding of a field element.
#[verifier::external_body]
pub(crate) fn pedersen_bits(bits: &Vec<bool>) -> (d: [u8; 32])
    requires
        bits@.len() <= 8 * MAX_INPUT_BYTES,
    ensures
        d@ == pedersen_digest(bits@),
        is_canonical(d@),
{
    let point = pedersen_hash(Personalization::NoteCommitment, bits.iter().copied());
    jubjub::AffinePoint::from(jubjub::ExtendedPoint::from(point)).get_u().to_bytes()
}

/// Calls `sapling_crypto::merkle_hash`, which panics unless `layer < 63`.
///
/// Trusted: the bytes are a function of the layer and the two children
/// alone and are the canonical encoding of a field element.
#[verifier::external_body]
pub(crate) fn pedersen_pair(layer: usize, left: &[u8; 32], right: &[u8; 32]) -> (d: [u8; 32])
    requires
        layer < MAX_LAYERS,
    ensures
        d@ == pedersen_node(layer as nat, left@, right@),
        is_canonical(d@),
{
    sapling_crypto::merkle_hash(layer, left, right)
}

/// The bits of `data`, each byte's least significant bit first.
pub fn bits_from_bytes(data: &[u8]) -> (bits: Vec<bool>)
    requires
        data@.len() <= MAX_INPUT_BYTES,
    ensures
        bits@ == bits_of(data@),
{
    let mut bits: Vec<bool> = Vec::new();
    let mut i: usize = 0;
    while i < data.len()
        invariant
            i <= data@.len(),
            data@.len() <= MAX_INPUT_BYTES,
            bits@.len() == 8 * i,
            forall|p: int| 0 <= p < bits@.len() ==> bits@[p] == bit_at(data@[p / 8], p % 8),
        decreases data@.len() - i,
    {
        let byte: u8 = data[i];
        let mut t: u8 = 0;
        while t < 8
            invariant
                t <= 8,
                i < data@.len(),
                byte == data@[i as int],
                bits@.len() == 8 * i + t,
                forall|p: int| 0 <= p < bits@.len() ==> bits@[p] == bit_at(data@[p / 8], p % 8),
            decreases 8 - t,
        {
            bits.push((byte >> t) & 1u8 == 1u8);
            t = t + 1;
        }
        i = i + 1;
    }
    assert(bits@ =~= bits_of(data@));
    bits
}

/// The stateful hasher that trees and proofs are computed with. It absorbs
/// bytes, gives the digest of what it has absorbed, and offers the two
/// transforms of a Merkle tree, which leave what it has absorbed untouched.
pub struct TreeAlgorithm {
    absorbed: Vec<u8>,
}

impl View for TreeAlgorithm {
    type V = Seq<u8>;

    /// The bytes absorbed since the last reset.
    closed spec fn view(&self) -> Seq<u8> {
        self.absorbed@
    }
}

impl TreeAlgorithm {
    /// A hasher that has absorbed nothing.
    pub fn new() -> (a: TreeAlgorithm)
        ensures
            a@ == Seq::<u8>::empty(),
    {
        TreeAlgorithm { absorbed: Vec::new() }
    }

    /// The number of bytes absorbed since the last reset.
    pub fn len(&self) -> (n: usize)
        ensures
            n == self@.len(),
    {
        self.absorbed.len()
    }

    /// Absorbs `bytes` after what has been absorbed before.
    pub fn write(&mut self, bytes: &[u8])
        ensures
            final(self)@ == old(self)@ + bytes@,
    {
        self.absorbed.extend_from_slice(bytes);
        assert(self.absorbed@ =~= old(self).absorbed@ + bytes@);
    }

    /// The digest of the bytes absorbed so far.
    pub fn hash(&self) -> (d: TreeHash)
        requires
            self@.len() <= MAX_INPUT_BYTES,
        ensures
            d@ == digest_of(self@),
    {
        let bits: Vec<bool> = bits_from_bytes(self.absorbed.as_slice());
        TreeHash::from_canonical(pedersen_bits(&bits))
    }

    /// Forgets what has been absorbed.
    pub fn reset(&mut self)
        ensures
            final(self)@ == Seq::<u8>::empty(),
    {
        self.absorbed.clear();
    }

    /// The leaf transform of a pre-hashed payload.
    pub fn leaf(&mut self, leaf: TreeHash) -> (d: TreeHash)
        ensures
            d@ == leaf_of(leaf@),
            final(self)@ == old(self)@,
    {
        let payload: [u8; 32] = leaf.to_bytes();
        let bits: Vec<bool> = bits_from_bytes(payload.as_slice());
        TreeHash::from_canonical(pedersen_bits(&bits))
    }

    /// The digest of the internal node of layer `layer` over two children.
    pub fn node(&mut self, left: TreeHash, right: TreeHash, layer: usize) -> (d: TreeHash)
        requires
            layer < MAX_LAYERS,
        ensures
            d@ == pedersen_node(layer as nat, left@, right@),
            final(self)@ == old(self)@,
    {
        let l: [u8; 32] = left.to_bytes();
        let r: [u8; 32] = right.to_bytes();
        TreeHash::from_canonical(pedersen_pair(layer, &l, &r))
    }
}

impl Default for TreeAlgorithm {
    fn default() -> (a: TreeAlgorithm)
        ensures
            a@ == Seq::<u8>::empty(),
    {
        TreeAlgorithm::new()
    }
}

/// The digest of `data` as a leaf of a tree: its digest, then the leaf
/// transform.
pub fn hash_leaf(data: &[u8]) -> (d: TreeHash)
    requires
        data@.len() <= MAX_INPUT_BYTES,
    ensures
        d@ == leaf_digest(data@),
{
    let mut a: TreeAlgorithm = TreeAlgorithm::default();
    a.write(data);
    let item_hash: TreeHash = a.hash();
    a.leaf(item_hash)
}

/// The digest of `data`, with no transform applied.
pub fn hash_node(data: &[u8]) -> (d: TreeHash)
    requires
        data@.len() <= MAX_INPUT_BYTES,
    ensures
        d@ == digest_of(data@),
{
    let mut a: TreeAlgorithm = TreeAlgorithm::default();
    a.write(data);
    a.hash()
}

} // verus!
