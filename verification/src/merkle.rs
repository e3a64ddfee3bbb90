//! Merkle proofs: the authentication path from one leaf to the root of a
//! tree, how it is checked against a node index or against raw data, and how
//! it is written out as bytes.

use crate::digest::{fr_bytes, TreeHash, DIGEST_BYTES};
use crate::hasher::{leaf_digest, pedersen_node, TreeAlgorithm, MAX_INPUT_BYTES, MAX_LAYERS};
use pairing::bls12_381::Fr;
use vstd::arithmetic::power2::{
    lemma2_to64, lemma2_to64_rest, lemma_pow2_strictly_increases, lemma_pow2_unfold, pow2,
};
use vstd::prelude::*;
use vstd::std_specs::convert::FromSpecImpl;

verus! {

/// One level of an authentication path: the sibling's bytes, and whether the
/// running hash is the right child at that level.
pub type Level = (Seq<u8>, bool);

/// A path as mathematics: each entry's digest replaced by its bytes.
pub open spec fn levels(path: Seq<(TreeHash, bool)>) -> Seq<Level> {
    path.map_values(|e: (TreeHash, bool)| (e.0@, e.1))
}

/// The node index that a path's side bits spell: the bit of the entry next
/// to the leaf is the least significant, the bit of the entry next to the
/// root the most significant.
pub open spec fn index_of(path: Seq<Level>) -> nat
    decreases path.len(),
{
    if path.len() == 0 {
        0
    } else {
        (if path[0].1 {
            1nat
        } else {
            0nat
        }) + 2 * index_of(path.drop_first())
    }
}

/// The parent of the running hash `h` at layer `layer`: the sibling goes to
/// the left when the running hash is the right child, and to the right
/// otherwise.
pub open spec fn parent_of(h: Seq<u8>, level: Level, layer: nat) -> Seq<u8> {
    if level.1 {
        pedersen_node(layer, level.0, h)
    } else {
        pedersen_node(layer, h, level.0)
    }
}

/// The running hash after the first `count` levels of `path`, starting from
/// `leaf` at layer 0.
pub open spec fn climb(leaf: Seq<u8>, path: Seq<Level>, count: nat) -> Seq<u8>
    decreases count,
{
    if count == 0 {
        leaf
    } else {
        parent_of(climb(leaf, path, (count - 1) as nat), path[count - 1], (count - 1) as nat)
    }
}

/// The deepest path that can be checked: the hasher has `MAX_LAYERS` layers,
/// and a node index has `usize::BITS` bits.
pub open spec fn max_depth() -> nat {
    if usize::BITS < MAX_LAYERS {
        usize::BITS as nat
    } else {
        MAX_LAYERS as nat
    }
}

/// A path of `n` levels spells an index below `2^n`.
pub proof fn lemma_index_bound(path: Seq<Level>)
    ensures
        index_of(path) < pow2(path.len()),
    decreases path.len(),
{
    lemma2_to64();
    if path.len() > 0 {
        lemma_index_bound(path.drop_first());
        lemma_pow2_unfold(path.len());
    }
}

/// A power of two whose exponent is at most the width of `usize` is at most
/// one more than the largest `usize`.
proof fn lemma_pow2_fits(k: nat)
    requires
        k <= usize::BITS,
    ensures
        pow2(k) <= usize::MAX + 1,
{
    lemma2_to64();
    lemma2_to64_rest();
    if k < usize::BITS {
        lemma_pow2_strictly_increases(k, usize::BITS as nat);
    }
}

/// The node index that the side bits of `path` spell.
pub fn path_index(path: &[(TreeHash, bool)]) -> (index: usize)
    requires
        path@.len() <= usize::BITS,
    ensures
        index == index_of(levels(path@)),
{
    let mut acc: usize = 0;
    let mut i: usize = path.len();
    assert(levels(path@).skip(i as int) =~= Seq::<Level>::empty());
    while i > 0
        invariant
            i <= path@.len(),
            path@.len() <= usize::BITS,
            acc == index_of(levels(path@).skip(i as int)),
        decreases i,
    {
        i = i - 1;
        proof {
            let rest = levels(path@).skip(i + 1);
            let cur = levels(path@).skip(i as int);
            assert(cur.drop_first() =~= rest);
            assert(cur[0] == levels(path@)[i as int]);
            lemma_index_bound(rest);
            lemma_pow2_unfold((path@.len() - i) as nat);
            lemma_pow2_fits((path@.len() - i) as nat);
            lemma2_to64();
            vstd::bits::lemma_usize_shl_is_mul(acc, 1usize);
        }
        let bit: usize = if path[i].1 {
            1
        } else {
            0
        };
        acc = (acc << 1) + bit;
    }
    assert(levels(path@).skip(0) =~= levels(path@));
    acc
}

/// The bytes of one level on the wire: the sibling, then 1 or 0 for the side
/// bit.
pub open spec fn level_bytes(level: Level) -> Seq<u8> {
    level.0.push(if level.1 {
        1u8
    } else {
        0u8
    })
}

/// The bytes of the first `count` levels of `path`, one after the other.
pub open spec fn path_bytes(path: Seq<Level>, count: nat) -> Seq<u8>
    decreases count,
{
    if count == 0 {
        Seq::empty()
    } else {
        path_bytes(path, (count - 1) as nat) + level_bytes(path[count - 1])
    }
}

/// A Merkle proof: the leaf's digest, the path of `(sibling, is_right)`
/// entries from the leaf's level upward, and the root's digest. `is_right`
/// says that the running hash is the right child at that level, so that the
/// sibling is the left input of the parent.
#[derive(Debug, Clone)]
pub struct MerkleProof {
    path: Vec<(TreeHash, bool)>,
    pub root: TreeHash,
    leaf: TreeHash,
}

impl MerkleProof {
    /// The path as mathematics.
    pub closed spec fn spec_path(&self) -> Seq<Level> {
        levels(self.path@)
    }

    /// The bytes of the leaf's digest.
    pub closed spec fn spec_leaf(&self) -> Seq<u8> {
        self.leaf@
    }

    /// The bytes of the root's digest.
    pub closed spec fn spec_root(&self) -> Seq<u8> {
        self.root@
    }

    /// What `validate` decides: the path is not deeper than can be checked,
    /// its side bits spell `node`, and hashing upward from the leaf through
    /// every level, each with its layer, arrives at the root.
    pub open spec fn spec_validate(&self, node: usize) -> bool {
        &&& self.spec_path().len() <= max_depth()
        &&& index_of(self.spec_path()) == node
        &&& climb(self.spec_leaf(), self.spec_path(), self.spec_path().len()) == self.spec_root()
    }

    /// What `serialize` writes: every level in turn, then the leaf, then the
    /// root.
    pub open spec fn spec_serialize(&self) -> Seq<u8> {
        path_bytes(self.spec_path(), self.spec_path().len()) + self.spec_leaf() + self.spec_root()
    }

    /// A placeholder of `n` levels: every digest zero, every side bit false.
    /// It fills a slot of fixed length and is not meant to validate.
    pub fn default(n: usize) -> (mp: MerkleProof)
        ensures
            mp.spec_path() == Seq::new(n as nat, |i: int| (Seq::new(32, |j: int| 0u8), false)),
            mp.spec_root() == Seq::new(32, |j: int| 0u8),
            mp.spec_leaf() == Seq::new(32, |j: int| 0u8),
    {
        let zero: TreeHash = TreeHash::default();
        let mut path: Vec<(TreeHash, bool)> = Vec::new();
        let mut i: usize = 0;
        while i < n
            invariant
                i <= n,
                path@.len() == i,
                zero@ == Seq::new(32, |j: int| 0u8),
                forall|t: int| 0 <= t < i ==> path@[t] == (zero, false),
            decreases n - i,
        {
            path.push((zero, false));
            i = i + 1;
        }
        assert(levels(path@) =~= Seq::new(
            n as nat,
            |i: int| (Seq::new(32, |j: int| 0u8), false),
        ));
        MerkleProof { path, root: zero, leaf: zero }
    }

    /// The path in the form that a circuit takes: one `Some` per level, with
    /// the sibling as a field element. Leaf and root are left out.
    pub fn as_options(&self) -> (out: Vec<Option<(Fr, bool)>>)
        ensures
            out@.len() == self.spec_path().len(),
            forall|i: int|
                0 <= i < out@.len() ==> (#[trigger] out@[i] matches Some(pair) && fr_bytes(pair.0)
                    == self.spec_path()[i].0 && pair.1 == self.spec_path()[i].1),
    {
        let mut out: Vec<Option<(Fr, bool)>> = Vec::new();
        let mut i: usize = 0;
        while i < self.path.len()
            invariant
                i <= self.path@.len(),
                out@.len() == i,
                forall|t: int|
                    0 <= t < i ==> (#[trigger] out@[t] matches Some(pair) && fr_bytes(pair.0)
                        == levels(self.path@)[t].0 && pair.1 == levels(self.path@)[t].1),
            decreases self.path@.len() - i,
        {
            let f: Fr = self.path[i].0.to_field();
            out.push(Some((f, self.path[i].1)));
            i = i + 1;
        }
        out
    }

    /// The path as pairs of a field element and a side bit. Leaf and root are
    /// left out.
    pub fn as_pairs(&self) -> (out: Vec<(Fr, bool)>)
        ensures
            out@.len() == self.spec_path().len(),
            forall|i: int|
                0 <= i < out@.len() ==> fr_bytes((#[trigger] out@[i]).0) == self.spec_path()[i].0
                    && out@[i].1 == self.spec_path()[i].1,
    {
        let mut out: Vec<(Fr, bool)> = Vec::new();
        let mut i: usize = 0;
        while i < self.path.len()
            invariant
                i <= self.path@.len(),
                out@.len() == i,
                forall|t: int|
                    0 <= t < i ==> fr_bytes((#[trigger] out@[t]).0) == levels(self.path@)[t].0
                        && out@[t].1 == levels(self.path@)[t].1,
            decreases self.path@.len() - i,
        {
            let f: Fr = self.path[i].0.to_field();
            out.push((f, self.path[i].1));
            i = i + 1;
        }
        out
    }

    /// What `validate_data` decides: the hasher can absorb the data, and the
    /// leaf transform of the data's digest is the proof's leaf.
    pub open spec fn spec_validate_data(&self, data: Seq<u8>) -> bool {
        data.len() <= MAX_INPUT_BYTES && leaf_digest(data) == self.spec_leaf()
    }

    /// Validates that `data` hashes to the leaf of the proof. Data too long
    /// for the hasher hashes to nothing, and is refused.
    pub fn validate_data(&self, data: &[u8]) -> (ok: bool)
        ensures
            ok == self.spec_validate_data(data@),
    {
        if data.len() > MAX_INPUT_BYTES {
            return false;
        }
        let mut a: TreeAlgorithm = TreeAlgorithm::default();
        a.write(data);
        let item_hash: TreeHash = a.hash();
        let leaf_hash: TreeHash = a.leaf(item_hash);
        leaf_hash == self.leaf()
    }

    /// The digest of the leaf that the proof is for.
    pub fn leaf(&self) -> (d: TreeHash)
        ensures
            d@ == self.spec_leaf(),
    {
        self.leaf
    }

    /// The digest of the root.
    pub fn root(&self) -> (d: TreeHash)
        ensures
            d@ == self.spec_root(),
    {
        self.root
    }

    /// The length of the proof: its levels, one for the leaf and one for the
    /// root.
    pub fn len(&self) -> (n: usize)
        requires
            self.spec_path().len() + 2 <= usize::MAX,
        ensures
            n == self.spec_path().len() + 2,
    {
        self.path.len() + 2
    }

    /// The proof as bytes: for each level the sibling's bytes and one byte
    /// for the side bit, then the leaf's bytes, then the root's.
    pub fn serialize(&self) -> (out: Vec<u8>)
        ensures
            out@ == self.spec_serialize(),
            out@.len() == self.spec_path().len() * (DIGEST_BYTES + 1) + 2 * DIGEST_BYTES,
    {
        let mut out: Vec<u8> = Vec::new();
        let mut i: usize = 0;
        while i < self.path.len()
            invariant
                i <= self.path@.len(),
                out@ == path_bytes(levels(self.path@), i as nat),
                out@.len() == i * 33,
            decreases self.path@.len() - i,
        {
            let sibling: Vec<u8> = self.path[i].0.serialize();
            let side: u8 = if self.path[i].1 {
                1
            } else {
                0
            };
            let ghost before = out@;
            out.extend_from_slice(sibling.as_slice());
            out.push(side);
            assert(out@ =~= before + level_bytes(levels(self.path@)[i as int]));
            i = i + 1;
        }
        let leaf: Vec<u8> = self.leaf().serialize();
        let root: Vec<u8> = self.root().serialize();
        let ghost levels_out = out@;
        out.extend_from_slice(leaf.as_slice());
        let ghost with_leaf = out@;
        out.extend_from_slice(root.as_slice());
        assert(with_leaf =~= levels_out + self.leaf@);
        assert(out@ =~= with_leaf + self.root@);
        out
    }

    /// The levels of the path, leaf side first.
    pub fn path(&self) -> (p: &Vec<(TreeHash, bool)>)
        ensures
            levels(p@) == self.spec_path(),
    {
        &self.path
    }

    /// The digest that hashing upward from the leaf through every level
    /// arrives at. The hasher is reset before each level, and each level is
    /// hashed with its layer.
    pub fn computed_root(&self) -> (top: TreeHash)
        requires
            self.spec_path().len() <= MAX_LAYERS,
        ensures
            top@ == climb(self.spec_leaf(), self.spec_path(), self.spec_path().len()),
    {
        let mut a: TreeAlgorithm = TreeAlgorithm::default();
        let depth: usize = self.path.len();
        let mut h: TreeHash = self.leaf;
        let mut i: usize = 0;
        while i < depth
            invariant
                i <= depth,
                depth == self.path@.len(),
                depth <= MAX_LAYERS,
                h@ == climb(self.leaf@, levels(self.path@), i as nat),
            decreases depth - i,
        {
            a.reset();
            let is_right: bool = self.path[i].1;
            let (left, right): (TreeHash, TreeHash) = if is_right {
                (self.path[i].0, h)
            } else {
                (h, self.path[i].0)
            };
            h = a.node(left, right, i);
            i = i + 1;
        }
        h
    }

    /// Validates the proof and that it belongs to the node `node`.
    pub fn validate(&self, node: usize) -> (ok: bool)
        ensures
            ok == self.spec_validate(node),
    {
        let depth: usize = self.path.len();
        if depth > MAX_LAYERS || depth > usize::BITS as usize {
            return false;
        }
        if path_index(self.path.as_slice()) != node {
            return false;
        }
        self.root == self.computed_root()
    }
}

/// The bytes of each digest of a lemma.
pub open spec fn lemma_bytes(lemma: Seq<TreeHash>) -> Seq<Seq<u8>> {
    lemma.map_values(|d: TreeHash| d@)
}

/// The path that a tree builder's raw proof turns into: level `j` takes its
/// sibling from `lemma[j + 1]` and the opposite of the builder's bit, which
/// says that the running hash is the *left* child.
pub open spec fn converted(lemma: Seq<Seq<u8>>, bits: Seq<bool>) -> Seq<Level> {
    Seq::new(bits.len(), |j: int| (lemma[j + 1], !bits[j]))
}

/// A tree builder's raw proof: the lemma, which holds the leaf's digest, one
/// sibling per level and the root, and one bit per level that is true when
/// the running hash is the left child. The lemma is always two longer than
/// the bits, and never shorter than three.
pub struct RawProof {
    lemma: Vec<TreeHash>,
    path: Vec<bool>,
}

impl RawProof {
    #[verifier::type_invariant]
    spec fn shaped(&self) -> bool {
        self.lemma@.len() > 2 && self.lemma@.len() - 2 == self.path@.len()
    }

    /// The bytes of the lemma's digests.
    pub closed spec fn spec_lemma(&self) -> Seq<Seq<u8>> {
        lemma_bytes(self.lemma@)
    }

    /// The builder's bits.
    pub closed spec fn spec_bits(&self) -> Seq<bool> {
        self.path@
    }

    /// The raw proof with this lemma and these bits, if their lengths fit.
    pub fn new(lemma: Vec<TreeHash>, path: Vec<bool>) -> (raw: Option<RawProof>)
        ensures
            raw.is_some() == (lemma@.len() > 2 && lemma@.len() - 2 == path@.len()),
            raw matches Some(r) ==> r.spec_lemma() == lemma_bytes(lemma@) && r.spec_bits()
                == path@,
    {
        if lemma.len() > 2 && lemma.len() - 2 == path.len() {
            Some(RawProof { lemma, path })
        } else {
            None
        }
    }

    /// The leaf that the proof is for: the lemma's first digest.
    pub fn item(&self) -> (d: TreeHash)
        ensures
            self.spec_lemma().len() == self.spec_bits().len() + 2,
            d@ == self.spec_lemma()[0],
    {
        proof {
            use_type_invariant(self);
        }
        self.lemma[0]
    }

    /// The root of the tree: the lemma's last digest.
    pub fn root(&self) -> (d: TreeHash)
        ensures
            self.spec_lemma().len() == self.spec_bits().len() + 2,
            d@ == self.spec_lemma().last(),
    {
        proof {
            use_type_invariant(self);
        }
        self.lemma[self.lemma.len() - 1]
    }

    /// The lemma.
    pub fn lemma(&self) -> (l: &Vec<TreeHash>)
        ensures
            lemma_bytes(l@) == self.spec_lemma(),
            l@.len() == self.spec_bits().len() + 2,
    {
        proof {
            use_type_invariant(self);
        }
        &self.lemma
    }

    /// The builder's bits.
    pub fn path(&self) -> (p: &Vec<bool>)
        ensures
            p@ == self.spec_bits(),
    {
        &self.path
    }
}

impl From<RawProof> for MerkleProof {
    /// Turns a builder's raw proof into a proof: siblings from the lemma
    /// after its first digest, side bits inverted, leaf and root from the
    /// lemma's two ends.
    fn from(raw: RawProof) -> (mp: MerkleProof)
        ensures
            mp.spec_path() == converted(raw.spec_lemma(), raw.spec_bits()),
            mp.spec_leaf() == raw.spec_lemma()[0],
            mp.spec_root() == raw.spec_lemma().last(),
            mp.spec_path().len() + 2 == raw.spec_lemma().len(),
    {
        proof {
            use_type_invariant(&raw);
        }
        let mut path: Vec<(TreeHash, bool)> = Vec::new();
        let mut j: usize = 0;
        while j < raw.path.len()
            invariant
                j <= raw.path@.len(),
                raw.lemma@.len() == raw.path@.len() + 2,
                path@.len() == j,
                forall|t: int|
                    0 <= t < j ==> path@[t] == (raw.lemma@[t + 1], !raw.path@[t]),
            decreases raw.path@.len() - j,
        {
            path.push((raw.lemma[j + 1], !raw.path[j]));
            j = j + 1;
        }
        assert(levels(path@) =~= converted(lemma_bytes(raw.lemma@), raw.path@));
        let root: TreeHash = raw.root();
        let leaf: TreeHash = raw.item();
        MerkleProof { path, root, leaf }
    }
}

/// A proof holds a `Vec`, which no spec expression can build, so there is no
/// spec value to name as the result of the conversion: what `from` returns is
/// stated by its own `ensures`.
impl FromSpecImpl<RawProof> for MerkleProof {
    open spec fn obeys_from_spec() -> bool {
        false
    }

    open spec fn from_spec(raw: RawProof) -> MerkleProof {
        arbitrary()
    }
}

/// The circuit form of the path of a builder's raw proof.
pub fn proof_into_options(p: RawProof) -> (out: Vec<Option<(Fr, bool)>>)
    ensures
        out@.len() == p.spec_bits().len(),
        forall|i: int|
            0 <= i < out@.len() ==> (#[trigger] out@[i] matches Some(pair) && fr_bytes(pair.0)
                == p.spec_lemma()[i + 1] && pair.1 == !p.spec_bits()[i]),
{
    let mp: MerkleProof = MerkleProof::from(p);
    mp.as_options()
}

/// The bits that a tree builder emits on the way up from leaf `i` through
/// `depth` levels: bit `j` is true when the node on the way is a left child
/// at level `j`, that is when binary digit `j` of `i` is zero.
pub open spec fn left_flags(i: nat, depth: nat) -> Seq<bool> {
    Seq::new(depth, |j: int| digit_is_zero(i, j as nat))
}

/// Binary digit `j` of `i` is zero.
pub open spec fn digit_is_zero(i: nat, j: nat) -> bool {
    (i / pow2(j)) % 2 == 0
}

/// The running hash after `count` levels as a tree builder computes it from
/// its own raw proof: the sibling `lemma[j + 1]` goes to the right when the
/// builder's bit `j` is true.
pub open spec fn raw_climb(lemma: Seq<Seq<u8>>, bits: Seq<bool>, count: nat) -> Seq<u8>
    decreases count,
{
    if count == 0 {
        lemma[0]
    } else {
        let h = raw_climb(lemma, bits, (count - 1) as nat);
        if bits[count - 1] {
            pedersen_node((count - 1) as nat, h, lemma[count as int])
        } else {
            pedersen_node((count - 1) as nat, lemma[count as int], h)
        }
    }
}

/// A raw proof that a tree builder accepts as its own: the lemma is two
/// longer than the bits, and hashing upward from its first digest arrives at
/// its last.
pub open spec fn raw_valid(lemma: Seq<Seq<u8>>, bits: Seq<bool>) -> bool {
    lemma.len() == bits.len() + 2 && raw_climb(lemma, bits, bits.len()) == lemma.last()
}

/// Path-to-index: the converted path of a raw proof for leaf `i` spells `i`.
pub proof fn lemma_index_of_leaf(lemma: Seq<Seq<u8>>, i: nat, depth: nat)
    requires
        lemma.len() == depth + 2,
        i < pow2(depth),
    ensures
        index_of(converted(lemma, left_flags(i, depth))) == i,
    decreases depth,
{
    lemma2_to64();
    let path = converted(lemma, left_flags(i, depth));
    if depth > 0 {
        let rest = converted(lemma.drop_first(), left_flags(i / 2, (depth - 1) as nat));
        lemma_pow2_unfold(depth);
        assert forall|j: nat| j < depth - 1 implies #[trigger] digit_is_zero(i / 2, j)
            == digit_is_zero(i, j + 1) by {
            lemma_pow2_unfold(j + 1);
            vstd::arithmetic::power2::lemma_pow2_pos(j);
            vstd::arithmetic::div_mod::lemma_div_denominator(i as int, 2, pow2(j) as int);
        }
        assert(path.drop_first() =~= rest);
        lemma_index_of_leaf(lemma.drop_first(), i / 2, (depth - 1) as nat);
        assert(path[0].1 == (i % 2 == 1));
    }
}

/// The inversion of the side bits is exact: hashing upward along the
/// converted path gives, level by level, what the builder computes from its
/// raw proof.
pub proof fn lemma_conversion_keeps_chain(lemma: Seq<Seq<u8>>, bits: Seq<bool>, count: nat)
    requires
        count <= bits.len(),
    ensures
        climb(lemma[0], converted(lemma, bits), count) == raw_climb(lemma, bits, count),
    decreases count,
{
    if count > 0 {
        lemma_conversion_keeps_chain(lemma, bits, (count - 1) as nat);
    }
}

/// Round trip: a proof converted from a raw proof that the builder accepts
/// and that leads up from leaf `i` validates for `i`, as long as it is not
/// deeper than can be checked.
pub proof fn lemma_round_trip(mp: MerkleProof, lemma: Seq<Seq<u8>>, i: usize, depth: nat)
    requires
        raw_valid(lemma, left_flags(i as nat, depth)),
        i < pow2(depth),
        depth <= max_depth(),
        mp.spec_path() == converted(lemma, left_flags(i as nat, depth)),
        mp.spec_leaf() == lemma[0],
        mp.spec_root() == lemma.last(),
    ensures
        mp.spec_validate(i),
{
    lemma_index_of_leaf(lemma, i as nat, depth);
    lemma_conversion_keeps_chain(lemma, left_flags(i as nat, depth), depth);
}

/// A proof is bound to one node: whatever its hashes, it validates for no
/// index but the one that its side bits spell.
pub proof fn lemma_other_index_rejected(mp: MerkleProof, i: usize, j: usize)
    requires
        mp.spec_validate(i),
        j != i,
    ensures
        !mp.spec_validate(j),
{
}

/// A proof made of its three parts as they stand.
pub fn make_proof_for_test(root: TreeHash, leaf: TreeHash, path: Vec<(TreeHash, bool)>) -> (mp:
    MerkleProof)
    ensures
        mp.spec_root() == root@,
        mp.spec_leaf() == leaf@,
        mp.spec_path() == levels(path@),
{
    MerkleProof { path, root, leaf }
}

} // verus!
