//! Digests: 32 bytes that encode an element of the BLS12-381 scalar field.

use pairing::bls12_381::{Fr, FrRepr};
use pairing::{PrimeField, PrimeFieldRepr};
use vstd::prelude::*;
use vstd::std_specs::cmp::PartialEqSpecImpl;

verus! {

/// Width of a digest in bytes.
pub const DIGEST_BYTES: usize = 32;

/// The number that `bytes` spell, least significant byte first.
pub open spec fn le_nat(bytes: Seq<u8>) -> nat
    decreases bytes.len(),
{
    if bytes.len() == 0 {
        0
    } else {
        bytes[0] as nat + 256 * le_nat(bytes.drop_first())
    }
}

/// The order of the BLS12-381 scalar field.
pub open spec fn field_order() -> nat {
    0x73eda753299d7d483339d80809a1d80553bda402fffe5bfeffffffff00000001nat
}

/// `bytes` are the canonical encoding of a field element: 32 bytes that spell
/// a number below the field's order.
pub open spec fn is_canonical(bytes: Seq<u8>) -> bool {
    bytes.len() == 32 && le_nat(bytes) < field_order()
}

/// `pairing::bls12_381::Fr`, an element of the scalar field, as circuits
/// take it. Its representation is private to `pairing`.
#[verifier::external_type_specification]
#[verifier::external_body]
pub struct ExFr(pairing::bls12_381::Fr);

/// The canonical 32-byte encoding of a field element: what
/// `into_repr().write_le(..)` writes.
pub uninterp spec fn fr_bytes(f: pairing::bls12_381::Fr) -> Seq<u8>;

/// Reads `bytes` as four little-endian limbs and calls `Fr::from_repr`
/// (`pairing::PrimeField`), which accepts exactly the numbers below the
/// field's order.
///
/// Trusted: the call succeeds on canonical encodings and on no others, and
/// the element it returns encodes back to `bytes`.
#[verifier::external_body]
pub(crate) fn field_element(bytes: &[u8; 32]) -> (f: Option<Fr>)
    ensures
        f.is_some() == is_canonical(bytes@),
        f matches Some(e) ==> fr_bytes(e) == bytes@,
{
    let mut repr = FrRepr::default();
    repr.read_le(&bytes[..]).ok()?;
    Fr::from_repr(repr).ok()
}

/// A digest: the fixed-width output of the tree hasher. Always the canonical
/// encoding of a field element.
#[derive(Clone, Copy, Debug)]
pub struct TreeHash {
    bytes: [u8; 32],
}

impl View for TreeHash {
    type V = Seq<u8>;

    closed spec fn view(&self) -> Seq<u8> {
        self.bytes@
    }
}

impl TreeHash {
    #[verifier::type_invariant]
    spec fn canonical(&self) -> bool {
        is_canonical(self.bytes@)
    }

    /// The digest with these bytes, if they are a canonical encoding.
    pub fn from_bytes(bytes: [u8; 32]) -> (d: Option<TreeHash>)
        ensures
            d.is_some() == is_canonical(bytes@),
            d matches Some(h) ==> h@ == bytes@,
    {
        match field_element(&bytes) {
            Some(_) => Some(TreeHash { bytes }),
            None => None,
        }
    }

    /// The digest with these bytes, which are known to be canonical.
    pub(crate) fn from_canonical(bytes: [u8; 32]) -> (d: TreeHash)
        requires
            is_canonical(bytes@),
        ensures
            d@ == bytes@,
    {
        TreeHash { bytes }
    }

    /// The field element that the digest encodes.
    pub fn to_field(&self) -> (f: Fr)
        ensures
            fr_bytes(f) == self@,
    {
        proof {
            use_type_invariant(self);
        }
        match field_element(&self.bytes) {
            Some(f) => f,
            None => vstd::pervasive::unreached(),
        }
    }

    /// The digest's bytes, as they are written to the wire.
    pub fn serialize(&self) -> (out: Vec<u8>)
        ensures
            out@ == self@,
            out@.len() == DIGEST_BYTES,
    {
        vstd::slice::slice_to_vec(self.bytes.as_slice())
    }

    /// The digest's bytes.
    pub fn to_bytes(&self) -> (bytes: [u8; 32])
        ensures
            bytes@ == self@,
            is_canonical(bytes@),
    {
        proof {
            use_type_invariant(self);
        }
        self.bytes
    }
}

/// A sequence of zero bytes spells zero.
pub proof fn lemma_le_nat_zeros(bytes: Seq<u8>)
    requires
        forall|i: int| 0 <= i < bytes.len() ==> bytes[i] == 0,
    ensures
        le_nat(bytes) == 0,
    decreases bytes.len(),
{
    if bytes.len() > 0 {
        lemma_le_nat_zeros(bytes.drop_first());
    }
}

impl Default for TreeHash {
    /// The all-zero digest, a placeholder that encodes the field's zero.
    fn default() -> (d: TreeHash)
        ensures
            d@ == Seq::new(32, |i: int| 0u8),
    {
        let bytes: [u8; 32] = [0u8; 32];
        proof {
            lemma_le_nat_zeros(bytes@);
            assert(bytes@ =~= Seq::new(32, |i: int| 0u8));
        }
        TreeHash { bytes }
    }
}

impl PartialEq for TreeHash {
    /// Two digests are equal when their bytes are.
    fn eq(&self, other: &TreeHash) -> (same: bool) {
        let mut i: usize = 0;
        while i < 32
            invariant
                i <= 32,
                forall|t: int| 0 <= t < i ==> self.bytes@[t] == other.bytes@[t],
            decreases 32 - i,
        {
            if self.bytes[i] != other.bytes[i] {
                return false;
            }
            i = i + 1;
        }
        assert(self.bytes@ =~= other.bytes@);
        true
    }
}

impl Eq for TreeHash {

}

impl PartialEqSpecImpl for TreeHash {
    open spec fn obeys_eq_spec() -> bool {
        true
    }

    open spec fn eq_spec(&self, other: &TreeHash) -> bool {
        self@ == other@
    }
}

} // verus!
