//! The seeded ChaCha generator that drives parent sampling.
//!
//! The generator itself lives in the `rand` crate. Nothing in this module is
//! proved about it: each function below calls one function of `rand` and
//! states, in terms of uninterpreted names, that what comes back depends on
//! the generator's state and the arguments alone. Draws are made at 64 bits
//! on every machine, so that a graph does not depend on the width of
//! `usize`.

use rand::{ChaChaRng, OsRng, Rng, SeedableRng};
use vstd::prelude::*;

verus! {

/// `rand::ChaChaRng`, the ChaCha20 generator. Its fields are private to
/// `rand`; the library only carries it from draw to draw.
#[verifier::external_type_specification]
#[verifier::external_body]
pub struct ExChaChaRng(rand::ChaChaRng);

/// What a `rand::ChaChaRng` holds: the words of its output buffer, its cipher
/// state and its read position. Every later draw is determined by them.
pub uninterp spec fn rng_words(rng: rand::ChaChaRng) -> Seq<u32>;

/// The words of a generator freshly made by `ChaChaRng::from_seed` from eight
/// seed words.
pub uninterp spec fn seeded_words(seed: Seq<u32>) -> Seq<u32>;

/// What `Rng::gen::<u64>` returns on a generator holding `words`, and the
/// words the generator holds afterwards.
pub uninterp spec fn word_draw(words: Seq<u32>) -> (u64, Seq<u32>);

/// What `Rng::gen_range::<u64>(low, high)` returns on a generator holding
/// `words`, and the words the generator holds afterwards.
pub uninterp spec fn range_draw(words: Seq<u32>, low: u64, high: u64) -> (u64, Seq<u32>);

/// Calls `ChaChaRng::from_seed` (`rand::SeedableRng`) on the eight words.
///
/// Trusted: the new generator's content is a function of the seed alone.
#[verifier::external_body]
pub(crate) fn rng_from_seed(seed: &[u32; 8]) -> (rng: ChaChaRng)
    ensures
        rng_words(rng) == seeded_words(seed@),
{
    ChaChaRng::from_seed(&seed[..])
}

/// Calls `Rng::gen::<u64>`.
///
/// Trusted: the value and the generator's new content are functions of its
/// old content alone.
#[verifier::external_body]
pub(crate) fn rng_next(rng: &mut ChaChaRng) -> (v: u64)
    ensures
        v == word_draw(rng_words(*old(rng))).0,
        rng_words(*final(rng)) == word_draw(rng_words(*old(rng))).1,
{
    rng.gen::<u64>()
}

/// Calls `Rng::gen_range::<u64>(low, high)`, which panics unless
/// `low < high`.
///
/// Trusted: the value lies in `[low, high)`, and it and the generator's new
/// content are functions of the old content and the two bounds alone.
#[verifier::external_body]
pub(crate) fn rng_in_range(rng: &mut ChaChaRng, low: u64, high: u64) -> (v: u64)
    requires
        low < high,
    ensures
        low <= v < high,
        v == range_draw(rng_words(*old(rng)), low, high).0,
        rng_words(*final(rng)) == range_draw(rng_words(*old(rng)), low, high).1,
{
    rng.gen_range(low, high)
}

/// Seven fresh words from the operating system's entropy source
/// (`rand::OsRng`). Panics if the source cannot be opened.
///
/// Nothing is promised of the words: they differ from call to call.
#[verifier::external_body]
pub fn new_seed() -> [u32; 7] {
    OsRng::new().unwrap().gen()
}

} // verus!
