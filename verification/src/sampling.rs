//! Bucket sampling: the arithmetic that turns two draws of the generator into
//! one predecessor of a node, stated once as mathematics and once as code.

use crate::prng::{
    range_draw, rng_from_seed, rng_in_range, rng_next, rng_words, seeded_words, word_draw,
};
use rand::ChaChaRng;
use vstd::arithmetic::power2::{
    lemma2_to64, lemma2_to64_rest, lemma_pow2_pos, lemma_pow2_strictly_increases,
    lemma_pow2_unfold, pow2,
};
use vstd::prelude::*;
use vstd::relations::sorted_by;
use vstd::seq_lib::{lemma_sorted_unique, to_multiset_build, to_multiset_insert};

verus! {

/// `floor(log2(n))` for `n >= 1`, and `0` for `n == 0`.
pub open spec fn floor_log2(n: nat) -> nat
    decreases n,
{
    if n < 2 {
        0
    } else {
        1 + floor_log2(n / 2)
    }
}

/// `2^floor_log2(n) <= n < 2^(floor_log2(n) + 1)` for every `n >= 1`.
pub proof fn lemma_floor_log2_bounds(n: nat)
    requires
        n >= 1,
    ensures
        pow2(floor_log2(n)) <= n,
        n < pow2(floor_log2(n) + 1),
    decreases n,
{
    lemma2_to64();
    if n >= 2 {
        lemma_floor_log2_bounds(n / 2);
        lemma_pow2_unfold(floor_log2(n));
        lemma_pow2_unfold(floor_log2(n) + 1);
    }
}

/// The exponent of the largest power of two that does not exceed `n`.
pub fn log2_floor(n: usize) -> (r: usize)
    ensures
        r == floor_log2(n as nat),
        n >= 1 ==> pow2(r as nat) <= n,
        r < usize::BITS,
{
    let mut r: usize = 0;
    let mut x: usize = n;
    proof {
        lemma2_to64();
    }
    while x >= 2
        invariant
            r + floor_log2(x as nat) == floor_log2(n as nat),
            x * pow2(r as nat) <= n,
            r < usize::BITS,
        decreases x,
    {
        proof {
            lemma_pow2_unfold((r + 1) as nat);
            assert((x / 2) * (2 * pow2(r as nat)) <= x * pow2(r as nat)) by (nonlinear_arith)
                requires
                    x >= 2,
            ;
            assert(2 * pow2(r as nat) <= x * pow2(r as nat)) by (nonlinear_arith)
                requires
                    x >= 2,
            ;
            lemma_width_of_power((r + 1) as nat);
        }
        x = x / 2;
        r = r + 1;
    }
    proof {
        if n >= 1 {
            lemma_floor_log2_bounds(n as nat);
        }
    }
    r
}

/// A power of two that fits in `usize` has an exponent below the width of
/// `usize`.
proof fn lemma_width_of_power(e: nat)
    requires
        pow2(e) <= usize::MAX,
    ensures
        e < usize::BITS,
{
    lemma2_to64();
    lemma2_to64_rest();
    if e > usize::BITS {
        lemma_pow2_strictly_increases(usize::BITS as nat, e);
    }
}

/// The window of the back-distance draw for bucket `j`: the smaller of the
/// meta-node's own index `total` and `2^(j + 1)`.
pub open spec fn bucket_span(total: int, j: int) -> int {
    if total <= pow2((j + 1) as nat) {
        total
    } else {
        pow2((j + 1) as nat) as int
    }
}

/// The least back distance for a window `span`: half the window, but at
/// least 2.
pub open spec fn least_back(span: int) -> int {
    if span / 2 >= 2 {
        span / 2
    } else {
        2
    }
}

/// A node never lists itself: a draw that lands on `node` is moved to the
/// node before it.
pub open spec fn redirect(node: int, out: int) -> int {
    if out == node {
        node - 1
    } else {
        out
    }
}

/// The bucket that the draw `draw` selects for a node whose first meta-node
/// has index `base`: one of the `floor(log2(base))` buckets.
pub open spec fn bucket(base: int, draw: u64) -> int {
    draw as int % floor_log2(base as nat) as int
}

/// The range `[low, high)` that the back distance of the `k`-th meta-node of
/// `node` is drawn from, once the bucket draw is known: from the least back
/// distance of the bucket's window up to the window itself.
pub open spec fn back_range(node: int, m: int, k: int, draw: u64) -> (int, int) {
    let span = bucket_span(node * m + k, bucket(node * m, draw));
    (least_back(span), span + 1)
}

/// The parent that the back distance `back` leads to from the `k`-th
/// meta-node of `node`: the node that holds the meta-node `back` places
/// before, moved off `node` itself.
pub open spec fn parent_of_back(node: int, m: int, k: int, back: int) -> int {
    redirect(node, (node * m + k - back) / m)
}

/// One predecessor of `node` in a graph of degree `m`, for the node's `k`-th
/// meta-node, drawn from a generator that holds `words`; and the words the
/// generator holds afterwards. Two draws are made: the bucket, then the back
/// distance inside the bucket's window.
pub open spec fn meta_parent(node: int, m: int, k: int, words: Seq<u32>) -> (int, Seq<u32>) {
    let first = word_draw(words);
    let range = back_range(node, m, k, first.0);
    let second = range_draw(first.1, range.0 as u64, range.1 as u64);
    (parent_of_back(node, m, k, second.0 as int), second.1)
}

/// The first `count` predecessors of `node`, in the order drawn, and the
/// words the generator holds after them.
pub open spec fn sample(node: int, m: int, count: nat, words: Seq<u32>) -> (Seq<usize>, Seq<u32>)
    decreases count,
{
    if count == 0 {
        (Seq::empty(), words)
    } else {
        let before = sample(node, m, (count - 1) as nat, words);
        let step = meta_parent(node, m, count - 1, before.1);
        (before.0.push(step.0 as usize), step.1)
    }
}

/// The order that parent lists are sorted by.
pub open spec fn index_leq() -> spec_fn(usize, usize) -> bool {
    |a: usize, b: usize| a <= b
}

/// No element is larger than a later one.
pub open spec fn ascending(s: Seq<usize>) -> bool {
    forall|i: int, j: int| 0 <= i < j < s.len() ==> s[i] <= s[j]
}

/// The eight words that seed the generator of `node`: the graph's seven, then
/// the node's index cut to 32 bits.
pub open spec fn node_seed(seed: Seq<u32>, node: usize) -> Seq<u32> {
    seed.push(node as u32)
}

/// The parent list of `node` in the bucket graph of degree `m` and seed
/// `seed`: all zero for the first two nodes; for every other node the `m`
/// sampled predecessors, sorted ascending.
pub open spec fn bucket_parents(seed: Seq<u32>, m: usize, node: usize) -> Seq<usize> {
    if node < 2 {
        Seq::new(m as nat, |i: int| 0usize)
    } else {
        sample(node as int, m as int, m as nat, seeded_words(node_seed(seed, node))).0.sort_by(
            index_leq(),
        )
    }
}

/// The range `[low, high)` that the back distance of the `k`-th meta-node of
/// `node` is to be drawn from, given the bucket draw.
pub fn back_window(node: usize, m: usize, k: usize, draw: u64) -> (window: (usize, usize))
    requires
        node >= 2,
        k < m,
        node * m + m <= usize::MAX,
    ensures
        (window.0 as int, window.1 as int) == back_range(node as int, m as int, k as int, draw),
        2 <= window.0 < window.1 <= node * m + k + 1,
{
    assert(2 <= node * m <= node * m + m) by (nonlinear_arith)
        requires
            node >= 2,
            m >= 1,
    ;
    let base: usize = node * m;
    let total: usize = base + k;
    let logi: usize = log2_floor(base);
    assert(logi >= 1);
    let j: usize = (draw % (logi as u64)) as usize;
    proof {
        if j + 1 < logi {
            lemma_pow2_strictly_increases((j + 1) as nat, logi as nat);
        }
        vstd::bits::lemma_usize_shl_is_mul(1usize, (j + 1) as usize);
        lemma_pow2_pos((j + 1) as nat);
        lemma_pow2_unfold((j + 1) as nat);
        lemma_pow2_pos(j as nat);
    }
    let cap: usize = 1usize << (j + 1);
    let span: usize = if total <= cap {
        total
    } else {
        cap
    };
    assert(span as int == bucket_span(total as int, j as int));
    assert(span >> 1 == span / 2) by (bit_vector);
    let low: usize = if (span >> 1) >= 2 {
        span >> 1
    } else {
        2
    };
    (low, span + 1)
}

/// The parent that the back distance `back` leads to from the `k`-th
/// meta-node of `node`.
pub fn parent_at(node: usize, m: usize, k: usize, back: usize) -> (parent: usize)
    requires
        node >= 1,
        k < m,
        back <= node * m + k,
        node * m + m <= usize::MAX,
    ensures
        parent == parent_of_back(node as int, m as int, k as int, back as int),
        parent < node,
{
    assert(0 <= node * m <= node * m + m) by (nonlinear_arith)
        requires
            m >= 1,
    ;
    let total: usize = node * m + k;
    let out: usize = (total - back) / m;
    assert(out <= node) by (nonlinear_arith)
        requires
            out == (total - back) / (m as int),
            total - back < node * m + m,
            0 <= total - back,
            m >= 1,
    ;
    if out == node {
        node - 1
    } else {
        out
    }
}

/// Draws the predecessor for the `k`-th meta-node of `node`: the bucket
/// first, then the back distance.
pub(crate) fn draw_parent(rng: &mut ChaChaRng, node: usize, m: usize, k: usize) -> (parent: usize)
    requires
        node >= 2,
        k < m,
        node * m + m <= usize::MAX,
    ensures
        (parent as int, rng_words(*final(rng))) == meta_parent(
            node as int,
            m as int,
            k as int,
            rng_words(*old(rng)),
        ),
        parent < node,
{
    let draw: u64 = rng_next(rng);
    let (low, high): (usize, usize) = back_window(node, m, k, draw);
    let back: usize = rng_in_range(rng, low as u64, high as u64) as usize;
    parent_at(node, m, k, back)
}

/// Sorts `v` ascending, by insertion.
pub fn sort_indices(v: &mut Vec<usize>)
    ensures
        ascending(final(v)@),
        final(v)@.to_multiset() == old(v)@.to_multiset(),
        final(v)@.len() == old(v)@.len(),
{
    let mut out: Vec<usize> = Vec::new();
    let n: usize = v.len();
    let mut i: usize = 0;
    assert(out@ =~= v@.take(0));
    while i < n
        invariant
            i <= n,
            n == v@.len(),
            v@ == old(v)@,
            out@.len() == i,
            ascending(out@),
            out@.to_multiset() == v@.take(i as int).to_multiset(),
        decreases n - i,
    {
        let x: usize = v[i];
        let mut pos: usize = 0;
        while pos < out.len() && out[pos] <= x
            invariant
                pos <= out@.len(),
                forall|t: int| 0 <= t < pos ==> out@[t] <= x,
            decreases out@.len() - pos,
        {
            pos = pos + 1;
        }
        proof {
            to_multiset_insert(out@, pos as int, x);
            to_multiset_build(v@.take(i as int), x);
            assert(v@.take(i + 1) =~= v@.take(i as int).push(x));
        }
        out.insert(pos, x);
        i = i + 1;
    }
    proof {
        assert(v@.take(n as int) =~= v@);
    }
    *v = out;
}

/// The parents of `node`: see [`bucket_parents`].
pub(crate) fn sample_parents(seed: &[u32; 7], m: usize, node: usize) -> (parents: Vec<usize>)
    requires
        node * m + m <= usize::MAX,
    ensures
        parents@ == bucket_parents(seed@, m, node),
        parents@.len() == m,
        ascending(parents@),
        forall|i: int| 0 <= i < parents@.len() ==> parents@[i] <= node,
        node >= 1 ==> forall|i: int| 0 <= i < parents@.len() ==> parents@[i] < node,
{
    let mut parents: Vec<usize> = Vec::new();
    if node < 2 {
        let mut k: usize = 0;
        while k < m
            invariant
                k <= m,
                parents@.len() == k,
                forall|i: int| 0 <= i < k ==> parents@[i] == 0,
            decreases m - k,
        {
            parents.push(0);
            k = k + 1;
        }
        assert(parents@ =~= bucket_parents(seed@, m, node));
        return parents;
    }
    let seed8: [u32; 8] = [
        seed[0],
        seed[1],
        seed[2],
        seed[3],
        seed[4],
        seed[5],
        seed[6],
        node as u32,
    ];
    assert(seed8@ =~= node_seed(seed@, node));
    let mut rng: ChaChaRng = rng_from_seed(&seed8);
    let ghost start = rng_words(rng);
    let mut k: usize = 0;
    while k < m
        invariant
            k <= m,
            node >= 2,
            node * m + m <= usize::MAX,
            parents@ == sample(node as int, m as int, k as nat, start).0,
            rng_words(rng) == sample(node as int, m as int, k as nat, start).1,
            parents@.len() == k,
            forall|i: int| 0 <= i < k ==> parents@[i] < node,
        decreases m - k,
    {
        let p: usize = draw_parent(&mut rng, node, m, k);
        parents.push(p);
        k = k + 1;
    }
    let ghost drawn = parents@;
    sort_indices(&mut parents);
    proof {
        let leq = index_leq();
        drawn.lemma_sort_by_ensures(leq);
        assert(sorted_by(parents@, leq));
        lemma_sorted_unique(parents@, drawn.sort_by(leq), leq);
        assert forall|i: int| 0 <= i < parents@.len() implies parents@[i] < node by {
            vstd::seq_lib::to_multiset_contains(parents@, parents@[i]);
            vstd::seq_lib::to_multiset_contains(drawn, parents@[i]);
            assert(parents@.contains(parents@[i]));
        }
    }
    parents
}

} // verus!
