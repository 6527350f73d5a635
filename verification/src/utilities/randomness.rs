//! Random sources for the engine. Every draw goes through an explicitly
//! owned, seedable handle, so that parallel runs share no hidden mutable
//! state and a fixed seed reproduces a run.
//!
//! The uniform draws come from the `rand` crate through trusted wrappers;
//! the weighted (multinomial) draw on top of them is verified here.

use vstd::prelude::*;

verus! {

#[verifier::external_type_specification]
#[verifier::external_body]
/// The standard generator of the `rand` crate, opaque to the verifier.
pub struct ExStdRng(rand::rngs::StdRng);

/// Increment used to spread one base seed into per-agent and per-team
/// seeds.
pub const SEED_STRIDE: u64 = 0x9E3779B97F4A7C15;

/// An explicitly owned random source: one per agent and one per team.
pub struct RngHandle {
    /// The generator state itself.
    rng: rand::rngs::StdRng,
}

impl RngHandle {
    /// Relies on rand's `SeedableRng::seed_from_u64`, which builds a
    /// generator from a word-sized seed and does not fail.
    #[verifier::external_body]
    pub fn from_seed(seed: u64) -> (r: RngHandle) {
        RngHandle { rng: rand::SeedableRng::seed_from_u64(seed) }
    }

    /// Relies on rand's `Rng::gen_range` over `0..bound`, which returns a
    /// uniform value below `bound` and panics only on an empty range.
    #[verifier::external_body]
    pub fn next_below(&mut self, bound: u64) -> (r: u64)
        requires
            bound >= 1,
        ensures
            r < bound,
    {
        rand::Rng::gen_range(&mut self.rng, 0..bound)
    }

    /// Relies on rand's `Rng::gen_range` over `0..bound`, which returns a
    /// uniform value below `bound` and panics only on an empty range.
    #[verifier::external_body]
    pub fn next_below_wide(&mut self, bound: u128) -> (r: u128)
        requires
            bound >= 1,
        ensures
            r < bound,
    {
        rand::Rng::gen_range(&mut self.rng, 0..bound)
    }
}

/// Derives the seed for the roster member at `index` from a base seed.
pub(crate) fn derive_seed(base: u64, index: u64) -> u64 {
    base.wrapping_add(index.wrapping_mul(SEED_STRIDE))
}

/// The total of a weight vector.
pub open spec fn weight_total(s: Seq<u64>) -> int
    decreases s.len(),
{
    if s.len() == 0 {
        0
    } else {
        weight_total(s.drop_last()) + s.last()
    }
}

/// Extending a prefix by one element adds that element's weight.
proof fn lemma_weight_total_extend(s: Seq<u64>, i: int)
    requires
        0 <= i < s.len(),
    ensures
        weight_total(s.subrange(0, i + 1)) == weight_total(s.subrange(0, i)) + s[i],
{
    let t = s.subrange(0, i + 1);
    assert(t.drop_last() =~= s.subrange(0, i));
    assert(t.last() == s[i]);
}

/// A weight total is never negative.
proof fn lemma_weight_total_nonneg(s: Seq<u64>)
    ensures
        weight_total(s) >= 0,
    decreases s.len(),
{
    if s.len() > 0 {
        lemma_weight_total_nonneg(s.drop_last());
    }
}

/// A weight total of `n` words is at most `n` times the largest word.
proof fn lemma_weight_total_bound(s: Seq<u64>)
    ensures
        weight_total(s) <= s.len() * 0xffffffffffffffff,
    decreases s.len(),
{
    if s.len() > 0 {
        lemma_weight_total_bound(s.drop_last());
    }
}

/// No single weight exceeds the total of all of them.
pub proof fn lemma_weight_total_element_le(s: Seq<u64>, i: int)
    requires
        0 <= i < s.len(),
    ensures
        s[i] <= weight_total(s),
    decreases s.len(),
{
    if i == s.len() - 1 {
        lemma_weight_total_nonneg(s.drop_last());
    } else {
        lemma_weight_total_element_le(s.drop_last(), i);
    }
}

/// A prefix of the weights never totals more than all of them.
proof fn lemma_weight_total_prefix_le(s: Seq<u64>, i: int)
    requires
        0 <= i <= s.len(),
    ensures
        weight_total(s.subrange(0, i)) <= weight_total(s),
    decreases s.len() - i,
{
    if i == s.len() {
        assert(s.subrange(0, i) =~= s);
    } else {
        lemma_weight_total_extend(s, i);
        lemma_weight_total_prefix_le(s, i + 1);
    }
}

/// Sums a weight vector.
fn total_weight(weights: &Vec<u64>) -> (t: u128)
    ensures
        t == weight_total(weights@),
{
    let ghost s = weights@;
    let mut acc: u128 = 0;
    for i in 0..weights.len()
        invariant
            s == weights@,
            acc == weight_total(s.subrange(0, i as int)),
            acc <= i * 0xffffffffffffffff,
    {
        proof {
            lemma_weight_total_extend(s, i as int);
        }
        acc = acc + (weights[i] as u128);
    }
    proof {
        assert(s.subrange(0, s.len() as int) =~= s);
    }
    acc
}

/// A multinomial draw over a weight vector: a loaded die. Returns an index
/// drawn with probability proportional to its weight; when every weight is
/// zero the draw is degenerate and falls back to a uniform draw over the
/// indices.
pub fn multinomial_draw(rng: &mut RngHandle, weights: &Vec<u64>) -> (idx: usize)
    requires
        weights.len() >= 1,
    ensures
        idx < weights.len(),
        weight_total(weights@) > 0 ==> weights@[idx as int] > 0,
{
    let ghost s = weights@;
    let total = total_weight(weights);
    if total == 0 {
        let i = rng.next_below(weights.len() as u64);
        return i as usize;
    }
    proof {
        lemma_weight_total_bound(s);
    }
    let u = rng.next_below_wide(total);
    let mut acc: u128 = 0;
    for i in 0..weights.len()
        invariant
            s == weights@,
            total == weight_total(s),
            acc == weight_total(s.subrange(0, i as int)),
            acc <= u,
            u < total,
    {
        proof {
            lemma_weight_total_extend(s, i as int);
            lemma_weight_total_prefix_le(s, i as int + 1);
        }
        let next = acc + (weights[i] as u128);
        if u < next {
            return i;
        }
        acc = next;
    }
    proof {
        assert(s.subrange(0, s.len() as int) =~= s);
        assert(false);
    }
    0
}

} // verus!
