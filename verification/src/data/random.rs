//! The random choices that shuffling and sampling rest on.
//!
//! The generators themselves come from the `rand` crate. What this module
//! states about them is what holds whichever numbers they produce: a shuffle
//! rearranges, and a bounded draw stays below its bound.

use rand::distributions::{Distribution, Uniform};
use rand::rngs::{SmallRng, ThreadRng};
use rand::seq::SliceRandom;
use vstd::prelude::*;
use vstd::seq_lib::group_to_multiset_ensures;

verus! {

/// `rand::rngs::SmallRng`, a small seedable generator; nothing of its state
/// is visible to the proofs.
#[verifier::external_type_specification]
#[verifier::external_body]
pub struct ExSmallRng(SmallRng);

/// `rand::rngs::ThreadRng`, the handle to the generator of the current
/// thread; nothing of its state is visible to the proofs.
#[verifier::external_type_specification]
#[verifier::external_body]
pub struct ExThreadRng(ThreadRng);

/// The index sequence `0, 1, ..., n - 1`.
pub open spec fn range_seq(n: nat) -> Seq<usize> {
    Seq::new(n, |i: int| i as usize)
}

/// Whether `s` holds every index below `n` exactly once, in some order.
pub open spec fn is_permutation(s: Seq<usize>, n: nat) -> bool {
    s.to_multiset() == range_seq(n).to_multiset()
}

/// A source of random indices.
pub trait RandomSource {
    /// Rearranges `indices` at random: the same indices, as often as before,
    /// in some order.
    fn shuffle(&mut self, indices: &mut Vec<usize>)
        ensures
            final(indices)@.to_multiset() == old(indices)@.to_multiset(),
    ;

    /// Draws one index below `bound`.
    fn below(&mut self, bound: usize) -> (index: usize)
        requires
            bound > 0,
        ensures
            index < bound,
    ;
}

impl RandomSource for SmallRng {
    fn shuffle(&mut self, indices: &mut Vec<usize>) {
        shuffle_small(indices, self)
    }

    fn below(&mut self, bound: usize) -> (index: usize) {
        uniform_small(0, bound, self)
    }
}

impl RandomSource for ThreadRng {
    fn shuffle(&mut self, indices: &mut Vec<usize>) {
        shuffle_thread(indices, self)
    }

    fn below(&mut self, bound: usize) -> (index: usize) {
        uniform_thread(0, bound, self)
    }
}

/// Calls `rand::seq::SliceRandom::shuffle` with a `SmallRng`. The shuffle only
/// ever swaps two elements of the slice: what comes out is a rearrangement of
/// what went in.
#[verifier::external_body]
fn shuffle_small(indices: &mut Vec<usize>, rng: &mut SmallRng)
    ensures
        final(indices)@.to_multiset() == old(indices)@.to_multiset(),
{
    indices.shuffle(rng)
}

/// Calls `rand::seq::SliceRandom::shuffle` with a `ThreadRng`. The shuffle
/// only ever swaps two elements of the slice: what comes out is a
/// rearrangement of what went in.
#[verifier::external_body]
fn shuffle_thread(indices: &mut Vec<usize>, rng: &mut ThreadRng)
    ensures
        final(indices)@.to_multiset() == old(indices)@.to_multiset(),
{
    indices.shuffle(rng)
}

/// Samples `rand::distributions::Uniform::new(low, high)` with a `SmallRng`.
/// Its values lie in the half-open range from `low` to `high`. `Uniform::new`
/// panics on an empty range, hence the demand that `low` lie below `high`.
#[verifier::external_body]
fn uniform_small(low: usize, high: usize, rng: &mut SmallRng) -> (index: usize)
    requires
        low < high,
    ensures
        low <= index < high,
{
    Uniform::new(low, high).sample(rng)
}

/// Samples `rand::distributions::Uniform::new(low, high)` with a `ThreadRng`.
/// Its values lie in the half-open range from `low` to `high`. `Uniform::new`
/// panics on an empty range, hence the demand that `low` lie below `high`.
#[verifier::external_body]
fn uniform_thread(low: usize, high: usize, rng: &mut ThreadRng) -> (index: usize)
    requires
        low < high,
    ensures
        low <= index < high,
{
    Uniform::new(low, high).sample(rng)
}

/// Calls `rand::thread_rng`, which hands out the generator of the current
/// thread. Nothing is claimed of the handle.
#[verifier::external_body]
pub(crate) fn thread_generator() -> ThreadRng {
    rand::thread_rng()
}

/// The vector `[0, 1, ..., n - 1]`.
pub fn index_range(n: usize) -> (indices: Vec<usize>)
    ensures
        indices@ == range_seq(n as nat),
{
    let mut indices: Vec<usize> = Vec::new();
    let mut i: usize = 0;
    while i < n
        invariant
            i <= n,
            indices.len() == i,
            forall|k: int| 0 <= k < i ==> indices[k] == k,
        decreases n - i,
    {
        indices.push(i);
        i += 1;
    }
    assert(indices@ =~= range_seq(n as nat));
    indices
}

/// A permutation of the indices below `n` has `n` entries, all below `n`, no
/// two of them equal, and every index below `n` among them.
pub proof fn lemma_permutation_facts(s: Seq<usize>, n: nat)
    requires
        is_permutation(s, n),
        n <= usize::MAX,
    ensures
        s.len() == n,
        forall|i: int| 0 <= i < s.len() ==> s[i] < n,
        s.no_duplicates(),
        forall|v: usize| v < n ==> s.contains(v),
{
    broadcast use group_to_multiset_ensures;

    let r = range_seq(n);
    assert(r.len() == n);
    assert(s.len() == n) by {
        assert(s.to_multiset().len() == s.len());
        assert(r.to_multiset().len() == r.len());
    }
    assert forall|i: int| 0 <= i < s.len() implies s[i] < n by {
        assert(s.contains(s[i]));
        assert(s.to_multiset().count(s[i]) > 0);
        assert(r.contains(s[i]));
        let k = choose|k: int| 0 <= k < r.len() && r[k] == s[i];
        assert(r[k] == k as usize);
    }
    assert(r.no_duplicates());
    r.lemma_multiset_has_no_duplicates();
    s.lemma_multiset_has_no_duplicates_conv();
    assert forall|v: usize| v < n implies s.contains(v) by {
        assert(r[v as int] == v);
        assert(r.contains(v));
        assert(r.to_multiset().count(v) > 0);
    }
}

} // verus!
