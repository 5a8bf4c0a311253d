//! Samplers decide in which order a dataset is walked during one epoch.

use rand::rngs::ThreadRng;
use vstd::prelude::*;

use crate::data::random::{
    index_range, is_permutation, lemma_permutation_facts, range_seq, thread_generator,
    RandomSource,
};

verus! {

/// A generator of index sequences, one per epoch.
pub trait Sampler {
    /// The number of indices of one epoch. An implementation says here what it
    /// is; one that does not leaves it unspecified.
    open spec fn size(&self) -> nat {
        arbitrary()
    }

    /// Whether `indices` is a sequence that one epoch of this sampler may
    /// consist of. An implementation that does not say admits every sequence.
    open spec fn produces(&self, indices: Seq<usize>) -> bool {
        true
    }

    /// The index sequence of the next epoch.
    fn iter(&mut self) -> (indices: Vec<usize>)
        ensures
            indices.len() == old(self).size(),
            old(self).produces(indices@),
            final(self).size() == old(self).size(),
            forall|s: Seq<usize>| final(self).produces(s) == old(self).produces(s),
    ;

    /// The number of indices of one epoch.
    fn len(&self) -> (n: usize)
        ensures
            n == self.size(),
    ;

    /// Whether an epoch holds no index at all.
    fn is_empty(&self) -> (empty: bool)
        ensures
            empty == (self.size() == 0),
    {
        self.len() == 0
    }
}

/// Walks the indices `0, 1, ..., size - 1` in that order, every epoch.
pub struct SequentialSampler {
    size: usize,
}

impl SequentialSampler {
    /// The number of indices.
    pub closed spec fn count(&self) -> nat {
        self.size as nat
    }

    #[must_use]
    pub fn new(size: usize) -> (sampler: Self)
        ensures
            sampler.count() == size,
    {
        Self { size }
    }
}

impl Sampler for SequentialSampler {
    open spec fn size(&self) -> nat {
        self.count()
    }

    open spec fn produces(&self, indices: Seq<usize>) -> bool {
        indices == range_seq(self.count())
    }

    fn iter(&mut self) -> (indices: Vec<usize>)
        ensures
            *final(self) == *old(self),
    {
        index_range(self.size)
    }

    fn len(&self) -> (n: usize) {
        self.size
    }
}

/// Round `k` of a draw from `universe` indices: the entries from position
/// `k * universe` up to the start of the next round, or up to the end of `s`
/// where that comes first.
pub open spec fn round(s: Seq<usize>, k: int, universe: nat) -> Seq<usize> {
    s.subrange(
        k * universe,
        if (k + 1) * universe <= s.len() {
            (k + 1) * universe
        } else {
            s.len() as int
        },
    )
}

/// What is known of a random draw of `size` indices out of `0..universe`,
/// whichever numbers the generator gives.
///
/// Every index lies below `universe`. Without replacement the draw goes in
/// rounds of `universe` indices each: a round holds no index twice, and a full
/// round holds every index of the universe exactly once.
pub open spec fn random_draw(s: Seq<usize>, size: nat, universe: nat, replacement: bool) -> bool {
    &&& s.len() == size
    &&& forall|i: int| 0 <= i < s.len() ==> s[i] < universe
    &&& !replacement ==> forall|k: int|
        0 <= k && k * universe < s.len() ==> (#[trigger] round(s, k, universe)).no_duplicates()
    &&& !replacement ==> forall|k: int|
        0 <= k && (k + 1) * universe <= s.len() ==> is_permutation(
            #[trigger] round(s, k, universe),
            universe,
        )
}

/// The numbers that a random sampler is set up with.
struct Settings {
    size: usize,
    num_samples: usize,
    replacement: bool,
}

impl Settings {
    /// Nothing can be drawn from an empty universe.
    #[verifier::type_invariant]
    spec fn valid(self) -> bool {
        self.num_samples > 0 || (self.size == 0 && !self.replacement)
    }
}

/// Draws `size` indices per epoch at random out of `0..num_samples`.
///
/// With replacement every index is drawn independently of the others. Without
/// replacement the sampler goes through a fresh random permutation of the
/// universe, and starts on another one whenever the current one is used up.
pub struct RandomSampler<R: RandomSource> {
    settings: Settings,
    rng: R,
}

impl<R: RandomSource> RandomSampler<R> {
    /// The number of indices drawn per epoch.
    pub closed spec fn draws(&self) -> nat {
        self.settings.size as nat
    }

    /// The number of indices to draw from.
    pub closed spec fn universe(&self) -> nat {
        self.settings.num_samples as nat
    }

    /// Whether an index may come more than once before all have come.
    pub closed spec fn with_replacement(&self) -> bool {
        self.settings.replacement
    }

    /// A sampler of `size` indices per epoch out of `0..num_samples`, with
    /// `rng` as its source of randomness.
    #[must_use]
    pub fn new(size: usize, replacement: bool, num_samples: usize, rng: R) -> (sampler: Self)
        requires
            num_samples > 0 || (size == 0 && !replacement),
        ensures
            sampler.draws() == size,
            sampler.universe() == num_samples,
            sampler.with_replacement() == replacement,
    {
        Self { settings: Settings { size, num_samples, replacement }, rng }
    }

    /// `size` independent draws out of `0..universe`.
    fn draw_with_replacement(rng: &mut R, size: usize, universe: usize) -> (indices: Vec<usize>)
        requires
            universe > 0,
        ensures
            random_draw(indices@, size as nat, universe as nat, true),
    {
        let mut indices: Vec<usize> = Vec::new();
        let mut i: usize = 0;
        while i < size
            invariant
                i <= size,
                universe > 0,
                indices.len() == i,
                forall|k: int| 0 <= k < i ==> indices[k] < universe,
            decreases size - i,
        {
            let index = rng.below(universe);
            indices.push(index);
            i += 1;
        }
        indices
    }

    /// `size` draws out of `0..universe` that go through one random
    /// permutation of the universe after another.
    fn draw_without_replacement(rng: &mut R, size: usize, universe: usize) -> (indices: Vec<usize>)
        requires
            universe > 0 || size == 0,
        ensures
            random_draw(indices@, size as nat, universe as nat, false),
    {
        let mut indices: Vec<usize> = Vec::new();
        if size == 0 {
            proof {
                lemma_empty_draw(indices@, universe as nat);
            }
            return indices;
        }
        let mut data = index_range(universe);
        let mut pos: usize = 0;
        let mut i: usize = 0;
        let ghost mut q: int = 0;
        while i < size
            invariant
                universe > 0,
                i <= size,
                indices.len() == i,
                pos < universe,
                0 <= q,
                i == q * universe + pos,
                is_permutation(data@, universe as nat),
                forall|k: int| 0 <= k < indices.len() ==> indices[k] < universe,
                forall|k: int|
                    0 <= k < q ==> is_permutation(
                        #[trigger] round(indices@, k, universe as nat),
                        universe as nat,
                    ),
                indices@.subrange(q * universe, i as int) =~= data@.subrange(0, pos as int),
            decreases size - i,
        {
            if pos == 0 {
                rng.shuffle(&mut data);
            }
            proof {
                lemma_permutation_facts(data@, universe as nat);
            }
            let ghost before = indices@;
            indices.push(data[pos]);
            assert forall|k: int| 0 <= k < q implies is_permutation(
                #[trigger] round(indices@, k, universe as nat),
                universe as nat,
            ) by {
                lemma_round_bounds(k, q, universe as int, pos as int);
                assert(round(indices@, k, universe as nat) =~= round(before, k, universe as nat));
            }
            pos += 1;
            i += 1;
            assert(indices@.subrange(q * universe, i as int) =~= data@.subrange(0, pos as int));
            if pos == universe {
                proof {
                    assert((q + 1) * universe == q * universe + universe) by (nonlinear_arith);
                    assert(round(indices@, q, universe as nat) =~= data@);
                    q = q + 1;
                }
                pos = 0;
            }
        }
        proof {
            lemma_permutation_facts(data@, universe as nat);
            assert forall|k: int| 0 <= k && (k + 1) * universe <= indices@.len() implies is_permutation(
                #[trigger] round(indices@, k, universe as nat),
                universe as nat,
            ) by {
                lemma_round_bounds(k, q, universe as int, pos as int);
            }
            assert forall|k: int| 0 <= k && k * universe < indices@.len() implies (#[trigger] round(
                indices@,
                k,
                universe as nat,
            )).no_duplicates() by {
                lemma_round_bounds(k, q, universe as int, pos as int);
                if k < q {
                    lemma_permutation_facts(round(indices@, k, universe as nat), universe as nat);
                } else {
                    assert((q + 1) * universe == q * universe + universe) by (nonlinear_arith);
                    assert(round(indices@, k, universe as nat) =~= data@.subrange(0, pos as int));
                }
            }
        }
        indices
    }
}

impl RandomSampler<ThreadRng> {
    /// A sampler that draws from the generator of the current thread.
    #[must_use]
    pub fn new_random(size: usize, replacement: bool, num_samples: usize) -> (sampler: Self)
        requires
            num_samples > 0 || (size == 0 && !replacement),
        ensures
            sampler.draws() == size,
            sampler.universe() == num_samples,
            sampler.with_replacement() == replacement,
    {
        RandomSampler::new(size, replacement, num_samples, thread_generator())
    }
}

impl<R: RandomSource> Sampler for RandomSampler<R> {
    open spec fn size(&self) -> nat {
        self.draws()
    }

    open spec fn produces(&self, indices: Seq<usize>) -> bool {
        random_draw(indices, self.draws(), self.universe(), self.with_replacement())
    }

    fn iter(&mut self) -> (indices: Vec<usize>)
        ensures
            final(self).draws() == old(self).draws(),
            final(self).universe() == old(self).universe(),
            final(self).with_replacement() == old(self).with_replacement(),
    {
        proof {
            use_type_invariant(&self.settings);
        }
        let size = self.settings.size;
        let universe = self.settings.num_samples;
        if self.settings.replacement {
            Self::draw_with_replacement(&mut self.rng, size, universe)
        } else {
            Self::draw_without_replacement(&mut self.rng, size, universe)
        }
    }

    fn len(&self) -> (n: usize) {
        self.settings.size
    }
}

/// A draw without replacement of exactly as many indices as the universe
/// holds is a permutation of the universe: every index comes exactly once.
pub proof fn lemma_full_draw_is_permutation(s: Seq<usize>, universe: nat)
    requires
        random_draw(s, universe, universe, false),
    ensures
        is_permutation(s, universe),
        universe <= usize::MAX ==> s.no_duplicates() && forall|v: usize|
            v < universe ==> s.contains(v),
{
    assert((0 + 1) * universe == universe) by (nonlinear_arith);
    assert(0 * universe == 0) by (nonlinear_arith);
    assert(round(s, 0, universe) =~= s);
    if universe <= usize::MAX {
        lemma_permutation_facts(s, universe);
    }
}

/// Where round `k` lies relative to a position `q * universe + pos` with
/// `pos` inside a round.
proof fn lemma_round_bounds(k: int, q: int, universe: int, pos: int)
    requires
        0 <= k,
        0 <= q,
        0 <= pos < universe,
    ensures
        0 <= k * universe,
        (k + 1) * universe == k * universe + universe,
        k < q ==> (k + 1) * universe <= q * universe,
        (k + 1) * universe <= q * universe + pos ==> k < q,
        k * universe < q * universe + pos ==> k <= q,
{
    assert(0 <= k * universe) by (nonlinear_arith)
        requires
            0 <= k,
            0 <= universe,
    ;
    assert((k + 1) * universe == k * universe + universe) by (nonlinear_arith);
    assert(k < q ==> (k + 1) * universe <= q * universe) by (nonlinear_arith)
        requires
            0 <= universe,
    ;
    assert((k + 1) * universe <= q * universe + pos ==> k < q) by (nonlinear_arith)
        requires
            0 <= pos < universe,
    ;
    assert(k * universe < q * universe + pos ==> k <= q) by (nonlinear_arith)
        requires
            0 <= pos < universe,
    ;
}

/// A draw of no index at all is a random draw from any universe.
proof fn lemma_empty_draw(s: Seq<usize>, universe: nat)
    requires
        s.len() == 0,
    ensures
        random_draw(s, 0, universe, false),
{
    assert forall|k: int| 0 <= k && k * universe < s.len() implies (#[trigger] round(
        s,
        k,
        universe,
    )).no_duplicates() by {
        assert(0 <= k * universe) by (nonlinear_arith)
            requires
                0 <= k,
                0 <= universe,
        ;
    }
    assert forall|k: int| 0 <= k && (k + 1) * universe <= s.len() implies is_permutation(
        #[trigger] round(s, k, universe),
        universe,
    ) by {
        assert(0 <= k * universe <= (k + 1) * universe) by (nonlinear_arith)
            requires
                0 <= k,
                0 <= universe,
        ;
        assert(universe == 0) by (nonlinear_arith)
            requires
                0 <= k,
                0 <= universe,
                (k + 1) * universe <= 0,
        ;
        assert(round(s, k, universe) =~= range_seq(universe));
    }
}

} // verus!
