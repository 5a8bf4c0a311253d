use vstd::prelude::*;

use super::subset::select;
use super::{Dataset, DatasetIter};
use crate::data::random::{
    index_range, is_permutation, lemma_permutation_facts, thread_generator, RandomSource,
};

verus! {

/// A dataset read through a random permutation of its indices. Every item of
/// the wrapped dataset is still there exactly once; only the order changes,
/// and changes again with every call of `shuffle`.
pub struct Shuffler<D: Dataset> {
    data: D,
    indices: Vec<usize>,
}

impl<D: Dataset> Shuffler<D> {
    #[verifier::type_invariant]
    spec fn valid(self) -> bool {
        &&& self.data.items().len() <= usize::MAX
        &&& is_permutation(self.indices@, self.data.items().len())
    }

    /// The wrapped dataset.
    pub closed spec fn source(&self) -> D {
        self.data
    }

    /// The current order: position `i` shows item `order()[i]` of the source.
    pub closed spec fn order(&self) -> Seq<usize> {
        self.indices@
    }

    /// Wraps `data` and puts it into a first random order.
    #[must_use]
    pub fn new(data: D) -> (shuffler: Self)
        ensures
            shuffler.source() == data,
            is_permutation(shuffler.order(), data.items().len()),
    {
        let mut indices = index_range(data.len());
        let mut rng = thread_generator();
        rng.shuffle(&mut indices);
        Shuffler { data, indices }
    }

    /// Puts the dataset into a new random order.
    pub fn shuffle(&mut self)
        ensures
            final(self).source() == old(self).source(),
            is_permutation(final(self).order(), old(self).source().items().len()),
    {
        proof {
            use_type_invariant(&*self);
        }
        let mut indices = self.indices.clone();
        assert(indices@ =~= self.indices@);
        let mut rng = thread_generator();
        rng.shuffle(&mut indices);
        self.indices = indices;
    }
}

impl<D: Dataset> Dataset for Shuffler<D> {
    type Item = D::Item;

    open spec fn items(&self) -> Seq<D::Item> {
        select(self.source().items(), self.order())
    }

    fn get(&self, index: usize) -> (item: Option<D::Item>) {
        proof {
            use_type_invariant(self);
            lemma_permutation_facts(self.indices@, self.data.items().len());
        }
        if index < self.indices.len() {
            self.data.get(self.indices[index])
        } else {
            None
        }
    }

    fn len(&self) -> (n: usize) {
        self.indices.len()
    }

    fn is_empty(&self) -> (empty: bool) {
        self.indices.len() == 0
    }
}

/// The walk over a shuffled dataset, in its current order.
pub type ShufflerIter<'a, D> = DatasetIter<'a, Shuffler<D>>;

} // verus!
