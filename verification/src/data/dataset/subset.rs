use vstd::prelude::*;

use super::{Dataset, DatasetIter};

verus! {

/// Whether every index points into a collection of `len` items.
pub open spec fn in_bounds(indices: Seq<usize>, len: nat) -> bool {
    forall|i: int| 0 <= i < indices.len() ==> indices[i] < len
}

/// The items of `items` picked out by `indices`, in the order of `indices`.
pub open spec fn select<T>(items: Seq<T>, indices: Seq<usize>) -> Seq<T> {
    Seq::new(indices.len(), |i: int| items[indices[i] as int])
}

/// A view of a dataset through a list of indices: item `i` of the subset is
/// item `indices[i]` of the wrapped dataset.
pub struct Subset<D: Dataset> {
    data: D,
    indices: Vec<usize>,
}

impl<D: Dataset> Subset<D> {
    #[verifier::type_invariant]
    spec fn valid(self) -> bool {
        in_bounds(self.indices@, self.data.items().len())
    }

    /// The wrapped dataset.
    pub closed spec fn source(&self) -> D {
        self.data
    }

    /// The indices into the wrapped dataset.
    pub closed spec fn indices(&self) -> Seq<usize> {
        self.indices@
    }

    /// Builds the subset from indices that are known to be in bounds.
    #[must_use]
    pub fn new(data: D, indices: Vec<usize>) -> (subset: Self)
        requires
            in_bounds(indices@, data.items().len()),
        ensures
            subset.source() == data,
            subset.indices() == indices@,
    {
        Subset { data, indices }
    }

    /// Checks every index against the length of `data` and builds the subset
    /// only if all of them are in bounds.
    pub fn try_new(data: D, indices: Vec<usize>) -> (subset: Option<Self>)
        ensures
            subset is Some <==> in_bounds(indices@, data.items().len()),
            subset matches Some(s) ==> s.source() == data && s.indices() == indices@,
    {
        let len = data.len();
        let mut i: usize = 0;
        while i < indices.len()
            invariant
                i <= indices.len(),
                len == data.items().len(),
                forall|k: int| 0 <= k < i ==> indices[k] < len,
            decreases indices.len() - i,
        {
            if indices[i] >= len {
                return None;
            }
            i += 1;
        }
        Some(Self::new(data, indices))
    }
}

impl<D: Dataset> Dataset for Subset<D> {
    type Item = D::Item;

    open spec fn items(&self) -> Seq<D::Item> {
        select(self.source().items(), self.indices())
    }

    fn get(&self, index: usize) -> (item: Option<D::Item>) {
        proof {
            use_type_invariant(self);
        }
        if index < self.indices.len() {
            self.data.get(self.indices[index])
        } else {
            None
        }
    }

    fn len(&self) -> (n: usize) {
        self.indices.len()
    }

    fn is_empty(&self) -> (empty: bool) {
        self.indices.len() == 0
    }
}

/// The walk over a subset: over the picked items, in the order of the indices.
pub type SubsetIter<'a, D> = DatasetIter<'a, Subset<D>>;

} // verus!
