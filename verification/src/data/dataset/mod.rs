//! Indexable, length-bounded collections of examples, and the combinators
//! that build new collections out of existing ones.

use vstd::prelude::*;

pub mod basic;
pub mod chain;
pub mod hub;
pub mod iter;
pub mod shuffler;
pub mod subset;
pub mod transform;

pub use basic::Basic;
pub use chain::Chain;
pub use iter::DatasetIter;
pub use shuffler::{Shuffler, ShufflerIter};
pub use subset::{in_bounds, select, Subset, SubsetIter};
pub use transform::{applied, mapped, repeatable, Transform};

verus! {

/// A read-only, indexable collection of examples.
///
/// The mathematical model of a dataset is the sequence of its items: `get`
/// reads one position of that sequence and `len` is its length.
pub trait Dataset {
    type Item;

    /// The items of the dataset, in index order. An implementation says here
    /// what it holds; one that does not leaves its items unspecified.
    open spec fn items(&self) -> Seq<Self::Item> {
        arbitrary()
    }

    /// The item at `index`, or `None` when `index` is not below `len()`.
    fn get(&self, index: usize) -> (item: Option<Self::Item>)
        ensures
            item == item_at(self.items(), index as int),
            item is Some <==> index < self.items().len(),
    ;

    /// The number of items.
    fn len(&self) -> (n: usize)
        ensures
            n == self.items().len(),
    ;

    /// Whether the dataset holds no item at all.
    fn is_empty(&self) -> (empty: bool)
        ensures
            empty == (self.items().len() == 0),
    {
        self.len() == 0
    }
}

/// The combinators, available on every dataset.
pub trait Combinators: Dataset + Sized {
    /// This dataset followed by `other`.
    fn chain<D>(self, other: D) -> (chain: Chain<Self, D>) where
        D: Dataset<Item = Self::Item>,

        requires
            self.items().len() + other.items().len() <= usize::MAX,
        ensures
            chain.first() == self,
            chain.second() == other,
            chain.items() == self.items() + other.items(),
    ;

    /// The items of this dataset at `indices`, in that order.
    fn subset(self, indices: Vec<usize>) -> (subset: Subset<Self>)
        requires
            in_bounds(indices@, self.items().len()),
        ensures
            subset.source() == self,
            subset.indices() == indices@,
            subset.items() == select(self.items(), indices@),
    ;

    /// The items of this dataset, each mapped through `f` when it is read.
    fn transform<B, F>(self, f: F) -> (transform: Transform<Self, F, B>) where
        F: Fn(Self::Item) -> B,

        requires
            repeatable(f, self.items()),
        ensures
            transform.source() == self,
            transform.function() == f,
            transform.items() == mapped(f, self.items()),
    ;
}

impl<T: Dataset> Combinators for T {
    fn chain<D>(self, other: D) -> (chain: Chain<Self, D>) where D: Dataset<Item = Self::Item> {
        Chain::new(self, other)
    }

    fn subset(self, indices: Vec<usize>) -> (subset: Subset<Self>) {
        Subset::new(self, indices)
    }

    fn transform<B, F>(self, f: F) -> (transform: Transform<Self, F, B>) where
        F: Fn(Self::Item) -> B,
    {
        Transform::new(self, f)
    }
}

/// A dataset that can be walked item by item.
pub trait IterableDataset: Dataset + Sized {
    /// A cursor over all items, from the first to the last.
    fn iter(&self) -> (cursor: DatasetIter<'_, Self>)
        ensures
            cursor.source() == self,
            cursor.remaining() == self.items(),
    ;
}

impl<T: Dataset> IterableDataset for T {
    fn iter(&self) -> (cursor: DatasetIter<'_, Self>) {
        DatasetIter::new(self)
    }
}

/// What a lookup at position `index` of `items` gives.
pub open spec fn item_at<T>(items: Seq<T>, index: int) -> Option<T> {
    if 0 <= index < items.len() {
        Some(items[index])
    } else {
        None
    }
}

} // verus!
