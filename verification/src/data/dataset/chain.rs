use vstd::prelude::*;

use super::{item_at, Dataset};

verus! {

/// The concatenation of two datasets with the same item type: first all of
/// `a`, then all of `b`.
pub struct Chain<A: Dataset, B: Dataset<Item = A::Item>> {
    a: A,
    b: B,
}

impl<A: Dataset, B: Dataset<Item = A::Item>> Chain<A, B> {
    /// The combined length must still be a `usize`.
    #[verifier::type_invariant]
    spec fn fits(self) -> bool {
        self.a.items().len() + self.b.items().len() <= usize::MAX
    }

    /// The first of the two datasets.
    pub closed spec fn first(&self) -> A {
        self.a
    }

    /// The second of the two datasets.
    pub closed spec fn second(&self) -> B {
        self.b
    }

    #[must_use]
    pub fn new(a: A, b: B) -> (chain: Self)
        requires
            a.items().len() + b.items().len() <= usize::MAX,
        ensures
            chain.first() == a,
            chain.second() == b,
    {
        Self { a, b }
    }
}

impl<A: Dataset, B: Dataset<Item = A::Item>> Dataset for Chain<A, B> {
    type Item = A::Item;

    open spec fn items(&self) -> Seq<A::Item> {
        self.first().items() + self.second().items()
    }

    fn get(&self, index: usize) -> (item: Option<A::Item>) {
        let split = self.a.len();
        if index < split {
            self.a.get(index)
        } else {
            self.b.get(index - split)
        }
    }

    fn len(&self) -> (n: usize) {
        proof {
            use_type_invariant(self);
        }
        self.a.len() + self.b.len()
    }

    fn is_empty(&self) -> (empty: bool) {
        self.a.is_empty() && self.b.is_empty()
    }
}

/// A chain is as long as its two parts together. A lookup below the length of
/// the first part is a lookup in the first part; any other lookup is a lookup
/// in the second part, at the index less the length of the first. So the item
/// right after the first part is the first item of the second.
pub proof fn lemma_chain_lookup<A: Dataset, B: Dataset<Item = A::Item>>(chain: Chain<A, B>, index: int)
    requires
        0 <= index,
    ensures
        chain.items().len() == chain.first().items().len() + chain.second().items().len(),
        index < chain.first().items().len() ==> item_at(chain.items(), index) == item_at(
            chain.first().items(),
            index,
        ),
        index >= chain.first().items().len() ==> item_at(chain.items(), index) == item_at(
            chain.second().items(),
            index - chain.first().items().len(),
        ),
{
}

} // verus!
