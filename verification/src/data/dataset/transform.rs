use std::marker::PhantomData;
use vstd::prelude::*;

use super::{item_at, Dataset};

verus! {

/// Whether `f` can be applied to every item of `items` and, applied to the
/// same item, gives the same value every time.
pub open spec fn repeatable<T, B, F: Fn(T) -> B>(f: F, items: Seq<T>) -> bool {
    forall|i: int|
        0 <= i < items.len() ==> {
            &&& call_requires(f, (#[trigger] items[i],))
            &&& forall|y1: B, y2: B|
                call_ensures(f, (items[i],), y1) && call_ensures(f, (items[i],), y2) ==> y1 == y2
        }
}

/// The value that a repeatable `f` gives for `x`.
pub open spec fn applied<T, B, F: Fn(T) -> B>(f: F, x: T) -> B {
    choose|y: B| call_ensures(f, (x,), y)
}

/// The items of `items`, each mapped through `f`.
pub open spec fn mapped<T, B, F: Fn(T) -> B>(f: F, items: Seq<T>) -> Seq<B> {
    Seq::new(items.len(), |i: int| applied(f, items[i]))
}

/// A dataset whose items are those of the wrapped dataset, each mapped through
/// a function at the moment it is read.
#[verifier::reject_recursive_types(B)]
pub struct Transform<D: Dataset, F: Fn(D::Item) -> B, B> {
    data: D,
    f: F,
    item: PhantomData<B>,
}

impl<D: Dataset, F: Fn(D::Item) -> B, B> Transform<D, F, B> {
    #[verifier::type_invariant]
    spec fn valid(self) -> bool {
        repeatable(self.f, self.data.items())
    }

    /// The wrapped dataset.
    pub closed spec fn source(&self) -> D {
        self.data
    }

    /// The function applied to each item.
    pub closed spec fn function(&self) -> F {
        self.f
    }

    #[must_use]
    pub fn new(data: D, f: F) -> (transform: Self)
        requires
            repeatable(f, data.items()),
        ensures
            transform.source() == data,
            transform.function() == f,
    {
        Self { data, f, item: PhantomData }
    }

    /// The item at `index` of the wrapped dataset, mapped; `None` when
    /// `index` is not below `len()`.
    ///
    /// These three methods say the same as those of `Dataset`. They stand
    /// here as well because the verifier does not connect a concrete function
    /// or closure with its `Fn` bound: a caller that names the function sees
    /// the contract here, a caller that is generic over it sees it there too.
    pub fn get(&self, index: usize) -> (item: Option<B>)
        ensures
            item == item_at(mapped(self.function(), self.source().items()), index as int),
            item is Some <==> index < self.source().items().len(),
            item matches Some(y) ==> call_ensures(
                self.function(),
                (self.source().items()[index as int],),
                y,
            ),
    {
        proof {
            use_type_invariant(self);
        }
        match self.data.get(index) {
            Some(x) => {
                assert(x == self.data.items()[index as int]);
                let y = (self.f)(x);
                Some(y)
            },
            None => None,
        }
    }

    /// The number of items, which is that of the wrapped dataset.
    pub fn len(&self) -> (n: usize)
        ensures
            n == self.source().items().len(),
    {
        self.data.len()
    }

    /// Whether the dataset holds no item at all.
    pub fn is_empty(&self) -> (empty: bool)
        ensures
            empty == (self.source().items().len() == 0),
    {
        self.data.is_empty()
    }
}

impl<D: Dataset, F: Fn(D::Item) -> B, B> Dataset for Transform<D, F, B> {
    type Item = B;

    open spec fn items(&self) -> Seq<B> {
        mapped(self.function(), self.source().items())
    }

    fn get(&self, index: usize) -> (item: Option<B>)
        ensures
            item matches Some(y) ==> call_ensures(
                self.function(),
                (self.source().items()[index as int],),
                y,
            ),
    {
        Transform::get(self, index)
    }

    fn len(&self) -> (n: usize) {
        Transform::len(self)
    }

    fn is_empty(&self) -> (empty: bool) {
        Transform::is_empty(self)
    }
}

/// What a repeatable function gives for an item is the value that any one
/// call gave for it.
pub proof fn lemma_applied<T, B, F: Fn(T) -> B>(f: F, items: Seq<T>, i: int, y: B)
    requires
        repeatable(f, items),
        0 <= i < items.len(),
        call_ensures(f, (items[i],), y),
    ensures
        applied(f, items[i]) == y,
        mapped(f, items)[i] == y,
{
}

} // verus!
