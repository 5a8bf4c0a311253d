//! Helpers for walking over items: tests over all items with a chosen answer
//! for the empty case, chunks of a fixed size, and a filter whose predicate
//! may decline to answer.

use std::collections::VecDeque;
use vstd::prelude::*;

verus! {

/// Whether `f` holds of every item, and `default` where there is no item.
///
/// The items are tried in order and the test stops at the first item of which
/// `f` does not hold.
pub fn all_default<T, F: Fn(&T) -> bool>(items: &Vec<T>, default: bool, f: F) -> (all: bool)
    requires
        forall|i: int| 0 <= i < items.len() ==> call_requires(f, (&#[trigger] items[i],)),
    ensures
        items.len() == 0 ==> all == default,
        items.len() > 0 && all ==> forall|i: int|
            0 <= i < items.len() ==> call_ensures(f, (&#[trigger] items[i],), true),
        items.len() > 0 && !all ==> exists|i: int|
            0 <= i < items.len() && call_ensures(f, (&#[trigger] items[i],), false),
{
    if items.len() == 0 {
        return default;
    }
    let mut i: usize = 0;
    while i < items.len()
        invariant
            i <= items.len(),
            forall|k: int| 0 <= k < items.len() ==> call_requires(f, (&#[trigger] items[k],)),
            forall|k: int| 0 <= k < i ==> call_ensures(f, (&#[trigger] items[k],), true),
        decreases items.len() - i,
    {
        if !f(&items[i]) {
            return false;
        }
        i += 1;
    }
    true
}

/// Whether `f` holds of some item, and `default` where there is no item.
///
/// The items are tried in order and the test stops at the first item of which
/// `f` holds.
pub fn any_default<T, F: Fn(&T) -> bool>(items: &Vec<T>, default: bool, f: F) -> (any: bool)
    requires
        forall|i: int| 0 <= i < items.len() ==> call_requires(f, (&#[trigger] items[i],)),
    ensures
        items.len() == 0 ==> any == default,
        items.len() > 0 && any ==> exists|i: int|
            0 <= i < items.len() && call_ensures(f, (&#[trigger] items[i],), true),
        items.len() > 0 && !any ==> forall|i: int|
            0 <= i < items.len() ==> call_ensures(f, (&#[trigger] items[i],), false),
{
    if items.len() == 0 {
        return default;
    }
    let mut i: usize = 0;
    while i < items.len()
        invariant
            i <= items.len(),
            forall|k: int| 0 <= k < items.len() ==> call_requires(f, (&#[trigger] items[k],)),
            forall|k: int| 0 <= k < i ==> call_ensures(f, (&#[trigger] items[k],), false),
        decreases items.len() - i,
    {
        if f(&items[i]) {
            return true;
        }
        i += 1;
    }
    false
}

/// Moves the items of a vector into a queue, in the same order.
fn into_queue<T>(items: Vec<T>) -> (queue: VecDeque<T>)
    ensures
        queue@ == items@,
{
    let mut items = items;
    let mut queue: VecDeque<T> = VecDeque::new();
    let ghost all = items@;
    while items.len() > 0
        invariant
            items@ + queue@ == all,
        decreases items.len(),
    {
        let ghost (rest, tail) = (items@, queue@);
        let item = items.pop().unwrap();
        queue.push_front(item);
        assert(items@ + queue@ =~= rest + tail);
    }
    assert(items@ + queue@ =~= queue@);
    queue
}

/// Calls `<[T; N] as TryFrom<Vec<T>>>::try_from`, which gives the contents
/// of the vector as an array if the vector holds exactly `N` items, and
/// fails otherwise.
#[verifier::external_body]
fn vec_into_array<T, const N: usize>(items: Vec<T>) -> (array: Option<[T; N]>)
    ensures
        items.len() == N ==> array is Some && array.unwrap()@ == items@,
        items.len() != N ==> array is None,
{
    <[T; N]>::try_from(items).ok()
}

/// Hands out items in chunks of `N`. Items that do not fill a last chunk are
/// dropped.
pub struct ArrayChunks<T, const N: usize> {
    items: VecDeque<T>,
}

impl<T, const N: usize> ArrayChunks<T, N> {
    /// The items that no chunk has taken yet.
    pub closed spec fn remaining(&self) -> Seq<T> {
        self.items@
    }

    #[must_use]
    pub fn new(items: Vec<T>) -> (chunks: Self)
        ensures
            chunks.remaining() == items@,
    {
        Self { items: into_queue(items) }
    }

    /// The next `N` items as a chunk. Where fewer are left, they are used up
    /// and no chunk comes out.
    pub fn next(&mut self) -> (chunk: Option<[T; N]>)
        ensures
            old(self).remaining().len() >= N ==> chunk is Some && chunk.unwrap()@ == old(
                self,
            ).remaining().take(N as int) && final(self).remaining() == old(self).remaining().skip(
                N as int,
            ),
            old(self).remaining().len() < N ==> chunk is None && final(self).remaining().len()
                == 0,
    {
        if self.items.len() < N {
            self.items.clear();
            return None;
        }
        let mut taken: Vec<T> = Vec::new();
        let mut k: usize = 0;
        while k < N
            invariant
                k <= N,
                taken.len() == k,
                old(self).items@.len() >= N,
                taken@ =~= old(self).items@.take(k as int),
                self.items@ =~= old(self).items@.skip(k as int),
            decreases N - k,
        {
            let item = self.items.pop_front().unwrap();
            taken.push(item);
            k += 1;
        }
        vec_into_array(taken)
    }

    /// The last `N` items as a chunk, the very last one first. Where fewer
    /// are left, they are used up and no chunk comes out.
    pub fn next_back(&mut self) -> (chunk: Option<[T; N]>)
        ensures
            old(self).remaining().len() >= N ==> chunk is Some && chunk.unwrap()@ == old(
                self,
            ).remaining().reverse().take(N as int) && final(self).remaining() == old(
                self,
            ).remaining().take(old(self).remaining().len() - N),
            old(self).remaining().len() < N ==> chunk is None && final(self).remaining().len()
                == 0,
    {
        if self.items.len() < N {
            self.items.clear();
            return None;
        }
        let ghost all = self.items@;
        let mut taken: Vec<T> = Vec::new();
        let mut k: usize = 0;
        while k < N
            invariant
                k <= N,
                taken.len() == k,
                all.len() >= N,
                all == old(self).items@,
                taken@ =~= all.reverse().take(k as int),
                self.items@ =~= all.take(all.len() - k),
            decreases N - k,
        {
            let item = self.items.pop_back().unwrap();
            taken.push(item);
            k += 1;
        }
        vec_into_array(taken)
    }

    /// The number of chunks still to come, as a lower and an upper bound.
    pub fn size_hint(&self) -> (hint: (usize, Option<usize>))
        requires
            N > 0,
        ensures
            hint.0 == self.remaining().len() / (N as nat),
            hint.1 == Some(hint.0),
    {
        let n = self.items.len() / N;
        (n, Some(n))
    }

    /// The number of chunks still to come.
    pub fn count(self) -> (n: usize)
        requires
            N > 0,
        ensures
            n == self.remaining().len() / (N as nat),
    {
        self.items.len() / N
    }
}

/// Whether `predicate` may give an answer other than "yes" for `item`.
pub open spec fn declines<T, P: Fn(&T) -> Option<bool>>(predicate: P, item: T) -> bool {
    exists|answer: Option<bool>|
        answer != Some(true) && #[trigger] call_ensures(predicate, (&item,), answer)
}

/// Hands out the items of which a predicate says "yes". The predicate may
/// also say "no" or give no answer; in both cases the item is passed over.
pub struct OptionFilter<T, P: Fn(&T) -> Option<bool>> {
    items: VecDeque<T>,
    predicate: P,
}

impl<T, P: Fn(&T) -> Option<bool>> OptionFilter<T, P> {
    /// The items that have not been looked at yet.
    pub closed spec fn remaining(&self) -> Seq<T> {
        self.items@
    }

    /// The predicate that picks the items.
    pub closed spec fn predicate(&self) -> P {
        self.predicate
    }

    /// Whether the predicate can be asked about every remaining item.
    pub open spec fn askable(&self) -> bool {
        forall|i: int|
            0 <= i < self.remaining().len() ==> call_requires(
                self.predicate(),
                (&#[trigger] self.remaining()[i],),
            )
    }

    #[must_use]
    pub fn new(items: Vec<T>, predicate: P) -> (filter: Self)
        ensures
            filter.remaining() == items@,
            filter.predicate() == predicate,
    {
        Self { items: into_queue(items), predicate }
    }

    /// The first remaining item of which the predicate says "yes". It and the
    /// items before it are then used up. Where there is no such item, all
    /// items are used up and nothing comes out.
    pub fn next(&mut self) -> (item: Option<T>)
        requires
            old(self).askable(),
        ensures
            final(self).predicate() == old(self).predicate(),
            final(self).askable(),
            match item {
                Some(x) => exists|k: int|
                    {
                        &&& 0 <= k < old(self).remaining().len()
                        &&& x == #[trigger] old(self).remaining()[k]
                        &&& call_ensures(old(self).predicate(), (&x,), Some(true))
                        &&& final(self).remaining() == old(self).remaining().skip(k + 1)
                        &&& forall|j: int|
                            0 <= j < k ==> declines(
                                old(self).predicate(),
                                #[trigger] old(self).remaining()[j],
                            )
                    },
                None => {
                    &&& final(self).remaining().len() == 0
                    &&& forall|j: int|
                        0 <= j < old(self).remaining().len() ==> declines(
                            old(self).predicate(),
                            #[trigger] old(self).remaining()[j],
                        )
                },
            },
    {
        let ghost all = self.items@;
        let ghost mut k: int = 0;
        while self.items.len() > 0
            invariant
                0 <= k <= all.len(),
                all == old(self).items@,
                self.predicate == old(self).predicate,
                self.items@ =~= all.skip(k),
                forall|i: int| 0 <= i < all.len() ==> call_requires(self.predicate, (&#[trigger] all[i],)),
                forall|j: int| 0 <= j < k ==> declines(self.predicate, #[trigger] all[j]),
            decreases self.items.len(),
        {
            assert(self.items@[0] == all[k]);
            let item = self.items.pop_front().unwrap();
            let answer = (self.predicate)(&item);
            match answer {
                Some(true) => {
                    assert(self.items@ =~= all.skip(k + 1));
                    assert forall|i: int| 0 <= i < self.remaining().len() implies call_requires(
                        self.predicate(),
                        (&#[trigger] self.remaining()[i],),
                    ) by {
                        assert(self.remaining()[i] == all[k + 1 + i]);
                    }
                    assert(item == old(self).remaining()[k]);
                    assert(self.remaining() == old(self).remaining().skip(k + 1));
                    assert forall|j: int| 0 <= j < k implies declines(
                        old(self).predicate(),
                        #[trigger] old(self).remaining()[j],
                    ) by {
                        assert(declines(self.predicate, all[j]));
                    }
                    return Some(item);
                },
                _ => {
                    assert(call_ensures(self.predicate, (&all[k],), answer));
                    proof {
                        k = k + 1;
                    }
                },
            }
        }
        None
    }

    /// The last remaining item of which the predicate says "yes", looking
    /// from the far end. It and the items behind it are then used up. Where
    /// there is no such item, all items are used up and nothing comes out.
    pub fn next_back(&mut self) -> (item: Option<T>)
        requires
            old(self).askable(),
        ensures
            final(self).predicate() == old(self).predicate(),
            final(self).askable(),
            match item {
                Some(x) => exists|k: int|
                    {
                        &&& 0 <= k < old(self).remaining().len()
                        &&& x == #[trigger] old(self).remaining()[k]
                        &&& call_ensures(old(self).predicate(), (&x,), Some(true))
                        &&& final(self).remaining() == old(self).remaining().take(k)
                        &&& forall|j: int|
                            k < j < old(self).remaining().len() ==> declines(
                                old(self).predicate(),
                                #[trigger] old(self).remaining()[j],
                            )
                    },
                None => {
                    &&& final(self).remaining().len() == 0
                    &&& forall|j: int|
                        0 <= j < old(self).remaining().len() ==> declines(
                            old(self).predicate(),
                            #[trigger] old(self).remaining()[j],
                        )
                },
            },
    {
        let ghost all = self.items@;
        let ghost mut k: int = all.len() as int;
        while self.items.len() > 0
            invariant
                0 <= k <= all.len(),
                all == old(self).items@,
                self.predicate == old(self).predicate,
                self.items@ =~= all.take(k),
                forall|i: int| 0 <= i < all.len() ==> call_requires(self.predicate, (&#[trigger] all[i],)),
                forall|j: int| k <= j < all.len() ==> declines(self.predicate, #[trigger] all[j]),
            decreases self.items.len(),
        {
            assert(self.items@[k - 1] == all[k - 1]);
            let item = self.items.pop_back().unwrap();
            let answer = (self.predicate)(&item);
            match answer {
                Some(true) => {
                    assert(self.items@ =~= all.take(k - 1));
                    assert forall|i: int| 0 <= i < self.remaining().len() implies call_requires(
                        self.predicate(),
                        (&#[trigger] self.remaining()[i],),
                    ) by {
                        assert(self.remaining()[i] == all[i]);
                    }
                    assert(item == old(self).remaining()[k - 1]);
                    assert(self.remaining() == old(self).remaining().take(k - 1));
                    assert forall|j: int| k - 1 < j < all.len() implies declines(
                        old(self).predicate(),
                        #[trigger] old(self).remaining()[j],
                    ) by {
                        assert(declines(self.predicate, all[j]));
                    }
                    return Some(item);
                },
                _ => {
                    assert(call_ensures(self.predicate, (&all[k - 1],), answer));
                    proof {
                        k = k - 1;
                    }
                },
            }
        }
        None
    }

    /// The number of items still to come: none at least, and at most as many
    /// as remain.
    pub fn size_hint(&self) -> (hint: (usize, Option<usize>))
        ensures
            hint.0 == 0,
            hint.1 == Some(self.remaining().len() as usize),
    {
        (0, Some(self.items.len()))
    }
}

} // verus!
