use vstd::prelude::*;

use super::Dataset;

verus! {

/// A lazy walk over a dataset. Items are read one at a time, from either end,
/// and the number of items still to come is always known.
pub struct DatasetIter<'a, D: Dataset> {
    data: &'a D,
    front: usize,
    back: usize,
}

impl<'a, D: Dataset> DatasetIter<'a, D> {
    #[verifier::type_invariant]
    spec fn valid(self) -> bool {
        self.front <= self.back <= self.data.items().len()
    }

    /// The dataset that is walked.
    pub closed spec fn source(&self) -> &D {
        self.data
    }

    /// The items that are still to come, in forward order.
    pub closed spec fn remaining(&self) -> Seq<D::Item> {
        self.data.items().subrange(self.front as int, self.back as int)
    }

    /// A cursor that has all of `data` still to come.
    pub fn new(data: &'a D) -> (cursor: Self)
        ensures
            cursor.source() == data,
            cursor.remaining() == data.items(),
    {
        let back = data.len();
        assert(data.items().subrange(0, back as int) =~= data.items());
        DatasetIter { data, front: 0, back }
    }

    /// Takes the next item from the front, if any is left.
    pub fn next(&mut self) -> (item: Option<D::Item>)
        ensures
            final(self).source() == old(self).source(),
            old(self).remaining().len() == 0 ==> item is None && final(self).remaining()
                == old(self).remaining(),
            old(self).remaining().len() > 0 ==> item == Some(old(self).remaining().first())
                && final(self).remaining() == old(self).remaining().drop_first(),
    {
        proof {
            use_type_invariant(&*self);
        }
        if self.front < self.back {
            let item = self.data.get(self.front);
            assert(old(self).remaining().drop_first() =~= self.data.items().subrange(
                self.front + 1,
                self.back as int,
            ));
            self.front = self.front + 1;
            item
        } else {
            None
        }
    }

    /// Takes the next item from the back, if any is left.
    pub fn next_back(&mut self) -> (item: Option<D::Item>)
        ensures
            final(self).source() == old(self).source(),
            old(self).remaining().len() == 0 ==> item is None && final(self).remaining()
                == old(self).remaining(),
            old(self).remaining().len() > 0 ==> item == Some(old(self).remaining().last())
                && final(self).remaining() == old(self).remaining().drop_last(),
    {
        proof {
            use_type_invariant(&*self);
        }
        if self.front < self.back {
            let item = self.data.get(self.back - 1);
            assert(old(self).remaining().drop_last() =~= self.data.items().subrange(
                self.front as int,
                self.back - 1,
            ));
            self.back = self.back - 1;
            item
        } else {
            None
        }
    }

    /// The number of items still to come.
    pub fn len(&self) -> (n: usize)
        ensures
            n == self.remaining().len(),
    {
        proof {
            use_type_invariant(self);
        }
        self.back - self.front
    }

    /// The number of items still to come, as a lower and an upper bound.
    pub fn size_hint(&self) -> (hint: (usize, Option<usize>))
        ensures
            hint.0 == self.remaining().len(),
            hint.1 == Some(hint.0),
    {
        let n = self.len();
        (n, Some(n))
    }

    /// Reads all items that are still to come, in forward order.
    pub fn to_vec(self) -> (items: Vec<D::Item>)
        ensures
            items@ == self.remaining(),
    {
        proof {
            use_type_invariant(&self);
        }
        let mut items: Vec<D::Item> = Vec::new();
        let mut i = self.front;
        while i < self.back
            invariant
                self.front <= i <= self.back <= self.data.items().len(),
                items.len() == i - self.front,
                forall|k: int| 0 <= k < items.len() ==> items[k] == self.data.items()[self.front + k],
            decreases self.back - i,
        {
            match self.data.get(i) {
                Some(item) => items.push(item),
                None => {},
            }
            i += 1;
        }
        assert(items@ =~= self.remaining());
        items
    }
}

} // verus!
