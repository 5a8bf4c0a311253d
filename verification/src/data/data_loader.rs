//! The loader couples a dataset, a sampler and a batch size, and hands out
//! one batch per step.

use vstd::prelude::*;

use super::dataset::shuffler::Shuffler;
use super::dataset::subset::select;
use super::dataset::Dataset;
use super::random::is_permutation;
use super::sampler::Sampler;

verus! {

/// A dataset that is either read in its own order or through a shuffler.
enum Shuffle<D: Dataset> {
    Yes(Shuffler<D>),
    No(D),
}

impl<D: Dataset> Shuffle<D> {
    spec fn source(&self) -> D {
        match self {
            Shuffle::Yes(data) => data.source(),
            Shuffle::No(data) => *data,
        }
    }
}

impl<D: Dataset> Dataset for Shuffle<D> {
    type Item = D::Item;

    closed spec fn items(&self) -> Seq<D::Item> {
        match self {
            Shuffle::Yes(data) => data.items(),
            Shuffle::No(data) => data.items(),
        }
    }

    fn get(&self, index: usize) -> (item: Option<D::Item>) {
        match self {
            Shuffle::Yes(data) => data.get(index),
            Shuffle::No(data) => data.get(index),
        }
    }

    fn len(&self) -> (n: usize) {
        match self {
            Shuffle::Yes(data) => data.len(),
            Shuffle::No(data) => data.len(),
        }
    }
}

/// The number of items per batch, which is at least one.
struct BatchSize {
    value: usize,
}

impl BatchSize {
    #[verifier::type_invariant]
    spec fn positive(self) -> bool {
        self.value >= 1
    }
}

/// Turns a dataset into batches: groups of `batch_size` items, picked in the
/// order that the sampler gives.
pub struct DataLoader<D: Dataset, S: Sampler> {
    dataset: Shuffle<D>,
    batch_size: BatchSize,
    sampler: S,
}

impl<D: Dataset, S: Sampler> DataLoader<D, S> {
    /// The dataset that the loader was built on.
    pub closed spec fn source(&self) -> D {
        self.dataset.source()
    }

    /// The items in the order in which the loader currently reads them: that
    /// of the source, or the one that the last shuffle gave.
    pub closed spec fn items(&self) -> Seq<D::Item> {
        self.dataset.items()
    }

    /// Whether the loader reshuffles its dataset before every pass.
    pub closed spec fn shuffles(&self) -> bool {
        self.dataset is Yes
    }

    /// The number of items per batch.
    pub closed spec fn batch_size(&self) -> nat {
        self.batch_size.value as nat
    }

    /// The sampler that gives the order of each pass.
    pub closed spec fn sampler(&self) -> S {
        self.sampler
    }

    /// A loader over `dataset` that hands out batches of `batch_size` items.
    /// With `shuffle` the dataset is put into a new random order before every
    /// pass; without it the loader reads the dataset as it is.
    #[must_use]
    pub fn new(dataset: D, batch_size: usize, shuffle: bool, sampler: S) -> (loader: Self)
        requires
            batch_size >= 1,
        ensures
            loader.source() == dataset,
            loader.batch_size() == batch_size,
            loader.shuffles() == shuffle,
            loader.sampler() == sampler,
            shuffle ==> rearranges(loader.items(), dataset.items()),
            !shuffle ==> loader.items() == dataset.items(),
    {
        let ghost items = dataset.items();
        let dataset = if shuffle {
            let shuffler = Shuffler::new(dataset);
            proof {
                assert(shuffler.items() == select(items, shuffler.order()));
            }
            Shuffle::Yes(shuffler)
        } else {
            Shuffle::No(dataset)
        };
        Self { dataset, batch_size: BatchSize { value: batch_size }, sampler }
    }

    /// Puts the dataset into a new random order, if the loader shuffles at
    /// all; a loader that does not is left as it is.
    pub fn shuffle(&mut self)
        ensures
            final(self).source() == old(self).source(),
            final(self).batch_size() == old(self).batch_size(),
            final(self).shuffles() == old(self).shuffles(),
            final(self).sampler() == old(self).sampler(),
            old(self).shuffles() ==> rearranges(final(self).items(), old(self).source().items()),
            !old(self).shuffles() ==> final(self).items() == old(self).items(),
    {
        match &mut self.dataset {
            Shuffle::Yes(data) => {
                data.shuffle();
                proof {
                    assert(data.items() == select(data.source().items(), data.order()));
                }
            },
            Shuffle::No(_) => {},
        }
    }

    /// Starts a pass: reshuffles the dataset if the loader shuffles, asks the
    /// sampler for the indices of the pass and hands back the batches to come.
    pub fn iter(&mut self) -> (batches: DataLoaderIter<'_, D>)
        ensures
            final(self).source() == old(self).source(),
            final(self).batch_size() == old(self).batch_size(),
            final(self).shuffles() == old(self).shuffles(),
            final(self).sampler().size() == old(self).sampler().size(),
            old(self).shuffles() ==> rearranges(final(self).items(), old(self).source().items()),
            !old(self).shuffles() ==> final(self).items() == old(self).items(),
            batches.items() == final(self).items(),
            batches.batch_size() == old(self).batch_size(),
            batches.pending().len() == old(self).sampler().size(),
            old(self).sampler().produces(batches.pending()),
    {
        self.shuffle();
        let indices = self.sampler.iter();
        proof {
            use_type_invariant(&self.batch_size);
        }
        DataLoaderIter::new(&self.dataset, self.batch_size.value, indices)
    }
}

/// The batches of one pass that are still to come.
pub struct DataLoaderIter<'a, D: Dataset> {
    dataset: &'a Shuffle<D>,
    batch_size: usize,
    indices: Vec<usize>,
    front: usize,
    back: usize,
}

impl<'a, D: Dataset> DataLoaderIter<'a, D> {
    #[verifier::type_invariant]
    spec fn valid(self) -> bool {
        &&& self.batch_size >= 1
        &&& self.front <= self.back <= self.indices.len()
    }

    /// The items that the indices of the pass point into.
    pub closed spec fn items(&self) -> Seq<D::Item> {
        self.dataset.items()
    }

    /// The number of items per batch.
    pub closed spec fn batch_size(&self) -> nat {
        self.batch_size as nat
    }

    /// The indices of the pass that no batch has taken yet, in the order of
    /// the sampler.
    pub closed spec fn pending(&self) -> Seq<usize> {
        self.indices@.subrange(self.front as int, self.back as int)
    }

    fn new(dataset: &'a Shuffle<D>, batch_size: usize, indices: Vec<usize>) -> (batches: Self)
        requires
            batch_size >= 1,
        ensures
            batches.items() == dataset.items(),
            batches.batch_size() == batch_size,
            batches.pending() == indices@,
    {
        let back = indices.len();
        assert(indices@.subrange(0, back as int) =~= indices@);
        DataLoaderIter { dataset, batch_size, indices, front: 0, back }
    }

    /// The next batch: the items at the next `batch_size` pending indices, in
    /// that order.
    ///
    /// No batch comes out where fewer than `batch_size` indices are pending or
    /// where one of them points outside the dataset. The indices up to the
    /// point of failure, the offending one included, are then used up.
    pub fn next(&mut self) -> (batch: Option<Vec<D::Item>>)
        ensures
            final(self).items() == old(self).items(),
            final(self).batch_size() == old(self).batch_size(),
            seq_of(batch) == batch_at(
                old(self).items(),
                old(self).pending(),
                old(self).batch_size(),
            ),
            final(self).pending() == old(self).pending().skip(
                taken(old(self).items().len(), old(self).pending(), old(self).batch_size()) as int,
            ),
    {
        proof {
            use_type_invariant(&*self);
        }
        let ghost items = self.dataset.items();
        let ghost pending = self.pending();
        let mut batch: Vec<D::Item> = Vec::new();
        let mut k: usize = 0;
        while k < self.batch_size
            invariant
                self.front <= self.back <= self.indices.len(),
                self.front == old(self).front,
                self.back == old(self).back,
                self.indices == old(self).indices,
                self.dataset == old(self).dataset,
                self.batch_size == old(self).batch_size,
                items == self.dataset.items(),
                pending == self.indices@.subrange(self.front as int, self.back as int),
                k <= self.batch_size,
                k <= pending.len(),
                batch.len() == k,
                forall|j: int| 0 <= j < k ==> pending[j] < items.len(),
                forall|j: int| 0 <= j < k ==> batch[j] == items[pending[j] as int],
            decreases self.batch_size - k,
        {
            if self.back - self.front <= k {
                proof {
                    lemma_valid_run_stops(pending, items.len(), k as int);
                    assert(pending.skip(k as int) =~= self.indices@.subrange(
                        self.back as int,
                        self.back as int,
                    ));
                }
                self.front = self.back;
                return None;
            }
            match self.dataset.get(self.indices[self.front + k]) {
                Some(item) => {
                    batch.push(item);
                    k += 1;
                },
                None => {
                    proof {
                        lemma_valid_run_stops(pending, items.len(), k as int);
                        assert(pending.skip(k + 1) =~= self.indices@.subrange(
                            self.front + k + 1,
                            self.back as int,
                        ));
                    }
                    self.front = self.front + k + 1;
                    return None;
                },
            }
        }
        proof {
            lemma_valid_run_reaches(pending, items.len(), k as int);
            assert(batch@ =~= select(items, pending.subrange(0, k as int)));
            assert(pending.skip(k as int) =~= self.indices@.subrange(
                self.front + k,
                self.back as int,
            ));
        }
        self.front = self.front + k;
        Some(batch)
    }

    /// The next batch from the far end of the pass: what `next` would give if
    /// the pending indices stood in reverse order.
    pub fn next_back(&mut self) -> (batch: Option<Vec<D::Item>>)
        ensures
            final(self).items() == old(self).items(),
            final(self).batch_size() == old(self).batch_size(),
            seq_of(batch) == batch_at(
                old(self).items(),
                old(self).pending().reverse(),
                old(self).batch_size(),
            ),
            final(self).pending() == old(self).pending().take(
                old(self).pending().len() - taken(
                    old(self).items().len(),
                    old(self).pending().reverse(),
                    old(self).batch_size(),
                ),
            ),
    {
        proof {
            use_type_invariant(&*self);
        }
        let ghost items = self.dataset.items();
        let ghost pending = self.pending();
        let ghost reversed = pending.reverse();
        let mut batch: Vec<D::Item> = Vec::new();
        let mut k: usize = 0;
        while k < self.batch_size
            invariant
                self.front <= self.back <= self.indices.len(),
                self.front == old(self).front,
                self.back == old(self).back,
                self.indices == old(self).indices,
                self.dataset == old(self).dataset,
                self.batch_size == old(self).batch_size,
                items == self.dataset.items(),
                pending == self.indices@.subrange(self.front as int, self.back as int),
                reversed == pending.reverse(),
                k <= self.batch_size,
                k <= pending.len(),
                batch.len() == k,
                forall|j: int| 0 <= j < k ==> reversed[j] < items.len(),
                forall|j: int| 0 <= j < k ==> batch[j] == items[reversed[j] as int],
            decreases self.batch_size - k,
        {
            if self.back - self.front <= k {
                proof {
                    lemma_valid_run_stops(reversed, items.len(), k as int);
                    assert(pending.take(0) =~= self.indices@.subrange(
                        self.front as int,
                        self.front as int,
                    ));
                }
                self.back = self.front;
                return None;
            }
            assert(reversed[k as int] == self.indices[self.back - 1 - k]);
            match self.dataset.get(self.indices[self.back - 1 - k]) {
                Some(item) => {
                    batch.push(item);
                    k += 1;
                },
                None => {
                    proof {
                        lemma_valid_run_stops(reversed, items.len(), k as int);
                        assert(pending.take(pending.len() - (k + 1)) =~= self.indices@.subrange(
                            self.front as int,
                            self.back - (k + 1),
                        ));
                    }
                    self.back = self.back - (k + 1);
                    return None;
                },
            }
        }
        proof {
            lemma_valid_run_reaches(reversed, items.len(), k as int);
            assert(batch@ =~= select(items, reversed.subrange(0, k as int)));
            assert(pending.take(pending.len() - k) =~= self.indices@.subrange(
                self.front as int,
                self.back - k,
            ));
        }
        self.back = self.back - k;
        Some(batch)
    }

    /// All batches that are still to come, in order, up to the first that
    /// does not come out.
    pub fn to_vec(self) -> (batches: Vec<Vec<D::Item>>)
        ensures
            batches@.map_values(|batch: Vec<D::Item>| batch@) == batches_of(
                self.items(),
                self.pending(),
                self.batch_size(),
            ),
    {
        proof {
            use_type_invariant(&self);
        }
        let ghost items = self.items();
        let ghost size = self.batch_size();
        let ghost all = batches_of(items, self.pending(), size);
        let mut rest = self;
        let mut batches: Vec<Vec<D::Item>> = Vec::new();
        loop
            invariant_except_break
                all == batches@.map_values(|batch: Vec<D::Item>| batch@) + batches_of(
                    items,
                    rest.pending(),
                    size,
                ),
            invariant
                size >= 1,
                rest.items() == items,
                rest.batch_size() == size,
            ensures
                all == batches@.map_values(|batch: Vec<D::Item>| batch@),
            decreases rest.pending().len(),
        {
            let ghost pending = rest.pending();
            let ghost done = batches@.map_values(|batch: Vec<D::Item>| batch@);
            proof {
                lemma_valid_run_bound(pending, items.len());
            }
            match rest.next() {
                Some(batch) => {
                    batches.push(batch);
                    assert(batches@.map_values(|batch: Vec<D::Item>| batch@) =~= done.push(batch@));
                    assert(done.push(batch@) + batches_of(items, pending.skip(size as int), size)
                        =~= done + (seq![batch@] + batches_of(
                        items,
                        pending.skip(size as int),
                        size,
                    )));
                },
                None => {
                    assert(batches_of(items, pending, size) =~= Seq::<Seq<D::Item>>::empty());
                    assert(done + Seq::<Seq<D::Item>>::empty() =~= done);
                    break ;
                },
            }
        }
        batches
    }

    /// The number of batches that are still to come when every pending index
    /// points into the dataset: the pending indices divided by the batch size,
    /// a remainder dropped.
    pub fn count(&self) -> (n: usize)
        ensures
            n == self.pending().len() / self.batch_size(),
    {
        proof {
            use_type_invariant(self);
        }
        (self.back - self.front) / self.batch_size
    }

    /// The number of batches still to come, as a lower and an upper bound.
    pub fn size_hint(&self) -> (hint: (usize, Option<usize>))
        ensures
            hint.0 == self.pending().len() / self.batch_size(),
            hint.1 == Some(hint.0),
    {
        let n = self.count();
        (n, Some(n))
    }
}

/// The shape of the batch that stacking examples of the given shapes along a
/// new leading axis gives: the number of examples, then the shape that all of
/// them share. Examples of different shapes cannot be stacked, and neither
/// can no examples at all.
pub open spec fn stacked_shape(shapes: Seq<Seq<usize>>) -> Option<Seq<usize>> {
    if shapes.len() > 0 && shapes.len() <= usize::MAX && forall|i: int|
        0 <= i < shapes.len() ==> #[trigger] shapes[i] == shapes[0] {
        Some(seq![shapes.len() as usize] + shapes[0])
    } else {
        None
    }
}

/// Whether two shapes are the same.
fn same_shape(a: &Vec<usize>, b: &Vec<usize>) -> (same: bool)
    ensures
        same == (a@ == b@),
{
    if a.len() != b.len() {
        return false;
    }
    let mut k: usize = 0;
    while k < a.len()
        invariant
            k <= a.len(),
            a.len() == b.len(),
            forall|j: int| 0 <= j < k ==> a[j] == b[j],
        decreases a.len() - k,
    {
        if a[k] != b[k] {
            return false;
        }
        k += 1;
    }
    assert(a@ =~= b@);
    true
}

/// Decides whether examples of the given shapes can be stacked into one
/// batch, and gives the shape of that batch.
pub fn batch_shape(shapes: &Vec<Vec<usize>>) -> (shape: Option<Vec<usize>>)
    ensures
        match shape {
            Some(s) => stacked_shape(shapes.deep_view()) == Some(s@),
            None => stacked_shape(shapes.deep_view()) is None,
        },
{
    let ghost all = shapes.deep_view();
    assert(all.len() == shapes.len());
    assert forall|i: int| 0 <= i < shapes.len() implies #[trigger] all[i] == shapes[i]@ by {}
    if shapes.len() == 0 {
        return None;
    }
    let mut i: usize = 1;
    while i < shapes.len()
        invariant
            1 <= i <= shapes.len(),
            all == shapes.deep_view(),
            all.len() == shapes.len(),
            forall|j: int| 0 <= j < shapes.len() ==> #[trigger] all[j] == shapes[j]@,
            forall|j: int| 0 <= j < i ==> #[trigger] all[j] == all[0],
        decreases shapes.len() - i,
    {
        if !same_shape(&shapes[i], &shapes[0]) {
            assert(all[i as int] != all[0]);
            return None;
        }
        i += 1;
    }
    let mut shape: Vec<usize> = Vec::new();
    shape.push(shapes.len());
    let first = &shapes[0];
    let mut k: usize = 0;
    while k < first.len()
        invariant
            k <= first.len(),
            shape.len() == k + 1,
            shape[0] == shapes.len(),
            forall|j: int| 0 <= j < k ==> shape[j + 1] == first[j],
        decreases first.len() - k,
    {
        shape.push(first[k]);
        k += 1;
    }
    assert(shape@ =~= seq![shapes.len() as usize] + all[0]);
    Some(shape)
}

/// The batch as a sequence, if there is one.
pub open spec fn seq_of<T>(batch: Option<Vec<T>>) -> Option<Seq<T>> {
    match batch {
        Some(items) => Some(items@),
        None => None,
    }
}

/// The number of leading entries of `indices` that point into a collection
/// of `len` items.
pub open spec fn valid_run(indices: Seq<usize>, len: nat) -> nat
    decreases indices.len(),
{
    if indices.len() == 0 || indices[0] >= len {
        0
    } else {
        1 + valid_run(indices.drop_first(), len)
    }
}

/// How many of the pending indices the making of one batch uses up: all
/// `batch_size` of them where the batch comes out, else those before the point
/// of failure and, where it exists, the index that failed.
pub open spec fn taken(len: nat, pending: Seq<usize>, batch_size: nat) -> nat {
    let run = valid_run(pending, len);
    if run >= batch_size {
        batch_size
    } else if run < pending.len() {
        run + 1
    } else {
        run
    }
}

/// The batch that the pending indices give: the items at the first
/// `batch_size` of them, provided that there are that many and that all of
/// them point into `items`.
pub open spec fn batch_at<T>(items: Seq<T>, pending: Seq<usize>, batch_size: nat) -> Option<Seq<T>> {
    if valid_run(pending, items.len()) >= batch_size {
        Some(select(items, pending.subrange(0, batch_size as int)))
    } else {
        None
    }
}

/// All batches that the pending indices give, one after the other, up to the
/// first batch that does not come out.
pub open spec fn batches_of<T>(items: Seq<T>, pending: Seq<usize>, batch_size: nat) -> Seq<Seq<T>>
    decreases pending.len(),
{
    if batch_size == 0 || pending.len() < batch_size {
        Seq::empty()
    } else {
        match batch_at(items, pending, batch_size) {
            Some(batch) => seq![batch] + batches_of(
                items,
                pending.skip(batch_size as int),
                batch_size,
            ),
            None => Seq::empty(),
        }
    }
}

/// Where every index of a pass points into the dataset, the pass gives as
/// many batches as the batch size goes into the number of indices, a
/// remainder dropped, and batch `k` holds the items at the indices from
/// position `k * batch_size` on.
pub proof fn lemma_full_pass<T>(items: Seq<T>, pending: Seq<usize>, batch_size: nat)
    requires
        batch_size >= 1,
        forall|i: int| 0 <= i < pending.len() ==> pending[i] < items.len(),
    ensures
        batches_of(items, pending, batch_size).len() == pending.len() / batch_size,
        forall|k: int|
            0 <= k < pending.len() / batch_size ==> #[trigger] batches_of(
                items,
                pending,
                batch_size,
            )[k] == select(items, pending.subrange(k * batch_size, (k + 1) * batch_size)),
    decreases pending.len(),
{
    let size = batch_size as int;
    let len = pending.len() as int;
    if len < size {
        vstd::arithmetic::div_mod::lemma_basic_div(len, size);
    } else {
        lemma_valid_run_reaches(pending, items.len(), len);
        let rest = pending.skip(size);
        lemma_full_pass(items, rest, batch_size);
        vstd::arithmetic::div_mod::lemma_div_minus_one(len, size);
        assert(rest.len() / batch_size == len / size - 1);
        let all = batches_of(items, pending, batch_size);
        let tail = batches_of(items, rest, batch_size);
        assert(all == seq![select(items, pending.subrange(0, size))] + tail);
        assert forall|k: int| 0 <= k < len / size implies #[trigger] all[k] == select(
            items,
            pending.subrange(k * size, (k + 1) * size),
        ) by {
            if k == 0 {
                assert(0 * size == 0 && (0 + 1) * size == size) by (nonlinear_arith);
            } else {
                assert(all[k] == tail[k - 1]);
                assert((k - 1) * size + size == k * size && k * size + size == (k + 1) * size)
                    by (nonlinear_arith);
                assert(0 <= (k - 1) * size) by (nonlinear_arith)
                    requires
                        k >= 1,
                        size >= 1,
                ;
                assert(k * size <= rest.len()) by {
                    vstd::arithmetic::div_mod::lemma_fundamental_div_mod(rest.len() as int, size);
                    assert(k <= rest.len() / batch_size);
                    assert(size * k <= size * (rest.len() as int / size)) by (nonlinear_arith)
                        requires
                            k <= rest.len() as int / size,
                            size >= 1,
                    ;
                    assert(size * k == k * size) by (nonlinear_arith);
                }
                assert(rest.subrange((k - 1) * size, k * size) =~= pending.subrange(
                    k * size,
                    (k + 1) * size,
                ));
            }
        }
    }
}

/// A run of valid indices is no longer than the indices.
proof fn lemma_valid_run_bound(indices: Seq<usize>, len: nat)
    ensures
        valid_run(indices, len) <= indices.len(),
    decreases indices.len(),
{
    if indices.len() > 0 && indices[0] < len {
        lemma_valid_run_bound(indices.drop_first(), len);
    }
}

/// A run of valid indices is at least as long as any prefix of valid indices.
proof fn lemma_valid_run_reaches(indices: Seq<usize>, len: nat, k: int)
    requires
        0 <= k <= indices.len(),
        forall|j: int| 0 <= j < k ==> indices[j] < len,
    ensures
        valid_run(indices, len) >= k,
    decreases k,
{
    if k > 0 {
        assert forall|j: int| 0 <= j < k - 1 implies indices.drop_first()[j] < len by {
            assert(indices.drop_first()[j] == indices[j + 1]);
        }
        lemma_valid_run_reaches(indices.drop_first(), len, k - 1);
    }
}

/// A run of valid indices ends where the indices end or the first invalid
/// index stands.
proof fn lemma_valid_run_stops(indices: Seq<usize>, len: nat, k: int)
    requires
        0 <= k <= indices.len(),
        forall|j: int| 0 <= j < k ==> indices[j] < len,
        k == indices.len() || indices[k] >= len,
    ensures
        valid_run(indices, len) == k,
    decreases k,
{
    if k > 0 {
        assert forall|j: int| 0 <= j < k - 1 implies indices.drop_first()[j] < len by {
            assert(indices.drop_first()[j] == indices[j + 1]);
        }
        if k < indices.len() {
            assert(indices.drop_first()[k - 1] == indices[k]);
        }
        lemma_valid_run_stops(indices.drop_first(), len, k - 1);
    }
}

/// Whether `shown` holds exactly the items of `items`, each as often as
/// `items` does, in some order.
pub open spec fn rearranges<T>(shown: Seq<T>, items: Seq<T>) -> bool {
    exists|order: Seq<usize>|
        is_permutation(order, items.len()) && shown == #[trigger] select(items, order)
}

} // verus!
