use vstd::prelude::*;

use super::Module;

verus! {

/// Whether `values` are the values that pass between the modules when an
/// input runs forward through `before`, leaving the modules as `after`:
/// module `i` takes `values[i]` and gives `values[i + 1]`.
pub open spec fn forward_trace<M: Module>(before: Seq<M>, after: Seq<M>, values: Seq<M::Tensor>) -> bool {
    &&& after.len() == before.len()
    &&& values.len() == before.len() + 1
    &&& forall|i: int|
        0 <= i < before.len() ==> (#[trigger] before[i]).forward_spec(
            values[i],
            &after[i],
            values[i + 1],
        )
}

/// Whether `values` are the values that pass between the modules when a
/// gradient runs backward through `before`, leaving the modules as `after`:
/// module `i` takes `values[i + 1]` and gives `values[i]`.
pub open spec fn backward_trace<M: Module>(before: Seq<M>, after: Seq<M>, values: Seq<M::Tensor>) -> bool {
    &&& after.len() == before.len()
    &&& values.len() == before.len() + 1
    &&& forall|i: int|
        0 <= i < before.len() ==> (#[trigger] before[i]).backward_spec(
            values[i + 1],
            &after[i],
            values[i],
        )
}

/// An ordered composition of modules, itself a module: forward goes through
/// the modules from the first to the last, backward from the last to the
/// first.
#[derive(Debug)]
pub struct Sequential<M: Module> {
    layers: Vec<M>,
}

impl<M: Module> Sequential<M> {
    /// The modules, in order.
    pub closed spec fn layers(&self) -> Seq<M> {
        self.layers@
    }

    #[must_use]
    pub fn new(layers: Vec<M>) -> (sequential: Self)
        ensures
            sequential.layers() == layers@,
    {
        Sequential { layers }
    }

    /// Adds a module behind the last one.
    pub fn push(&mut self, layer: M)
        ensures
            final(self).layers() == old(self).layers().push(layer),
    {
        self.layers.push(layer)
    }

    /// Puts a module at position `index` and moves those from there on one
    /// place back.
    pub fn insert(&mut self, index: usize, layer: M)
        requires
            index <= old(self).layers().len(),
        ensures
            final(self).layers() == old(self).layers().insert(index as int, layer),
    {
        self.layers.insert(index, layer)
    }

    /// The number of modules.
    pub fn len(&self) -> (n: usize)
        ensures
            n == self.layers().len(),
    {
        self.layers.len()
    }

    pub fn is_empty(&self) -> (empty: bool)
        ensures
            empty == (self.layers().len() == 0),
    {
        self.layers.len() == 0
    }

    /// Takes out the module at position `index`, if there is one.
    pub fn remove(&mut self, index: usize) -> (layer: Option<M>)
        ensures
            index < old(self).layers().len() ==> layer == Some(old(self).layers()[index as int])
                && final(self).layers() == old(self).layers().remove(index as int),
            index >= old(self).layers().len() ==> layer is None && final(self).layers() == old(
                self,
            ).layers(),
    {
        if index >= self.layers.len() {
            None
        } else {
            Some(self.layers.remove(index))
        }
    }

    /// The modules themselves, to read and to change in place.
    pub fn layers_mut(&mut self) -> (layers: &mut Vec<M>)
        ensures
            layers@ == old(self).layers(),
            final(self).layers() == final(layers)@,
    {
        &mut self.layers
    }

    /// Adds a boxed module behind the last one.
    pub fn push_box(&mut self, layer: Box<M>)
        ensures
            final(self).layers() == old(self).layers().push(*layer),
    {
        self.layers.push(*layer)
    }

    /// Puts a boxed module at position `index`.
    pub fn insert_box(&mut self, index: usize, layer: Box<M>)
        requires
            index <= old(self).layers().len(),
        ensures
            final(self).layers() == old(self).layers().insert(index as int, *layer),
    {
        self.layers.insert(index, *layer)
    }
}

impl<M: Module> Default for Sequential<M> {
    /// The composition of no module at all.
    fn default() -> (sequential: Self)
        ensures
            sequential.layers().len() == 0,
    {
        Sequential { layers: Vec::new() }
    }
}

impl<M: Module> Module for Sequential<M> {
    type Tensor = M::Tensor;

    open spec fn forward_spec(&self, input: M::Tensor, after: &Self, output: M::Tensor) -> bool {
        exists|values: Seq<M::Tensor>|
            #[trigger] forward_trace(self.layers(), after.layers(), values) && values.first()
                == input && values.last() == output
    }

    open spec fn backward_spec(&self, gradient: M::Tensor, after: &Self, output: M::Tensor) -> bool {
        exists|values: Seq<M::Tensor>|
            #[trigger] backward_trace(self.layers(), after.layers(), values) && values.last()
                == gradient && values.first() == output
    }

    open spec fn can_backward(&self) -> bool {
        forall|i: int| 0 <= i < self.layers().len() ==> (#[trigger] self.layers()[i]).can_backward()
    }

    open spec fn train_spec(&self, after: &Self) -> bool {
        &&& after.layers().len() == self.layers().len()
        &&& forall|i: int|
            0 <= i < self.layers().len() ==> (#[trigger] self.layers()[i]).train_spec(
                &after.layers()[i],
            )
    }

    open spec fn eval_spec(&self, after: &Self) -> bool {
        &&& after.layers().len() == self.layers().len()
        &&& forall|i: int|
            0 <= i < self.layers().len() ==> (#[trigger] self.layers()[i]).eval_spec(
                &after.layers()[i],
            )
    }

    fn forward(&mut self, input: M::Tensor) -> (output: M::Tensor) {
        let ghost before = self.layers@;
        let ghost mut values: Seq<M::Tensor> = seq![input];
        let mut x = input;
        let mut i: usize = 0;
        while i < self.layers.len()
            invariant
                i <= self.layers.len(),
                self.layers.len() == before.len(),
                values.len() == i + 1,
                values.first() == input,
                values.last() == x,
                forall|j: int|
                    0 <= j < i ==> (#[trigger] before[j]).forward_spec(
                        values[j],
                        &self.layers[j],
                        values[j + 1],
                    ),
                forall|j: int| 0 <= j < i ==> (#[trigger] self.layers[j]).can_backward(),
                forall|j: int| i <= j < self.layers.len() ==> self.layers[j] == before[j],
            decreases self.layers.len() - i,
        {
            x = self.layers[i].forward(x);
            proof {
                values = values.push(x);
            }
            i += 1;
        }
        proof {
            assert(before == old(self).layers());
            assert(self.layers@ == self.layers());
            assert(forward_trace(old(self).layers(), self.layers(), values));
            assert forall|j: int| 0 <= j < self.layers().len() implies (
            #[trigger] self.layers()[j]).can_backward() by {
                assert(self.layers[j].can_backward());
            }
        }
        x
    }

    fn backward(&mut self, gradient: M::Tensor) -> (output: M::Tensor) {
        let ghost before = self.layers@;
        let n = self.layers.len();
        proof {
            assert forall|j: int| 0 <= j < n implies (#[trigger] before[j]).can_backward() by {
                assert(old(self).layers()[j].can_backward());
            }
        }
        let ghost mut values: Seq<M::Tensor> = seq![gradient];
        let mut g = gradient;
        let mut i: usize = n;
        while i > 0
            invariant
                i <= n,
                n == before.len(),
                self.layers.len() == n,
                values.len() == n - i + 1,
                values.last() == gradient,
                values.first() == g,
                forall|j: int|
                    i <= j < n ==> (#[trigger] before[j]).backward_spec(
                        values[j - i + 1],
                        &self.layers[j],
                        values[j - i],
                    ),
                forall|j: int| 0 <= j < i ==> self.layers[j] == before[j],
                forall|j: int| 0 <= j < n ==> (#[trigger] before[j]).can_backward(),
            decreases i,
        {
            i -= 1;
            assert(self.layers[i as int] == before[i as int]);
            assert(before[i as int].can_backward());
            g = self.layers[i].backward(g);
            proof {
                values = seq![g] + values;
            }
        }
        proof {
            assert(before == old(self).layers());
            assert(self.layers@ == self.layers());
            assert(backward_trace(old(self).layers(), self.layers(), values));
        }
        g
    }

    fn train(&mut self) {
        let ghost before = self.layers@;
        let mut i: usize = 0;
        while i < self.layers.len()
            invariant
                i <= self.layers.len(),
                self.layers.len() == before.len(),
                forall|j: int| 0 <= j < i ==> (#[trigger] before[j]).train_spec(&self.layers[j]),
                forall|j: int|
                    0 <= j < i ==> self.layers[j].can_backward() == (
                    #[trigger] before[j]).can_backward(),
                forall|j: int| i <= j < self.layers.len() ==> self.layers[j] == before[j],
            decreases self.layers.len() - i,
        {
            self.layers[i].train();
            i += 1;
        }
        proof {
            assert(before == old(self).layers());
            assert(self.layers@ == self.layers());
            if old(self).can_backward() {
                assert forall|j: int| 0 <= j < self.layers().len() implies (
                #[trigger] self.layers()[j]).can_backward() by {
                    assert(before[j].can_backward());
                }
            }
            if self.can_backward() {
                assert forall|j: int| 0 <= j < before.len() implies (
                #[trigger] old(self).layers()[j]).can_backward() by {
                    assert(self.layers()[j].can_backward());
                    assert(before[j].can_backward() == self.layers[j].can_backward());
                }
            }
        }
    }

    fn eval(&mut self) {
        let ghost before = self.layers@;
        let mut i: usize = 0;
        while i < self.layers.len()
            invariant
                i <= self.layers.len(),
                self.layers.len() == before.len(),
                forall|j: int| 0 <= j < i ==> (#[trigger] before[j]).eval_spec(&self.layers[j]),
                forall|j: int|
                    0 <= j < i ==> self.layers[j].can_backward() == (
                    #[trigger] before[j]).can_backward(),
                forall|j: int| i <= j < self.layers.len() ==> self.layers[j] == before[j],
            decreases self.layers.len() - i,
        {
            self.layers[i].eval();
            i += 1;
        }
        proof {
            assert(before == old(self).layers());
            assert(self.layers@ == self.layers());
            if old(self).can_backward() {
                assert forall|j: int| 0 <= j < self.layers().len() implies (
                #[trigger] self.layers()[j]).can_backward() by {
                    assert(before[j].can_backward());
                }
            }
            if self.can_backward() {
                assert forall|j: int| 0 <= j < before.len() implies (
                #[trigger] old(self).layers()[j]).can_backward() by {
                    assert(self.layers()[j].can_backward());
                    assert(before[j].can_backward() == self.layers[j].can_backward());
                }
            }
        }
    }
}

} // verus!
