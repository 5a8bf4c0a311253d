use std::marker::PhantomData;
use vstd::prelude::*;

use crate::module::Module;

verus! {

/// The module that hands on what it is given, forward and backward.
#[derive(Debug)]
pub struct Identity<T> {
    tensor: PhantomData<T>,
}

impl<T> Identity<T> {
    #[must_use]
    pub fn new() -> Self {
        Identity { tensor: PhantomData }
    }
}

impl<T> Default for Identity<T> {
    fn default() -> Self {
        Self::new()
    }
}

impl<T> Module for Identity<T> {
    type Tensor = T;

    open spec fn forward_spec(&self, input: T, after: &Self, output: T) -> bool {
        output == input && *after == *self
    }

    open spec fn backward_spec(&self, gradient: T, after: &Self, output: T) -> bool {
        output == gradient && *after == *self
    }

    open spec fn train_spec(&self, after: &Self) -> bool {
        *after == *self
    }

    open spec fn eval_spec(&self, after: &Self) -> bool {
        *after == *self
    }

    fn forward(&mut self, input: T) -> (output: T) {
        input
    }

    fn backward(&mut self, gradient: T) -> (output: T) {
        gradient
    }

    fn train(&mut self) {
    }

    fn eval(&mut self) {
    }
}

} // verus!
