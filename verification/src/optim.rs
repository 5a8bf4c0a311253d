//! Optimizers change the parameters of a module along their gradients.

use vstd::prelude::*;

use crate::module::Module;

verus! {

/// A rule that updates the parameters of a module of type `M` in place.
///
/// A relation says what a step may do; an implementation that does not say
/// admits everything.
pub trait Optimizer<M: Module>: Sized {
    /// Whether a step on `module` may turn this optimizer into `after` and
    /// the module into `updated`.
    open spec fn step_spec(&self, module: &M, after: &Self, updated: &M) -> bool {
        true
    }

    /// Takes one step: reads the gradients of `module` and changes its
    /// parameters.
    fn step(&mut self, module: &mut M)
        ensures
            old(self).step_spec(old(module), final(self), final(module)),
    ;
}

} // verus!
