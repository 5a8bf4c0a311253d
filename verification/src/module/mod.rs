//! Modules: stateful units with a forward and a backward computation, and
//! the ways to compose and schedule them.

use vstd::prelude::*;

pub mod activation;
pub mod safe_module;
pub mod sequential;

pub use activation::Identity;
pub use safe_module::SafeModule;
pub use sequential::Sequential;

verus! {

/// A unit of computation with a forward pass and the matching backward pass.
///
/// `forward` maps a batch of inputs to a batch of outputs and may keep what it
/// needs for the gradient; `backward` maps the gradient with respect to the
/// outputs to the gradient with respect to the inputs, and uses up what
/// `forward` kept. So a `backward` has to follow a `forward`.
///
/// What a pass does is described by a relation between the module before the
/// call, the value handed in, the module after the call and the value that
/// comes out. An implementation that does not say what it does admits
/// everything.
pub trait Module: Sized {
    /// The type of a batch: of inputs, of outputs and of gradients alike.
    type Tensor;

    /// Whether `forward` on `input` may turn this module into `after` and
    /// give `output`.
    open spec fn forward_spec(&self, input: Self::Tensor, after: &Self, output: Self::Tensor) -> bool {
        true
    }

    /// Whether `backward` on `gradient` may turn this module into `after` and
    /// give `output`.
    open spec fn backward_spec(
        &self,
        gradient: Self::Tensor,
        after: &Self,
        output: Self::Tensor,
    ) -> bool {
        true
    }

    /// Whether the module holds what `backward` needs.
    open spec fn can_backward(&self) -> bool {
        true
    }

    /// Whether switching to training may turn this module into `after`.
    open spec fn train_spec(&self, after: &Self) -> bool {
        true
    }

    /// Whether switching to evaluation may turn this module into `after`.
    open spec fn eval_spec(&self, after: &Self) -> bool {
        true
    }

    /// (batch, input size) to (batch, output size).
    fn forward(&mut self, input: Self::Tensor) -> (output: Self::Tensor)
        ensures
            old(self).forward_spec(input, final(self), output),
            final(self).can_backward(),
    ;

    /// (batch, output size) to (batch, input size).
    fn backward(&mut self, gradient: Self::Tensor) -> (output: Self::Tensor)
        requires
            old(self).can_backward(),
        ensures
            old(self).backward_spec(gradient, final(self), output),
    ;

    /// Switches the module to training.
    fn train(&mut self)
        ensures
            old(self).train_spec(final(self)),
            final(self).can_backward() == old(self).can_backward(),
    ;

    /// Switches the module to evaluation.
    fn eval(&mut self)
        ensures
            old(self).eval_spec(final(self)),
            final(self).can_backward() == old(self).can_backward(),
    ;
}

} // verus!
