//! Losses compare a batch of predictions with a batch of targets.

use vstd::prelude::*;

verus! {

/// A measure of how far predictions are from the truth, with its gradient.
///
/// `forward` takes a batch of predictions and the matching batch of targets,
/// gives the loss and keeps both batches; `backward` gives the gradient of
/// that loss with respect to the predictions and uses up what `forward` kept.
/// So a `backward` has to follow a `forward`.
///
/// As with modules, a relation says what a call may do, and an
/// implementation that does not say admits everything.
pub trait Loss: Sized {
    /// The type of a batch of predictions, of targets and of gradients.
    type Tensor;

    /// The type of the loss itself.
    type Value;

    /// Whether `forward` on `prediction` and `truth` may turn this loss into
    /// `after` and give `value`.
    open spec fn forward_spec(
        &self,
        prediction: Self::Tensor,
        truth: Self::Tensor,
        after: &Self,
        value: Self::Value,
    ) -> bool {
        true
    }

    /// Whether `backward` may turn this loss into `after` and give
    /// `gradient`.
    open spec fn backward_spec(&self, after: &Self, gradient: Self::Tensor) -> bool {
        true
    }

    /// Whether the loss holds what `backward` needs.
    open spec fn can_backward(&self) -> bool {
        true
    }

    /// The loss of a batch of predictions against the matching targets.
    fn forward(&mut self, prediction: Self::Tensor, truth: Self::Tensor) -> (value: Self::Value)
        ensures
            old(self).forward_spec(prediction, truth, final(self), value),
            final(self).can_backward(),
    ;

    /// The gradient of the last loss with respect to the predictions.
    fn backward(&mut self) -> (gradient: Self::Tensor)
        requires
            old(self).can_backward(),
        ensures
            old(self).backward_spec(final(self), gradient),
    ;
}

} // verus!
