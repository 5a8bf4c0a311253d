//! A module, a loss and an optimizer that take training steps together.

use vstd::prelude::*;

use crate::loss::Loss;
use crate::module::Module;
use crate::optim::Optimizer;

verus! {

/// What passes between the parts during one training step.
pub ghost struct StepTrace<M: Module, L> {
    /// What the module gives for the input.
    pub prediction: M::Tensor,
    /// The module after its forward pass.
    pub forwarded: M,
    /// The loss after its forward pass.
    pub measured: L,
    /// The gradient that the loss gives.
    pub gradient: M::Tensor,
    /// The module after its backward pass.
    pub propagated: M,
}

/// A module with the loss that judges it and the optimizer that trains it.
pub struct BasicModel<M: Module, L: Loss<Tensor = M::Tensor>, O: Optimizer<M>> {
    module: M,
    loss: L,
    optim: O,
}

impl<M: Module, L: Loss<Tensor = M::Tensor>, O: Optimizer<M>> BasicModel<M, L, O> {
    /// The module that is trained.
    pub closed spec fn module(&self) -> M {
        self.module
    }

    /// The loss that judges the module.
    pub closed spec fn loss(&self) -> L {
        self.loss
    }

    /// The optimizer that trains the module.
    pub closed spec fn optim(&self) -> O {
        self.optim
    }

    /// Whether one training step on `input` and `truth` may turn this model
    /// into `after`, with `trace` as what passes between its parts: the
    /// module runs forward on the input, the loss measures the prediction
    /// against the truth and then gives its gradient, the module runs backward
    /// on that gradient, and the optimizer takes a step on the module.
    pub open spec fn steps(
        &self,
        input: M::Tensor,
        truth: M::Tensor,
        after: &Self,
        trace: StepTrace<M, L>,
    ) -> bool {
        &&& self.module().forward_spec(input, &trace.forwarded, trace.prediction)
        &&& exists|value: L::Value|
            self.loss().forward_spec(trace.prediction, truth, &trace.measured, value)
        &&& trace.measured.backward_spec(&after.loss(), trace.gradient)
        &&& exists|input_gradient: M::Tensor|
            trace.forwarded.backward_spec(trace.gradient, &trace.propagated, input_gradient)
        &&& self.optim().step_spec(&trace.propagated, &after.optim(), &after.module())
    }

    pub fn new(module: M, loss: L, optim: O) -> (model: Self)
        ensures
            model.module() == module,
            model.loss() == loss,
            model.optim() == optim,
    {
        Self { module, loss, optim }
    }

    /// One training step: forward through the module, forward and backward
    /// through the loss, backward through the module, and a step of the
    /// optimizer, in that order.
    pub fn step(&mut self, input: M::Tensor, truth: M::Tensor)
        ensures
            exists|trace: StepTrace<M, L>| old(self).steps(input, truth, final(self), trace),
    {
        let prediction = self.module.forward(input);
        let ghost forwarded = self.module;
        let value = self.loss.forward(prediction, truth);
        let ghost measured = self.loss;

        let gradient = self.loss.backward();
        let input_gradient = self.module.backward(gradient);
        let ghost propagated = self.module;

        self.optim.step(&mut self.module);
        proof {
            let trace = StepTrace::<M, L> { prediction, forwarded, measured, gradient, propagated };
            assert(old(self).loss().forward_spec(prediction, truth, &measured, value));
            assert(forwarded.backward_spec(gradient, &propagated, input_gradient));
            assert(old(self).steps(input, truth, self, trace));
        }
    }

    /// What the module gives for `input`.
    pub fn predict(&mut self, input: M::Tensor) -> (output: M::Tensor)
        ensures
            old(self).module().forward_spec(input, &final(self).module(), output),
            final(self).loss() == old(self).loss(),
            final(self).optim() == old(self).optim(),
    {
        self.module.forward(input)
    }
}

} // verus!
