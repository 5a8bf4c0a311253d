use std::marker::PhantomData;
use vstd::prelude::*;

use super::Module;

verus! {

/// Marks a module that is ready for a forward pass.
pub struct Forward;

/// Marks a module that has run forward and now awaits the backward pass.
pub struct Backward;

/// Marks a module in training mode.
pub struct Train;

/// Marks a module in evaluation mode.
pub struct Evaluation;

/// The two places in the cycle of passes.
pub trait Pass {
    /// Whether a forward pass has been made whose backward pass is still due.
    spec fn awaits_backward() -> bool;
}

impl Pass for Forward {
    open spec fn awaits_backward() -> bool {
        false
    }
}

impl Pass for Backward {
    open spec fn awaits_backward() -> bool {
        true
    }
}

/// A module together with its place in the cycle of passes and its mode, both
/// kept in the type.
///
/// A wrapper in state `Forward` offers `forward` only, which hands back a
/// wrapper in state `Backward`; that one offers `backward` only, which hands
/// back a wrapper in state `Forward`. So the passes can only be called in
/// turn. The mode, `Train` or `Evaluation`, changes independently of that.
#[verifier::reject_recursive_types(S)]
#[verifier::reject_recursive_types(E)]
pub struct SafeModule<M: Module, S: Pass, E> {
    module: M,
    state: PhantomData<S>,
    mode: PhantomData<E>,
}

impl<M: Module, S: Pass, E> SafeModule<M, S, E> {
    /// A wrapper that awaits the backward pass holds a module that can run it.
    #[verifier::type_invariant]
    spec fn ready(self) -> bool {
        S::awaits_backward() ==> self.module.can_backward()
    }

    /// The module inside.
    pub closed spec fn inner(&self) -> M {
        self.module
    }

    /// Gives up the wrapper for the module inside.
    pub fn into_inner(self) -> (module: M)
        ensures
            module == self.inner(),
            S::awaits_backward() ==> module.can_backward(),
    {
        proof {
            use_type_invariant(&self);
        }
        self.module
    }
}

impl<M: Module> SafeModule<M, Forward, Train> {
    /// Wraps a module: ready for a forward pass, in training mode.
    pub fn new(module: M) -> (safe: Self)
        ensures
            safe.inner() == module,
    {
        SafeModule { module, state: PhantomData, mode: PhantomData }
    }
}

impl<M: Module, E> SafeModule<M, Forward, E> {
    /// (batch, input size) to (batch, output size). The wrapper that comes
    /// back awaits the backward pass.
    pub fn forward(self, input: M::Tensor) -> (result: (SafeModule<M, Backward, E>, M::Tensor))
        ensures
            self.inner().forward_spec(input, &result.0.inner(), result.1),
    {
        let mut module = self.module;
        let output = module.forward(input);
        (SafeModule { module, state: PhantomData, mode: PhantomData }, output)
    }
}

impl<M: Module, E> SafeModule<M, Backward, E> {
    /// (batch, output size) to (batch, input size). The wrapper that comes
    /// back is ready for the next forward pass.
    pub fn backward(self, gradient: M::Tensor) -> (result: (SafeModule<M, Forward, E>, M::Tensor))
        ensures
            self.inner().backward_spec(gradient, &result.0.inner(), result.1),
    {
        proof {
            use_type_invariant(&self);
        }
        let mut module = self.module;
        let output = module.backward(gradient);
        (SafeModule { module, state: PhantomData, mode: PhantomData }, output)
    }
}

impl<M: Module, S: Pass> SafeModule<M, S, Train> {
    /// Switches the module to evaluation; its place in the cycle stays.
    pub fn eval(self) -> (safe: SafeModule<M, S, Evaluation>)
        ensures
            self.inner().eval_spec(&safe.inner()),
    {
        proof {
            use_type_invariant(&self);
        }
        let mut module = self.module;
        module.eval();
        SafeModule { module, state: PhantomData, mode: PhantomData }
    }
}

impl<M: Module, S: Pass> SafeModule<M, S, Evaluation> {
    /// Switches the module to training; its place in the cycle stays.
    pub fn train(self) -> (safe: SafeModule<M, S, Train>)
        ensures
            self.inner().train_spec(&safe.inner()),
    {
        proof {
            use_type_invariant(&self);
        }
        let mut module = self.module;
        module.train();
        SafeModule { module, state: PhantomData, mode: PhantomData }
    }
}

impl<M: Module> From<M> for SafeModule<M, Forward, Train> {
    /// Wraps a module, as `new` does.
    fn from(module: M) -> (safe: Self)
        ensures
            safe.inner() == module,
    {
        Self::new(module)
    }
}

impl<M: Module> vstd::std_specs::convert::FromSpecImpl<M> for SafeModule<M, Forward, Train> {
    open spec fn obeys_from_spec() -> bool {
        true
    }

    closed spec fn from_spec(module: M) -> Self {
        SafeModule { module, state: PhantomData, mode: PhantomData }
    }
}

} // verus!
