use vstd::prelude::*;
use crate::dtype::Dtype;
use crate::error::Error;
use crate::gradients::Gradients;
use crate::nn::{Embedding, Residual};
use crate::tensor::Tensor;
use crate::unused::UnusedTensors;

verus! {

/// What an optimizer does with one parameter: it updates the parameter from
/// its gradient, or notes that it has none.
pub trait ParamUpdater<E, D>: Sized {
    /// The updater is in a state in which it can be used.
    spec fn ready(&self) -> bool;

    /// `r` is what updating `p` comes to when `unused` lists the parameters
    /// found without a gradient so far; `after`, `p_after` and
    /// `unused_after` are the updater, the parameter and the list afterwards.
    spec fn updates(
        &self,
        p: &Tensor<E, D>,
        unused: &UnusedTensors,
        r: Result<(), Error>,
        after: &Self,
        p_after: &Tensor<E, D>,
        unused_after: &UnusedTensors,
    ) -> bool;

    /// Updates `p` from its gradient, or notes in `unused` that it has none.
    fn update_param(&mut self, p: &mut Tensor<E, D>, unused: &mut UnusedTensors) -> (r: Result<
        (),
        Error,
    >)
        requires
            old(self).ready(),
        ensures
            final(self).ready(),
            old(self).updates(old(p), old(unused), r, final(self), final(p), final(unused)),
    ;
}

/// A layer whose parameters an optimizer can update.
pub trait GradientUpdate<E, D, U: ParamUpdater<E, D>>: Sized {
    /// `r` is what handing the parameters of the layer to `updater` comes to
    /// when `unused` lists the parameters found without a gradient so far;
    /// `after`, `updater_after` and `unused_after` are the layer, the updater
    /// and the list afterwards.
    spec fn updated(
        &self,
        updater: &U,
        unused: &UnusedTensors,
        r: Result<(), Error>,
        after: &Self,
        updater_after: &U,
        unused_after: &UnusedTensors,
    ) -> bool;

    /// Hands every parameter of the layer to `updater`, in the order in which
    /// the layer holds them, up to the first failure.
    fn update(&mut self, updater: &mut U, unused: &mut UnusedTensors) -> (r: Result<(), Error>)
        requires
            old(updater).ready(),
        ensures
            final(updater).ready(),
            old(self).updated(
                old(updater),
                old(unused),
                r,
                final(self),
                final(updater),
                final(unused),
            ),
    ;
}

impl<E, D, U: ParamUpdater<E, D>> GradientUpdate<E, D, U> for Embedding<E, D> {
    /// The table is the one parameter.
    open spec fn updated(
        &self,
        updater: &U,
        unused: &UnusedTensors,
        r: Result<(), Error>,
        after: &Self,
        updater_after: &U,
        unused_after: &UnusedTensors,
    ) -> bool {
        updater.updates(&self.weight, unused, r, updater_after, &after.weight, unused_after)
    }

    fn update(&mut self, updater: &mut U, unused: &mut UnusedTensors) -> (r: Result<(), Error>) {
        updater.update_param(&mut self.weight, unused)
    }
}

impl<E, D, U: ParamUpdater<E, D>, F: GradientUpdate<E, D, U>> GradientUpdate<E, D, U> for Residual<
    F,
> {
    /// The parameters are those of the layer inside.
    open spec fn updated(
        &self,
        updater: &U,
        unused: &UnusedTensors,
        r: Result<(), Error>,
        after: &Self,
        updater_after: &U,
        unused_after: &UnusedTensors,
    ) -> bool {
        self.0.updated(updater, unused, r, &after.0, updater_after, unused_after)
    }

    fn update(&mut self, updater: &mut U, unused: &mut UnusedTensors) -> (r: Result<(), Error>) {
        self.0.update(updater, unused)
    }
}

/// An updater that changes no parameter and only finds out which ones have
/// no gradient in the store it holds.
pub struct GradientCheck<E> {
    /// The gradients of one backward pass.
    pub grads: Gradients<E>,
}

impl<E: Dtype, D> ParamUpdater<E, D> for GradientCheck<E> {
    open spec fn ready(&self) -> bool {
        self.grads.wf()
    }

    /// Nothing fails and nothing changes, but that a parameter without a
    /// gradient is added to the list.
    open spec fn updates(
        &self,
        p: &Tensor<E, D>,
        unused: &UnusedTensors,
        r: Result<(), Error>,
        after: &Self,
        p_after: &Tensor<E, D>,
        unused_after: &UnusedTensors,
    ) -> bool {
        &&& r is Ok
        &&& *after == *self
        &&& *p_after == *p
        &&& unused_after@ == if self.grads@.contains_key(p@.id) {
            unused@
        } else {
            unused@.push(p@.id)
        }
    }

    fn update_param(&mut self, p: &mut Tensor<E, D>, unused: &mut UnusedTensors) -> (r: Result<
        (),
        Error,
    >)
    {
        if !self.grads.contains(p.id()) {
            unused.add(p.id());
        }
        Ok(())
    }
}

} // verus!
