use vstd::prelude::*;
use crate::device::DeviceStorage;
use crate::error::Error;
use crate::ids::{following, UniqueIds};
use crate::nn::{BuildModule, ResetParams, ToDevice};
use crate::optim::{GradientUpdate, ParamUpdater};
use crate::shapes::{lemma_single_axis, numel, span, Shape};
use crate::tensor::{Tensor, TensorView};
use crate::unused::UnusedTensors;

verus! {

/// The parameters of a linear transformation `weight * x + bias`: a weight
/// matrix with one row for each output and a bias vector with one element
/// for each output.
pub struct Linear<E, D> {
    /// The weight matrix, of shape `(outputs, inputs)`.
    pub weight: Tensor<E, D>,
    /// The bias vector, of shape `(outputs,)`.
    pub bias: Tensor<E, D>,
}

/// The elements of `values` from `lo` up to, not including, `hi`.
fn slice_of<E: Copy>(values: &Vec<E>, lo: usize, hi: usize) -> (r: Vec<E>)
    requires
        lo <= hi <= values@.len(),
    ensures
        r@ == values@.subrange(lo as int, hi as int),
{
    let mut r: Vec<E> = Vec::new();
    let mut i: usize = lo;
    while i < hi
        invariant
            lo <= i <= hi <= values@.len(),
            r@ == values@.subrange(lo as int, i as int),
        decreases hi - i,
    {
        r.push(values[i]);
        i += 1;
    }
    r
}

impl<E: Copy, D: DeviceStorage + Copy> BuildModule<E, D> for Linear<E, D> {
    /// The number of inputs, and the number of outputs.
    type Config = (usize, usize);

    /// The values fill the weight matrix in row-major order, and what is
    /// left of them the bias; the weight gets the first of two new
    /// identities and the bias the second. A weight matrix too large to
    /// address is an `AllocationFailure`; values that do not fill both
    /// parameters exactly are a `ShapeMismatch`. A failure uses up no
    /// identity.
    open spec fn built(
        config: (usize, usize),
        dev: D,
        values: &Vec<E>,
        first: u64,
        r: Result<Self, Error>,
        next: u64,
    ) -> bool {
        let matrix = seq![config.1, config.0];
        let vector = seq![config.1];
        match r {
            Ok(layer) => {
                &&& span(matrix) <= usize::MAX
                &&& values@.len() == numel(matrix) + config.1
                &&& layer.weight.wf()
                &&& layer.weight.device() == dev
                &&& layer.weight@ == (TensorView {
                    id: first,
                    shape: matrix,
                    data: values@.subrange(0, numel(matrix) as int),
                    tape: None,
                })
                &&& layer.bias.wf()
                &&& layer.bias.device() == dev
                &&& layer.bias@ == (TensorView {
                    id: following(first),
                    shape: vector,
                    data: values@.subrange(numel(matrix) as int, values@.len() as int),
                    tape: None,
                })
                &&& next == following(following(first))
            },
            Err(e) => {
                &&& next == first
                &&& {
                    ||| e == Error::AllocationFailure && span(matrix) > usize::MAX
                    ||| e == Error::ShapeMismatch && span(matrix) <= usize::MAX && values@.len()
                        != numel(matrix) + config.1
                }
            },
        }
    }

    fn try_build(dev: D, ids: &mut UniqueIds, config: (usize, usize), values: Vec<E>) -> (r: Result<
        Self,
        Error,
    >) {
        let (inputs, outputs) = config;
        let mut dims: Vec<usize> = Vec::new();
        dims.push(outputs);
        dims.push(inputs);
        assert(dims@ =~= seq![outputs, inputs]);
        let matrix = match Shape::new(dims) {
            Some(shape) => shape,
            None => {
                return Err(Error::AllocationFailure);
            },
        };
        let count = matrix.numel();
        if values.len() < count || values.len() - count != outputs {
            return Err(Error::ShapeMismatch);
        }
        let mut dims: Vec<usize> = Vec::new();
        dims.push(outputs);
        proof {
            lemma_single_axis(outputs);
        }
        let vector = Shape::new(dims).unwrap();
        let weight = match Tensor::new(dev, ids, matrix, slice_of(&values, 0, count)) {
            Ok(t) => t,
            Err(e) => {
                return Err(e);
            },
        };
        let bias = match Tensor::new(dev, ids, vector, slice_of(&values, count, values.len())) {
            Ok(t) => t,
            Err(e) => {
                return Err(e);
            },
        };
        Ok(Linear { weight, bias })
    }
}

impl<E: Copy, D: DeviceStorage + Copy> ResetParams<E> for Linear<E, D> {
    /// The values fill the weight matrix in row-major order, and what is
    /// left of them the bias. There must be exactly as many values as both
    /// parameters have elements: otherwise this is a `ShapeMismatch`, and
    /// both stay as they are.
    open spec fn reset(&self, values: &Vec<E>, r: Result<(), Error>, after: &Self) -> bool {
        let count = self.weight@.data.len() as int;
        &&& after.weight.device() == self.weight.device()
        &&& after.bias.device() == self.bias.device()
        &&& match r {
            Ok(_) => {
                &&& values@.len() == count + self.bias@.data.len()
                &&& after.weight@ == (TensorView {
                    data: values@.subrange(0, count),
                    ..self.weight@
                })
                &&& after.bias@ == (TensorView {
                    data: values@.subrange(count, values@.len() as int),
                    ..self.bias@
                })
                &&& self.weight.wf() ==> after.weight.wf()
                &&& self.bias.wf() ==> after.bias.wf()
            },
            Err(e) => {
                &&& e == Error::ShapeMismatch
                &&& values@.len() != count + self.bias@.data.len()
                &&& after.weight@ == self.weight@
                &&& after.bias@ == self.bias@
            },
        }
    }

    fn try_reset_params(&mut self, values: Vec<E>) -> (r: Result<(), Error>) {
        let count = self.weight.data().len();
        if values.len() < count || values.len() - count != self.bias.data().len() {
            return Err(Error::ShapeMismatch);
        }
        match self.weight.try_set_data(slice_of(&values, 0, count)) {
            Ok(_) => {},
            Err(e) => {
                return Err(e);
            },
        }
        self.bias.try_set_data(slice_of(&values, count, values.len()))
    }
}

impl<E: Copy, D: DeviceStorage + Copy, D2: DeviceStorage + Copy> ToDevice<D2> for Linear<E, D> {
    type Output = Linear<E, D2>;

    /// The copy's parameters have the shapes and the elements of these, two
    /// new identities, the weight's first, and no tape.
    open spec fn moved(&self, dev: D2, first: u64, out: &Linear<E, D2>, next: u64) -> bool {
        &&& out.weight.device() == dev
        &&& out.weight@ == (TensorView { id: first, tape: None, ..self.weight@ })
        &&& self.weight.wf() ==> out.weight.wf()
        &&& out.bias.device() == dev
        &&& out.bias@ == (TensorView { id: following(first), tape: None, ..self.bias@ })
        &&& self.bias.wf() ==> out.bias.wf()
        &&& next == following(following(first))
    }

    fn to_device(&self, dev: D2, ids: &mut UniqueIds) -> (out: Linear<E, D2>) {
        let weight = self.weight.to_device(dev, ids);
        let bias = self.bias.to_device(dev, ids);
        Linear { weight, bias }
    }
}

impl<E, D, U: ParamUpdater<E, D>> GradientUpdate<E, D, U> for Linear<E, D> {
    /// The weight is handed to the updater, and then, unless that failed,
    /// the bias.
    open spec fn updated(
        &self,
        updater: &U,
        unused: &UnusedTensors,
        r: Result<(), Error>,
        after: &Self,
        updater_after: &U,
        unused_after: &UnusedTensors,
    ) -> bool {
        exists|first: Result<(), Error>, updater_mid: U, unused_mid: UnusedTensors|
            {
                &&& #[trigger] updater.updates(
                    &self.weight,
                    unused,
                    first,
                    &updater_mid,
                    &after.weight,
                    &unused_mid,
                )
                &&& match first {
                    Ok(_) => updater_mid.updates(
                        &self.bias,
                        &unused_mid,
                        r,
                        updater_after,
                        &after.bias,
                        unused_after,
                    ),
                    Err(_) => {
                        &&& r == first
                        &&& *updater_after == updater_mid
                        &&& after.bias == self.bias
                        &&& *unused_after == unused_mid
                    },
                }
            }
    }

    fn update(&mut self, updater: &mut U, unused: &mut UnusedTensors) -> (r: Result<(), Error>) {
        let first = updater.update_param(&mut self.weight, unused);
        let ghost updater_mid = *updater;
        let ghost unused_mid = *unused;
        let r = match first {
            Ok(_) => updater.update_param(&mut self.bias, unused),
            Err(e) => Err(e),
        };
        proof {
            assert(old(updater).updates(
                &old(self).weight,
                old(unused),
                first,
                &updater_mid,
                &self.weight,
                &unused_mid,
            ));
        }
        r
    }
}

} // verus!
