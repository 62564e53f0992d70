use vstd::prelude::*;
use crate::device::DeviceStorage;
use crate::dtype::Dtype;
use crate::error::Error;
use crate::ids::{following, UniqueIds};
use crate::kernels::{gathered, ReplaceDimKernel};
use crate::plan::{gather_per, indexed_shape, plan_of};
use crate::select_and_gather::{is_copy_step, GatherTo};
use crate::tape::{records, BackwardOp};
use crate::shapes::{numel, span, Shape};
use crate::tensor::{Tensor, TensorView};

verus! {

/// A layer: something that makes an output of an input, and leaves on the
/// output's tape what the backward pass needs.
pub trait Module<T>: Sized {
    /// What the layer makes.
    type Output;

    /// The layer can take `x`.
    spec fn accepts(&self, x: &T) -> bool;

    /// `out` is what the layer makes of `x` when `first` is the next identity
    /// to be handed out, and `next` is the next one afterwards.
    spec fn maps(&self, x: &T, first: u64, out: &Self::Output, next: u64) -> bool;

    /// Runs the layer on `x`.
    fn forward(&self, x: T, ids: &mut UniqueIds) -> (out: Self::Output)
        requires
            self.accepts(&x),
        ensures
            self.maps(&x, old(ids).upcoming(), &out, final(ids).upcoming()),
    ;
}

/// A layer that may change itself while it runs.
pub trait ModuleMut<T>: Sized {
    /// What the layer makes.
    type Output;

    /// The layer can take `x`.
    spec fn accepts_mut(&self, x: &T) -> bool;

    /// `out` is what the layer makes of `x` when `first` is the next identity
    /// to be handed out, `next` is the next one afterwards, and `after` is
    /// the layer when it has run.
    spec fn maps_mut(&self, x: &T, first: u64, out: &Self::Output, next: u64, after: &Self) -> bool;

    /// Runs the layer on `x`.
    fn forward_mut(&mut self, x: T, ids: &mut UniqueIds) -> (out: Self::Output)
        requires
            old(self).accepts_mut(&x),
        ensures
            old(self).maps_mut(
                &x,
                old(ids).upcoming(),
                &out,
                final(ids).upcoming(),
                final(self),
            ),
    ;
}

/// An embedding: a table with one row for each entry of a vocabulary. It
/// makes of a tensor of entries the tensor of their rows.
pub struct Embedding<E, D> {
    /// The table: one row of elements for each entry.
    pub weight: Tensor<E, D>,
}

impl<E: Dtype, D: ReplaceDimKernel<E> + Copy> Module<Tensor<usize, D>> for Embedding<E, D> {
    type Output = Tensor<E, D>;

    /// The table and the entries are well formed, and the rows can be
    /// gathered: there is at least one axis of entries, every entry is in the
    /// vocabulary, the output has a buffer, and the device is dependable.
    open spec fn accepts(&self, x: &Tensor<usize, D>) -> bool {
        &&& self.weight.wf()
        &&& x.wf()
        &&& self.weight.can_gather(0, x)
    }

    /// The output has the shape of the entries followed by the table's axes
    /// after the first, and holds for every entry its row. It carries the
    /// tape of the entries, where they have one, with the step of the gather
    /// from the table recorded at the end.
    open spec fn maps(&self, x: &Tensor<usize, D>, first: u64, out: &Tensor<E, D>, next: u64) -> bool {
        let table = self.weight@;
        let plan = plan_of(table.shape, 0, gather_per(0, x@.shape));
        &&& next == following(first)
        &&& out.wf()
        &&& out.device() == self.weight.device()
        &&& out@.id == first
        &&& out@.shape == indexed_shape(table.shape, 0, x@.shape)
        &&& out@.data == gathered(plan, table.data, x@.data)
        &&& records(
            out@.tape,
            x@.tape,
            |op: BackwardOp| is_copy_step(op, false, table.id, first, plan, x@.data),
        )
    }

    fn forward(&self, x: Tensor<usize, D>, ids: &mut UniqueIds) -> (out: Tensor<E, D>) {
        let (entries, tape) = x.split_tape();
        let table = self.weight.trace().put_tape(tape);
        table.gather(0, entries, ids)
    }
}

impl<E: Dtype, D: ReplaceDimKernel<E> + Copy> ModuleMut<Tensor<usize, D>> for Embedding<E, D> {
    type Output = Tensor<E, D>;

    open spec fn accepts_mut(&self, x: &Tensor<usize, D>) -> bool {
        self.accepts(x)
    }

    /// As `maps`; the table stays as it is.
    open spec fn maps_mut(
        &self,
        x: &Tensor<usize, D>,
        first: u64,
        out: &Tensor<E, D>,
        next: u64,
        after: &Self,
    ) -> bool {
        self.maps(x, first, out, next) && *after == *self
    }

    fn forward_mut(&mut self, x: Tensor<usize, D>, ids: &mut UniqueIds) -> (out: Tensor<E, D>) {
        self.forward(x, ids)
    }
}

/// `inner` is `x` as a residual connection hands it to the layer it goes
/// around: the same tensor, recording on a tape of its own.
pub open spec fn is_detour<E, D>(inner: &Tensor<E, D>, x: &Tensor<E, D>) -> bool {
    &&& inner.device() == x.device()
    &&& inner@ == (TensorView {
        tape: if x@.tape is Some {
            Some(Seq::empty())
        } else {
            None
        },
        ..x@
    })
}

/// A residual connection around the layer `F`: it makes `F(x) + x`.
pub struct Residual<F>(pub F);

impl<E: Dtype, D: DeviceStorage + Copy, F: Module<Tensor<E, D>, Output = Tensor<E, D>>> Module<
    Tensor<E, D>,
> for Residual<F> {
    type Output = Tensor<E, D>;

    /// `x` is well formed, the layer inside can take it, and whatever the
    /// layer makes of it is well formed and has the shape of `x`.
    open spec fn accepts(&self, x: &Tensor<E, D>) -> bool {
        &&& x.wf()
        &&& forall|inner: Tensor<E, D>| #[trigger]
            is_detour(&inner, x) ==> {
                &&& self.0.accepts(&inner)
                &&& forall|first: u64, y: Tensor<E, D>, mid: u64| #[trigger]
                    self.0.maps(&inner, first, &y, mid) ==> y.wf() && y@.shape == x@.shape
            }
    }

    /// The output is the sum of what the layer inside makes of `x` and `x`
    /// itself, in this order.
    open spec fn maps(&self, x: &Tensor<E, D>, first: u64, out: &Tensor<E, D>, next: u64) -> bool {
        exists|inner: Tensor<E, D>, y: Tensor<E, D>, mid: u64|
            {
                &&& is_detour(&inner, x)
                &&& #[trigger] self.0.maps(&inner, first, &y, mid)
                &&& y.is_sum(x, mid, out)
                &&& next == following(mid)
            }
    }

    fn forward(&self, x: Tensor<E, D>, ids: &mut UniqueIds) -> (out: Tensor<E, D>) {
        let inner = x.with_empty_tape();
        assert(is_detour(&inner, &x));
        let y = self.0.forward(inner, ids);
        y.add(x, ids)
    }
}

impl<
    E: Dtype,
    D: DeviceStorage + Copy,
    F: ModuleMut<Tensor<E, D>, Output = Tensor<E, D>>,
> ModuleMut<Tensor<E, D>> for Residual<F> {
    type Output = Tensor<E, D>;

    /// `x` is well formed, the layer inside can take it, and whatever the
    /// layer makes of it is well formed and has the shape of `x`.
    open spec fn accepts_mut(&self, x: &Tensor<E, D>) -> bool {
        &&& x.wf()
        &&& forall|inner: Tensor<E, D>| #[trigger]
            is_detour(&inner, x) ==> {
                &&& self.0.accepts_mut(&inner)
                &&& forall|first: u64, y: Tensor<E, D>, mid: u64, after: F| #[trigger]
                    self.0.maps_mut(&inner, first, &y, mid, &after) ==> y.wf() && y@.shape
                        == x@.shape
            }
    }

    /// The output is the sum of what the layer inside makes of `x` and `x`
    /// itself, in this order; the layer inside is left as its own run left
    /// it.
    open spec fn maps_mut(
        &self,
        x: &Tensor<E, D>,
        first: u64,
        out: &Tensor<E, D>,
        next: u64,
        after: &Self,
    ) -> bool {
        exists|inner: Tensor<E, D>, y: Tensor<E, D>, mid: u64|
            {
                &&& is_detour(&inner, x)
                &&& #[trigger] self.0.maps_mut(&inner, first, &y, mid, &after.0)
                &&& y.is_sum(x, mid, out)
                &&& next == following(mid)
            }
    }

    fn forward_mut(&mut self, x: Tensor<E, D>, ids: &mut UniqueIds) -> (out: Tensor<E, D>) {
        let inner = x.with_empty_tape();
        let ghost first = ids.upcoming();
        assert(is_detour(&inner, &x));
        let y = self.0.forward_mut(inner, ids);
        let ghost mid = ids.upcoming();
        assert(old(self).0.maps_mut(&inner, first, &y, mid, &self.0));
        y.add(x, ids)
    }
}

/// A layer that can be built from the values of its parameters. Where the
/// values come from, a random distribution as a rule, is the caller's
/// business.
pub trait BuildModule<E, D>: Sized {
    /// The sizes to which a layer of this kind is built.
    type Config;

    /// `r` is what building a layer of the sizes `config` on `dev` from
    /// `values` comes to, when `first` is the next identity to be handed out,
    /// and `next` is the next one afterwards.
    spec fn built(
        config: Self::Config,
        dev: D,
        values: &Vec<E>,
        first: u64,
        r: Result<Self, Error>,
        next: u64,
    ) -> bool;

    /// Builds a layer of the sizes `config` on `dev` from the values of its
    /// parameters, or says why it cannot.
    fn try_build(dev: D, ids: &mut UniqueIds, config: Self::Config, values: Vec<E>) -> (r: Result<
        Self,
        Error,
    >)
        ensures
            Self::built(config, dev, &values, old(ids).upcoming(), r, final(ids).upcoming()),
    ;
}

/// A layer whose parameters can be given new values.
pub trait ResetParams<E>: Sized {
    /// `r` is what giving the layer the parameter values `values` comes to,
    /// and `after` is the layer afterwards.
    spec fn reset(&self, values: &Vec<E>, r: Result<(), Error>, after: &Self) -> bool;

    /// Gives the layer's parameters new values, or says why it cannot.
    fn try_reset_params(&mut self, values: Vec<E>) -> (r: Result<(), Error>)
        ensures
            old(self).reset(&values, r, final(self)),
    ;
}

/// A layer that can be copied to another device.
pub trait ToDevice<D2>: Sized {
    /// The layer on the other device.
    type Output;

    /// `out` is the copy of the layer on `dev`, made when `first` is the next
    /// identity to be handed out, and `next` is the next one afterwards.
    spec fn moved(&self, dev: D2, first: u64, out: &Self::Output, next: u64) -> bool;

    /// Copies the layer to `dev`.
    fn to_device(&self, dev: D2, ids: &mut UniqueIds) -> (out: Self::Output)
        ensures
            self.moved(dev, old(ids).upcoming(), &out, final(ids).upcoming()),
    ;
}

impl<E: Copy, D: DeviceStorage + Copy> BuildModule<E, D> for Embedding<E, D> {
    /// The number of entries of the vocabulary, and the length of a row.
    type Config = (usize, usize);

    /// The table has one row of the given length for each entry and holds
    /// the values in row-major order, under a new identity. A table too
    /// large to address is an `AllocationFailure`; values that do not fill
    /// the table exactly are a `ShapeMismatch`. A failure uses up no
    /// identity.
    open spec fn built(
        config: (usize, usize),
        dev: D,
        values: &Vec<E>,
        first: u64,
        r: Result<Self, Error>,
        next: u64,
    ) -> bool {
        let dims = seq![config.0, config.1];
        match r {
            Ok(layer) => {
                &&& span(dims) <= usize::MAX
                &&& values@.len() == numel(dims)
                &&& layer.weight.wf()
                &&& layer.weight.device() == dev
                &&& layer.weight@ == (TensorView {
                    id: first,
                    shape: dims,
                    data: values@,
                    tape: None,
                })
                &&& next == following(first)
            },
            Err(e) => {
                &&& next == first
                &&& {
                    ||| e == Error::AllocationFailure && span(dims) > usize::MAX
                    ||| e == Error::ShapeMismatch && span(dims) <= usize::MAX && values@.len()
                        != numel(dims)
                }
            },
        }
    }

    fn try_build(dev: D, ids: &mut UniqueIds, config: (usize, usize), values: Vec<E>) -> (r: Result<
        Self,
        Error,
    >) {
        let mut dims: Vec<usize> = Vec::new();
        dims.push(config.0);
        dims.push(config.1);
        assert(dims@ =~= seq![config.0, config.1]);
        let shape = match Shape::new(dims) {
            Some(shape) => shape,
            None => {
                return Err(Error::AllocationFailure);
            },
        };
        match Tensor::new(dev, ids, shape, values) {
            Ok(weight) => Ok(Embedding { weight }),
            Err(e) => Err(e),
        }
    }
}

impl<E: Copy, D: DeviceStorage + Copy> ResetParams<E> for Embedding<E, D> {
    /// The table holds the new values, and is otherwise as before. There
    /// must be as many values as the table has elements: otherwise this is a
    /// `ShapeMismatch`, and the table stays as it is.
    open spec fn reset(&self, values: &Vec<E>, r: Result<(), Error>, after: &Self) -> bool {
        &&& after.weight.device() == self.weight.device()
        &&& match r {
            Ok(_) => {
                &&& values@.len() == self.weight@.data.len()
                &&& after.weight@ == (TensorView { data: values@, ..self.weight@ })
                &&& self.weight.wf() ==> after.weight.wf()
            },
            Err(e) => {
                &&& e == Error::ShapeMismatch
                &&& values@.len() != self.weight@.data.len()
                &&& after.weight@ == self.weight@
            },
        }
    }

    fn try_reset_params(&mut self, values: Vec<E>) -> (r: Result<(), Error>) {
        self.weight.try_set_data(values)
    }
}

impl<E: Copy, D: DeviceStorage + Copy, D2: DeviceStorage + Copy> ToDevice<D2> for Embedding<E, D> {
    type Output = Embedding<E, D2>;

    /// The copy's table has the shape and the elements of this one, a new
    /// identity, and no tape.
    open spec fn moved(&self, dev: D2, first: u64, out: &Embedding<E, D2>, next: u64) -> bool {
        &&& out.weight.device() == dev
        &&& out.weight@ == (TensorView { id: first, tape: None, ..self.weight@ })
        &&& self.weight.wf() ==> out.weight.wf()
        &&& next == following(first)
    }

    fn to_device(&self, dev: D2, ids: &mut UniqueIds) -> (out: Embedding<E, D2>) {
        Embedding { weight: self.weight.to_device(dev, ids) }
    }
}

impl<E, D, F: BuildModule<E, D>> BuildModule<E, D> for Residual<F> {
    type Config = F::Config;

    /// As the layer inside is built.
    open spec fn built(
        config: F::Config,
        dev: D,
        values: &Vec<E>,
        first: u64,
        r: Result<Self, Error>,
        next: u64,
    ) -> bool {
        match r {
            Ok(layer) => F::built(config, dev, values, first, Ok(layer.0), next),
            Err(e) => F::built(config, dev, values, first, Err(e), next),
        }
    }

    fn try_build(dev: D, ids: &mut UniqueIds, config: F::Config, values: Vec<E>) -> (r: Result<
        Self,
        Error,
    >) {
        match F::try_build(dev, ids, config, values) {
            Ok(inner) => Ok(Residual(inner)),
            Err(e) => Err(e),
        }
    }
}

impl<E, F: ResetParams<E>> ResetParams<E> for Residual<F> {
    /// As the layer inside is reset.
    open spec fn reset(&self, values: &Vec<E>, r: Result<(), Error>, after: &Self) -> bool {
        self.0.reset(values, r, &after.0)
    }

    fn try_reset_params(&mut self, values: Vec<E>) -> (r: Result<(), Error>) {
        self.0.try_reset_params(values)
    }
}

impl<D2, F: ToDevice<D2>> ToDevice<D2> for Residual<F> {
    type Output = Residual<F::Output>;

    /// As the layer inside is copied.
    open spec fn moved(&self, dev: D2, first: u64, out: &Residual<F::Output>, next: u64) -> bool {
        self.0.moved(dev, first, &out.0, next)
    }

    fn to_device(&self, dev: D2, ids: &mut UniqueIds) -> (out: Residual<F::Output>) {
        Residual(self.0.to_device(dev, ids))
    }
}

} // verus!
