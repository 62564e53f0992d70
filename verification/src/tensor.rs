use vstd::prelude::*;
use crate::device::DeviceStorage;
use crate::dtype::Dtype;
use crate::error::Error;
use crate::gradients::Gradients;
use crate::ids::{following, UniqueIds};
use crate::kernels::{RemoveDimKernel, ReplaceDimKernel};
use crate::shapes::{numel, span, Shape};
use crate::tape::{replay_all, BackwardOp, Tape};

verus! {

/// What a tensor is: an identity, a shape, its elements in row-major order,
/// and the steps of the tape attached to it, if one is.
pub struct TensorView<E> {
    /// The identity under which the tensor's gradient is recorded.
    pub id: u64,
    /// The axis extents, outermost axis first.
    pub shape: Seq<usize>,
    /// The elements, in row-major order.
    pub data: Seq<E>,
    /// The steps on the attached tape, in the order in which they were
    /// recorded; `None` where no tape is attached.
    pub tape: Option<Seq<BackwardOp>>,
}

/// A shaped buffer of elements on a device. A tensor with a tape attached
/// records the backward step of every operation that consumes it; one
/// without records nothing.
pub struct Tensor<E, D> {
    id: u64,
    shape: Shape,
    data: Vec<E>,
    device: D,
    tape: Option<Tape>,
}

/// The steps of a tape that may be absent: none, where it is.
pub open spec fn steps(tape: Option<Seq<BackwardOp>>) -> Seq<BackwardOp> {
    match tape {
        Some(ops) => ops,
        None => Seq::empty(),
    }
}

/// A copy of a buffer.
pub fn copy_of<E: Copy>(buf: &Vec<E>) -> (r: Vec<E>)
    ensures
        r@ == buf@,
{
    let mut r: Vec<E> = Vec::new();
    let mut i: usize = 0;
    while i < buf.len()
        invariant
            i <= buf@.len(),
            r@ == buf@.subrange(0, i as int),
        decreases buf.len() - i,
    {
        r.push(buf[i]);
        i += 1;
    }
    r
}

impl<E, D> View for Tensor<E, D> {
    type V = TensorView<E>;

    closed spec fn view(&self) -> TensorView<E> {
        TensorView {
            id: self.id,
            shape: self.shape@,
            data: self.data@,
            tape: match self.tape {
                Some(t) => Some(t@),
                None => None,
            },
        }
    }
}

impl<E, D> Tensor<E, D> {
    /// The device that holds the tensor.
    pub closed spec fn device(&self) -> D {
        self.device
    }

    /// The shape is well formed, there is one element for every position of
    /// it, and every step on the tape is well formed.
    pub open spec fn wf(&self) -> bool {
        &&& span(self@.shape) <= usize::MAX
        &&& self@.data.len() == numel(self@.shape)
        &&& forall|i: int| 0 <= i < steps(self@.tape).len() ==> (#[trigger] steps(self@.tape)[i]).wf()
    }

    /// The identity under which the tensor's gradient is recorded.
    pub fn id(&self) -> (r: u64)
        ensures
            r == self@.id,
    {
        self.id
    }

    /// The shape.
    pub fn shape(&self) -> (r: &Shape)
        ensures
            r@ == self@.shape,
    {
        &self.shape
    }

    /// The elements, in row-major order.
    pub fn data(&self) -> (r: &Vec<E>)
        ensures
            r@ == self@.data,
    {
        &self.data
    }

    /// The device that holds the tensor.
    pub fn device_ref(&self) -> (r: &D)
        ensures
            *r == self.device(),
    {
        &self.device
    }

    /// Whether a tape is attached.
    pub fn is_traced(&self) -> (r: bool)
        ensures
            r == (self@.tape is Some),
    {
        self.tape.is_some()
    }
}

impl<E: Copy, D: DeviceStorage + Copy> Tensor<E, D> {
    /// Makes a tensor of the given shape and elements on `dev`, with a new
    /// identity and no tape. There must be one element for every position of
    /// the shape: otherwise this is a `ShapeMismatch`, and no identity is
    /// used up.
    pub fn new(dev: D, ids: &mut UniqueIds, shape: Shape, data: Vec<E>) -> (r: Result<
        Tensor<E, D>,
        Error,
    >)
        requires
            shape.wf(),
        ensures
            match r {
                Ok(t) => {
                    &&& data@.len() == numel(shape@)
                    &&& t.wf()
                    &&& t.device() == dev
                    &&& t@ == (TensorView {
                        id: old(ids).upcoming(),
                        shape: shape@,
                        data: data@,
                        tape: None,
                    })
                    &&& final(ids).upcoming() == following(old(ids).upcoming())
                },
                Err(e) => {
                    &&& e == Error::ShapeMismatch
                    &&& data@.len() != numel(shape@)
                    &&& final(ids).upcoming() == old(ids).upcoming()
                },
            },
    {
        if data.len() != shape.numel() {
            return Err(Error::ShapeMismatch);
        }
        let id = ids.fresh();
        Ok(Tensor { id, shape, data, device: dev, tape: None })
    }

    /// Puts a tensor together from its parts.
    pub(crate) fn from_parts(
        id: u64,
        shape: Shape,
        data: Vec<E>,
        device: D,
        tape: Option<Tape>,
    ) -> (r: Tensor<E, D>)
        ensures
            r.device() == device,
            r@ == (TensorView {
                id,
                shape: shape@,
                data: data@,
                tape: match tape {
                    Some(t) => Some(t@),
                    None => None,
                },
            }),
    {
        Tensor { id, shape, data, device, tape }
    }

    /// Takes a tensor apart.
    pub(crate) fn into_parts(self) -> (r: (u64, Shape, Vec<E>, D, Option<Tape>))
        ensures
            r.3 == self.device(),
            self@ == (TensorView {
                id: r.0,
                shape: r.1@,
                data: r.2@,
                tape: match r.4 {
                    Some(t) => Some(t@),
                    None => None,
                },
            }),
    {
        let Tensor { id, shape, data, device, tape } = self;
        (id, shape, data, device, tape)
    }

    /// A copy of this tensor, under the same identity, with an empty tape
    /// attached: the entry point of a computation that is to be
    /// differentiated.
    pub fn trace(&self) -> (r: Tensor<E, D>)
        ensures
            r.device() == self.device(),
            r@ == (TensorView { tape: Some(Seq::empty()), ..self@ }),
            self.wf() ==> r.wf(),
    {
        Tensor {
            id: self.id,
            shape: self.shape.duplicate(),
            data: copy_of(&self.data),
            device: self.device,
            tape: Some(Tape::new()),
        }
    }

    /// Takes the tape, if there is one, off the tensor.
    pub fn split_tape(self) -> (r: (Tensor<E, D>, Option<Tape>))
        ensures
            r.0.device() == self.device(),
            r.0@ == (TensorView { tape: None, ..self@ }),
            self@.tape is Some <==> r.1 is Some,
            r.1 matches Some(t) ==> self@.tape == Some(t@) && (self.wf() ==> t.wf()),
            self.wf() ==> r.0.wf(),
    {
        let Tensor { id, shape, data, device, tape } = self;
        proof {
            if tape is Some && self.wf() {
                let t = tape.unwrap();
                assert forall|i: int| 0 <= i < t@.len() implies (#[trigger] t@[i]).wf() by {
                    assert(steps(self@.tape)[i].wf());
                }
            }
        }
        (Tensor { id, shape, data, device, tape: None }, tape)
    }

    /// Attaches a tape, or none, in place of the tensor's own.
    pub fn put_tape(self, tape: Option<Tape>) -> (r: Tensor<E, D>)
        ensures
            r.device() == self.device(),
            r@ == (TensorView {
                tape: match tape {
                    Some(t) => Some(t@),
                    None => None,
                },
                ..self@
            }),
            self.wf() && (tape matches Some(t) ==> t.wf()) ==> r.wf(),
    {
        let Tensor { id, shape, data, device, tape: _ } = self;
        Tensor { id, shape, data, device, tape }
    }

    /// A copy of this tensor on another device, under a new identity and
    /// without a tape.
    pub fn to_device<D2: DeviceStorage + Copy>(&self, dev: D2, ids: &mut UniqueIds) -> (r: Tensor<
        E,
        D2,
    >)
        ensures
            r.device() == dev,
            r@ == (TensorView { id: old(ids).upcoming(), tape: None, ..self@ }),
            self.wf() ==> r.wf(),
            final(ids).upcoming() == following(old(ids).upcoming()),
    {
        Tensor {
            id: ids.fresh(),
            shape: self.shape.duplicate(),
            data: copy_of(&self.data),
            device: dev,
            tape: None,
        }
    }

    /// Puts new elements in place of the tensor's own, as an update of a
    /// parameter does. There must be as many as before: otherwise this is a
    /// `ShapeMismatch`, and the tensor stays as it is.
    pub fn try_set_data(&mut self, data: Vec<E>) -> (r: Result<(), Error>)
        ensures
            final(self).device() == old(self).device(),
            match r {
                Ok(_) => {
                    &&& data@.len() == old(self)@.data.len()
                    &&& final(self)@ == (TensorView { data: data@, ..old(self)@ })
                    &&& old(self).wf() ==> final(self).wf()
                },
                Err(e) => {
                    &&& e == Error::ShapeMismatch
                    &&& data@.len() != old(self)@.data.len()
                    &&& final(self)@ == old(self)@
                },
            },
    {
        if data.len() != self.data.len() {
            return Err(Error::ShapeMismatch);
        }
        self.data = data;
        Ok(())
    }

    /// A copy of this tensor, under the same identity, that records on a
    /// tape of its own: an empty one where this tensor has a tape, none where
    /// it has none.
    pub fn with_empty_tape(&self) -> (r: Tensor<E, D>)
        ensures
            r.device() == self.device(),
            r@ == (TensorView {
                tape: if self@.tape is Some {
                    Some(Seq::empty())
                } else {
                    None
                },
                ..self@
            }),
            self.wf() ==> r.wf(),
    {
        let tape = if self.tape.is_some() {
            Some(Tape::new())
        } else {
            None
        };
        Tensor {
            id: self.id,
            shape: self.shape.duplicate(),
            data: copy_of(&self.data),
            device: self.device,
            tape,
        }
    }
}

impl<E: Dtype, D: RemoveDimKernel<E> + ReplaceDimKernel<E> + Copy> Tensor<E, D> {
    /// Replays the tensor's tape, beginning from `seed` as the gradient of
    /// this tensor, and returns the gradients. The seed has one element for
    /// every element of the tensor: otherwise this is a `ShapeMismatch`.
    ///
    /// With a dependable device the outcome is that of `replay_all` on the
    /// store that holds the seed alone. Another device may also fail to
    /// provide a buffer.
    pub fn backward_with(self, seed: Vec<E>) -> (r: Result<Gradients<E>, Error>)
        requires
            self.wf(),
        ensures
            match r {
                Ok(grads) => {
                    &&& seed@.len() == self@.data.len()
                    &&& grads.wf()
                    &&& replay_all(
                        steps(self@.tape),
                        Map::<u64, Seq<E>>::empty().insert(self@.id, seed@),
                    ) == Ok::<Map<u64, Seq<E>>, Error>(grads@)
                },
                Err(e) => {
                    ||| e == Error::ShapeMismatch && seed@.len() != self@.data.len()
                    ||| seed@.len() == self@.data.len() && replay_all(
                        steps(self@.tape),
                        Map::<u64, Seq<E>>::empty().insert(self@.id, seed@),
                    ) == Err::<Map<u64, Seq<E>>, Error>(e)
                    ||| seed@.len() == self@.data.len() && e == Error::AllocationFailure
                        && !self.device().dependable()
                },
            },
    {
        if seed.len() != self.data.len() {
            return Err(Error::ShapeMismatch);
        }
        let mut grads: Gradients<E> = Gradients::new();
        grads.insert(self.id, seed);
        let dev = self.device;
        match self.tape {
            None => Ok(grads),
            Some(tape) => {
                match tape.execute(&dev, &mut grads) {
                    Ok(_) => Ok(grads),
                    Err(e) => Err(e),
                }
            },
        }
    }

    /// Replays the tape of a tensor with a single element, a loss, beginning
    /// from one as its gradient, and returns the gradients.
    pub fn backward(self) -> (r: Result<Gradients<E>, Error>)
        requires
            self.wf(),
            self@.data.len() == 1,
        ensures
            match r {
                Ok(grads) => {
                    &&& grads.wf()
                    &&& replay_all(
                        steps(self@.tape),
                        Map::<u64, Seq<E>>::empty().insert(self@.id, seq![E::spec_one()]),
                    ) == Ok::<Map<u64, Seq<E>>, Error>(grads@)
                },
                Err(e) => {
                    ||| replay_all(
                        steps(self@.tape),
                        Map::<u64, Seq<E>>::empty().insert(self@.id, seq![E::spec_one()]),
                    ) == Err::<Map<u64, Seq<E>>, Error>(e)
                    ||| e == Error::AllocationFailure && !self.device().dependable()
                },
            },
    {
        let mut seed: Vec<E> = Vec::new();
        seed.push(E::one());
        self.backward_with(seed)
    }
}

} // verus!
