use vstd::prelude::*;
use crate::device::DeviceStorage;
use crate::dtype::Dtype;
use crate::elementwise::{added, sum_of};
use crate::error::Error;
use crate::ids::{following, UniqueIds};
use crate::tape::{join, joined, records, BackwardOp, Sum};
use crate::tensor::Tensor;

verus! {

/// `op` is the backward step of a sum that kept these identities and this
/// length.
pub open spec fn is_sum_step(op: BackwardOp, lhs: u64, rhs: u64, out: u64, len: nat) -> bool {
    op matches BackwardOp::Add(s) && s.lhs == lhs && s.rhs == rhs && s.out == out && s.len == len
}

impl<E: Dtype, D: DeviceStorage + Copy> Tensor<E, D> {
    /// `out` is the sum of this tensor and `rhs`, under the identity `id`:
    /// it has their shape, its elements are the sums of theirs, and its tape
    /// is their tapes joined, with the step of the sum recorded at the end.
    pub open spec fn is_sum(&self, rhs: &Tensor<E, D>, id: u64, out: &Tensor<E, D>) -> bool {
        &&& out.wf()
        &&& out.device() == self.device()
        &&& out@.id == id
        &&& out@.shape == self@.shape
        &&& out@.data == added(self@.data, rhs@.data)
        &&& records(
            out@.tape,
            joined(self@.tape, rhs@.tape),
            |op: BackwardOp| is_sum_step(op, self@.id, rhs@.id, id, self@.data.len()),
        )
    }

    /// Adds two tensors of one shape, element by element. Tensors of
    /// different shapes are a `ShapeMismatch`, and then no identity is used
    /// up.
    pub fn try_add(self, rhs: Tensor<E, D>, ids: &mut UniqueIds) -> (r: Result<
        Tensor<E, D>,
        Error,
    >)
        requires
            self.wf(),
            rhs.wf(),
        ensures
            match r {
                Ok(out) => {
                    &&& self@.shape == rhs@.shape
                    &&& self.is_sum(&rhs, old(ids).upcoming(), &out)
                    &&& final(ids).upcoming() == following(old(ids).upcoming())
                },
                Err(e) => {
                    &&& e == Error::ShapeMismatch
                    &&& self@.shape != rhs@.shape
                    &&& final(ids).upcoming() == old(ids).upcoming()
                },
            },
    {
        if !self.shape().same_as(rhs.shape()) {
            return Err(Error::ShapeMismatch);
        }
        let data = sum_of(self.data(), rhs.data());
        let len = data.len();
        let (lhs_bare, lhs_tape) = self.split_tape();
        let (rhs_bare, rhs_tape) = rhs.split_tape();
        let (lhs_id, shape, _, device, _) = lhs_bare.into_parts();
        let (rhs_id, _, _, _, _) = rhs_bare.into_parts();
        let out_id = ids.fresh();
        let tape = match join(lhs_tape, rhs_tape) {
            None => None,
            Some(mut t) => {
                let op = BackwardOp::Add(Sum { lhs: lhs_id, rhs: rhs_id, out: out_id, len });
                let ghost before = t@;
                t.add_backward_op(op);
                proof {
                    assert(t@.drop_last() =~= before);
                }
                Some(t)
            },
        };
        Ok(Tensor::from_parts(out_id, shape, data, device, tape))
    }

    /// Adds two tensors of one shape, element by element.
    pub fn add(self, rhs: Tensor<E, D>, ids: &mut UniqueIds) -> (out: Tensor<E, D>)
        requires
            self.wf(),
            rhs.wf(),
            self@.shape == rhs@.shape,
        ensures
            self.is_sum(&rhs, old(ids).upcoming(), &out),
            final(ids).upcoming() == following(old(ids).upcoming()),
    {
        self.try_add(rhs, ids).unwrap()
    }
}

} // verus!
