use vstd::prelude::*;
use crate::device::DeviceStorage;
use crate::dtype::Dtype;
use crate::error::Error;
use crate::ids::{following, UniqueIds};
use crate::kernels::{gathered, indices_in_range, RemoveDimKernel, ReplaceDimKernel};
use crate::plan::{
    gather_fits, gather_per, indexed_shape, plan_gather, plan_of, plan_select, select_fits,
    select_per, IndexPlan,
};
use crate::shapes::{numel, span, Shape};
use crate::tape::{join, joined, records, BackwardOp, IndexedCopy};
use crate::tensor::Tensor;

verus! {

/// `op` is the backward step of an indexed copy, of a select or of a gather,
/// that kept these identities, this plan and these index values.
pub open spec fn is_copy_step(
    op: BackwardOp,
    select: bool,
    inp: u64,
    out: u64,
    plan: IndexPlan,
    idx: Seq<usize>,
) -> bool {
    match op {
        BackwardOp::Select(c) => select && c.inp == inp && c.out == out && c.plan == plan
            && c.idx@ == idx,
        BackwardOp::Gather(c) => !select && c.inp == inp && c.out == out && c.plan == plan
            && c.idx@ == idx,
        BackwardOp::Add(_) => false,
    }
}

/// Makes the output tensor of an indexed copy and records its backward step
/// on the joined tape of the operands, where there is one.
fn finish<E: Copy, D: DeviceStorage + Copy>(
    inp: Tensor<E, D>,
    idx: Tensor<usize, D>,
    plan: IndexPlan,
    dst: Shape,
    data: Vec<E>,
    ids: &mut UniqueIds,
    select: bool,
) -> (out: Tensor<E, D>)
    requires
        inp.wf(),
        idx.wf(),
        plan.wf(),
        idx@.data.len() == plan.idx_len(),
        dst.wf(),
        data@.len() == numel(dst@),
    ensures
        out.wf(),
        out.device() == inp.device(),
        out@.id == old(ids).upcoming(),
        out@.shape == dst@,
        out@.data == data@,
        records(
            out@.tape,
            joined(inp@.tape, idx@.tape),
            |op: BackwardOp| is_copy_step(op, select, inp@.id, out@.id, plan, idx@.data),
        ),
        final(ids).upcoming() == following(old(ids).upcoming()),
{
    let (inp_bare, inp_tape) = inp.split_tape();
    let (idx_bare, idx_tape) = idx.split_tape();
    let (inp_id, _, _, device, _) = inp_bare.into_parts();
    let (_, _, idx_data, _, _) = idx_bare.into_parts();
    let out_id = ids.fresh();
    let tape = match join(inp_tape, idx_tape) {
        None => None,
        Some(mut t) => {
            let kept = IndexedCopy { inp: inp_id, out: out_id, plan, idx: idx_data };
            let op = if select {
                BackwardOp::Select(kept)
            } else {
                BackwardOp::Gather(kept)
            };
            let ghost before = t@;
            t.add_backward_op(op);
            proof {
                assert(t@.drop_last() =~= before);
            }
            Some(t)
        },
    };
    Tensor::from_parts(out_id, dst, data, device, tape)
}

/// Select: an indexed copy that drops the indexed axis. Every value of the
/// index tensor picks one element of that axis.
pub trait SelectTo<D: DeviceStorage>: Sized {
    /// The tensor and the index tensor are well formed.
    spec fn select_ready(&self, idx: &Tensor<usize, D>) -> bool;

    /// The select is owed: the index shape fits, every index value is inside
    /// the axis, the output has a buffer, and the device is dependable.
    spec fn can_select(&self, axis: usize, idx: &Tensor<usize, D>) -> bool;

    /// `out` is the selection from this tensor along `axis` by `idx`, under
    /// the identity `id`.
    spec fn is_selection(&self, axis: usize, idx: &Tensor<usize, D>, id: u64, out: &Self) -> bool;

    /// Selects along `axis` by `idx`.
    fn select(self, axis: usize, idx: Tensor<usize, D>, ids: &mut UniqueIds) -> (r: Self)
        requires
            self.select_ready(&idx),
            self.can_select(axis, &idx),
        ensures
            self.is_selection(axis, &idx, old(ids).upcoming(), &r),
            final(ids).upcoming() == following(old(ids).upcoming()),
    {
        self.try_select(axis, idx, ids).unwrap()
    }

    /// Selects along `axis` by `idx`, or says why it cannot.
    fn try_select(self, axis: usize, idx: Tensor<usize, D>, ids: &mut UniqueIds) -> (r: Result<
        Self,
        Error,
    >)
        requires
            self.select_ready(&idx),
        ensures
            self.can_select(axis, &idx) ==> r is Ok,
            r matches Ok(out) ==> self.is_selection(axis, &idx, old(ids).upcoming(), &out)
                && final(ids).upcoming() == following(old(ids).upcoming()),
    ;
}

/// Gather: an indexed copy that resizes the indexed axis. The values along
/// the last axis of the index tensor pick the elements that the axis keeps.
pub trait GatherTo<D: DeviceStorage>: Sized {
    /// The tensor and the index tensor are well formed.
    spec fn gather_ready(&self, idx: &Tensor<usize, D>) -> bool;

    /// The gather is owed: the index shape fits, every index value is inside
    /// the axis, the output has a buffer, and the device is dependable.
    spec fn can_gather(&self, axis: usize, idx: &Tensor<usize, D>) -> bool;

    /// `out` is what this tensor gathers along `axis` by `idx`, under the
    /// identity `id`.
    spec fn is_gathering(&self, axis: usize, idx: &Tensor<usize, D>, id: u64, out: &Self) -> bool;

    /// Gathers along `axis` by `idx`.
    fn gather(self, axis: usize, idx: Tensor<usize, D>, ids: &mut UniqueIds) -> (r: Self)
        requires
            self.gather_ready(&idx),
            self.can_gather(axis, &idx),
        ensures
            self.is_gathering(axis, &idx, old(ids).upcoming(), &r),
            final(ids).upcoming() == following(old(ids).upcoming()),
    {
        self.try_gather(axis, idx, ids).unwrap()
    }

    /// Gathers along `axis` by `idx`, or says why it cannot.
    fn try_gather(self, axis: usize, idx: Tensor<usize, D>, ids: &mut UniqueIds) -> (r: Result<
        Self,
        Error,
    >)
        requires
            self.gather_ready(&idx),
        ensures
            self.can_gather(axis, &idx) ==> r is Ok,
            r matches Ok(out) ==> self.is_gathering(axis, &idx, old(ids).upcoming(), &out)
                && final(ids).upcoming() == following(old(ids).upcoming()),
    ;
}

impl<E: Dtype, D: RemoveDimKernel<E> + Copy> SelectTo<D> for Tensor<E, D> {
    open spec fn select_ready(&self, idx: &Tensor<usize, D>) -> bool {
        self.wf() && idx.wf()
    }

    open spec fn can_select(&self, axis: usize, idx: &Tensor<usize, D>) -> bool {
        &&& select_fits(self@.shape, axis as int, idx@.shape)
        &&& span(indexed_shape(self@.shape, axis as int, idx@.shape)) <= usize::MAX
        &&& indices_in_range(idx@.data, self@.shape[axis as int])
        &&& self.device().dependable()
    }

    open spec fn is_selection(
        &self,
        axis: usize,
        idx: &Tensor<usize, D>,
        id: u64,
        out: &Self,
    ) -> bool {
        let plan = plan_of(self@.shape, axis as int, select_per(axis as int, idx@.shape));
        &&& plan.wf()
        &&& plan.src_len() == self@.data.len()
        &&& plan.idx_len() == idx@.data.len()
        &&& out.wf()
        &&& out.device() == self.device()
        &&& out@.id == id
        &&& out@.shape == indexed_shape(self@.shape, axis as int, idx@.shape)
        &&& out@.data == gathered(plan, self@.data, idx@.data)
        &&& records(
            out@.tape,
            joined(self@.tape, idx@.tape),
            |op: BackwardOp| is_copy_step(op, true, self@.id, id, plan, idx@.data),
        )
    }

    /// The index shape is checked first: where it does not fit, this is a
    /// `ShapeMismatch` and no kernel is called. An output without a buffer is
    /// an `AllocationFailure`, an index value outside the axis an
    /// `IndexOutOfRange`. After a failure no identity has been used up.
    fn try_select(self, axis: usize, idx: Tensor<usize, D>, ids: &mut UniqueIds) -> (r: Result<
        Self,
        Error,
    >)
        ensures
            !select_fits(self@.shape, axis as int, idx@.shape) ==> r == Err::<Self, Error>(
                Error::ShapeMismatch,
            ),
            r is Ok ==> {
                &&& select_fits(self@.shape, axis as int, idx@.shape)
                &&& span(indexed_shape(self@.shape, axis as int, idx@.shape)) <= usize::MAX
                &&& indices_in_range(idx@.data, self@.shape[axis as int])
            },
            r matches Err(e) ==> {
                &&& final(ids).upcoming() == old(ids).upcoming()
                &&& {
                    ||| e == Error::ShapeMismatch && !select_fits(
                        self@.shape,
                        axis as int,
                        idx@.shape,
                    )
                    ||| e == Error::AllocationFailure && select_fits(
                        self@.shape,
                        axis as int,
                        idx@.shape,
                    ) && span(indexed_shape(self@.shape, axis as int, idx@.shape)) > usize::MAX
                    ||| e == Error::IndexOutOfRange && select_fits(
                        self@.shape,
                        axis as int,
                        idx@.shape,
                    ) && span(indexed_shape(self@.shape, axis as int, idx@.shape)) <= usize::MAX
                        && !indices_in_range(idx@.data, self@.shape[axis as int])
                    ||| e == Error::AllocationFailure && !self.device().dependable()
                }
            },
    {
        let (plan, dst) = match plan_select(self.shape(), axis, idx.shape()) {
            Ok(pair) => pair,
            Err(e) => {
                return Err(e);
            },
        };
        let data = match RemoveDimKernel::<E>::forward(
            self.device_ref(),
            &plan,
            self.data(),
            idx.data(),
        ) {
            Ok(data) => data,
            Err(e) => {
                return Err(e);
            },
        };
        Ok(finish(self, idx, plan, dst, data, ids, true))
    }
}

impl<E: Dtype, D: ReplaceDimKernel<E> + Copy> GatherTo<D> for Tensor<E, D> {
    open spec fn gather_ready(&self, idx: &Tensor<usize, D>) -> bool {
        self.wf() && idx.wf()
    }

    open spec fn can_gather(&self, axis: usize, idx: &Tensor<usize, D>) -> bool {
        &&& gather_fits(self@.shape, axis as int, idx@.shape)
        &&& span(indexed_shape(self@.shape, axis as int, idx@.shape)) <= usize::MAX
        &&& indices_in_range(idx@.data, self@.shape[axis as int])
        &&& self.device().dependable()
    }

    open spec fn is_gathering(
        &self,
        axis: usize,
        idx: &Tensor<usize, D>,
        id: u64,
        out: &Self,
    ) -> bool {
        let plan = plan_of(self@.shape, axis as int, gather_per(axis as int, idx@.shape));
        &&& plan.wf()
        &&& plan.src_len() == self@.data.len()
        &&& plan.idx_len() == idx@.data.len()
        &&& out.wf()
        &&& out.device() == self.device()
        &&& out@.id == id
        &&& out@.shape == indexed_shape(self@.shape, axis as int, idx@.shape)
        &&& out@.data == gathered(plan, self@.data, idx@.data)
        &&& records(
            out@.tape,
            joined(self@.tape, idx@.tape),
            |op: BackwardOp| is_copy_step(op, false, self@.id, id, plan, idx@.data),
        )
    }

    /// The index shape is checked first: where it does not fit, this is a
    /// `ShapeMismatch` and no kernel is called. An output without a buffer is
    /// an `AllocationFailure`, an index value outside the axis an
    /// `IndexOutOfRange`. After a failure no identity has been used up.
    fn try_gather(self, axis: usize, idx: Tensor<usize, D>, ids: &mut UniqueIds) -> (r: Result<
        Self,
        Error,
    >)
        ensures
            !gather_fits(self@.shape, axis as int, idx@.shape) ==> r == Err::<Self, Error>(
                Error::ShapeMismatch,
            ),
            r is Ok ==> {
                &&& gather_fits(self@.shape, axis as int, idx@.shape)
                &&& span(indexed_shape(self@.shape, axis as int, idx@.shape)) <= usize::MAX
                &&& indices_in_range(idx@.data, self@.shape[axis as int])
            },
            r matches Err(e) ==> {
                &&& final(ids).upcoming() == old(ids).upcoming()
                &&& {
                    ||| e == Error::ShapeMismatch && !gather_fits(
                        self@.shape,
                        axis as int,
                        idx@.shape,
                    )
                    ||| e == Error::AllocationFailure && gather_fits(
                        self@.shape,
                        axis as int,
                        idx@.shape,
                    ) && span(indexed_shape(self@.shape, axis as int, idx@.shape)) > usize::MAX
                    ||| e == Error::IndexOutOfRange && gather_fits(
                        self@.shape,
                        axis as int,
                        idx@.shape,
                    ) && span(indexed_shape(self@.shape, axis as int, idx@.shape)) <= usize::MAX
                        && !indices_in_range(idx@.data, self@.shape[axis as int])
                    ||| e == Error::AllocationFailure && !self.device().dependable()
                }
            },
    {
        let (plan, dst) = match plan_gather(self.shape(), axis, idx.shape()) {
            Ok(pair) => pair,
            Err(e) => {
                return Err(e);
            },
        };
        let data = match ReplaceDimKernel::<E>::forward(
            self.device_ref(),
            &plan,
            self.data(),
            idx.data(),
        ) {
            Ok(data) => data,
            Err(e) => {
                return Err(e);
            },
        };
        Ok(finish(self, idx, plan, dst, data, ids, false))
    }
}

} // verus!
