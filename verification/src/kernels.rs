use vstd::prelude::*;
use vstd::arithmetic::div_mod::{lemma_fundamental_div_mod_converse, lemma_multiply_divide_lt};
use crate::device::{Cpu, DeviceStorage};
use crate::dtype::Dtype;
use crate::error::Error;
use crate::plan::IndexPlan;

verus! {

/// Every index value addresses a row that the indexed axis has.
pub open spec fn indices_in_range(idx: Seq<usize>, extent: usize) -> bool {
    forall|i: int| 0 <= i < idx.len() ==> idx[i] < extent
}

/// The place in the source buffer from which output element `q` is copied.
///
/// Output element `q` is element `q % tail` of output row `q / tail`. That
/// row is the source row which the index value at place `q / tail` picks in
/// block `(q / tail) / per`.
pub open spec fn source_of(plan: IndexPlan, idx: Seq<usize>, q: int) -> int {
    let i = q / (plan.tail as int);
    let t = q % (plan.tail as int);
    ((i / (plan.per as int)) * plan.extent + idx[i]) * plan.tail + t
}

/// The output of the forward copy: for every place of the index tensor, the
/// source row it addresses.
pub open spec fn gathered<E>(plan: IndexPlan, inp: Seq<E>, idx: Seq<usize>) -> Seq<E> {
    Seq::new(plan.out_len(), |q: int| inp[source_of(plan, idx, q)])
}

/// The gradient at source place `p` once the first `n` output gradients have
/// been added to it, in the order of the output, beginning from `start`.
pub open spec fn accumulated<E: Dtype>(
    plan: IndexPlan,
    idx: Seq<usize>,
    grad_out: Seq<E>,
    start: E,
    p: int,
    n: nat,
) -> E
    decreases n,
{
    if n == 0 {
        start
    } else {
        let before = accumulated(plan, idx, grad_out, start, p, (n - 1) as nat);
        if source_of(plan, idx, n - 1) == p {
            before.spec_sum(grad_out[n - 1])
        } else {
            before
        }
    }
}

/// The source gradient after the backward scatter-add: every place holds what
/// it held before, with the gradients of all the output elements that were
/// copied from it added on.
pub open spec fn scattered<E: Dtype>(
    plan: IndexPlan,
    idx: Seq<usize>,
    grad_out: Seq<E>,
    grad_inp: Seq<E>,
) -> Seq<E> {
    Seq::new(
        grad_inp.len(),
        |p: int| accumulated(plan, idx, grad_out, grad_inp[p], p, plan.out_len()),
    )
}

/// Where element `t` of output row `i` lies in the output and in the source,
/// and that both places are inside their buffers.
pub proof fn lemma_row_places(plan: IndexPlan, idx: Seq<usize>, i: int, t: int)
    requires
        plan.wf(),
        idx.len() == plan.idx_len(),
        0 <= i < idx.len(),
        0 <= t < plan.tail,
        idx[i] < plan.extent,
    ensures
        plan.per > 0,
        0 <= i / (plan.per as int) < plan.lead,
        0 <= (i / (plan.per as int)) * plan.extent + idx[i] < plan.lead * plan.extent
            <= usize::MAX,
        0 <= i * plan.tail + t < plan.out_len(),
        i * plan.tail + plan.tail <= plan.out_len(),
        source_of(plan, idx, i * plan.tail + t) == ((i / (plan.per as int)) * plan.extent
            + idx[i]) * plan.tail + t,
        0 <= source_of(plan, idx, i * plan.tail + t) < plan.src_len(),
{
    let lead = plan.lead as int;
    let per = plan.per as int;
    let extent = plan.extent as int;
    let tail = plan.tail as int;
    let v = idx[i] as int;
    lemma_multiply_divide_lt(i, per, lead);
    let l = i / per;
    assert(0 <= l * extent + v < lead * extent) by (nonlinear_arith)
        requires
            0 <= l < lead,
            0 <= v < extent,
    ;
    assert(lead * extent <= lead * extent * tail) by (nonlinear_arith)
        requires
            0 <= lead * extent,
            1 <= tail,
    ;
    let q = i * tail + t;
    assert(0 <= q && q + (tail - t) <= lead * per * tail) by (nonlinear_arith)
        requires
            q == i * tail + t,
            0 <= i < lead * per,
            0 <= t < tail,
    ;
    lemma_fundamental_div_mod_converse(q, tail, i, t);
    let row = l * extent + v;
    assert(0 <= row * tail + t < lead * extent * tail) by (nonlinear_arith)
        requires
            0 <= row < lead * extent,
            0 <= t < tail,
    ;
}

/// Whether every index value is below `extent`.
pub fn check_indices(idx: &Vec<usize>, extent: usize) -> (r: bool)
    ensures
        r <==> indices_in_range(idx@, extent),
{
    let mut i: usize = 0;
    while i < idx.len()
        invariant
            i <= idx@.len(),
            forall|j: int| 0 <= j < i ==> idx@[j] < extent,
        decreases idx.len() - i,
    {
        if idx[i] >= extent {
            return false;
        }
        i += 1;
    }
    true
}

/// The forward copy: builds the output by copying, for every place of the
/// index tensor, the source row that its value addresses.
pub fn copy_rows<E: Copy>(plan: &IndexPlan, inp: &Vec<E>, idx: &Vec<usize>) -> (out: Vec<E>)
    requires
        plan.wf(),
        inp@.len() == plan.src_len(),
        idx@.len() == plan.idx_len(),
        indices_in_range(idx@, plan.extent),
    ensures
        out@ == gathered(*plan, inp@, idx@),
{
    let mut out: Vec<E> = Vec::new();
    let tail = plan.tail;
    if tail == 0 {
        return out;
    }
    let mut i: usize = 0;
    while i < idx.len()
        invariant
            plan.wf(),
            tail == plan.tail,
            tail > 0,
            inp@.len() == plan.src_len(),
            idx@.len() == plan.idx_len(),
            indices_in_range(idx@, plan.extent),
            i <= idx@.len(),
            out@.len() == i * tail,
            forall|q: int| 0 <= q < out@.len() ==> out@[q] == inp@[source_of(*plan, idx@, q)],
        decreases idx.len() - i,
    {
        let v: usize = idx[i];
        proof {
            lemma_row_places(*plan, idx@, i as int, 0);
        }
        let row: usize = (i / plan.per) * plan.extent + v;
        let base: usize = row * tail;
        let mut t: usize = 0;
        while t < tail
            invariant
                plan.wf(),
                tail == plan.tail,
                tail > 0,
                inp@.len() == plan.src_len(),
                idx@.len() == plan.idx_len(),
                i < idx@.len(),
                v == idx@[i as int],
                v < plan.extent,
                plan.per > 0,
                row == (i / plan.per) * plan.extent + v,
                base == row * tail,
                t <= tail,
                out@.len() == i * tail + t,
                forall|q: int| 0 <= q < out@.len() ==> out@[q] == inp@[source_of(*plan, idx@, q)],
            decreases tail - t,
        {
            proof {
                lemma_row_places(*plan, idx@, i as int, t as int);
            }
            out.push(inp[base + t]);
            t += 1;
        }
        proof {
            assert(i * tail + tail == (i + 1) * tail) by (nonlinear_arith);
        }
        i += 1;
    }
    out
}

/// The backward scatter-add: adds every output gradient onto the source
/// gradient at the place its element was copied from, in the order of the
/// output.
pub fn scatter_add_rows<E: Dtype>(
    plan: &IndexPlan,
    grad_inp: &mut Vec<E>,
    idx: &Vec<usize>,
    grad_out: &Vec<E>,
)
    requires
        plan.wf(),
        old(grad_inp)@.len() == plan.src_len(),
        idx@.len() == plan.idx_len(),
        grad_out@.len() == plan.out_len(),
        indices_in_range(idx@, plan.extent),
    ensures
        final(grad_inp)@ == scattered(*plan, idx@, grad_out@, old(grad_inp)@),
{
    let tail = plan.tail;
    if tail == 0 {
        return;
    }
    let mut i: usize = 0;
    while i < idx.len()
        invariant
            plan.wf(),
            tail == plan.tail,
            tail > 0,
            grad_inp@.len() == plan.src_len(),
            grad_inp@.len() == old(grad_inp)@.len(),
            idx@.len() == plan.idx_len(),
            grad_out@.len() == plan.out_len(),
            indices_in_range(idx@, plan.extent),
            i <= idx@.len(),
            forall|p: int|
                0 <= p < grad_inp@.len() ==> grad_inp@[p] == accumulated(
                    *plan,
                    idx@,
                    grad_out@,
                    old(grad_inp)@[p],
                    p,
                    (i * tail) as nat,
                ),
        decreases idx.len() - i,
    {
        let v: usize = idx[i];
        proof {
            lemma_row_places(*plan, idx@, i as int, 0);
        }
        let row: usize = (i / plan.per) * plan.extent + v;
        let base: usize = row * tail;
        let first: usize = i * tail;
        let mut t: usize = 0;
        while t < tail
            invariant
                plan.wf(),
                tail == plan.tail,
                tail > 0,
                grad_inp@.len() == plan.src_len(),
                grad_inp@.len() == old(grad_inp)@.len(),
                idx@.len() == plan.idx_len(),
                grad_out@.len() == plan.out_len(),
                i < idx@.len(),
                v == idx@[i as int],
                v < plan.extent,
                plan.per > 0,
                row == (i / plan.per) * plan.extent + v,
                base == row * tail,
                first == i * tail,
                t <= tail,
                forall|p: int|
                    0 <= p < grad_inp@.len() ==> grad_inp@[p] == accumulated(
                        *plan,
                        idx@,
                        grad_out@,
                        old(grad_inp)@[p],
                        p,
                        (i * tail + t) as nat,
                    ),
            decreases tail - t,
        {
            proof {
                lemma_row_places(*plan, idx@, i as int, t as int);
            }
            let sum = grad_inp[base + t].add(grad_out[first + t]);
            grad_inp.set(base + t, sum);
            t += 1;
        }
        proof {
            assert(i * tail + tail == (i + 1) * tail) by (nonlinear_arith);
        }
        i += 1;
    }
}

/// The indexed copy of a gather, as a device provides it: the output keeps
/// the source's axes, with the indexed one resized.
pub trait ReplaceDimKernel<E: Dtype>: DeviceStorage {
    /// Copies, for every place of the index tensor, the source row that its
    /// value addresses. An index value outside the axis is trapped.
    fn forward(&self, plan: &IndexPlan, inp: &Vec<E>, idx: &Vec<usize>) -> (r: Result<
        Vec<E>,
        Error,
    >)
        requires
            plan.wf(),
            inp@.len() == plan.src_len(),
            idx@.len() == plan.idx_len(),
        ensures
            r matches Ok(out) ==> indices_in_range(idx@, plan.extent) && out@ == gathered(
                *plan,
                inp@,
                idx@,
            ),
            r matches Err(e) ==> {
                ||| e == Error::IndexOutOfRange && !indices_in_range(idx@, plan.extent)
                ||| e == Error::AllocationFailure && !self.dependable()
            },
    ;

    /// Adds every output gradient onto the source gradient at the place its
    /// element was copied from.
    fn backward(
        &self,
        plan: &IndexPlan,
        grad_inp: &mut Vec<E>,
        idx: &Vec<usize>,
        grad_out: &Vec<E>,
    ) -> (r: Result<(), Error>)
        requires
            plan.wf(),
            old(grad_inp)@.len() == plan.src_len(),
            idx@.len() == plan.idx_len(),
            grad_out@.len() == plan.out_len(),
        ensures
            final(grad_inp)@.len() == old(grad_inp)@.len(),
            r is Ok ==> indices_in_range(idx@, plan.extent) && final(grad_inp)@ == scattered(
                *plan,
                idx@,
                grad_out@,
                old(grad_inp)@,
            ),
            r matches Err(e) ==> {
                ||| e == Error::IndexOutOfRange && !indices_in_range(idx@, plan.extent)
                ||| e == Error::AllocationFailure && !self.dependable()
            },
    ;
}

/// The indexed copy of a select, as a device provides it: the output loses
/// the indexed axis.
pub trait RemoveDimKernel<E: Dtype>: DeviceStorage {
    /// Copies, for every place of the index tensor, the source row that its
    /// value addresses. An index value outside the axis is trapped.
    fn forward(&self, plan: &IndexPlan, inp: &Vec<E>, idx: &Vec<usize>) -> (r: Result<
        Vec<E>,
        Error,
    >)
        requires
            plan.wf(),
            inp@.len() == plan.src_len(),
            idx@.len() == plan.idx_len(),
        ensures
            r matches Ok(out) ==> indices_in_range(idx@, plan.extent) && out@ == gathered(
                *plan,
                inp@,
                idx@,
            ),
            r matches Err(e) ==> {
                ||| e == Error::IndexOutOfRange && !indices_in_range(idx@, plan.extent)
                ||| e == Error::AllocationFailure && !self.dependable()
            },
    ;

    /// Adds every output gradient onto the source gradient at the place its
    /// element was copied from.
    fn backward(
        &self,
        plan: &IndexPlan,
        grad_inp: &mut Vec<E>,
        idx: &Vec<usize>,
        grad_out: &Vec<E>,
    ) -> (r: Result<(), Error>)
        requires
            plan.wf(),
            old(grad_inp)@.len() == plan.src_len(),
            idx@.len() == plan.idx_len(),
            grad_out@.len() == plan.out_len(),
        ensures
            final(grad_inp)@.len() == old(grad_inp)@.len(),
            r is Ok ==> indices_in_range(idx@, plan.extent) && final(grad_inp)@ == scattered(
                *plan,
                idx@,
                grad_out@,
                old(grad_inp)@,
            ),
            r matches Err(e) ==> {
                ||| e == Error::IndexOutOfRange && !indices_in_range(idx@, plan.extent)
                ||| e == Error::AllocationFailure && !self.dependable()
            },
    ;
}

/// The forward copy on the host: checks the index values, then copies.
pub fn cpu_forward<E: Dtype>(plan: &IndexPlan, inp: &Vec<E>, idx: &Vec<usize>) -> (r: Result<
    Vec<E>,
    Error,
>)
    requires
        plan.wf(),
        inp@.len() == plan.src_len(),
        idx@.len() == plan.idx_len(),
    ensures
        match r {
            Ok(out) => indices_in_range(idx@, plan.extent) && out@ == gathered(*plan, inp@, idx@),
            Err(e) => e == Error::IndexOutOfRange && !indices_in_range(idx@, plan.extent),
        },
{
    if !check_indices(idx, plan.extent) {
        return Err(Error::IndexOutOfRange);
    }
    Ok(copy_rows(plan, inp, idx))
}

/// The backward scatter-add on the host: checks the index values, then adds.
/// Where an index value is out of range nothing is written.
pub fn cpu_backward<E: Dtype>(
    plan: &IndexPlan,
    grad_inp: &mut Vec<E>,
    idx: &Vec<usize>,
    grad_out: &Vec<E>,
) -> (r: Result<(), Error>)
    requires
        plan.wf(),
        old(grad_inp)@.len() == plan.src_len(),
        idx@.len() == plan.idx_len(),
        grad_out@.len() == plan.out_len(),
    ensures
        match r {
            Ok(_) => indices_in_range(idx@, plan.extent) && final(grad_inp)@ == scattered(
                *plan,
                idx@,
                grad_out@,
                old(grad_inp)@,
            ),
            Err(e) => e == Error::IndexOutOfRange && !indices_in_range(idx@, plan.extent)
                && final(grad_inp)@ == old(grad_inp)@,
        },
{
    if !check_indices(idx, plan.extent) {
        return Err(Error::IndexOutOfRange);
    }
    scatter_add_rows(plan, grad_inp, idx, grad_out);
    Ok(())
}

impl<E: Dtype> ReplaceDimKernel<E> for Cpu {
    fn forward(&self, plan: &IndexPlan, inp: &Vec<E>, idx: &Vec<usize>) -> (r: Result<
        Vec<E>,
        Error,
    >) {
        cpu_forward(plan, inp, idx)
    }

    fn backward(
        &self,
        plan: &IndexPlan,
        grad_inp: &mut Vec<E>,
        idx: &Vec<usize>,
        grad_out: &Vec<E>,
    ) -> (r: Result<(), Error>) {
        cpu_backward(plan, grad_inp, idx, grad_out)
    }
}

impl<E: Dtype> RemoveDimKernel<E> for Cpu {
    fn forward(&self, plan: &IndexPlan, inp: &Vec<E>, idx: &Vec<usize>) -> (r: Result<
        Vec<E>,
        Error,
    >) {
        cpu_forward(plan, inp, idx)
    }

    fn backward(
        &self,
        plan: &IndexPlan,
        grad_inp: &mut Vec<E>,
        idx: &Vec<usize>,
        grad_out: &Vec<E>,
    ) -> (r: Result<(), Error>) {
        cpu_backward(plan, grad_inp, idx, grad_out)
    }
}

} // verus!
