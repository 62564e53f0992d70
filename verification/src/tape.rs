use vstd::prelude::*;
use crate::device::{zeros, DeviceStorage};
use crate::dtype::Dtype;
use crate::elementwise::{add_onto, added};
use crate::error::Error;
use crate::gradients::Gradients;
use crate::kernels::{indices_in_range, scattered, RemoveDimKernel, ReplaceDimKernel};
use crate::plan::IndexPlan;

verus! {

/// What the backward step of an indexed copy keeps from the forward pass:
/// the identities of its input and its output, the plan, and the index
/// values, by value.
pub struct IndexedCopy {
    /// The identity of the tensor that was read.
    pub inp: u64,
    /// The identity of the tensor that was produced.
    pub out: u64,
    /// How the copy walked its buffers.
    pub plan: IndexPlan,
    /// The index values.
    pub idx: Vec<usize>,
}

impl IndexedCopy {
    /// There is one index value for every place that the plan gives the
    /// index tensor.
    pub open spec fn wf(&self) -> bool {
        &&& self.plan.wf()
        &&& self.idx@.len() == self.plan.idx_len()
    }
}

/// What the backward step of an element-by-element sum keeps from the forward
/// pass: the identities of the two operands and of the output, and their
/// common length.
pub struct Sum {
    /// The identity of the first operand.
    pub lhs: u64,
    /// The identity of the second operand.
    pub rhs: u64,
    /// The identity of the tensor that was produced.
    pub out: u64,
    /// The number of elements of each of the three.
    pub len: usize,
}

/// A recorded backward step. It never touches a forward value: it reads the
/// gradient of its output and adds to the gradients of its inputs.
pub enum BackwardOp {
    /// The backward step of a select.
    Select(IndexedCopy),
    /// The backward step of a gather.
    Gather(IndexedCopy),
    /// The backward step of an element-by-element sum.
    Add(Sum),
}

impl BackwardOp {
    /// What the step kept is well formed.
    pub open spec fn wf(&self) -> bool {
        match *self {
            BackwardOp::Select(c) => c.wf(),
            BackwardOp::Gather(c) => c.wf(),
            BackwardOp::Add(_) => true,
        }
    }
}

/// The store with a buffer of `len` zeros recorded for `id`, unless it holds
/// a gradient for `id` already.
pub open spec fn with_buffer<E: Dtype>(g: Map<u64, Seq<E>>, id: u64, len: nat) -> Map<
    u64,
    Seq<E>,
> {
    if g.contains_key(id) {
        g
    } else {
        g.insert(id, zeros::<E>(len))
    }
}

/// What replaying the step of an indexed copy makes of a gradient store.
///
/// A step whose input and output are one identity is an `AliasingViolation`.
/// Otherwise both gradients are looked up, each recorded as zeros where the
/// store has none. A gradient of another length than the plan gives is a
/// `ShapeMismatch`, an index value outside the axis an `IndexOutOfRange`.
/// Otherwise the gradient of the output is scatter-added onto that of the
/// input.
pub open spec fn copy_replayed<E: Dtype>(c: IndexedCopy, g: Map<u64, Seq<E>>) -> Result<
    Map<u64, Seq<E>>,
    Error,
> {
    let both = with_buffer(with_buffer(g, c.inp, c.plan.src_len()), c.out, c.plan.out_len());
    if c.inp == c.out {
        Err(Error::AliasingViolation)
    } else if both[c.inp].len() != c.plan.src_len() || both[c.out].len() != c.plan.out_len() {
        Err(Error::ShapeMismatch)
    } else if !indices_in_range(c.idx@, c.plan.extent) {
        Err(Error::IndexOutOfRange)
    } else {
        Ok(both.insert(c.inp, scattered(c.plan, c.idx@, both[c.out], both[c.inp])))
    }
}

/// What replaying the step of a sum makes of a gradient store.
///
/// A step whose output is also one of its operands is an
/// `AliasingViolation`. Otherwise the three gradients are looked up, each
/// recorded as zeros where the store has none. A gradient of another length
/// than the step kept is a `ShapeMismatch`. Otherwise the gradient of the
/// output is added onto that of the first operand and then onto that of the
/// second: twice onto the same gradient, where the operands are one tensor.
pub open spec fn sum_replayed<E: Dtype>(s: Sum, g: Map<u64, Seq<E>>) -> Result<
    Map<u64, Seq<E>>,
    Error,
> {
    let len = s.len as nat;
    let all = with_buffer(with_buffer(with_buffer(g, s.lhs, len), s.rhs, len), s.out, len);
    if s.lhs == s.out || s.rhs == s.out {
        Err(Error::AliasingViolation)
    } else if all[s.lhs].len() != len || all[s.rhs].len() != len || all[s.out].len() != len {
        Err(Error::ShapeMismatch)
    } else {
        let first = all.insert(s.lhs, added(all[s.lhs], all[s.out]));
        Ok(first.insert(s.rhs, added(first[s.rhs], all[s.out])))
    }
}

/// What replaying one step makes of a gradient store.
pub open spec fn replayed<E: Dtype>(op: BackwardOp, g: Map<u64, Seq<E>>) -> Result<
    Map<u64, Seq<E>>,
    Error,
> {
    match op {
        BackwardOp::Select(c) => copy_replayed(c, g),
        BackwardOp::Gather(c) => copy_replayed(c, g),
        BackwardOp::Add(s) => sum_replayed(s, g),
    }
}

/// Replays the step of an indexed copy through the kernel that `select`
/// names: that of a select, or that of a gather.
fn replay_copy<E: Dtype, D: RemoveDimKernel<E> + ReplaceDimKernel<E>>(
    c: &IndexedCopy,
    select: bool,
    dev: &D,
    grads: &mut Gradients<E>,
) -> (r: Result<(), Error>)
    requires
        c.wf(),
        old(grads).wf(),
    ensures
        final(grads).wf(),
        r is Ok ==> copy_replayed(*c, old(grads)@) == Ok::<Map<u64, Seq<E>>, Error>(
            final(grads)@,
        ),
        r matches Err(e) ==> {
            ||| copy_replayed(*c, old(grads)@) == Err::<Map<u64, Seq<E>>, Error>(e)
            ||| e == Error::AllocationFailure && !dev.dependable()
        },
{
    if c.inp == c.out {
        return Err(Error::AliasingViolation);
    }
    let src_len = c.plan.source_len();
    let out_len = c.plan.output_len();
    match grads.get_or_alloc(dev, c.inp, src_len) {
        Ok(_) => {},
        Err(e) => {
            return Err(e);
        },
    }
    match grads.get_or_alloc(dev, c.out, out_len) {
        Ok(_) => {},
        Err(e) => {
            return Err(e);
        },
    }
    proof {
        let first = with_buffer(old(grads)@, c.inp, c.plan.src_len());
        assert(grads@ =~= with_buffer(first, c.out, c.plan.out_len()));
    }
    let (grad_inp, grad_out) = match grads.mut_and_ref(c.inp, c.out) {
        Ok(pair) => pair,
        Err(e) => {
            return Err(e);
        },
    };
    if grad_inp.len() != src_len || grad_out.len() != out_len {
        return Err(Error::ShapeMismatch);
    }
    if select {
        RemoveDimKernel::<E>::backward(dev, &c.plan, grad_inp, &c.idx, grad_out)
    } else {
        ReplaceDimKernel::<E>::backward(dev, &c.plan, grad_inp, &c.idx, grad_out)
    }
}

/// Replays the step of a sum.
fn replay_sum<E: Dtype, D: DeviceStorage>(s: &Sum, dev: &D, grads: &mut Gradients<E>) -> (r: Result<
    (),
    Error,
>)
    requires
        old(grads).wf(),
    ensures
        final(grads).wf(),
        r is Ok ==> sum_replayed(*s, old(grads)@) == Ok::<Map<u64, Seq<E>>, Error>(final(grads)@),
        r matches Err(e) ==> {
            ||| sum_replayed(*s, old(grads)@) == Err::<Map<u64, Seq<E>>, Error>(e)
            ||| e == Error::AllocationFailure && !dev.dependable()
        },
{
    if s.lhs == s.out || s.rhs == s.out {
        return Err(Error::AliasingViolation);
    }
    match grads.get_or_alloc(dev, s.lhs, s.len) {
        Ok(_) => {},
        Err(e) => {
            return Err(e);
        },
    }
    match grads.get_or_alloc(dev, s.rhs, s.len) {
        Ok(_) => {},
        Err(e) => {
            return Err(e);
        },
    }
    match grads.get_or_alloc(dev, s.out, s.len) {
        Ok(_) => {},
        Err(e) => {
            return Err(e);
        },
    }
    let ghost all = grads@;
    proof {
        let len = s.len as nat;
        let one = with_buffer(old(grads)@, s.lhs, len);
        let two = with_buffer(one, s.rhs, len);
        assert(all =~= with_buffer(two, s.out, len));
    }
    let fits = grads.get(s.lhs).unwrap().len() == s.len && grads.get(s.rhs).unwrap().len()
        == s.len && grads.get(s.out).unwrap().len() == s.len;
    if !fits {
        return Err(Error::ShapeMismatch);
    }
    match grads.mut_and_ref(s.lhs, s.out) {
        Ok((grad_lhs, grad_out)) => {
            add_onto(grad_lhs, grad_out);
        },
        Err(e) => {
            return Err(e);
        },
    }
    match grads.mut_and_ref(s.rhs, s.out) {
        Ok((grad_rhs, grad_out)) => {
            add_onto(grad_rhs, grad_out);
        },
        Err(e) => {
            return Err(e);
        },
    }
    Ok(())
}

impl BackwardOp {
    /// Replays the step on a gradient store.
    ///
    /// With a dependable device the outcome is `replayed`. Another device may
    /// also fail to provide a buffer. After a failure the store is not to be
    /// used.
    pub fn replay<E: Dtype, D: RemoveDimKernel<E> + ReplaceDimKernel<E>>(
        &self,
        dev: &D,
        grads: &mut Gradients<E>,
    ) -> (r: Result<(), Error>)
        requires
            self.wf(),
            old(grads).wf(),
        ensures
            final(grads).wf(),
            r is Ok ==> replayed(*self, old(grads)@) == Ok::<Map<u64, Seq<E>>, Error>(
                final(grads)@,
            ),
            r matches Err(e) ==> {
                ||| replayed(*self, old(grads)@) == Err::<Map<u64, Seq<E>>, Error>(e)
                ||| e == Error::AllocationFailure && !dev.dependable()
            },
    {
        match self {
            BackwardOp::Select(c) => replay_copy(c, true, dev, grads),
            BackwardOp::Gather(c) => replay_copy(c, false, dev, grads),
            BackwardOp::Add(s) => replay_sum(s, dev, grads),
        }
    }
}

/// What replaying a whole tape makes of a gradient store: the steps are
/// replayed one by one, the last recorded first, and the first failure ends
/// the replay.
pub open spec fn replay_all<E: Dtype>(ops: Seq<BackwardOp>, g: Map<u64, Seq<E>>) -> Result<
    Map<u64, Seq<E>>,
    Error,
>
    decreases ops.len(),
{
    if ops.len() == 0 {
        Ok(g)
    } else {
        match replayed(ops.last(), g) {
            Ok(next) => replay_all(ops.drop_last(), next),
            Err(e) => Err(e),
        }
    }
}

/// The tape: the backward steps of a computation, in the order in which the
/// forward pass recorded them.
pub struct Tape {
    ops: Vec<BackwardOp>,
}

impl View for Tape {
    type V = Seq<BackwardOp>;

    closed spec fn view(&self) -> Seq<BackwardOp> {
        self.ops@
    }
}

impl Tape {
    /// Every recorded step is well formed.
    pub open spec fn wf(&self) -> bool {
        forall|i: int| 0 <= i < self@.len() ==> (#[trigger] self@[i]).wf()
    }

    /// A tape without steps.
    pub fn new() -> (r: Tape)
        ensures
            r@ == Seq::<BackwardOp>::empty(),
            r.wf(),
    {
        Tape { ops: Vec::new() }
    }

    /// The number of recorded steps.
    pub fn len(&self) -> (r: usize)
        ensures
            r == self@.len(),
    {
        self.ops.len()
    }

    /// Records a step after all those recorded so far.
    pub fn add_backward_op(&mut self, op: BackwardOp)
        requires
            old(self).wf(),
            op.wf(),
        ensures
            final(self)@ == old(self)@.push(op),
            final(self).wf(),
    {
        self.ops.push(op);
        proof {
            assert forall|i: int| 0 <= i < self@.len() implies (#[trigger] self@[i]).wf() by {
                if i < old(self)@.len() {
                    assert(old(self)@[i].wf());
                }
            }
        }
    }

    /// Joins the tapes of the two operands of an operation: the steps of this
    /// tape, followed by those of `other`. Every step is moved, none is
    /// copied or dropped.
    pub fn merge(self, other: Tape) -> (r: Tape)
        requires
            self.wf(),
            other.wf(),
        ensures
            r@ == self@ + other@,
            r.wf(),
    {
        let mut ops = self.ops;
        let mut rest = other.ops;
        ops.append(&mut rest);
        let r = Tape { ops };
        proof {
            assert forall|i: int| 0 <= i < r@.len() implies (#[trigger] r@[i]).wf() by {
                if i < self@.len() {
                    assert(self@[i].wf());
                } else {
                    assert(other@[i - self@.len()].wf());
                }
            }
        }
        r
    }

    /// Replays the tape on a gradient store and discards it: every step once,
    /// the last recorded first. The first failure ends the replay.
    ///
    /// With a dependable device the outcome is `replay_all`. Another device
    /// may also fail to provide a buffer. After a failure the store is not to
    /// be used.
    pub fn execute<E: Dtype, D: RemoveDimKernel<E> + ReplaceDimKernel<E>>(
        self,
        dev: &D,
        grads: &mut Gradients<E>,
    ) -> (r: Result<(), Error>)
        requires
            self.wf(),
            old(grads).wf(),
        ensures
            final(grads).wf(),
            r is Ok ==> replay_all(self@, old(grads)@) == Ok::<Map<u64, Seq<E>>, Error>(
                final(grads)@,
            ),
            r matches Err(e) ==> {
                ||| replay_all(self@, old(grads)@) == Err::<Map<u64, Seq<E>>, Error>(e)
                ||| e == Error::AllocationFailure && !dev.dependable()
            },
    {
        let mut i: usize = self.ops.len();
        proof {
            assert(self@.subrange(0, i as int) =~= self@);
        }
        while i > 0
            invariant
                self.wf(),
                grads.wf(),
                i <= self.ops@.len(),
                replay_all(self@, old(grads)@) == replay_all(
                    self@.subrange(0, i as int),
                    grads@,
                ),
            decreases i,
        {
            proof {
                let rest = self@.subrange(0, i as int);
                assert(rest.drop_last() =~= self@.subrange(0, i - 1));
            }
            match self.ops[i - 1].replay(dev, grads) {
                Ok(_) => {},
                Err(e) => {
                    return Err(e);
                },
            }
            i -= 1;
        }
        Ok(())
    }
}

/// The order in which a tape of `n` steps replays them, by their place on the
/// tape: the last recorded first.
pub open spec fn replay_order(n: nat) -> Seq<int> {
    Seq::new(n, |k: int| n - 1 - k)
}

/// What replaying the steps at the places that `order` lists, one after the
/// other, makes of a gradient store.
pub open spec fn replay_in_order<E: Dtype>(
    ops: Seq<BackwardOp>,
    order: Seq<int>,
    g: Map<u64, Seq<E>>,
) -> Result<Map<u64, Seq<E>>, Error>
    decreases order.len(),
{
    if order.len() == 0 {
        Ok(g)
    } else {
        match replayed(ops[order.first()], g) {
            Ok(next) => replay_in_order(ops, order.drop_first(), next),
            Err(e) => Err(e),
        }
    }
}

/// The replay order names every place of the tape exactly once, and each
/// before all the places that were recorded earlier.
pub proof fn lemma_replay_order_visits_each_once(n: nat)
    ensures
        replay_order(n).len() == n,
        forall|i: int| 0 <= i < n ==> replay_order(n).contains(i),
        forall|k: int| 0 <= k < n ==> 0 <= #[trigger] replay_order(n)[k] < n,
        replay_order(n).no_duplicates(),
        forall|j: int, k: int|
            0 <= j < k < n ==> #[trigger] replay_order(n)[j] > #[trigger] replay_order(n)[k],
{
    assert forall|i: int| 0 <= i < n implies replay_order(n).contains(i) by {
        assert(replay_order(n)[n - 1 - i] == i);
    }
}

/// Replaying the steps listed by `order` looks at no other step of the tape.
proof fn lemma_replay_in_order_reads_listed<E: Dtype>(
    a: Seq<BackwardOp>,
    b: Seq<BackwardOp>,
    order: Seq<int>,
    g: Map<u64, Seq<E>>,
)
    requires
        forall|k: int| 0 <= k < order.len() ==> a[#[trigger] order[k]] == b[order[k]],
    ensures
        replay_in_order(a, order, g) == replay_in_order(b, order, g),
    decreases order.len(),
{
    if order.len() > 0 {
        let rest = order.drop_first();
        match replayed(a[order.first()], g) {
            Ok(next) => {
                lemma_replay_in_order_reads_listed(a, b, rest, next);
            },
            Err(_) => {},
        }
    }
}

/// Single execution. Replaying a tape replays the steps at the places that
/// the replay order lists, which names every step exactly once.
pub proof fn lemma_replay_all_follows_order<E: Dtype>(ops: Seq<BackwardOp>, g: Map<u64, Seq<E>>)
    ensures
        replay_all(ops, g) == replay_in_order(ops, replay_order(ops.len()), g),
    decreases ops.len(),
{
    let n = ops.len();
    if n > 0 {
        let order = replay_order(n);
        let rest = replay_order((n - 1) as nat);
        assert(order.drop_first() =~= rest);
        match replayed(ops.last(), g) {
            Ok(next) => {
                lemma_replay_all_follows_order(ops.drop_last(), next);
                lemma_replay_in_order_reads_listed(ops.drop_last(), ops, rest, next);
            },
            Err(_) => {},
        }
    }
}

/// Replaying a merged tape replays the steps of the second operand, and then,
/// where that went well, those of the first.
pub proof fn lemma_replay_merged<E: Dtype>(
    a: Seq<BackwardOp>,
    b: Seq<BackwardOp>,
    g: Map<u64, Seq<E>>,
)
    ensures
        replay_all(a + b, g) == match replay_all(b, g) {
            Ok(mid) => replay_all(a, mid),
            Err(e) => Err(e),
        },
    decreases b.len(),
{
    if b.len() == 0 {
        assert(a + b =~= a);
    } else {
        assert((a + b).drop_last() =~= a + b.drop_last());
        match replayed(b.last(), g) {
            Ok(next) => {
                lemma_replay_merged(a, b.drop_last(), next);
            },
            Err(_) => {},
        }
    }
}

/// The tape of an operation's output before its own step is recorded: the
/// steps of the first operand's tape followed by those of the second's, or no
/// tape where neither operand has one.
pub open spec fn joined(a: Option<Seq<BackwardOp>>, b: Option<Seq<BackwardOp>>) -> Option<
    Seq<BackwardOp>,
> {
    match (a, b) {
        (Some(x), Some(y)) => Some(x + y),
        (Some(x), None) => Some(x),
        (None, Some(y)) => Some(y),
        (None, None) => None,
    }
}

/// `tape` is `before` with one step, `op`, recorded at its end; or, where
/// there was no tape before, there is none now.
pub open spec fn records(
    tape: Option<Seq<BackwardOp>>,
    before: Option<Seq<BackwardOp>>,
    op: spec_fn(BackwardOp) -> bool,
) -> bool {
    match before {
        None => tape is None,
        Some(ops) => {
            &&& tape is Some
            &&& tape.unwrap().len() == ops.len() + 1
            &&& tape.unwrap().drop_last() == ops
            &&& op(tape.unwrap().last())
        },
    }
}

/// Joins the tapes of two operands.
pub(crate) fn join(a: Option<Tape>, b: Option<Tape>) -> (r: Option<Tape>)
    requires
        a matches Some(t) ==> t.wf(),
        b matches Some(t) ==> t.wf(),
    ensures
        r matches Some(t) ==> t.wf(),
        (match r {
            Some(t) => Some(t@),
            None => None,
        }) == joined(
            match a {
                Some(t) => Some(t@),
                None => None,
            },
            match b {
                Some(t) => Some(t@),
                None => None,
            },
        ),
{
    match a {
        Some(x) => match b {
            Some(y) => Some(x.merge(y)),
            None => Some(x),
        },
        None => b,
    }
}

} // verus!
