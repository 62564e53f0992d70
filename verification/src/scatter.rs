use vstd::prelude::*;
use crate::dtype::Dtype;
use crate::kernels::{accumulated, source_of};
use crate::plan::IndexPlan;

verus! {

/// The output places below `n` whose element was copied from source place
/// `p`, in ascending order.
pub open spec fn hits(plan: IndexPlan, idx: Seq<usize>, p: int, n: nat) -> Seq<int>
    decreases n,
{
    if n == 0 {
        Seq::empty()
    } else {
        let before = hits(plan, idx, p, (n - 1) as nat);
        if source_of(plan, idx, n - 1) == p {
            before.push(n - 1)
        } else {
            before
        }
    }
}

/// `start` with the terms added on one after the other, from the left.
pub open spec fn sum_onto<E: Dtype>(start: E, terms: Seq<E>) -> E
    decreases terms.len(),
{
    if terms.len() == 0 {
        start
    } else {
        sum_onto(start, terms.drop_last()).spec_sum(terms.last())
    }
}

/// The output gradients that reach source place `p` from the first `n` output
/// places, in the order of the output.
pub open spec fn contributions<E: Dtype>(
    plan: IndexPlan,
    idx: Seq<usize>,
    grad_out: Seq<E>,
    p: int,
    n: nat,
) -> Seq<E> {
    hits(plan, idx, p, n).map_values(|q: int| grad_out[q])
}

/// `hits` lists exactly the output places below `n` that were copied from
/// `p`.
pub proof fn lemma_hits_members(plan: IndexPlan, idx: Seq<usize>, p: int, n: nat)
    ensures
        forall|q: int| #[trigger]
            hits(plan, idx, p, n).contains(q) <==> (0 <= q < n && source_of(plan, idx, q) == p),
    decreases n,
{
    let now = hits(plan, idx, p, n);
    if n > 0 {
        let before = hits(plan, idx, p, (n - 1) as nat);
        lemma_hits_members(plan, idx, p, (n - 1) as nat);
        assert forall|q: int| #[trigger]
            now.contains(q) <==> (0 <= q < n && source_of(plan, idx, q) == p) by {
            if source_of(plan, idx, n - 1) == p {
                if now.contains(q) {
                    let k = choose|k: int| 0 <= k < now.len() && now[k] == q;
                    if k < before.len() {
                        assert(before.contains(q));
                    }
                }
                if 0 <= q < n && source_of(plan, idx, q) == p {
                    if q == n - 1 {
                        assert(now[before.len() as int] == q);
                    } else {
                        assert(before.contains(q));
                        let k = choose|k: int| 0 <= k < before.len() && before[k] == q;
                        assert(now[k] == q);
                    }
                }
            }
        }
    }
}

/// `hits` is strictly ascending, so it names no place twice: its length is
/// the number of times that `p` is addressed.
pub proof fn lemma_hits_ascending(plan: IndexPlan, idx: Seq<usize>, p: int, n: nat)
    ensures
        forall|a: int, b: int|
            #![trigger hits(plan, idx, p, n)[a], hits(plan, idx, p, n)[b]]
            0 <= a < b < hits(plan, idx, p, n).len() ==> hits(plan, idx, p, n)[a] < hits(
                plan,
                idx,
                p,
                n,
            )[b],
        hits(plan, idx, p, n).len() <= n,
    decreases n,
{
    let now = hits(plan, idx, p, n);
    if n > 0 {
        let before = hits(plan, idx, p, (n - 1) as nat);
        lemma_hits_ascending(plan, idx, p, (n - 1) as nat);
        lemma_hits_members(plan, idx, p, (n - 1) as nat);
        assert forall|a: int, b: int|
            #![trigger now[a], now[b]]
            0 <= a < b < now.len() implies now[a] < now[b] by {
            if source_of(plan, idx, n - 1) == p {
                if b == before.len() {
                    assert(before.contains(before[a]));
                }
            }
        }
    }
}

/// Additivity. The gradient that the scatter-add leaves at a source place is
/// what the place held before, with the gradients of the output elements
/// copied from it added on, one for each time the place is addressed.
pub proof fn lemma_gradient_is_sum_of_contributions<E: Dtype>(
    plan: IndexPlan,
    idx: Seq<usize>,
    grad_out: Seq<E>,
    start: E,
    p: int,
    n: nat,
)
    ensures
        accumulated(plan, idx, grad_out, start, p, n) == sum_onto(
            start,
            contributions(plan, idx, grad_out, p, n),
        ),
        contributions(plan, idx, grad_out, p, n).len() == hits(plan, idx, p, n).len(),
    decreases n,
{
    if n > 0 {
        lemma_gradient_is_sum_of_contributions(plan, idx, grad_out, start, p, (n - 1) as nat);
        let before = contributions(plan, idx, grad_out, p, (n - 1) as nat);
        let now = contributions(plan, idx, grad_out, p, n);
        if source_of(plan, idx, n - 1) == p {
            assert(now.drop_last() =~= before);
        }
    }
}

/// Zero elsewhere. A source place that no output element was copied from
/// keeps the gradient it had: zero, when the buffer began at zero.
pub proof fn lemma_unaddressed_keeps_gradient<E: Dtype>(
    plan: IndexPlan,
    idx: Seq<usize>,
    grad_out: Seq<E>,
    start: E,
    p: int,
    n: nat,
)
    requires
        forall|q: int| 0 <= q < n ==> source_of(plan, idx, q) != p,
    ensures
        accumulated(plan, idx, grad_out, start, p, n) == start,
    decreases n,
{
    if n > 0 {
        lemma_unaddressed_keeps_gradient(plan, idx, grad_out, start, p, (n - 1) as nat);
    }
}

/// In a source with a single axis, output element `q` is copied from the
/// place that index value `q` names.
pub proof fn lemma_source_of_vector(plan: IndexPlan, idx: Seq<usize>, q: int)
    requires
        plan.lead == 1,
        plan.tail == 1,
        0 <= q < plan.per,
    ensures
        source_of(plan, idx, q) == idx[q],
{
    let per = plan.per as int;
    vstd::arithmetic::div_mod::lemma_basic_div(q, per);
    assert((0 * plan.extent + idx[q]) * 1 + 0 == idx[q]) by (nonlinear_arith);
}

} // verus!
