use vstd::prelude::*;
use crate::device::zeros;
use crate::dtype::Dtype;
use crate::elementwise::added;
use crate::error::Error;
use crate::kernels::{indices_in_range, scattered, source_of, RemoveDimKernel, ReplaceDimKernel};
use crate::plan::{gather_per, plan_of, select_per};
use crate::select_and_gather::{GatherTo, SelectTo};
use crate::tensor::{steps, Tensor};
use crate::scatter::{
    contributions, hits, lemma_gradient_is_sum_of_contributions, lemma_unaddressed_keeps_gradient,
    sum_onto,
};
use crate::tape::{
    copy_replayed, replay_all, replayed, sum_replayed, with_buffer, BackwardOp, IndexedCopy, Sum,
};

verus! {

/// Replaying the step of an indexed copy whose input has no gradient yet, on
/// a store that holds the gradient of its output, records for the input the
/// scatter-add of the output's gradient onto zeros, and changes nothing else.
pub proof fn lemma_replayed_onto_fresh_input<E: Dtype>(c: IndexedCopy, g: Map<u64, Seq<E>>)
    requires
        c.inp != c.out,
        !g.contains_key(c.inp),
        g.contains_key(c.out),
        g[c.out].len() == c.plan.out_len(),
        indices_in_range(c.idx@, c.plan.extent),
    ensures
        copy_replayed(c, g) == Ok::<Map<u64, Seq<E>>, Error>(
            g.insert(
                c.inp,
                scattered(
                    c.plan,
                    c.idx@,
                    g[c.out],
                    zeros::<E>(c.plan.src_len()),
                ),
            ),
        ),
{
    let first = with_buffer(g, c.inp, c.plan.src_len());
    let both = with_buffer(first, c.out, c.plan.out_len());
    assert(both.insert(c.inp, scattered(c.plan, c.idx@, both[c.out], both[c.inp])) =~= g.insert(
        c.inp,
        scattered(c.plan, c.idx@, g[c.out], zeros::<E>(c.plan.src_len())),
    ));
}

/// The gradients after the backward pass of a single indexed copy, begun from
/// `seed` as the gradient of its output: the seed itself, and for the input
/// the scatter-add of the seed onto zeros.
pub proof fn lemma_backward_of_one_copy<E: Dtype>(op: BackwardOp, c: IndexedCopy, seed: Seq<E>)
    requires
        op == BackwardOp::Select(c) || op == BackwardOp::Gather(c),
        c.inp != c.out,
        seed.len() == c.plan.out_len(),
        indices_in_range(c.idx@, c.plan.extent),
    ensures
        replay_all(seq![op], Map::<u64, Seq<E>>::empty().insert(c.out, seed)) == Ok::<
            Map<u64, Seq<E>>,
            Error,
        >(
            Map::<u64, Seq<E>>::empty().insert(c.out, seed).insert(
                c.inp,
                scattered(
                    c.plan,
                    c.idx@,
                    seed,
                    zeros::<E>(c.plan.src_len()),
                ),
            ),
        ),
{
    let g = Map::<u64, Seq<E>>::empty().insert(c.out, seed);
    lemma_replayed_onto_fresh_input(c, g);
    let ops = seq![op];
    let next = replayed(op, g).unwrap();
    assert(replay_all(ops.drop_last(), next) == Ok::<Map<u64, Seq<E>>, Error>(next));
}

/// Additivity after a backward pass. In a gradient that was scatter-added
/// onto zeros, the element at a place is zero with the upstream gradients of
/// all the output elements copied from that place added on: as many terms as
/// the place was addressed.
pub proof fn lemma_fresh_gradient_is_sum<E: Dtype>(c: IndexedCopy, seed: Seq<E>, p: int)
    requires
        0 <= p < c.plan.src_len(),
    ensures
        scattered(
            c.plan,
            c.idx@,
            seed,
            zeros::<E>(c.plan.src_len()),
        )[p] == sum_onto(
            E::spec_zero(),
            contributions(c.plan, c.idx@, seed, p, c.plan.out_len()),
        ),
        contributions(c.plan, c.idx@, seed, p, c.plan.out_len()).len()
            == hits(c.plan, c.idx@, p, c.plan.out_len()).len(),
{
    lemma_gradient_is_sum_of_contributions(
        c.plan,
        c.idx@,
        seed,
        E::spec_zero(),
        p,
        c.plan.out_len(),
    );
}

/// Zero elsewhere after a backward pass. In a gradient that was scatter-added
/// onto zeros, the element at a place that no output element was copied from
/// is zero, whatever the upstream gradient.
pub proof fn lemma_fresh_gradient_is_zero_elsewhere<E: Dtype>(
    c: IndexedCopy,
    seed: Seq<E>,
    p: int,
)
    requires
        0 <= p < c.plan.src_len(),
        forall|q: int|
            0 <= q < c.plan.out_len() ==> source_of(c.plan, c.idx@, q)
                != p,
    ensures
        scattered(
            c.plan,
            c.idx@,
            seed,
            zeros::<E>(c.plan.src_len()),
        )[p] == E::spec_zero(),
{
    lemma_unaddressed_keeps_gradient(c.plan, c.idx@, seed, E::spec_zero(), p, c.plan.out_len());
}

/// Replaying the step of a sum whose operands have no gradient yet, on a
/// store that holds the gradient of its output, records that gradient, added
/// onto zeros, for both operands: once for each, and so twice over for a
/// tensor that was added to itself.
pub proof fn lemma_sum_replayed_onto_fresh_operands<E: Dtype>(s: Sum, g: Map<u64, Seq<E>>)
    requires
        s.lhs != s.out,
        s.rhs != s.out,
        !g.contains_key(s.lhs),
        !g.contains_key(s.rhs),
        g.contains_key(s.out),
        g[s.out].len() == s.len,
    ensures
        sum_replayed(s, g) == Ok::<Map<u64, Seq<E>>, Error>(
            if s.lhs == s.rhs {
                g.insert(s.lhs, added(added(zeros::<E>(s.len as nat), g[s.out]), g[s.out]))
            } else {
                g.insert(s.lhs, added(zeros::<E>(s.len as nat), g[s.out])).insert(
                    s.rhs,
                    added(zeros::<E>(s.len as nat), g[s.out]),
                )
            },
        ),
{
    let len = s.len as nat;
    let one = with_buffer(g, s.lhs, len);
    let two = with_buffer(one, s.rhs, len);
    let all = with_buffer(two, s.out, len);
    let first = all.insert(s.lhs, added(all[s.lhs], all[s.out]));
    let last = first.insert(s.rhs, added(first[s.rhs], all[s.out]));
    if s.lhs == s.rhs {
        assert(last =~= g.insert(s.lhs, added(added(zeros::<E>(len), g[s.out]), g[s.out])));
    } else {
        assert(last =~= g.insert(s.lhs, added(zeros::<E>(len), g[s.out])).insert(
            s.rhs,
            added(zeros::<E>(len), g[s.out]),
        ));
    }
}

/// The backward pass after one gather. Where a freshly traced tensor `x` was
/// gathered into `out`, the backward pass of `out`, begun from `seed`, records
/// for `x` the scatter-add of `seed` onto zeros through the plan and the index
/// values of the gather, and for `out` the seed itself.
pub proof fn lemma_backward_after_gather<E: Dtype, D: ReplaceDimKernel<E> + Copy>(
    x: Tensor<E, D>,
    axis: usize,
    idx: Tensor<usize, D>,
    out: Tensor<E, D>,
    seed: Seq<E>,
)
    requires
        x@.tape == Some(Seq::<BackwardOp>::empty()),
        idx@.tape is None,
        x.is_gathering(axis, &idx, out@.id, &out),
        indices_in_range(idx@.data, x@.shape[axis as int]),
        out@.id != x@.id,
        seed.len() == out@.data.len(),
    ensures
        replay_all(steps(out@.tape), Map::<u64, Seq<E>>::empty().insert(out@.id, seed)) == Ok::<
            Map<u64, Seq<E>>,
            Error,
        >(
            Map::<u64, Seq<E>>::empty().insert(out@.id, seed).insert(
                x@.id,
                scattered(
                    plan_of(x@.shape, axis as int, gather_per(axis as int, idx@.shape)),
                    idx@.data,
                    seed,
                    zeros::<E>(x@.data.len()),
                ),
            ),
        ),
{
    let op = out@.tape.unwrap().last();
    assert(out@.tape.unwrap() =~= seq![op]);
    match op {
        BackwardOp::Gather(c) => {
            lemma_backward_of_one_copy(op, c, seed);
        },
        _ => {},
    }
}

/// The backward pass after one select. Where a freshly traced tensor `x` was
/// selected into `out`, the backward pass of `out`, begun from `seed`, records
/// for `x` the scatter-add of `seed` onto zeros through the plan and the index
/// values of the select, and for `out` the seed itself.
pub proof fn lemma_backward_after_select<E: Dtype, D: RemoveDimKernel<E> + Copy>(
    x: Tensor<E, D>,
    axis: usize,
    idx: Tensor<usize, D>,
    out: Tensor<E, D>,
    seed: Seq<E>,
)
    requires
        x@.tape == Some(Seq::<BackwardOp>::empty()),
        idx@.tape is None,
        x.is_selection(axis, &idx, out@.id, &out),
        indices_in_range(idx@.data, x@.shape[axis as int]),
        out@.id != x@.id,
        seed.len() == out@.data.len(),
    ensures
        replay_all(steps(out@.tape), Map::<u64, Seq<E>>::empty().insert(out@.id, seed)) == Ok::<
            Map<u64, Seq<E>>,
            Error,
        >(
            Map::<u64, Seq<E>>::empty().insert(out@.id, seed).insert(
                x@.id,
                scattered(
                    plan_of(x@.shape, axis as int, select_per(axis as int, idx@.shape)),
                    idx@.data,
                    seed,
                    zeros::<E>(x@.data.len()),
                ),
            ),
        ),
{
    let op = out@.tape.unwrap().last();
    assert(out@.tape.unwrap() =~= seq![op]);
    match op {
        BackwardOp::Select(c) => {
            lemma_backward_of_one_copy(op, c, seed);
        },
        _ => {},
    }
}

} // verus!
