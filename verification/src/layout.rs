use vstd::prelude::*;
use vstd::arithmetic::div_mod::lemma_fundamental_div_mod_converse;
use crate::kernels::source_of;
use crate::plan::{gather_fits, gather_per, indexed_shape, plan_of, select_fits, select_per};
use crate::shapes::{lemma_span_subrange, numel, span};

verus! {

/// Whether `at` names a position of a tensor of shape `dims`: one coordinate
/// for every axis, each below the axis's extent.
pub open spec fn in_bounds(dims: Seq<usize>, at: Seq<int>) -> bool {
    &&& at.len() == dims.len()
    &&& forall|k: int| 0 <= k < dims.len() ==> 0 <= #[trigger] at[k] < dims[k]
}

/// The place in the buffer of the element at position `at` of a tensor of
/// shape `dims`, in row-major order.
pub open spec fn offset(dims: Seq<usize>, at: Seq<int>) -> int
    decreases dims.len(),
{
    if dims.len() == 0 {
        0
    } else {
        offset(dims.drop_last(), at.drop_last()) * dims.last() + at.last()
    }
}

/// The place of a position lies inside the buffer.
pub proof fn lemma_offset_bounds(dims: Seq<usize>, at: Seq<int>)
    requires
        in_bounds(dims, at),
    ensures
        0 <= offset(dims, at) < numel(dims),
    decreases dims.len(),
{
    if dims.len() > 0 {
        lemma_offset_bounds(dims.drop_last(), at.drop_last());
        let o = offset(dims.drop_last(), at.drop_last());
        let n = numel(dims.drop_last()) as int;
        let d = dims.last() as int;
        let a = at.last();
        assert(0 <= o * d + a < n * d) by (nonlinear_arith)
            requires
                0 <= o < n,
                0 <= a < d,
        ;
    }
}

/// The place of a position in two groups of axes laid side by side: the
/// place in the first group, times the element count of the second, plus the
/// place in the second.
pub proof fn lemma_offset_concat(d1: Seq<usize>, a1: Seq<int>, d2: Seq<usize>, a2: Seq<int>)
    requires
        a1.len() == d1.len(),
        a2.len() == d2.len(),
    ensures
        offset(d1 + d2, a1 + a2) == offset(d1, a1) * numel(d2) + offset(d2, a2),
    decreases d2.len(),
{
    if d2.len() == 0 {
        assert(offset(d1, a1) * 1 == offset(d1, a1)) by (nonlinear_arith);
    } else {
        assert((d1 + d2).drop_last() =~= d1 + d2.drop_last());
        assert((a1 + a2).drop_last() =~= a1 + a2.drop_last());
        lemma_offset_concat(d1, a1, d2.drop_last(), a2.drop_last());
        let x = offset(d1, a1);
        let n = numel(d2.drop_last()) as int;
        let y = offset(d2.drop_last(), a2.drop_last());
        let d = d2.last() as int;
        assert((x * n + y) * d == x * (n * d) + y * d) by (nonlinear_arith);
    }
}

/// The place of the element at coordinates `lead`, `v`, `rest` of a source
/// that is indexed along `axis`: the place of `lead` among the axes before,
/// and of `rest` among the axes after, with row `v` of the indexed axis
/// between them.
proof fn lemma_offset_around_axis(src: Seq<usize>, axis: int, lead: Seq<int>, v: int, rest: Seq<int>)
    requires
        0 <= axis < src.len(),
        lead.len() == axis,
        rest.len() == src.len() - axis - 1,
    ensures
        offset(src, lead.push(v) + rest) == (offset(src.subrange(0, axis), lead) * src[axis] + v)
            * numel(src.subrange(axis + 1, src.len() as int)) + offset(
            src.subrange(axis + 1, src.len() as int),
            rest,
        ),
{
    let pre = src.subrange(0, axis);
    let upto = src.subrange(0, axis + 1);
    let post = src.subrange(axis + 1, src.len() as int);
    assert(src =~= upto + post);
    lemma_offset_concat(upto, lead.push(v), post, rest);
    assert(upto.drop_last() =~= pre);
    assert(lead.push(v).drop_last() =~= lead);
}

/// What both laws below rest on: where the index value at position `at`
/// sends the row of coordinates `rest`, through a plan with `per` index
/// values for each block.
proof fn lemma_reads(
    src: Seq<usize>,
    axis: int,
    idx_shape: Seq<usize>,
    per: nat,
    idx: Seq<usize>,
    at: Seq<int>,
    rest: Seq<int>,
)
    requires
        0 <= axis < src.len(),
        span(src) <= usize::MAX,
        span(idx_shape) <= usize::MAX,
        axis <= idx_shape.len(),
        per <= usize::MAX,
        per > 0,
        in_bounds(idx_shape, at),
        in_bounds(src.subrange(axis + 1, src.len() as int), rest),
        offset(idx_shape, at) / (per as int) == offset(
            src.subrange(0, axis),
            at.subrange(0, axis),
        ),
    ensures
        source_of(
            plan_of(src, axis, per),
            idx,
            offset(indexed_shape(src, axis, idx_shape), at + rest),
        ) == offset(
            src,
            at.subrange(0, axis).push(idx[offset(idx_shape, at)] as int) + rest,
        ),
{
    let post = src.subrange(axis + 1, src.len() as int);
    let i = offset(idx_shape, at);
    let t = offset(post, rest);
    let v = idx[i] as int;
    lemma_span_subrange(src, axis + 1, src.len() as int);
    lemma_offset_bounds(post, rest);
    lemma_offset_concat(idx_shape, at, post, rest);
    let q = offset(indexed_shape(src, axis, idx_shape), at + rest);
    lemma_fundamental_div_mod_converse(q, numel(post) as int, i, t);
    lemma_offset_around_axis(src, axis, at.subrange(0, axis), v, rest);
}

/// Select, position by position. The element of the output at the position
/// `at` of the index tensor and the coordinates `rest` of the axes after the
/// selected one is the element of the source at the same coordinates, in the
/// row of the selected axis that the index value at `at` names.
pub proof fn lemma_select_reads(
    src: Seq<usize>,
    axis: int,
    idx_shape: Seq<usize>,
    idx: Seq<usize>,
    at: Seq<int>,
    rest: Seq<int>,
)
    requires
        select_fits(src, axis, idx_shape),
        span(src) <= usize::MAX,
        span(idx_shape) <= usize::MAX,
        idx.len() == numel(idx_shape),
        in_bounds(idx_shape, at),
        in_bounds(src.subrange(axis + 1, src.len() as int), rest),
    ensures
        source_of(
            plan_of(src, axis, select_per(axis, idx_shape)),
            idx,
            offset(indexed_shape(src, axis, idx_shape), at + rest),
        ) == offset(
            src,
            (if axis == 0 {
                Seq::<int>::empty()
            } else {
                at
            }).push(idx[offset(idx_shape, at)] as int) + rest,
        ),
{
    let per = select_per(axis, idx_shape);
    lemma_offset_bounds(idx_shape, at);
    lemma_span_subrange(idx_shape, 0, idx_shape.len() as int);
    assert(idx_shape.subrange(0, idx_shape.len() as int) =~= idx_shape);
    if axis == 0 {
        assert(at.subrange(0, 0) =~= Seq::<int>::empty());
        vstd::arithmetic::div_mod::lemma_basic_div(offset(idx_shape, at), per as int);
    } else {
        assert(at.subrange(0, axis) =~= at);
    }
    lemma_reads(src, axis, idx_shape, per, idx, at, rest);
}

/// Gather, position by position. The element of the output at the position
/// `at` of the index tensor and the coordinates `rest` of the axes after the
/// gathered one is the element of the source at the same coordinates, in the
/// row of the gathered axis that the index value at `at` names. The last
/// coordinate of `at` counts along the resized axis and is no coordinate of
/// the source.
pub proof fn lemma_gather_reads(
    src: Seq<usize>,
    axis: int,
    idx_shape: Seq<usize>,
    idx: Seq<usize>,
    at: Seq<int>,
    rest: Seq<int>,
)
    requires
        gather_fits(src, axis, idx_shape),
        span(src) <= usize::MAX,
        span(idx_shape) <= usize::MAX,
        idx.len() == numel(idx_shape),
        in_bounds(idx_shape, at),
        in_bounds(src.subrange(axis + 1, src.len() as int), rest),
    ensures
        source_of(
            plan_of(src, axis, gather_per(axis, idx_shape)),
            idx,
            offset(indexed_shape(src, axis, idx_shape), at + rest),
        ) == offset(
            src,
            (if axis == 0 {
                Seq::<int>::empty()
            } else {
                at.drop_last()
            }).push(idx[offset(idx_shape, at)] as int) + rest,
        ),
{
    let per = gather_per(axis, idx_shape);
    lemma_offset_bounds(idx_shape, at);
    lemma_span_subrange(idx_shape, 0, idx_shape.len() as int);
    assert(idx_shape.subrange(0, idx_shape.len() as int) =~= idx_shape);
    if axis == 0 {
        assert(at.subrange(0, 0) =~= Seq::<int>::empty());
        vstd::arithmetic::div_mod::lemma_basic_div(offset(idx_shape, at), per as int);
    } else {
        let z = at.last();
        let lead = offset(idx_shape.drop_last(), at.drop_last());
        lemma_fundamental_div_mod_converse(offset(idx_shape, at), per as int, lead, z);
    }
    lemma_reads(src, axis, idx_shape, per, idx, at, rest);
}

} // verus!
