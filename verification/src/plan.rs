use vstd::prelude::*;
use crate::error::Error;
use crate::shapes::{lemma_numel_concat, lemma_span_subrange, numel, span, Shape};

verus! {

/// How an indexed copy walks its buffers, once shapes have been checked.
///
/// The source is read as `lead` blocks of `extent` rows of `tail` elements.
/// The index tensor holds `lead * per` values; the value at place `i` picks a
/// row of block `i / per`, and that row becomes row `i` of the output.
#[derive(Clone, Copy, Debug, PartialEq, Eq, Structural)]
pub struct IndexPlan {
    /// The element count of the axes before the indexed one.
    pub lead: usize,
    /// The extent of the indexed axis.
    pub extent: usize,
    /// The element count of the axes after the indexed one.
    pub tail: usize,
    /// The number of index values that address one block.
    pub per: usize,
}

impl IndexPlan {
    /// The length of the source buffer.
    pub open spec fn src_len(&self) -> nat {
        (self.lead as nat) * (self.extent as nat) * (self.tail as nat)
    }

    /// The length of the index buffer.
    pub open spec fn idx_len(&self) -> nat {
        (self.lead as nat) * (self.per as nat)
    }

    /// The length of the output buffer.
    pub open spec fn out_len(&self) -> nat {
        (self.lead as nat) * (self.per as nat) * (self.tail as nat)
    }

    /// All three buffer lengths fit a machine word.
    pub open spec fn wf(&self) -> bool {
        &&& self.src_len() <= usize::MAX
        &&& self.idx_len() <= usize::MAX
        &&& self.out_len() <= usize::MAX
    }

    /// The length of the source buffer.
    pub fn source_len(&self) -> (r: usize)
        requires
            self.wf(),
        ensures
            r == self.src_len(),
    {
        if self.tail == 0 {
            0
        } else {
            proof {
                let a = self.lead as nat;
                let b = self.extent as nat;
                let c = self.tail as nat;
                assert(a * b <= a * b * c) by (nonlinear_arith)
                    requires
                        c >= 1,
                ;
            }
            self.lead * self.extent * self.tail
        }
    }

    /// The length of the index buffer.
    pub fn index_len(&self) -> (r: usize)
        requires
            self.wf(),
        ensures
            r == self.idx_len(),
    {
        self.lead * self.per
    }

    /// The length of the output buffer.
    pub fn output_len(&self) -> (r: usize)
        requires
            self.wf(),
        ensures
            r == self.out_len(),
    {
        self.lead * self.per * self.tail
    }
}

/// Whether an index tensor of shape `idx` can select along `axis` of a source
/// of shape `src`: the index has one value for every position of the axes
/// before `axis`. Along the first axis an index of any shape selects, each of
/// its values picking one whole slice.
pub open spec fn select_fits(src: Seq<usize>, axis: int, idx: Seq<usize>) -> bool {
    &&& 0 <= axis < src.len()
    &&& (axis == 0 || idx == src.subrange(0, axis))
}

/// Whether an index tensor of shape `idx` can gather along `axis` of a source
/// of shape `src`: the index has the source's axes before `axis` and one more,
/// whose extent becomes that of `axis` in the output. Along the first axis an
/// index of any shape with at least one axis gathers.
pub open spec fn gather_fits(src: Seq<usize>, axis: int, idx: Seq<usize>) -> bool {
    &&& 0 <= axis < src.len()
    &&& idx.len() >= 1
    &&& (axis == 0 || idx.drop_last() == src.subrange(0, axis))
}

/// The shape of the output of a select or a gather: the index shape, followed
/// by the source's axes after the indexed one.
pub open spec fn indexed_shape(src: Seq<usize>, axis: int, idx: Seq<usize>) -> Seq<usize> {
    idx + src.subrange(axis + 1, src.len() as int)
}

/// The number of index values per block of a select along `axis`.
pub open spec fn select_per(axis: int, idx: Seq<usize>) -> nat {
    if axis == 0 {
        numel(idx)
    } else {
        1
    }
}

/// The number of index values per block of a gather along `axis`.
pub open spec fn gather_per(axis: int, idx: Seq<usize>) -> nat {
    if axis == 0 {
        numel(idx)
    } else {
        idx.last() as nat
    }
}

/// The plan that reads a source of shape `src` along `axis`, with `per` index
/// values for each block: `lead` is the element count of the axes before
/// `axis`, `tail` that of the axes after it.
pub open spec fn plan_of(src: Seq<usize>, axis: int, per: nat) -> IndexPlan {
    IndexPlan {
        lead: numel(src.subrange(0, axis)) as usize,
        extent: src[axis],
        tail: numel(src.subrange(axis + 1, src.len() as int)) as usize,
        per: per as usize,
    }
}

impl IndexPlan {
    /// The plan reads a source of shape `src` along `axis`, with `per` index
    /// values for each block, and none of its counts was cut to fit.
    pub open spec fn describes(&self, src: Seq<usize>, axis: int, per: nat) -> bool {
        &&& self.lead == numel(src.subrange(0, axis))
        &&& self.extent == src[axis]
        &&& self.tail == numel(src.subrange(axis + 1, src.len() as int))
        &&& self.per == per
        &&& *self == plan_of(src, axis, per)
    }
}

/// A source's element count is that of the axes before the indexed one, times
/// the indexed axis's extent, times that of the axes after it.
pub proof fn lemma_numel_split(src: Seq<usize>, axis: int)
    requires
        0 <= axis < src.len(),
    ensures
        numel(src) == numel(src.subrange(0, axis)) * (src[axis] as nat) * numel(
            src.subrange(axis + 1, src.len() as int),
        ),
{
    let pre = src.subrange(0, axis);
    let mid = src.subrange(axis, axis + 1);
    let post = src.subrange(axis + 1, src.len() as int);
    assert(src =~= (pre + mid) + post);
    lemma_numel_concat(pre + mid, post);
    lemma_numel_concat(pre, mid);
    assert(numel(mid.drop_last()) == 1);
}

/// Builds the plan and the output shape of an indexed copy whose index shape
/// has been found to fit.
fn assemble(src: &Shape, axis: usize, idx: &Shape, per: usize) -> (r: Result<
    (IndexPlan, Shape),
    Error,
>)
    requires
        src.wf(),
        idx.wf(),
        axis < src@.len(),
        numel(idx@) == numel(src@.subrange(0, axis as int)) * (per as nat),
    ensures
        match r {
            Ok((plan, dst)) => {
                &&& dst@ == indexed_shape(src@, axis as int, idx@)
                &&& dst.wf()
                &&& plan.describes(src@, axis as int, per as nat)
                &&& plan.wf()
                &&& plan.src_len() == numel(src@)
                &&& plan.idx_len() == numel(idx@)
                &&& plan.out_len() == numel(dst@)
            },
            Err(e) => e == Error::AllocationFailure && span(
                indexed_shape(src@, axis as int, idx@),
            ) > usize::MAX,
        },
{
    let rank = src.rank();
    let lead = src.numel_between(0, axis);
    let extent = src.dim(axis);
    let tail = src.numel_between(axis + 1, rank);
    let mut dims: Vec<usize> = Vec::new();
    let mut i: usize = 0;
    while i < idx.rank()
        invariant
            i <= idx@.len(),
            dims@ == idx@.subrange(0, i as int),
        decreases idx@.len() - i,
    {
        dims.push(idx.dim(i));
        i += 1;
    }
    proof {
        assert(idx@.subrange(0, idx@.len() as int) =~= idx@);
    }
    let mut j: usize = axis + 1;
    while j < rank
        invariant
            axis < j <= rank,
            rank == src@.len(),
            dims@ == idx@ + src@.subrange(axis + 1, j as int),
        decreases rank - j,
    {
        dims.push(src.dim(j));
        j += 1;
    }
    match Shape::new(dims) {
        None => Err(Error::AllocationFailure),
        Some(dst) => {
            let plan = IndexPlan { lead, extent, tail, per };
            proof {
                lemma_numel_split(src@, axis as int);
                lemma_numel_concat(idx@, src@.subrange(axis + 1, rank as int));
                lemma_span_subrange(src@, 0, src@.len() as int);
                lemma_span_subrange(idx@, 0, idx@.len() as int);
                lemma_span_subrange(dst@, 0, dst@.len() as int);
                assert(src@.subrange(0, src@.len() as int) =~= src@);
                assert(dst@.subrange(0, dst@.len() as int) =~= dst@);
            }
            Ok((plan, dst))
        },
    }
}

/// Checks that an index of shape `idx` can select along `axis` of a source of
/// shape `src`, and derives the plan and the output's shape.
///
/// The index shape is checked before anything else: a shape that does not fit
/// is a `ShapeMismatch`. An output whose span exceeds the machine word has no
/// buffer: that is an `AllocationFailure`.
pub fn plan_select(src: &Shape, axis: usize, idx: &Shape) -> (r: Result<(IndexPlan, Shape), Error>)
    requires
        src.wf(),
        idx.wf(),
    ensures
        match r {
            Ok((plan, dst)) => {
                &&& select_fits(src@, axis as int, idx@)
                &&& dst@ == indexed_shape(src@, axis as int, idx@)
                &&& dst.wf()
                &&& plan.describes(src@, axis as int, select_per(axis as int, idx@))
                &&& plan.wf()
                &&& plan.src_len() == numel(src@)
                &&& plan.idx_len() == numel(idx@)
                &&& plan.out_len() == numel(dst@)
            },
            Err(e) => {
                ||| e == Error::ShapeMismatch && !select_fits(src@, axis as int, idx@)
                ||| e == Error::AllocationFailure && select_fits(src@, axis as int, idx@) && span(
                    indexed_shape(src@, axis as int, idx@),
                ) > usize::MAX
            },
        },
{
    if axis >= src.rank() {
        return Err(Error::ShapeMismatch);
    }
    if axis == 0 {
        let per = idx.numel();
        proof {
            assert(1 * (per as nat) == per as nat) by (nonlinear_arith);
        }
        return assemble(src, axis, idx, per);
    }
    proof {
        assert(idx@.subrange(0, idx@.len() as int) =~= idx@);
    }
    if !is_prefix(idx.dims(), idx.rank(), src.dims(), axis) {
        return Err(Error::ShapeMismatch);
    }
    assemble(src, axis, idx, 1)
}

/// Checks that an index of shape `idx` can gather along `axis` of a source of
/// shape `src`, and derives the plan and the output's shape.
///
/// The index shape is checked before anything else: a shape that does not fit
/// is a `ShapeMismatch`. An output whose span exceeds the machine word has no
/// buffer: that is an `AllocationFailure`.
pub fn plan_gather(src: &Shape, axis: usize, idx: &Shape) -> (r: Result<(IndexPlan, Shape), Error>)
    requires
        src.wf(),
        idx.wf(),
    ensures
        match r {
            Ok((plan, dst)) => {
                &&& gather_fits(src@, axis as int, idx@)
                &&& dst@ == indexed_shape(src@, axis as int, idx@)
                &&& dst.wf()
                &&& plan.describes(src@, axis as int, gather_per(axis as int, idx@))
                &&& plan.wf()
                &&& plan.src_len() == numel(src@)
                &&& plan.idx_len() == numel(idx@)
                &&& plan.out_len() == numel(dst@)
            },
            Err(e) => {
                ||| e == Error::ShapeMismatch && !gather_fits(src@, axis as int, idx@)
                ||| e == Error::AllocationFailure && gather_fits(src@, axis as int, idx@) && span(
                    indexed_shape(src@, axis as int, idx@),
                ) > usize::MAX
            },
        },
{
    if axis >= src.rank() || idx.rank() == 0 {
        return Err(Error::ShapeMismatch);
    }
    if axis == 0 {
        let per = idx.numel();
        return assemble(src, axis, idx, per);
    }
    let inner = idx.rank() - 1;
    if !is_prefix(idx.dims(), inner, src.dims(), axis) {
        return Err(Error::ShapeMismatch);
    }
    assemble(src, axis, idx, idx.dim(inner))
}

/// Whether the first `n` entries of `a` are exactly the first `m` entries of
/// `b`.
fn is_prefix(a: &Vec<usize>, n: usize, b: &Vec<usize>, m: usize) -> (r: bool)
    requires
        n <= a@.len(),
        m <= b@.len(),
    ensures
        r <==> a@.subrange(0, n as int) == b@.subrange(0, m as int),
{
    if n != m {
        proof {
            assert(a@.subrange(0, n as int).len() != b@.subrange(0, m as int).len());
        }
        return false;
    }
    let mut i: usize = 0;
    while i < n
        invariant
            i <= n,
            n == m,
            n <= a@.len(),
            m <= b@.len(),
            forall|j: int| 0 <= j < i ==> a@[j] == b@[j],
        decreases n - i,
    {
        if a[i] != b[i] {
            proof {
                assert(a@.subrange(0, n as int)[i as int] != b@.subrange(0, m as int)[i as int]);
            }
            return false;
        }
        i += 1;
    }
    proof {
        assert(a@.subrange(0, n as int) =~= b@.subrange(0, m as int));
    }
    true
}

} // verus!
