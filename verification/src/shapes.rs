use vstd::prelude::*;

verus! {

/// The number of elements of a tensor with the given axis extents: their
/// product, which is one for a tensor without axes.
pub open spec fn numel(dims: Seq<usize>) -> nat
    decreases dims.len(),
{
    if dims.len() == 0 {
        1
    } else {
        numel(dims.drop_last()) * (dims.last() as nat)
    }
}

/// The product of the extents with every empty axis counted as one. It bounds
/// the element count of every group of neighbouring axes, empty or not.
pub open spec fn span(dims: Seq<usize>) -> nat
    decreases dims.len(),
{
    if dims.len() == 0 {
        1
    } else if dims.last() == 0 {
        span(dims.drop_last())
    } else {
        span(dims.drop_last()) * (dims.last() as nat)
    }
}

/// The element count of two groups of axes laid side by side is the product
/// of their element counts.
pub proof fn lemma_numel_concat(a: Seq<usize>, b: Seq<usize>)
    ensures
        numel(a + b) == numel(a) * numel(b),
    decreases b.len(),
{
    if b.len() == 0 {
        assert(numel(a) * 1 == numel(a)) by (nonlinear_arith);
    } else {
        assert((a + b).drop_last() =~= a + b.drop_last());
        lemma_numel_concat(a, b.drop_last());
        let x = numel(a);
        let y = numel(b.drop_last());
        let z = b.last() as nat;
        assert((x * y) * z == x * (y * z)) by (nonlinear_arith);
    }
}

/// The span of two groups of axes laid side by side is the product of their
/// spans.
pub proof fn lemma_span_concat(a: Seq<usize>, b: Seq<usize>)
    ensures
        span(a + b) == span(a) * span(b),
    decreases b.len(),
{
    if b.len() == 0 {
        assert(span(a) * 1 == span(a)) by (nonlinear_arith);
    } else {
        assert((a + b).drop_last() =~= a + b.drop_last());
        lemma_span_concat(a, b.drop_last());
        let x = span(a);
        let y = span(b.drop_last());
        let z = b.last() as nat;
        assert((x * y) * z == x * (y * z)) by (nonlinear_arith);
    }
}

/// A span is at least one and at least the element count.
pub proof fn lemma_span_bounds(dims: Seq<usize>)
    ensures
        1 <= span(dims),
        numel(dims) <= span(dims),
    decreases dims.len(),
{
    if dims.len() > 0 {
        lemma_span_bounds(dims.drop_last());
        let n = numel(dims.drop_last());
        let s = span(dims.drop_last());
        let d = dims.last() as nat;
        assert(n * d <= s * d) by (nonlinear_arith)
            requires
                n <= s,
        ;
        assert(d >= 1 ==> s * d >= 1) by (nonlinear_arith)
            requires
                s >= 1,
        ;
    }
}

/// Every group of neighbouring axes has a span, and so an element count, of
/// at most the span of the whole.
pub proof fn lemma_span_subrange(dims: Seq<usize>, lo: int, hi: int)
    requires
        0 <= lo <= hi <= dims.len(),
    ensures
        numel(dims.subrange(lo, hi)) <= span(dims.subrange(lo, hi)) <= span(dims),
{
    let pre = dims.subrange(0, lo);
    let mid = dims.subrange(lo, hi);
    let post = dims.subrange(hi, dims.len() as int);
    assert(dims =~= (pre + mid) + post);
    lemma_span_concat(pre + mid, post);
    lemma_span_concat(pre, mid);
    lemma_span_bounds(pre);
    lemma_span_bounds(mid);
    lemma_span_bounds(post);
    let a = span(pre);
    let b = span(mid);
    let c = span(post);
    assert(b <= (a * b) * c) by (nonlinear_arith)
        requires
            a >= 1,
            c >= 1,
            b >= 1,
    ;
}

/// A single axis has as many elements as its extent, and spans as many, or
/// one where it is empty.
pub proof fn lemma_single_axis(d: usize)
    ensures
        numel(seq![d]) == d,
        span(seq![d]) == if d == 0 {
            1nat
        } else {
            d as nat
        },
{
    assert(seq![d].drop_last() =~= Seq::<usize>::empty());
    assert(numel(seq![d]) == numel(Seq::<usize>::empty()) * (d as nat));
    assert(span(Seq::<usize>::empty()) == 1);
    assert(1 * (d as nat) == d as nat) by (nonlinear_arith);
}

/// The axis extents of a tensor, outermost axis first. Elements are laid out
/// row-major, so the last axis varies fastest.
pub struct Shape {
    dims: Vec<usize>,
}

impl View for Shape {
    type V = Seq<usize>;

    closed spec fn view(&self) -> Seq<usize> {
        self.dims@
    }
}

impl Shape {
    /// A shape is well formed when its span fits a machine word, so that the
    /// element count of any group of its axes can be computed.
    pub open spec fn wf(&self) -> bool {
        span(self@) <= usize::MAX
    }

    /// Makes a shape of the given extents, unless its span exceeds the
    /// machine word.
    pub fn new(dims: Vec<usize>) -> (r: Option<Shape>)
        ensures
            r is Some <==> span(dims@) <= usize::MAX,
            r matches Some(s) ==> s@ == dims@ && s.wf(),
    {
        let mut acc: usize = 1;
        let mut i: usize = 0;
        while i < dims.len()
            invariant
                i <= dims.len(),
                acc == span(dims@.subrange(0, i as int)),
            decreases dims.len() - i,
        {
            let d: usize = dims[i];
            proof {
                assert(dims@.subrange(0, i + 1).drop_last() =~= dims@.subrange(0, i as int));
                lemma_span_subrange(dims@, 0, i + 1);
            }
            if d != 0 {
                match acc.checked_mul(d) {
                    Some(next) => {
                        acc = next;
                    },
                    None => {
                        return None;
                    },
                }
            }
            i += 1;
        }
        proof {
            assert(dims@.subrange(0, dims.len() as int) =~= dims@);
        }
        Some(Shape { dims })
    }

    /// The number of axes.
    pub fn rank(&self) -> (r: usize)
        ensures
            r == self@.len(),
    {
        self.dims.len()
    }

    /// The extent of one axis.
    pub fn dim(&self, axis: usize) -> (r: usize)
        requires
            axis < self@.len(),
        ensures
            r == self@[axis as int],
    {
        self.dims[axis]
    }

    /// The extents, outermost axis first.
    pub fn dims(&self) -> (r: &Vec<usize>)
        ensures
            r@ == self@,
    {
        &self.dims
    }

    /// The element count of the axes from `lo` up to, not including, `hi`.
    pub fn numel_between(&self, lo: usize, hi: usize) -> (r: usize)
        requires
            self.wf(),
            lo <= hi <= self@.len(),
        ensures
            r == numel(self@.subrange(lo as int, hi as int)),
    {
        let mut acc: usize = 1;
        let mut i: usize = lo;
        while i < hi
            invariant
                self.wf(),
                lo <= i <= hi <= self.dims@.len(),
                acc == numel(self.dims@.subrange(lo as int, i as int)),
            decreases hi - i,
        {
            proof {
                let next = self.dims@.subrange(lo as int, i + 1);
                assert(next.drop_last() =~= self.dims@.subrange(lo as int, i as int));
                lemma_span_subrange(self.dims@, lo as int, i + 1);
            }
            acc = acc * self.dims[i];
            i += 1;
        }
        acc
    }

    /// The number of elements of a tensor of this shape.
    pub fn numel(&self) -> (r: usize)
        requires
            self.wf(),
        ensures
            r == numel(self@),
    {
        proof {
            assert(self@.subrange(0, self@.len() as int) =~= self@);
        }
        self.numel_between(0, self.dims.len())
    }

    /// Whether two shapes have the same extents.
    pub fn same_as(&self, other: &Shape) -> (r: bool)
        ensures
            r <==> self@ == other@,
    {
        if self.dims.len() != other.dims.len() {
            return false;
        }
        let mut i: usize = 0;
        while i < self.dims.len()
            invariant
                i <= self.dims@.len(),
                self.dims@.len() == other.dims@.len(),
                forall|j: int| 0 <= j < i ==> self.dims@[j] == other.dims@[j],
            decreases self.dims.len() - i,
        {
            if self.dims[i] != other.dims[i] {
                return false;
            }
            i += 1;
        }
        proof {
            assert(self@ =~= other@);
        }
        true
    }

    /// A copy of this shape.
    pub fn duplicate(&self) -> (r: Shape)
        ensures
            r@ == self@,
    {
        let mut dims: Vec<usize> = Vec::new();
        let mut i: usize = 0;
        while i < self.dims.len()
            invariant
                i <= self.dims@.len(),
                dims@ == self.dims@.subrange(0, i as int),
            decreases self.dims.len() - i,
        {
            dims.push(self.dims[i]);
            i += 1;
        }
        Shape { dims }
    }
}

} // verus!
