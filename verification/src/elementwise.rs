use vstd::prelude::*;
use crate::dtype::Dtype;

verus! {

/// The element-by-element sum of two buffers of one length.
pub open spec fn added<E: Dtype>(a: Seq<E>, b: Seq<E>) -> Seq<E> {
    Seq::new(a.len(), |i: int| a[i].spec_sum(b[i]))
}

/// Adds `src` onto `dst`, element by element.
pub fn add_onto<E: Dtype>(dst: &mut Vec<E>, src: &Vec<E>)
    requires
        old(dst)@.len() == src@.len(),
    ensures
        final(dst)@ == added(old(dst)@, src@),
{
    let mut i: usize = 0;
    while i < src.len()
        invariant
            i <= src@.len(),
            dst@.len() == src@.len(),
            dst@.len() == old(dst)@.len(),
            forall|j: int| 0 <= j < i ==> dst@[j] == old(dst)@[j].spec_sum(src@[j]),
            forall|j: int| i <= j < dst@.len() ==> dst@[j] == old(dst)@[j],
        decreases src.len() - i,
    {
        let sum = dst[i].add(src[i]);
        dst.set(i, sum);
        i += 1;
    }
}

/// The element-by-element sum of two buffers of one length, as a new buffer.
pub fn sum_of<E: Dtype>(a: &Vec<E>, b: &Vec<E>) -> (r: Vec<E>)
    requires
        a@.len() == b@.len(),
    ensures
        r@ == added(a@, b@),
{
    let mut r: Vec<E> = Vec::new();
    let mut i: usize = 0;
    while i < a.len()
        invariant
            i <= a@.len(),
            a@.len() == b@.len(),
            r@.len() == i,
            forall|j: int| 0 <= j < i ==> r@[j] == a@[j].spec_sum(b@[j]),
        decreases a.len() - i,
    {
        r.push(a[i].add(b[i]));
        i += 1;
    }
    r
}

} // verus!
