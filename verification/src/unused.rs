use vstd::prelude::*;
use crate::dtype::Dtype;
use crate::gradients::Gradients;

verus! {

/// The identities of tensors that were expected to have a gradient and have
/// none: parameters that the loss does not depend on.
pub struct UnusedTensors {
    ids: Vec<u64>,
}

impl View for UnusedTensors {
    type V = Seq<u64>;

    closed spec fn view(&self) -> Seq<u64> {
        self.ids@
    }
}

impl UnusedTensors {
    /// A list without entries.
    pub fn new() -> (r: UnusedTensors)
        ensures
            r@ == Seq::<u64>::empty(),
    {
        UnusedTensors { ids: Vec::new() }
    }

    /// Notes that the tensor `id` has no gradient.
    pub fn add(&mut self, id: u64)
        ensures
            final(self)@ == old(self)@.push(id),
    {
        self.ids.push(id);
    }

    /// Whether every tensor had a gradient.
    pub fn is_empty(&self) -> (r: bool)
        ensures
            r == (self@.len() == 0),
    {
        self.ids.len() == 0
    }

    /// The number of tensors noted.
    pub fn len(&self) -> (r: usize)
        ensures
            r == self@.len(),
    {
        self.ids.len()
    }

    /// The identities noted, in the order in which they were.
    pub fn ids(&self) -> (r: &Vec<u64>)
        ensures
            r@ == self@,
    {
        &self.ids
    }
}

/// Lists, in their order, those of the `expected` identities for which the
/// store holds no gradient.
pub fn missing_gradients<E: Dtype>(grads: &Gradients<E>, expected: &Vec<u64>) -> (r: UnusedTensors)
    requires
        grads.wf(),
    ensures
        r@ == expected@.filter(|id: u64| !grads@.contains_key(id)),
{
    let ghost unused = |id: u64| !grads@.contains_key(id);
    let mut r = UnusedTensors::new();
    let mut i: usize = 0;
    while i < expected.len()
        invariant
            grads.wf(),
            i <= expected@.len(),
            unused == |id: u64| !grads@.contains_key(id),
            r@ == expected@.subrange(0, i as int).filter(unused),
        decreases expected.len() - i,
    {
        let id = expected[i];
        proof {
            reveal(Seq::filter);
            let next = expected@.subrange(0, i + 1);
            assert(next.drop_last() =~= expected@.subrange(0, i as int));
        }
        if !grads.contains(id) {
            r.add(id);
        }
        i += 1;
    }
    proof {
        assert(expected@.subrange(0, expected@.len() as int) =~= expected@);
    }
    r
}

} // verus!
