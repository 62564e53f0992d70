use vstd::prelude::*;
use crate::device::{zeros, DeviceStorage};
use crate::dtype::Dtype;
use crate::error::Error;

verus! {

/// Hands out a mutable handle to entry `a` and a shared one to entry `b`.
fn pick_two<T>(items: &mut Vec<T>, a: usize, b: usize) -> (r: (&mut T, &T))
    requires
        a < old(items)@.len(),
        b < old(items)@.len(),
        a != b,
    ensures
        *r.0 == old(items)@[a as int],
        *r.1 == old(items)@[b as int],
        final(items)@ == old(items)@.update(a as int, *final(r.0)),
{
    let slice = items.as_mut_slice();
    if a < b {
        let (left, right) = slice.split_at_mut(b);
        let (_, from_a) = left.split_at_mut(a);
        let m = from_a.first_mut().unwrap();
        let s = right.first().unwrap();
        (m, s)
    } else {
        let (left, right) = slice.split_at_mut(a);
        let m = right.first_mut().unwrap();
        let s = &left[b];
        (m, s)
    }
}

/// The gradient store: for each tensor identity at most one gradient buffer,
/// made of zeros when it is first asked for.
pub struct Gradients<E> {
    ids: Vec<u64>,
    bufs: Vec<Vec<E>>,
}

/// No identity occurs twice.
spec fn distinct(ids: Seq<u64>) -> bool {
    forall|i: int, j: int| 0 <= i < j < ids.len() ==> ids[i] != ids[j]
}

/// The place of `id` among `ids`.
spec fn slot_of(ids: Seq<u64>, id: u64) -> int {
    choose|i: int| 0 <= i < ids.len() && ids[i] == id
}

/// Recording a buffer for a new identity adds one entry to the store.
proof fn lemma_store_push<E: Dtype>(before: Gradients<E>, after: Gradients<E>)
    requires
        before.wf(),
        after.ids@.len() > 0,
        after.bufs@.len() > 0,
        after.ids@.drop_last() == before.ids@,
        after.bufs@.drop_last() == before.bufs@,
        !before.ids@.contains(after.ids@.last()),
    ensures
        after.wf(),
        after@ == before@.insert(after.ids@.last(), after.bufs@.last()@),
{
    let n = before.ids@.len() as int;
    assert forall|i: int, j: int| 0 <= i < j < after.ids@.len() implies after.ids@[i]
        != after.ids@[j] by {
        assert(after.ids@[i] == before.ids@[i]);
        if j < n {
            assert(after.ids@[j] == before.ids@[j]);
        }
    }
    assert forall|id: u64| after.ids@.contains(id) <==> (before.ids@.contains(id) || id
        == after.ids@.last()) by {
        if after.ids@.contains(id) {
            let k = choose|k: int| 0 <= k < after.ids@.len() && after.ids@[k] == id;
            if k < n {
                assert(before.ids@[k] == id);
            }
        }
        if before.ids@.contains(id) {
            let k = choose|k: int| 0 <= k < before.ids@.len() && before.ids@[k] == id;
        }
    }
}

impl<E> View for Gradients<E> {
    type V = Map<u64, Seq<E>>;

    closed spec fn view(&self) -> Map<u64, Seq<E>> {
        Map::new(
            |id: u64| self.ids@.contains(id),
            |id: u64| self.bufs@[slot_of(self.ids@, id)]@,
        )
    }
}

impl<E: Dtype> Gradients<E> {
    /// Every identity has one buffer, and none occurs twice.
    pub closed spec fn wf(&self) -> bool {
        &&& self.ids@.len() == self.bufs@.len()
        &&& distinct(self.ids@)
    }

    /// A store without gradients.
    pub fn new() -> (r: Gradients<E>)
        ensures
            r.wf(),
            r@ == Map::<u64, Seq<E>>::empty(),
    {
        let r = Gradients { ids: Vec::new(), bufs: Vec::new() };
        r
    }

    /// Where `id` is held, if it is.
    fn position(&self, id: u64) -> (r: Option<usize>)
        requires
            self.wf(),
        ensures
            match r {
                Some(i) => i < self.ids@.len() && self.ids@[i as int] == id && self@.contains_key(
                    id,
                ) && self@[id] == self.bufs@[i as int]@,
                None => !self@.contains_key(id) && !self.ids@.contains(id),
            },
    {
        let mut i: usize = 0;
        while i < self.ids.len()
            invariant
                self.wf(),
                i <= self.ids@.len(),
                forall|j: int| 0 <= j < i ==> self.ids@[j] != id,
            decreases self.ids.len() - i,
        {
            if self.ids[i] == id {
                return Some(i);
            }
            i += 1;
        }
        None
    }

    /// Whether a gradient is recorded for `id`.
    pub fn contains(&self, id: u64) -> (r: bool)
        requires
            self.wf(),
        ensures
            r == self@.contains_key(id),
    {
        self.position(id).is_some()
    }

    /// The number of gradients recorded.
    pub fn len(&self) -> (r: usize)
        requires
            self.wf(),
        ensures
            r == self@.dom().len(),
            self@.dom().finite(),
    {
        proof {
            self.lemma_dom();
        }
        self.ids.len()
    }

    /// The identities with a gradient are finitely many, as many as there are
    /// buffers.
    proof fn lemma_dom(&self)
        requires
            self.wf(),
        ensures
            self@.dom().finite(),
            self@.dom().len() == self.ids@.len(),
    {
        self.ids@.unique_seq_to_set();
    }

    /// The gradient buffer of `id`, for writing. Where none is recorded yet, a
    /// buffer of `len` zeros is recorded first; the device provides it.
    pub fn get_or_alloc<D: DeviceStorage>(&mut self, dev: &D, id: u64, len: usize) -> (r: Result<
        &mut Vec<E>,
        Error,
    >)
        requires
            old(self).wf(),
        ensures
            final(self).wf(),
            r is Ok ==> r.unwrap()@ == (if old(self)@.contains_key(id) {
                old(self)@[id]
            } else {
                zeros::<E>(len as nat)
            }),
            r is Ok ==> final(self)@ == old(self)@.insert(id, final(r.unwrap())@),
            r matches Err(e) ==> e == Error::AllocationFailure && !dev.dependable() && !old(
                self,
            )@.contains_key(id) && final(self)@ == old(self)@,
    {
        let pos: usize = match self.position(id) {
            Some(i) => i,
            None => {
                let fresh = match dev.try_zeros::<E>(len) {
                    Ok(buf) => buf,
                    Err(e) => {
                        return Err(e);
                    },
                };
                let ghost before = *self;
                self.ids.push(id);
                self.bufs.push(fresh);
                proof {
                    assert(self.ids@.drop_last() =~= before.ids@);
                    assert(self.bufs@.drop_last() =~= before.bufs@);
                    lemma_store_push(before, *self);
                }
                self.ids.len() - 1
            },
        };
        Ok(&mut self.bufs[pos])
    }

    /// Records `buf` as the gradient of `id`, in place of any recorded before.
    pub fn insert(&mut self, id: u64, buf: Vec<E>)
        requires
            old(self).wf(),
        ensures
            final(self).wf(),
            final(self)@ == old(self)@.insert(id, buf@),
    {
        let ghost before = *self;
        match self.position(id) {
            Some(i) => {
                self.bufs.set(i, buf);
            },
            None => {
                self.ids.push(id);
                self.bufs.push(buf);
                proof {
                    assert(self.ids@.drop_last() =~= before.ids@);
                    assert(self.bufs@.drop_last() =~= before.bufs@);
                    lemma_store_push(before, *self);
                }
            },
        }
    }

    /// The gradient buffer of `a` for writing together with that of `b` for
    /// reading, as a backward step needs them. One identity cannot be had
    /// both ways at once: that is an `AliasingViolation`.
    pub fn mut_and_ref(&mut self, a: u64, b: u64) -> (r: Result<(&mut Vec<E>, &Vec<E>), Error>)
        requires
            old(self).wf(),
            old(self)@.contains_key(a),
            old(self)@.contains_key(b),
        ensures
            final(self).wf(),
            r is Err <==> a == b,
            r matches Err(e) ==> e == Error::AliasingViolation && final(self)@ == old(self)@,
            r is Ok ==> r.unwrap().0@ == old(self)@[a] && r.unwrap().1@ == old(self)@[b],
            r is Ok ==> final(self)@ == old(self)@.insert(a, final(r.unwrap().0)@),
    {
        if a == b {
            return Err(Error::AliasingViolation);
        }
        let pa: usize = self.position(a).unwrap();
        let pb: usize = self.position(b).unwrap();
        Ok(pick_two(&mut self.bufs, pa, pb))
    }

    /// The gradient recorded for `id`, or `None` where none was recorded:
    /// that is not the same as a gradient of zeros.
    pub fn get(&self, id: u64) -> (r: Option<&Vec<E>>)
        requires
            self.wf(),
        ensures
            match r {
                Some(buf) => self@.contains_key(id) && buf@ == self@[id],
                None => !self@.contains_key(id),
            },
    {
        match self.position(id) {
            Some(i) => Some(&self.bufs[i]),
            None => None,
        }
    }
}

} // verus!
