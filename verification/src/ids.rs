use vstd::prelude::*;

verus! {

/// The source of tensor identities: a counter. Two identities that it hands
/// out differ, unless it has gone once round the machine word in between.
pub struct UniqueIds {
    next: u64,
}

impl UniqueIds {
    /// The identity that will be handed out next.
    pub closed spec fn upcoming(&self) -> u64 {
        self.next
    }

    /// A source that begins at zero.
    pub fn new() -> (r: UniqueIds)
        ensures
            r.upcoming() == 0,
    {
        UniqueIds { next: 0 }
    }

    /// Hands out an identity and moves on to the one after it.
    pub fn fresh(&mut self) -> (id: u64)
        ensures
            id == old(self).upcoming(),
            final(self).upcoming() == following(id),
    {
        let id = self.next;
        self.next = if id == u64::MAX {
            0
        } else {
            id + 1
        };
        id
    }
}

/// The identity handed out after `id`.
pub open spec fn following(id: u64) -> u64 {
    if id == u64::MAX {
        0
    } else {
        (id + 1) as u64
    }
}

} // verus!
