use vstd::prelude::*;

verus! {

/// Identifier carried by every tracked value and every set of a union-find.
pub type Id = u64;

/// Generates increasing tags, one per call to `tag`.
#[derive(Debug)]
pub struct Tagger {
    next_id: Id,
}

impl Tagger {
    /// The tag that the next call to `tag` hands out.
    pub closed spec fn next(&self) -> nat {
        self.next_id as nat
    }

    /// Creates a tagger whose first tag is 0.
    pub fn new() -> (t: Self)
        ensures
            t.next() == 0,
    {
        Tagger { next_id: 0 }
    }

    /// Whether another tag can be handed out.
    pub fn can_tag(&self) -> (b: bool)
        ensures
            b == (self.next() < u64::MAX),
    {
        self.next_id < u64::MAX
    }

    /// Moves past `id`, so that no later tag is `id` or below it.
    pub(crate) fn advance_past(&mut self, id: Id)
        requires
            id < u64::MAX,
        ensures
            final(self).next() == if id >= old(self).next() {
                id + 1
            } else {
                old(self).next() as int
            },
    {
        if id >= self.next_id {
            self.next_id = id + 1;
        }
    }

    /// Hands out the next tag; each call returns one more than the last.
    pub fn tag(&mut self) -> (id: Id)
        requires
            old(self).next() < u64::MAX,
        ensures
            id == old(self).next(),
            final(self).next() == old(self).next() + 1,
    {
        let id = self.next_id;
        self.next_id += 1;
        id
    }
}

} // verus!
