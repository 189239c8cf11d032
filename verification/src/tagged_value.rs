use vstd::prelude::*;

use crate::tagger::Id;

verus! {

/// A value of a primitive type `T` together with the `Id` that tracks it.
#[derive(Debug, Clone, Copy)]
pub struct TaggedValue<T: Copy>(pub T, pub Id);

/// An array together with the `Id` that tracks its length.
pub struct TaggedArray<T, const N: usize>(pub [T; N], pub Id);

/// A mutable slice together with the `Id` that tracks its length.
pub struct TaggedSlice<'a, T>(pub &'a mut [T], pub Id);

impl<T: Copy> TaggedValue<T> {
    /// Pairs `value` with `id`.
    pub fn new(value: T, id: Id) -> (tv: Self)
        ensures
            tv.0 == value,
            tv.1 == id,
    {
        Self(value, id)
    }

    /// Copies the value out.
    pub fn unbind(&self) -> (v: T)
        ensures
            v == self.0,
    {
        self.0
    }
}

impl<T, const N: usize> TaggedArray<T, N> {
    /// The element at the position held by `index`.
    pub fn index(&self, index: TaggedValue<usize>) -> (r: &T)
        requires
            index.0 < N,
        ensures
            *r == self.0[index.0 as int],
    {
        &self.0[index.0]
    }

    /// The element at the position held by `index`, for writing.
    pub fn index_mut(&mut self, index: TaggedValue<usize>) -> (r: &mut T)
        requires
            index.0 < N,
        ensures
            *r == old(self).0[index.0 as int],
            final(self).1 == old(self).1,
            final(self).0@ == old(self).0@.update(index.0 as int, *final(r)),
    {
        &mut self.0[index.0]
    }

    /// The length of the array, tracked by the array's own id.
    pub fn len(&self) -> (l: TaggedValue<usize>)
        ensures
            l.0 == N,
            l.1 == self.1,
    {
        TaggedValue::new(N, self.1)
    }
}

impl<'a, T> TaggedSlice<'a, T> {
    /// The element at the position held by `index`.
    pub fn index(&self, index: TaggedValue<usize>) -> (r: &T)
        requires
            index.0 < old(self.0)@.len(),
        ensures
            *r == old(self.0)@[index.0 as int],
    {
        &self.0[index.0]
    }

    /// The element at the position held by `index`, for writing.
    pub fn index_mut(&mut self, index: TaggedValue<usize>) -> (r: &mut T)
        requires
            index.0 < old(self).0@.len(),
        ensures
            *r == old(self).0@[index.0 as int],
            final(self).1 == old(self).1,
            final(self).0@ == old(self).0@.update(index.0 as int, *final(r)),
    {
        &mut self.0[index.0]
    }

    /// The length of the slice, tracked by the slice's own id.
    pub fn len(&self) -> (l: TaggedValue<usize>)
        ensures
            l.0 == old(self.0)@.len(),
            l.1 == self.1,
    {
        TaggedValue::new(self.0.len(), self.1)
    }
}

} // verus!
