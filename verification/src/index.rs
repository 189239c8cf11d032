use vstd::prelude::*;

use std::ops::{Range, RangeFull, RangeInclusive};

use crate::tagged::Tagged;
use crate::tagger::Id;

verus! {

/// Tagged ranges that can index a slice of `T`: the id of the range, and the
/// plain range it stands for.
pub trait TaggedSliceIndex<T> {
    type Raw;

    /// The id of the range.
    spec fn tag(&self) -> Id;

    /// `raw` is the plain range this tagged range stands for.
    spec fn is_raw(&self, raw: Self::Raw) -> bool;

    fn id(&self) -> (r: Id)
        ensures
            r == self.tag(),
    ;

    fn into_raw(self) -> (r: Self::Raw)
        ensures
            self.is_raw(r),
    ;
}

impl<T, U: Copy> TaggedSliceIndex<T> for Tagged<Range<Tagged<U>>> {
    type Raw = Range<U>;

    open spec fn tag(&self) -> Id {
        self.0
    }

    open spec fn is_raw(&self, raw: Range<U>) -> bool {
        raw.start == self.1.start.1 && raw.end == self.1.end.1
    }

    fn id(&self) -> (r: Id) {
        self.0
    }

    fn into_raw(self) -> (r: Range<U>) {
        self.1.start.1..self.1.end.1
    }
}

impl<T, U: Copy> TaggedSliceIndex<T> for Tagged<RangeInclusive<Tagged<U>>> {
    type Raw = RangeInclusive<U>;

    open spec fn tag(&self) -> Id {
        self.0
    }

    open spec fn is_raw(&self, raw: RangeInclusive<U>) -> bool {
        raw@.start == self.1@.start.1 && raw@.end == self.1@.end.1 && !raw@.exhausted
    }

    fn id(&self) -> (r: Id) {
        self.0
    }

    fn into_raw(self) -> (r: RangeInclusive<U>) {
        self.1.start().1..=self.1.end().1
    }
}

impl<T> TaggedSliceIndex<T> for Tagged<RangeFull> {
    type Raw = RangeFull;

    open spec fn tag(&self) -> Id {
        self.0
    }

    open spec fn is_raw(&self, raw: RangeFull) -> bool {
        true
    }

    fn id(&self) -> (r: Id) {
        self.0
    }

    fn into_raw(self) -> (r: RangeFull) {
        self.1
    }
}

/// Tagged collections that can be sliced: the id of the collection, and
/// sub-slices of its elements.
pub trait TaggedSliceable<'a, T> {
    /// The id of the collection.
    spec fn tag(&self) -> Id;

    /// The elements of the collection.
    spec fn elements(&self) -> Seq<T>;

    fn id(&self) -> (r: Id)
        ensures
            r == self.tag(),
    ;

    /// The elements from `range.start` up to, not including, `range.end`.
    fn raw_subslice<'b>(&'b self, range: Range<usize>) -> (r: &'b [T])
        requires
            range.start <= range.end <= self.elements().len(),
        ensures
            r@ == self.elements().subrange(range.start as int, range.end as int),
    ;
}

impl<'a, T, const N: usize> TaggedSliceable<'a, T> for Tagged<[T; N]> {
    open spec fn tag(&self) -> Id {
        self.0
    }

    open spec fn elements(&self) -> Seq<T> {
        self.1@
    }

    fn id(&self) -> (r: Id) {
        self.0
    }

    fn raw_subslice<'b>(&'b self, range: Range<usize>) -> (r: &'b [T]) {
        &self.1.as_slice()[range]
    }
}

impl<'a, 's, T> TaggedSliceable<'a, T> for Tagged<&'s [T]> {
    open spec fn tag(&self) -> Id {
        self.0
    }

    open spec fn elements(&self) -> Seq<T> {
        self.1@
    }

    fn id(&self) -> (r: Id) {
        self.0
    }

    fn raw_subslice<'b>(&'b self, range: Range<usize>) -> (r: &'b [T]) {
        &self.1[range]
    }
}

impl<'a, 's, T> TaggedSliceable<'a, T> for Tagged<&'s mut [T]> {
    open spec fn tag(&self) -> Id {
        self.0
    }

    open spec fn elements(&self) -> Seq<T> {
        self.1@
    }

    fn id(&self) -> (r: Id) {
        self.0
    }

    fn raw_subslice<'b>(&'b self, range: Range<usize>) -> (r: &'b [T]) {
        &self.1[range]
    }
}

} // verus!
