use vstd::prelude::*;

use std::ops::{Range, RangeInclusive};

use crate::tagger::Id;

verus! {

/// `RangeInclusive::start`: returns a reference to the range's lower bound,
/// the `start` of its model.
pub assume_specification<Idx>[ RangeInclusive::<Idx>::start ](r: &RangeInclusive<Idx>) -> (s: &Idx)
    ensures
        *s == r@.start,
;

/// `RangeInclusive::end`: returns a reference to the range's upper bound,
/// the `end` of its model.
pub assume_specification<Idx>[ RangeInclusive::<Idx>::end ](r: &RangeInclusive<Idx>) -> (e: &Idx)
    ensures
        *e == r@.end,
;

/// The unbounded range `..`.
#[verifier::external_type_specification]
#[verifier::external_body]
pub struct ExRangeFull(std::ops::RangeFull);

/// A value of type `T` together with the `Id` that tracks it.
#[derive(Debug, Clone, Copy)]
pub struct Tagged<T>(pub Id, pub T);

impl<T> std::ops::Deref for Tagged<T> {
    type Target = T;

    /// The untagged value, so that methods of `T` can be called on a tagged one.
    fn deref(&self) -> (r: &T)
        ensures
            *r == self.1,
    {
        &self.1
    }
}

/// The primitive types whose values are tracked one by one.
pub trait Scalar {}

impl Scalar for u8 {}

impl Scalar for u16 {}

impl Scalar for u32 {}

impl Scalar for u64 {}

impl Scalar for u128 {}

impl Scalar for usize {}

impl Scalar for i8 {}

impl Scalar for i16 {}

impl Scalar for i32 {}

impl Scalar for i64 {}

impl Scalar for i128 {}

impl Scalar for isize {}

impl Scalar for bool {}

impl Scalar for char {}

/// Integer types that can bound a tagged range, read as mathematical integers.
pub trait Endpoint: Copy + Scalar {
    spec fn value(&self) -> int;

    spec fn lowest() -> int;

    spec fn highest() -> int;

    proof fn lemma_value(x: Self)
        ensures
            Self::lowest() <= x.value() <= Self::highest(),
            i64::MIN <= Self::lowest() <= 0,
            Self::highest() <= u64::MAX,
    ;

    proof fn lemma_value_injective(x: Self, y: Self)
        requires
            x.value() == y.value(),
        ensures
            x == y,
    ;

    /// The value as an `i128`.
    fn widen(self) -> (v: i128)
        ensures
            v == self.value(),
    ;

    /// The value of this type equal to `v`.
    fn narrow(v: i128) -> (x: Self)
        requires
            Self::lowest() <= v <= Self::highest(),
        ensures
            x.value() == v,
    ;

    /// The smallest value of the type, as an `i128`.
    fn lowest_widened() -> (v: i128)
        ensures
            v == Self::lowest(),
    ;

    /// The largest value of the type, as an `i128`.
    fn highest_widened() -> (v: i128)
        ensures
            v == Self::highest(),
    ;
}

impl Endpoint for u8 {
    open spec fn value(&self) -> int {
        *self as int
    }

    open spec fn lowest() -> int {
        u8::MIN as int
    }

    open spec fn highest() -> int {
        u8::MAX as int
    }

    proof fn lemma_value(x: Self) {
    }

    proof fn lemma_value_injective(x: Self, y: Self) {
    }

    fn widen(self) -> (v: i128) {
        self as i128
    }

    fn narrow(v: i128) -> (x: Self) {
        v as u8
    }

    fn lowest_widened() -> (v: i128) {
        u8::MIN as i128
    }

    fn highest_widened() -> (v: i128) {
        u8::MAX as i128
    }
}

impl Endpoint for u16 {
    open spec fn value(&self) -> int {
        *self as int
    }

    open spec fn lowest() -> int {
        u16::MIN as int
    }

    open spec fn highest() -> int {
        u16::MAX as int
    }

    proof fn lemma_value(x: Self) {
    }

    proof fn lemma_value_injective(x: Self, y: Self) {
    }

    fn widen(self) -> (v: i128) {
        self as i128
    }

    fn narrow(v: i128) -> (x: Self) {
        v as u16
    }

    fn lowest_widened() -> (v: i128) {
        u16::MIN as i128
    }

    fn highest_widened() -> (v: i128) {
        u16::MAX as i128
    }
}

impl Endpoint for u32 {
    open spec fn value(&self) -> int {
        *self as int
    }

    open spec fn lowest() -> int {
        u32::MIN as int
    }

    open spec fn highest() -> int {
        u32::MAX as int
    }

    proof fn lemma_value(x: Self) {
    }

    proof fn lemma_value_injective(x: Self, y: Self) {
    }

    fn widen(self) -> (v: i128) {
        self as i128
    }

    fn narrow(v: i128) -> (x: Self) {
        v as u32
    }

    fn lowest_widened() -> (v: i128) {
        u32::MIN as i128
    }

    fn highest_widened() -> (v: i128) {
        u32::MAX as i128
    }
}

impl Endpoint for u64 {
    open spec fn value(&self) -> int {
        *self as int
    }

    open spec fn lowest() -> int {
        u64::MIN as int
    }

    open spec fn highest() -> int {
        u64::MAX as int
    }

    proof fn lemma_value(x: Self) {
    }

    proof fn lemma_value_injective(x: Self, y: Self) {
    }

    fn widen(self) -> (v: i128) {
        self as i128
    }

    fn narrow(v: i128) -> (x: Self) {
        v as u64
    }

    fn lowest_widened() -> (v: i128) {
        u64::MIN as i128
    }

    fn highest_widened() -> (v: i128) {
        u64::MAX as i128
    }
}

impl Endpoint for usize {
    open spec fn value(&self) -> int {
        *self as int
    }

    open spec fn lowest() -> int {
        usize::MIN as int
    }

    open spec fn highest() -> int {
        usize::MAX as int
    }

    proof fn lemma_value(x: Self) {
    }

    proof fn lemma_value_injective(x: Self, y: Self) {
    }

    fn widen(self) -> (v: i128) {
        self as i128
    }

    fn narrow(v: i128) -> (x: Self) {
        v as usize
    }

    fn lowest_widened() -> (v: i128) {
        usize::MIN as i128
    }

    fn highest_widened() -> (v: i128) {
        usize::MAX as i128
    }
}

impl Endpoint for i8 {
    open spec fn value(&self) -> int {
        *self as int
    }

    open spec fn lowest() -> int {
        i8::MIN as int
    }

    open spec fn highest() -> int {
        i8::MAX as int
    }

    proof fn lemma_value(x: Self) {
    }

    proof fn lemma_value_injective(x: Self, y: Self) {
    }

    fn widen(self) -> (v: i128) {
        self as i128
    }

    fn narrow(v: i128) -> (x: Self) {
        v as i8
    }

    fn lowest_widened() -> (v: i128) {
        i8::MIN as i128
    }

    fn highest_widened() -> (v: i128) {
        i8::MAX as i128
    }
}

impl Endpoint for i16 {
    open spec fn value(&self) -> int {
        *self as int
    }

    open spec fn lowest() -> int {
        i16::MIN as int
    }

    open spec fn highest() -> int {
        i16::MAX as int
    }

    proof fn lemma_value(x: Self) {
    }

    proof fn lemma_value_injective(x: Self, y: Self) {
    }

    fn widen(self) -> (v: i128) {
        self as i128
    }

    fn narrow(v: i128) -> (x: Self) {
        v as i16
    }

    fn lowest_widened() -> (v: i128) {
        i16::MIN as i128
    }

    fn highest_widened() -> (v: i128) {
        i16::MAX as i128
    }
}

impl Endpoint for i32 {
    open spec fn value(&self) -> int {
        *self as int
    }

    open spec fn lowest() -> int {
        i32::MIN as int
    }

    open spec fn highest() -> int {
        i32::MAX as int
    }

    proof fn lemma_value(x: Self) {
    }

    proof fn lemma_value_injective(x: Self, y: Self) {
    }

    fn widen(self) -> (v: i128) {
        self as i128
    }

    fn narrow(v: i128) -> (x: Self) {
        v as i32
    }

    fn lowest_widened() -> (v: i128) {
        i32::MIN as i128
    }

    fn highest_widened() -> (v: i128) {
        i32::MAX as i128
    }
}

impl Endpoint for i64 {
    open spec fn value(&self) -> int {
        *self as int
    }

    open spec fn lowest() -> int {
        i64::MIN as int
    }

    open spec fn highest() -> int {
        i64::MAX as int
    }

    proof fn lemma_value(x: Self) {
    }

    proof fn lemma_value_injective(x: Self, y: Self) {
    }

    fn widen(self) -> (v: i128) {
        self as i128
    }

    fn narrow(v: i128) -> (x: Self) {
        v as i64
    }

    fn lowest_widened() -> (v: i128) {
        i64::MIN as i128
    }

    fn highest_widened() -> (v: i128) {
        i64::MAX as i128
    }
}

impl Endpoint for isize {
    open spec fn value(&self) -> int {
        *self as int
    }

    open spec fn lowest() -> int {
        isize::MIN as int
    }

    open spec fn highest() -> int {
        isize::MAX as int
    }

    proof fn lemma_value(x: Self) {
    }

    proof fn lemma_value_injective(x: Self, y: Self) {
    }

    fn widen(self) -> (v: i128) {
        self as i128
    }

    fn narrow(v: i128) -> (x: Self) {
        v as isize
    }

    fn lowest_widened() -> (v: i128) {
        isize::MIN as i128
    }

    fn highest_widened() -> (v: i128) {
        isize::MAX as i128
    }
}

/// The length of a range whose ends differ by `diff`: `diff` as a `usize`,
/// or 0 when it is negative or too large.
pub open spec fn range_length(diff: int) -> usize {
    if 0 <= diff <= usize::MAX {
        diff as usize
    } else {
        0
    }
}

/// The length of an inclusive range whose ends differ by `diff`: one more
/// than `diff`, saturating, or 0 when `diff` is negative or too large.
pub open spec fn inclusive_range_length(diff: int) -> usize {
    if 0 <= diff < usize::MAX {
        (diff + 1) as usize
    } else if diff == usize::MAX {
        usize::MAX
    } else {
        0
    }
}

/// The bounds on the number of steps from `a` to `b`: exact when it fits a
/// `usize`, `(usize::MAX, None)` when it does not, `(0, None)` when `a > b`.
pub open spec fn steps_between(a: int, b: int) -> (usize, Option<usize>) {
    if a <= b {
        if b - a <= usize::MAX {
            ((b - a) as usize, Some((b - a) as usize))
        } else {
            (usize::MAX, None)
        }
    } else {
        (0, None)
    }
}

/// Bounds on the number of values from `a` to `b` inclusive: one more than
/// `steps_between` gives (saturating below, dropped above), `(0, Some(0))`
/// when `a > b`.
pub open spec fn inclusive_steps(a: int, b: int) -> (usize, Option<usize>) {
    if a > b {
        (0, Some(0))
    } else {
        let s = steps_between(a, b);
        (
            if s.0 < usize::MAX {
                (s.0 + 1) as usize
            } else {
                usize::MAX
            },
            match s.1 {
                Some(v) => if v < usize::MAX {
                    Some((v + 1) as usize)
                } else {
                    None
                },
                None => None,
            },
        )
    }
}

/// The number of steps from `a` to `b`, as `steps_between` describes them.
fn steps(a: i128, b: i128) -> (s: (usize, Option<usize>))
    requires
        i64::MIN <= a <= u64::MAX,
        i64::MIN <= b <= u64::MAX,
    ensures
        s == steps_between(a as int, b as int),
{
    if a <= b {
        let d = b - a;
        if d <= usize::MAX as i128 {
            (d as usize, Some(d as usize))
        } else {
            (usize::MAX, None)
        }
    } else {
        (0, None)
    }
}

impl<T, const N: usize> Tagged<[T; N]> {
    /// The length of the array, tracked by the array's own id.
    pub fn len(&self) -> (l: Tagged<usize>)
        ensures
            l.0 == self.0,
            l.1 == N,
    {
        Tagged(self.0, N)
    }
}

impl<'a, T> Tagged<&'a [T]> {
    /// The length of the slice, tracked by the slice's own id.
    pub fn len(&self) -> (l: Tagged<usize>)
        ensures
            l.0 == self.0,
            l.1 == self.1@.len(),
    {
        Tagged(self.0, self.1.len())
    }
}

impl<'a, T> Tagged<&'a mut [T]> {
    /// The length of the slice, tracked by the slice's own id.
    pub fn len(&self) -> (l: Tagged<usize>)
        ensures
            l.0 == self.0,
            l.1 == old(self.1)@.len(),
    {
        Tagged(self.0, self.1.len())
    }
}

impl<T: Endpoint> Tagged<Range<Tagged<T>>> {
    /// The number of values in the range, tracked by the range's own id:
    /// `end - start`, or 0 when that is negative or too large for a `usize`.
    pub fn len(&self) -> (l: Tagged<usize>)
        requires
            T::lowest() <= self.1.end.1.value() - self.1.start.1.value() <= T::highest(),
        ensures
            l.0 == self.0,
            l.1 == range_length(self.1.end.1.value() - self.1.start.1.value()),
    {
        proof {
            T::lemma_value(self.1.start.1);
            T::lemma_value(self.1.end.1);
        }
        let diff = self.1.end.1.widen() - self.1.start.1.widen();
        let n = if 0 <= diff && diff <= usize::MAX as i128 {
            diff as usize
        } else {
            0
        };
        Tagged(self.0, n)
    }

    /// Yields the start of the range, tagged with the range's id, and moves
    /// the start up by one; `None` once the range is empty.
    pub fn next(&mut self) -> (r: Option<Tagged<T>>)
        ensures
            old(self).1.start.1.value() >= old(self).1.end.1.value() ==> r is None && *final(self)
                == *old(self),
            old(self).1.start.1.value() < old(self).1.end.1.value() ==> {
                &&& r == Some(Tagged(old(self).0, old(self).1.start.1))
                &&& final(self).0 == old(self).0
                &&& final(self).1.end == old(self).1.end
                &&& final(self).1.start.0 == old(self).1.start.0
                &&& final(self).1.start.1.value() == old(self).1.start.1.value() + 1
            },
    {
        proof {
            T::lemma_value(self.1.start.1);
            T::lemma_value(self.1.end.1);
        }
        if self.1.start.1.widen() >= self.1.end.1.widen() {
            return None;
        }
        let yielded = self.1.start.1;
        self.1.start.1 = T::narrow(yielded.widen() + 1);
        Some(Tagged(self.0, yielded))
    }

    /// Moves the end of the range down by one and yields it, tagged with the
    /// range's id; `None` once the range is empty.
    pub fn next_back(&mut self) -> (r: Option<Tagged<T>>)
        ensures
            old(self).1.start.1.value() >= old(self).1.end.1.value() ==> r is None && *final(self)
                == *old(self),
            old(self).1.start.1.value() < old(self).1.end.1.value() ==> {
                &&& r == Some(Tagged(old(self).0, final(self).1.end.1))
                &&& final(self).0 == old(self).0
                &&& final(self).1.start == old(self).1.start
                &&& final(self).1.end.0 == old(self).1.end.0
                &&& final(self).1.end.1.value() == old(self).1.end.1.value() - 1
            },
    {
        proof {
            T::lemma_value(self.1.start.1);
            T::lemma_value(self.1.end.1);
        }
        if self.1.start.1.widen() >= self.1.end.1.widen() {
            return None;
        }
        self.1.end.1 = T::narrow(self.1.end.1.widen() - 1);
        Some(Tagged(self.0, self.1.end.1))
    }

    /// Bounds on the number of values left.
    pub fn size_hint(&self) -> (h: (usize, Option<usize>))
        ensures
            h == steps_between(self.1.start.1.value(), self.1.end.1.value()),
    {
        proof {
            T::lemma_value(self.1.start.1);
            T::lemma_value(self.1.end.1);
        }
        steps(self.1.start.1.widen(), self.1.end.1.widen())
    }
}

impl<T: Copy> Tagged<Range<Tagged<T>>> {
    /// The plain range between the untagged ends.
    pub fn raw(&self) -> (r: Range<T>)
        ensures
            r.start == self.1.start.1,
            r.end == self.1.end.1,
    {
        self.1.start.1..self.1.end.1
    }
}

impl<T: Endpoint> Tagged<RangeInclusive<Tagged<T>>> {
    /// The number of values in the range, tracked by the range's own id:
    /// `end - start + 1` (saturating), or 0 when `end - start` is negative
    /// or too large for a `usize`.
    pub fn len(&self) -> (l: Tagged<usize>)
        requires
            T::lowest() <= self.1@.end.1.value() - self.1@.start.1.value() <= T::highest(),
        ensures
            l.0 == self.0,
            l.1 == inclusive_range_length(self.1@.end.1.value() - self.1@.start.1.value()),
    {
        let start = self.1.start().1;
        let end = self.1.end().1;
        proof {
            T::lemma_value(start);
            T::lemma_value(end);
        }
        let diff = end.widen() - start.widen();
        let n = if 0 <= diff && diff <= usize::MAX as i128 {
            (diff as usize).saturating_add(1)
        } else {
            0
        };
        Tagged(self.0, n)
    }

    /// Yields the start of the range, tagged with the range's id, and moves
    /// the start up by one (staying put at the type's largest value);
    /// `None` once the start has passed the end.
    pub fn next(&mut self) -> (r: Option<Tagged<T>>)
        ensures
            old(self).1@.start.1.value() > old(self).1@.end.1.value() ==> r is None && *final(self)
                == *old(self),
            old(self).1@.start.1.value() <= old(self).1@.end.1.value() ==> {
                &&& r == Some(Tagged(old(self).0, old(self).1@.start.1))
                &&& final(self).0 == old(self).0
                &&& final(self).1@.end == old(self).1@.end
                &&& final(self).1@.start.0 == old(self).1@.start.0
                &&& final(self).1@.start.1.value() == if old(self).1@.start.1.value() < T::highest() {
                    old(self).1@.start.1.value() + 1
                } else {
                    old(self).1@.start.1.value()
                }
                &&& !final(self).1@.exhausted
            },
    {
        let start = self.1.start().1;
        let end = self.1.end().1;
        proof {
            T::lemma_value(start);
            T::lemma_value(end);
        }
        if start.widen() > end.widen() {
            return None;
        }
        let start_id = self.1.start().0;
        let end_id = self.1.end().0;
        let next_start = if start.widen() < T::highest_widened() {
            T::narrow(start.widen() + 1)
        } else {
            start
        };
        self.1 = Tagged(start_id, next_start)..=Tagged(end_id, end);
        Some(Tagged(self.0, start))
    }

    /// Yields the end of the range, tagged with the range's id, and moves
    /// the end down by one (staying put at the type's smallest value);
    /// `None` once the start has passed the end.
    pub fn next_back(&mut self) -> (r: Option<Tagged<T>>)
        ensures
            old(self).1@.start.1.value() > old(self).1@.end.1.value() ==> r is None && *final(self)
                == *old(self),
            old(self).1@.start.1.value() <= old(self).1@.end.1.value() ==> {
                &&& r == Some(Tagged(old(self).0, old(self).1@.end.1))
                &&& final(self).0 == old(self).0
                &&& final(self).1@.start == old(self).1@.start
                &&& final(self).1@.end.0 == old(self).1@.end.0
                &&& final(self).1@.end.1.value() == if old(self).1@.end.1.value() > T::lowest() {
                    old(self).1@.end.1.value() - 1
                } else {
                    old(self).1@.end.1.value()
                }
                &&& !final(self).1@.exhausted
            },
    {
        let start = self.1.start().1;
        let end = self.1.end().1;
        proof {
            T::lemma_value(start);
            T::lemma_value(end);
        }
        if start.widen() > end.widen() {
            return None;
        }
        let start_id = self.1.start().0;
        let end_id = self.1.end().0;
        let next_end = if end.widen() > T::lowest_widened() {
            T::narrow(end.widen() - 1)
        } else {
            end
        };
        self.1 = Tagged(start_id, start)..=Tagged(end_id, next_end);
        Some(Tagged(self.0, end))
    }

    /// Bounds on the number of values left.
    pub fn size_hint(&self) -> (h: (usize, Option<usize>))
        ensures
            h == inclusive_steps(self.1@.start.1.value(), self.1@.end.1.value()),
    {
        let start = self.1.start().1;
        let end = self.1.end().1;
        proof {
            T::lemma_value(start);
            T::lemma_value(end);
        }
        if start.widen() > end.widen() {
            return (0, Some(0));
        }
        let n = steps(start.widen(), end.widen());
        let upper = match n.1 {
            Some(v) => v.checked_add(1),
            None => None,
        };
        (n.0.saturating_add(1), upper)
    }
}

impl Tagged<std::ops::RangeFull> {
    /// The plain unbounded range.
    pub fn raw(&self) -> (r: std::ops::RangeFull) {
        self.1
    }
}

impl<T: Copy> Tagged<RangeInclusive<Tagged<T>>> {
    /// The plain inclusive range between the untagged ends.
    pub fn raw(&self) -> (r: RangeInclusive<T>)
        ensures
            r@.start == self.1@.start.1,
            r@.end == self.1@.end.1,
            !r@.exhausted,
    {
        self.1.start().1..=self.1.end().1
    }
}

} // verus!
