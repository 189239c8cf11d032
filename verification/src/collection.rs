use vstd::prelude::*;

use crate::levels::{deep, lemma_merge_all_len, lemma_merge_empty, lemma_merge_merge, merge_all, merge_at};
use std::ops::{Range, RangeFull, RangeInclusive};

use crate::tagged::{Scalar, Tagged};
use crate::tagger::Id;

verus! {

/// Values whose tracked ids can be gathered level by level: level 0 holds
/// the value's own id, and each further level one more level of nesting.
pub trait Collect {
    /// The ids of this value, grouped by depth below it.
    spec fn id_levels(&self) -> Seq<Seq<Id>>;

    /// Appends the ids of this value to `ids`, its own level at `depth`,
    /// adding empty levels where `ids` is too short.
    fn collect_ids_by_level(&self, ids: &mut Vec<Vec<Id>>, depth: usize)
        requires
            depth + self.id_levels().len() <= usize::MAX,
        ensures
            deep(final(ids)@) == merge_at(deep(old(ids)@), depth as nat, self.id_levels()),
    ;
}

/// Makes sure `ids` has a level at `depth`, then appends `id` to it.
fn push_at_level(ids: &mut Vec<Vec<Id>>, depth: usize, id: Id)
    requires
        depth < usize::MAX,
    ensures
        deep(final(ids)@) == merge_at(deep(old(ids)@), depth as nat, seq![seq![id]]),
{
    let ghost ids0 = deep(ids@);
    if ids.len() <= depth {
        while ids.len() <= depth
            invariant
                ids0.len() <= ids@.len() <= depth + 1,
                deep(ids@) =~= ids0 + Seq::new(
                    (ids@.len() - ids0.len()) as nat,
                    |k: int| Seq::<Id>::empty(),
                ),
            decreases depth + 1 - ids@.len(),
        {
            let ghost before = ids@;
            let level: Vec<Id> = Vec::new();
            ids.push(level);
            assert(ids@ == before.push(level));
            assert(level@ == Seq::<Id>::empty());
            let ghost grown = ids0 + Seq::new(
                (ids@.len() - ids0.len()) as nat,
                |k: int| Seq::<Id>::empty(),
            );
            assert forall|k: int| 0 <= k < ids@.len() implies #[trigger] deep(ids@)[k] == grown[k] by {
                if k < before.len() {
                    assert(deep(before)[k] == before[k]@);
                    assert(deep(ids@)[k] == ids@[k]@);
                }
            }
            assert(deep(ids@) =~= grown);
        }
    }
    let ghost padded = deep(ids@);
    assert(forall|k: int| 0 <= k < padded.len() ==> #[trigger] padded[k] == if k < ids0.len() {
        ids0[k]
    } else {
        Seq::<Id>::empty()
    });
    let ghost before = ids@;
    ids[depth].push(id);
    assert(ids@.len() == before.len());
    assert(forall|k: int| 0 <= k < ids@.len() && k != depth ==> ids@[k] == before[k]);
    assert(ids@[depth as int]@ == before[depth as int]@.push(id));
    let ghost merged = merge_at(ids0, depth as nat, seq![seq![id]]);
    assert forall|k: int| 0 <= k < ids@.len() implies #[trigger] deep(ids@)[k] == merged[k] by {
        assert(deep(ids@)[k] == ids@[k]@);
        assert(deep(before)[k] == before[k]@);
        if k == depth {
            assert(merged[k] =~= padded[k].push(id));
        } else {
            assert(merged[k] =~= padded[k]);
        }
    }
    assert(deep(ids@) =~= merged);
}

impl<T: Scalar> Collect for Tagged<T> {
    open spec fn id_levels(&self) -> Seq<Seq<Id>> {
        seq![seq![self.0]]
    }

    fn collect_ids_by_level(&self, ids: &mut Vec<Vec<Id>>, depth: usize) {
        push_at_level(ids, depth, self.0);
    }
}

/// Appends the ids of `id` at `depth` and of every element of `elems` below it.
fn collect_elements<T: Collect>(elems: &[T], id: Id, ids: &mut Vec<Vec<Id>>, depth: usize)
    requires
        depth + merge_at(seq![seq![id]], 1, merge_all(elems@.map_values(|e: T| e.id_levels()))).len()
            <= usize::MAX,
    ensures
        deep(final(ids)@) == merge_at(
            deep(old(ids)@),
            depth as nat,
            merge_at(seq![seq![id]], 1, merge_all(elems@.map_values(|e: T| e.id_levels()))),
        ),
{
    push_at_level(ids, depth, id);
    let ghost start = deep(ids@);
    let ghost parts = elems@.map_values(|e: T| e.id_levels());
    let ghost all = merge_at(seq![seq![id]], 1, merge_all(parts));
    proof {
        assert(parts.take(0) =~= Seq::<Seq<Seq<Id>>>::empty());
        lemma_merge_empty(start, (depth + 1) as nat);
    }
    let n = elems.len();
    let mut i: usize = 0;
    while i < n
        invariant
            n == elems@.len(),
            i <= n,
            parts == elems@.map_values(|e: T| e.id_levels()),
            all == merge_at(seq![seq![id]], 1, merge_all(parts)),
            depth + all.len() <= usize::MAX,
            deep(ids@) == merge_at(start, (depth + 1) as nat, merge_all(parts.take(i as int))),
        decreases n - i,
    {
        proof {
            assert(parts.take(i + 1).drop_last() =~= parts.take(i as int));
            assert(parts.take(i + 1).last() == parts[i as int]);
            lemma_merge_all_len(parts, i as int);
            lemma_merge_merge(start, (depth + 1) as nat, 0, merge_all(parts.take(i as int)), parts[i as int]);
        }
        elems[i].collect_ids_by_level(ids, depth + 1);
        i = i + 1;
    }
    proof {
        assert(parts.take(n as int) =~= parts);
        lemma_merge_merge(deep(old(ids)@), depth as nat, 1, seq![seq![id]], merge_all(parts));
    }
}

impl<T: Collect, const N: usize> Collect for Tagged<[T; N]> {
    open spec fn id_levels(&self) -> Seq<Seq<Id>> {
        merge_at(seq![seq![self.0]], 1, merge_all(self.1@.map_values(|e: T| e.id_levels())))
    }

    fn collect_ids_by_level(&self, ids: &mut Vec<Vec<Id>>, depth: usize) {
        collect_elements(self.1.as_slice(), self.0, ids, depth);
    }
}

impl<'s, T: Collect> Collect for Tagged<&'s [T]> {
    open spec fn id_levels(&self) -> Seq<Seq<Id>> {
        merge_at(seq![seq![self.0]], 1, merge_all(self.1@.map_values(|e: T| e.id_levels())))
    }

    fn collect_ids_by_level(&self, ids: &mut Vec<Vec<Id>>, depth: usize) {
        collect_elements(self.1, self.0, ids, depth);
    }
}

impl<'s, T: Collect> Collect for Tagged<&'s mut [T]> {
    open spec fn id_levels(&self) -> Seq<Seq<Id>> {
        merge_at(seq![seq![self.0]], 1, merge_all(self.1@.map_values(|e: T| e.id_levels())))
    }

    fn collect_ids_by_level(&self, ids: &mut Vec<Vec<Id>>, depth: usize) {
        collect_elements(&*self.1, self.0, ids, depth);
    }
}

impl<'a, U: Collect> Collect for &'a mut U {
    open spec fn id_levels(&self) -> Seq<Seq<Id>> {
        (**self).id_levels()
    }

    fn collect_ids_by_level(&self, ids: &mut Vec<Vec<Id>>, depth: usize) {
        (**self).collect_ids_by_level(ids, depth);
    }
}

impl<'a, U: Collect> Collect for &'a U {
    open spec fn id_levels(&self) -> Seq<Seq<Id>> {
        (**self).id_levels()
    }

    fn collect_ids_by_level(&self, ids: &mut Vec<Vec<Id>>, depth: usize) {
        (**self).collect_ids_by_level(ids, depth);
    }
}

/// Appends the range id at `depth` and the ids of its ends below it.
fn collect_range_ids(id: Id, start: Id, end: Id, ids: &mut Vec<Vec<Id>>, depth: usize)
    requires
        depth + 2 <= usize::MAX,
    ensures
        deep(final(ids)@) == merge_at(deep(old(ids)@), depth as nat, seq![seq![id], seq![start, end]]),
{
    push_at_level(ids, depth, id);
    push_at_level(ids, depth + 1, start);
    push_at_level(ids, depth + 1, end);
    proof {
        let o = deep(old(ids)@);
        lemma_merge_merge(o, depth as nat, 1, seq![seq![id]], seq![seq![start]]);
        assert(merge_at(seq![seq![id]], 1, seq![seq![start]]) =~= seq![seq![id], seq![start]]);
        lemma_merge_merge(o, depth as nat, 1, seq![seq![id], seq![start]], seq![seq![end]]);
        let m = merge_at(seq![seq![id], seq![start]], 1, seq![seq![end]]);
        assert(m[0] =~= seq![id]);
        assert(m[1] =~= seq![start, end]);
        assert(merge_at(seq![seq![id], seq![start]], 1, seq![seq![end]]) =~= seq![
            seq![id],
            seq![start, end],
        ]);
    }
}

impl<T: Scalar> Collect for Tagged<Range<Tagged<T>>> {
    open spec fn id_levels(&self) -> Seq<Seq<Id>> {
        seq![seq![self.0], seq![self.1.start.0, self.1.end.0]]
    }

    fn collect_ids_by_level(&self, ids: &mut Vec<Vec<Id>>, depth: usize) {
        collect_range_ids(self.0, self.1.start.0, self.1.end.0, ids, depth);
    }
}

impl<T: Scalar> Collect for Tagged<RangeInclusive<Tagged<T>>> {
    open spec fn id_levels(&self) -> Seq<Seq<Id>> {
        seq![seq![self.0], seq![self.1@.start.0, self.1@.end.0]]
    }

    fn collect_ids_by_level(&self, ids: &mut Vec<Vec<Id>>, depth: usize) {
        collect_range_ids(self.0, self.1.start().0, self.1.end().0, ids, depth);
    }
}

impl Collect for Tagged<RangeFull> {
    open spec fn id_levels(&self) -> Seq<Seq<Id>> {
        seq![seq![self.0]]
    }

    fn collect_ids_by_level(&self, ids: &mut Vec<Vec<Id>>, depth: usize) {
        push_at_level(ids, depth, self.0);
    }
}

} // verus!
