use vstd::prelude::*;

use crate::tagger::Id;

verus! {

/// `ids` with the groups of `levels` appended level by level, the first of
/// them at `depth`. Levels missing from `ids` are added empty first.
pub open spec fn merge_at(ids: Seq<Seq<Id>>, depth: nat, levels: Seq<Seq<Id>>) -> Seq<Seq<Id>> {
    let len = if levels.len() == 0 {
        ids.len()
    } else if ids.len() >= depth + levels.len() {
        ids.len()
    } else {
        depth + levels.len()
    };
    Seq::new(
        len as nat,
        |k: int|
            (if k < ids.len() {
                ids[k]
            } else {
                Seq::empty()
            }) + (if depth <= k < depth + levels.len() {
                levels[k - depth]
            } else {
                Seq::empty()
            }),
    )
}

/// The levels of a sequence of values, each one's levels merged at depth 0 in turn.
pub open spec fn merge_all(parts: Seq<Seq<Seq<Id>>>) -> Seq<Seq<Id>>
    decreases parts.len(),
{
    if parts.len() == 0 {
        Seq::empty()
    } else {
        merge_at(merge_all(parts.drop_last()), 0, parts.last())
    }
}

/// The contents of a vector of vectors.
pub open spec fn deep(ids: Seq<Vec<Id>>) -> Seq<Seq<Id>> {
    ids.map_values(|v: Vec<Id>| v@)
}

/// Merging nothing changes nothing.
pub proof fn lemma_merge_empty(ids: Seq<Seq<Id>>, depth: nat)
    ensures
        merge_at(ids, depth, Seq::empty()) == ids,
{
    assert(merge_at(ids, depth, Seq::empty()) =~= ids);
}

/// Merging at `d` and then at `d + e` is merging at `d` what the two merge to.
pub proof fn lemma_merge_merge(ids: Seq<Seq<Id>>, d: nat, e: nat, p: Seq<Seq<Id>>, q: Seq<Seq<Id>>)
    ensures
        merge_at(merge_at(ids, d, p), d + e, q) == merge_at(ids, d, merge_at(p, e, q)),
{
    let lhs = merge_at(merge_at(ids, d, p), d + e, q);
    let rhs = merge_at(ids, d, merge_at(p, e, q));
    assert(lhs.len() == rhs.len());
    assert forall|k: int| 0 <= k < lhs.len() implies lhs[k] == rhs[k] by {
        let a: Seq<Id> = if k < ids.len() {
            ids[k]
        } else {
            Seq::empty()
        };
        let b: Seq<Id> = if d <= k < d + p.len() {
            p[k - d]
        } else {
            Seq::empty()
        };
        let c: Seq<Id> = if d + e <= k < d + e + q.len() {
            q[k - d - e]
        } else {
            Seq::empty()
        };
        assert(lhs[k] =~= a + b + c);
        assert(rhs[k] =~= a + (b + c));
    }
    assert(lhs =~= rhs);
}

/// Merging every part gives at least as many levels as any part has.
pub proof fn lemma_merge_all_len(parts: Seq<Seq<Seq<Id>>>, j: int)
    requires
        0 <= j < parts.len(),
    ensures
        merge_all(parts).len() >= parts[j].len(),
    decreases parts.len(),
{
    if j < parts.len() - 1 {
        lemma_merge_all_len(parts.drop_last(), j);
    }
}

} // verus!
