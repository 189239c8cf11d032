use vstd::prelude::*;

use crate::index::TaggedSliceable;
use crate::site::{report_header, sites_reports, update_all, Site, Sites};
use crate::tagged::Tagged;
use crate::tagged_value::{TaggedArray, TaggedSlice, TaggedValue};
use crate::tagger::Id;
use crate::laws::{law_union_chain_joins, law_union_keeps_ids};
use crate::uf_model::UfModel;
use crate::union_find::UnionFind;

verus! {

/// Joins the sets of `a` and `b` when both are held; otherwise nothing changes.
pub open spec fn union_if_present(m: UfModel, a: Id, b: Id) -> UfModel {
    if m.contains(a) && m.contains(b) {
        m.union(a, b)
    } else {
        m
    }
}

/// The partition after joining each of the first `k` neighbouring pairs of
/// `tags`, from the front.
pub open spec fn union_chain(m: UfModel, tags: Seq<Id>, k: nat) -> UfModel
    decreases k,
{
    if k == 0 {
        m
    } else {
        let k1 = (k - 1) as nat;
        union_if_present(union_chain(m, tags, k1), tags[k1 as int], tags[k as int])
    }
}

/// Adding the next tag keeps every held id below the tag after it.
proof fn lemma_introduce_below(m: UfModel, next: nat)
    requires
        next < u64::MAX,
        forall|id: Id| #[trigger] m.contains(id) ==> id < next,
    ensures
        !m.contains(next as Id),
        forall|id: Id| #[trigger] m.introduce(next as Id).contains(id) ==> id < next + 1,
{
    assert forall|id: Id| #[trigger] m.introduce(next as Id).contains(id) implies id < next + 1 by {
        if id != next as Id {
            assert(m.contains(id));
        }
    }
}

/// Everything a dynamic abstract type inference owns: the partition of all
/// observed values, and the abstract types at every site.
pub struct ATI {
    value_uf: UnionFind,
    sites: Sites,
}

impl ATI {
    pub closed spec fn wf(&self) -> bool {
        &&& self.value_uf.wf()
        &&& self.sites.wf()
        &&& forall|id: Id| #[trigger] self.value_uf.model().contains(id) ==> id < self.value_uf.next_tag()
    }

    /// The partition of all values seen interacting.
    pub closed spec fn values(&self) -> UfModel {
        self.value_uf.model()
    }

    /// The tag the next tracked value gets.
    pub closed spec fn next_tag(&self) -> nat {
        self.value_uf.next_tag()
    }

    /// The stored sites by name.
    pub closed spec fn sites(&self) -> Map<Seq<char>, Site> {
        self.sites.map()
    }

    /// The stored sites in the order of their names.
    pub closed spec fn sites_in_order(&self) -> Seq<Site> {
        self.sites.in_order()
    }

    /// The sites in order are exactly the stored sites, sorted by name.
    pub proof fn lemma_sites_in_order(&self)
        requires
            self.wf(),
        ensures
            forall|i: int, j: int|
                0 <= i < j < self.sites_in_order().len() ==> crate::names::name_lt(
                    #[trigger] self.sites_in_order()[i].name(),
                    #[trigger] self.sites_in_order()[j].name(),
                ),
            forall|i: int|
                0 <= i < self.sites_in_order().len() ==> #[trigger] self.sites().contains_key(
                    self.sites_in_order()[i].name(),
                ) && self.sites()[self.sites_in_order()[i].name()] == self.sites_in_order()[i],
            forall|k: Seq<char>|
                #[trigger] self.sites().contains_key(k) ==> exists|i: int|
                    0 <= i < self.sites_in_order().len() && self.sites_in_order()[i].name() == k,
    {
        self.sites.lemma_in_order();
        assert forall|k: Seq<char>| #[trigger] self.sites().contains_key(k) implies exists|i: int|
            0 <= i < self.sites_in_order().len() && self.sites_in_order()[i].name() == k by {
            assert(self.sites.map().contains_key(k));
            let i = choose|i: int|
                0 <= i < self.sites.in_order().len() && self.sites.in_order()[i].name() == k;
            assert(self.sites_in_order()[i].name() == k);
        }
    }

    /// The model of the values is a well-formed partition.
    pub proof fn lemma_values_wf(&self)
        requires
            self.wf(),
        ensures
            self.values().wf(),
    {
        self.value_uf.lemma_model_wf();
    }

    /// Starts an analysis with no values and no sites.
    pub fn new() -> (ati: Self)
        ensures
            ati.wf(),
            ati.values() == UfModel::empty(),
            ati.next_tag() == 0,
            ati.sites() == Map::<Seq<char>, Site>::empty(),
    {
        Self { value_uf: UnionFind::new(), sites: Sites::new() }
    }

    /// Whether another value can be given a fresh tag.
    pub fn can_track(&self) -> (b: bool)
        requires
            self.wf(),
        ensures
            b == (self.next_tag() < u64::MAX),
    {
        self.value_uf.can_make_set()
    }

    /// Pairs `value` with a fresh tag, held in a set of its own.
    pub fn track<T: Copy>(&mut self, value: T) -> (tv: TaggedValue<T>)
        requires
            old(self).wf(),
            old(self).next_tag() < u64::MAX,
        ensures
            final(self).wf(),
            tv.0 == value,
            tv.1 == old(self).next_tag(),
            !old(self).values().contains(tv.1),
            final(self).next_tag() == old(self).next_tag() + 1,
            final(self).values() == old(self).values().introduce(tv.1),
            final(self).sites() == old(self).sites(),
            final(self).sites_in_order() == old(self).sites_in_order(),
    {
        proof {
            lemma_introduce_below(self.values(), self.next_tag());
        }
        let id = self.value_uf.make_set();
        TaggedValue::new(value, id)
    }

    /// Tracks an array of tracked values: its length gets a fresh tag, and each
    /// element is joined with the next one.
    pub fn track_array<T: Copy, const N: usize>(&mut self, array: [TaggedValue<T>; N]) -> (ta:
        TaggedArray<TaggedValue<T>, N>)
        requires
            old(self).wf(),
            old(self).next_tag() < u64::MAX,
            N >= 1,
        ensures
            final(self).wf(),
            ta.0 == array,
            ta.1 == old(self).next_tag(),
            !old(self).values().contains(ta.1),
            final(self).next_tag() == old(self).next_tag() + 1,
            final(self).values() == union_chain(
                old(self).values().introduce(ta.1),
                array@.map_values(|tv: TaggedValue<T>| tv.1),
                (N - 1) as nat,
            ),
            (forall|i: int| 0 <= i < N ==> old(self).values().contains(#[trigger] array@[i].1)) ==> forall|
                i: int,
                j: int,
            |
                0 <= i < N && 0 <= j < N ==> final(self).values().same_set(
                    #[trigger] array@[i].1,
                    #[trigger] array@[j].1,
                ),
            final(self).sites() == old(self).sites(),
            final(self).sites_in_order() == old(self).sites_in_order(),
    {
        proof {
            lemma_introduce_below(self.values(), self.next_tag());
        }
        let id = self.value_uf.make_set();
        let ghost start = self.values();
        let ghost tags = array@.map_values(|tv: TaggedValue<T>| tv.1);
        let mut i: usize = 0;
        while i < N - 1
            invariant
                self.wf(),
                i <= N - 1,
                N >= 1,
                tags == array@.map_values(|tv: TaggedValue<T>| tv.1),
                self.values() == union_chain(start, tags, i as nat),
                self.next_tag() == old(self).next_tag() + 1,
                self.sites() == old(self).sites(),
                self.sites_in_order() == old(self).sites_in_order(),
            decreases N - 1 - i,
        {
            self.union_tags(&array[i], &array[i + 1]);
            i = i + 1;
        }
        proof {
            if forall|i: int| 0 <= i < N ==> old(self).values().contains(#[trigger] array@[i].1) {
                old(self).value_uf.lemma_model_wf();
                crate::laws::law_introduce_wf(old(self).values(), id);
                assert forall|i: int| 0 <= i <= (N - 1) as nat implies start.contains(#[trigger] tags[i]) by {
                    assert(old(self).values().contains(array@[i].1));
                }
                law_union_chain_joins(start, tags, (N - 1) as nat);
                assert forall|i: int, j: int| 0 <= i < N && 0 <= j < N implies self.values().same_set(
                    #[trigger] array@[i].1,
                    #[trigger] array@[j].1,
                ) by {
                    assert(tags[i] == array@[i].1 && tags[j] == array@[j].1);
                }
            }
        }
        TaggedArray(array, id)
    }

    /// Tracks a slice of tracked values: its length gets a fresh tag, and each
    /// element is joined with the next one.
    pub fn track_slice<'a, T: Copy>(&mut self, slice: &'a mut [TaggedValue<T>]) -> (ts: TaggedSlice<
        'a,
        TaggedValue<T>,
    >)
        requires
            old(self).wf(),
            old(self).next_tag() < u64::MAX,
            old(slice)@.len() >= 1,
        ensures
            final(self).wf(),
            ts.0@ == old(slice)@,
            final(slice)@ == final(ts.0)@,
            ts.1 == old(self).next_tag(),
            !old(self).values().contains(ts.1),
            final(self).next_tag() == old(self).next_tag() + 1,
            final(self).values() == union_chain(
                old(self).values().introduce(ts.1),
                old(slice)@.map_values(|tv: TaggedValue<T>| tv.1),
                (old(slice)@.len() - 1) as nat,
            ),
            (forall|i: int|
                0 <= i < old(slice)@.len() ==> old(self).values().contains(#[trigger] old(slice)@[i].1))
                ==> forall|i: int, j: int|
                0 <= i < old(slice)@.len() && 0 <= j < old(slice)@.len() ==> final(self).values().same_set(
                    #[trigger] old(slice)@[i].1,
                    #[trigger] old(slice)@[j].1,
                ),
            final(self).sites() == old(self).sites(),
            final(self).sites_in_order() == old(self).sites_in_order(),
    {
        proof {
            lemma_introduce_below(self.values(), self.next_tag());
        }
        let id = self.value_uf.make_set();
        let ghost start = self.values();
        let ghost tags = slice@.map_values(|tv: TaggedValue<T>| tv.1);
        let n = slice.len();
        let mut i: usize = 0;
        while i < n - 1
            invariant
                self.wf(),
                n == slice@.len(),
                slice@ == old(slice)@,
                i <= n - 1,
                n >= 1,
                tags == slice@.map_values(|tv: TaggedValue<T>| tv.1),
                self.values() == union_chain(start, tags, i as nat),
                self.next_tag() == old(self).next_tag() + 1,
                self.sites() == old(self).sites(),
                self.sites_in_order() == old(self).sites_in_order(),
            decreases n - 1 - i,
        {
            self.union_tags(&slice[i], &slice[i + 1]);
            i = i + 1;
        }
        proof {
            let s0 = old(slice)@;
            if forall|i: int| 0 <= i < s0.len() ==> old(self).values().contains(#[trigger] s0[i].1) {
                old(self).value_uf.lemma_model_wf();
                crate::laws::law_introduce_wf(old(self).values(), id);
                assert forall|i: int| 0 <= i <= (n - 1) as nat implies start.contains(#[trigger] tags[i]) by {
                    assert(old(self).values().contains(s0[i].1));
                }
                law_union_chain_joins(start, tags, (n - 1) as nat);
                assert forall|i: int, j: int| 0 <= i < s0.len() && 0 <= j < s0.len() implies self.values().same_set(
                    #[trigger] s0[i].1,
                    #[trigger] s0[j].1,
                ) by {
                    assert(tags[i] == s0[i].1 && tags[j] == s0[j].1);
                }
            }
        }
        TaggedSlice(slice, id)
    }

    /// Takes the site named `name` out of the analysis, creating an empty one
    /// if there is none.
    pub fn get_site(&mut self, name: &str) -> (site: Site)
        requires
            old(self).wf(),
        ensures
            final(self).wf(),
            site.wf(),
            site.name() == name@,
            final(self).sites() == old(self).sites().remove(name@),
            old(self).sites().contains_key(name@) ==> site == old(self).sites()[name@],
            !old(self).sites().contains_key(name@) ==> site.types() == UfModel::empty()
                && site.vars() == Map::<Seq<char>, Id>::empty()
                && site.observed() == Seq::<(Seq<char>, Id)>::empty(),
            final(self).values() == old(self).values(),
            final(self).next_tag() == old(self).next_tag(),
    {
        self.sites.extract(name)
    }

    /// Updates the abstract types of `site` from the values seen so far, and
    /// stores it back under its name.
    pub fn update_site(&mut self, site: Site)
        requires
            old(self).wf(),
            site.wf(),
            update_all(site.types(), site.vars(), old(self).values(), site.observed()) is Some,
        ensures
            final(self).wf(),
            final(self).values() == old(self).values(),
            final(self).next_tag() == old(self).next_tag(),
            final(self).sites().remove(site.name()) == old(self).sites().remove(site.name()),
            final(self).sites().contains_key(site.name()),
            ({
                let s = final(self).sites()[site.name()];
                &&& s.name() == site.name()
                &&& s.observed() == site.observed()
                &&& update_all(site.types(), site.vars(), old(self).values(), site.observed())
                    == Some((s.types(), s.vars()))
            }),
    {
        let ok = self.try_update_site(site);
        assert(ok);
    }

    /// As `update_site`, but returns false, storing nothing, when the update
    /// cannot be carried out.
    pub fn try_update_site(&mut self, site: Site) -> (ok: bool)
        requires
            old(self).wf(),
            site.wf(),
        ensures
            final(self).wf(),
            final(self).values() == old(self).values(),
            final(self).next_tag() == old(self).next_tag(),
            ok == update_all(site.types(), site.vars(), old(self).values(), site.observed()) is Some,
            !ok ==> final(self).sites() == old(self).sites(),
            ok ==> final(self).sites().remove(site.name()) == old(self).sites().remove(site.name()),
            ok ==> final(self).sites().contains_key(site.name()),
            ok ==> ({
                let s = final(self).sites()[site.name()];
                &&& s.name() == site.name()
                &&& s.observed() == site.observed()
                &&& update_all(site.types(), site.vars(), old(self).values(), site.observed())
                    == Some((s.types(), s.vars()))
            }),
    {
        let mut site = site;
        if !site.try_update(&mut self.value_uf) {
            return false;
        }
        let ghost s = site;
        self.sites.stash(site);
        proof {
            assert(self.sites().remove(s.name()) =~= old(self).sites().remove(s.name()));
        }
        true
    }

    /// Records that the values `tv1` and `tv2` interacted: their sets are
    /// joined. Nothing changes if either tag is unknown.
    pub fn union_tags<T: Copy>(&mut self, tv1: &TaggedValue<T>, tv2: &TaggedValue<T>)
        requires
            old(self).wf(),
        ensures
            final(self).wf(),
            final(self).values() == union_if_present(old(self).values(), tv1.1, tv2.1),
            final(self).next_tag() == old(self).next_tag(),
            final(self).sites() == old(self).sites(),
            final(self).sites_in_order() == old(self).sites_in_order(),
    {
        self.value_uf.union_tags(&tv1.1, &tv2.1);
        proof {
            if old(self).values().contains(tv1.1) && old(self).values().contains(tv2.1) {
                law_union_keeps_ids(old(self).values(), tv1.1, tv2.1);
            }
        }
    }

    /// Records a binary operation between `lhs` and `rhs` that produced
    /// `result`: the result gets a fresh tag, the operands are joined, and the
    /// result is joined with the left operand.
    pub fn track_operation<T: Copy>(
        &mut self,
        lhs: &TaggedValue<T>,
        rhs: &TaggedValue<T>,
        result: T,
    ) -> (res: TaggedValue<T>)
        requires
            old(self).wf(),
            old(self).next_tag() < u64::MAX,
        ensures
            final(self).wf(),
            res.0 == result,
            res.1 == old(self).next_tag(),
            !old(self).values().contains(res.1),
            final(self).next_tag() == old(self).next_tag() + 1,
            final(self).values() == union_if_present(
                union_if_present(old(self).values().introduce(res.1), lhs.1, rhs.1),
                res.1,
                lhs.1,
            ),
            final(self).sites() == old(self).sites(),
            final(self).sites_in_order() == old(self).sites_in_order(),
    {
        let res = self.track(result);
        self.union_tags(lhs, rhs);
        self.union_tags(&res, lhs);
        res
    }

    /// A fresh id, held in a set of its own.
    pub fn make_id(&mut self) -> (id: Id)
        requires
            old(self).wf(),
            old(self).next_tag() < u64::MAX,
        ensures
            final(self).wf(),
            id == old(self).next_tag(),
            !old(self).values().contains(id),
            final(self).next_tag() == old(self).next_tag() + 1,
            final(self).values() == old(self).values().introduce(id),
            final(self).sites() == old(self).sites(),
            final(self).sites_in_order() == old(self).sites_in_order(),
    {
        proof {
            lemma_introduce_below(self.values(), self.next_tag());
        }
        self.value_uf.make_set()
    }

    /// Joins the sets of `a` and `b`, and returns the leader of the joined
    /// set. `None`, with nothing changed, when either id is unknown.
    pub fn union_and_get_id(&mut self, a: &Id, b: &Id) -> (r: Option<Id>)
        requires
            old(self).wf(),
        ensures
            final(self).wf(),
            final(self).values() == union_if_present(old(self).values(), *a, *b),
            r is Some <==> (old(self).values().contains(*a) && old(self).values().contains(*b)),
            r matches Some(l) ==> l == final(self).values().leader[*a] && l
                == final(self).values().leader[*b],
            final(self).next_tag() == old(self).next_tag(),
            final(self).sites() == old(self).sites(),
            final(self).sites_in_order() == old(self).sites_in_order(),
    {
        let r = self.value_uf.union_tags(a, b);
        proof {
            if r is Some {
                law_union_keeps_ids(old(self).values(), *a, *b);
            }
        }
        r
    }

    /// Records an arithmetic or bitwise operation between `lhs` and `rhs`
    /// that produced `value`: the operands' sets are joined, and the result
    /// carries the leader of the joined set. `None`, with nothing changed,
    /// when either operand's id is unknown.
    pub fn combine<T>(&mut self, lhs: &Tagged<T>, rhs: &Tagged<T>, value: T) -> (r: Option<
        Tagged<T>,
    >)
        requires
            old(self).wf(),
        ensures
            final(self).wf(),
            final(self).values() == union_if_present(old(self).values(), lhs.0, rhs.0),
            r is Some <==> (old(self).values().contains(lhs.0) && old(self).values().contains(
                rhs.0,
            )),
            r matches Some(t) ==> t.1 == value && t.0 == final(self).values().leader[lhs.0],
            final(self).next_tag() == old(self).next_tag(),
            final(self).sites() == old(self).sites(),
            final(self).sites_in_order() == old(self).sites_in_order(),
    {
        match self.union_and_get_id(&lhs.0, &rhs.0) {
            Some(merged) => Some(Tagged(merged, value)),
            None => None,
        }
    }

    /// Records a shift of `lhs` that produced `value`: the result gets a
    /// fresh id, joined with the id of `lhs`; the shift amount stays apart.
    pub fn shift<T>(&mut self, lhs: &Tagged<T>, value: T) -> (r: Tagged<T>)
        requires
            old(self).wf(),
            old(self).next_tag() < u64::MAX,
        ensures
            final(self).wf(),
            r.1 == value,
            r.0 == old(self).next_tag(),
            !old(self).values().contains(r.0),
            final(self).values() == union_if_present(old(self).values().introduce(r.0), r.0, lhs.0),
            final(self).next_tag() == old(self).next_tag() + 1,
            final(self).sites() == old(self).sites(),
            final(self).sites_in_order() == old(self).sites_in_order(),
    {
        let id = self.make_id();
        self.union_and_get_id(&id, &lhs.0);
        Tagged(id, value)
    }

    /// Reads `array[index]`, recording that the index met the array's length.
    pub fn index_array<'a, T, const N: usize>(
        &mut self,
        array: &'a Tagged<[T; N]>,
        index: &Tagged<usize>,
    ) -> (r: &'a T)
        requires
            old(self).wf(),
            index.1 < N,
        ensures
            final(self).wf(),
            *r == array.1[index.1 as int],
            final(self).values() == union_if_present(old(self).values(), array.0, index.0),
            final(self).next_tag() == old(self).next_tag(),
            final(self).sites() == old(self).sites(),
            final(self).sites_in_order() == old(self).sites_in_order(),
    {
        self.union_and_get_id(&array.0, &index.0);
        &array.1[index.1]
    }

    /// Gives `array[index]` for writing, recording that the index met the
    /// array's length.
    pub fn index_array_mut<'a, T, const N: usize>(
        &mut self,
        array: &'a mut Tagged<[T; N]>,
        index: &Tagged<usize>,
    ) -> (r: &'a mut T)
        requires
            old(self).wf(),
            index.1 < N,
        ensures
            final(self).wf(),
            *r == old(array).1[index.1 as int],
            final(array).0 == old(array).0,
            final(array).1@ == old(array).1@.update(index.1 as int, *final(r)),
            final(self).values() == union_if_present(old(self).values(), old(array).0, index.0),
            final(self).next_tag() == old(self).next_tag(),
            final(self).sites() == old(self).sites(),
            final(self).sites_in_order() == old(self).sites_in_order(),
    {
        self.union_and_get_id(&array.0, &index.0);
        &mut array.1[index.1]
    }

    /// Reads `slice[index]`, recording that the index met the slice's length.
    pub fn index_slice<'a, 's, T>(&mut self, slice: &'a Tagged<&'s [T]>, index: &Tagged<usize>) -> (r:
        &'a T)
        requires
            old(self).wf(),
            index.1 < slice.1@.len(),
        ensures
            final(self).wf(),
            *r == slice.1@[index.1 as int],
            final(self).values() == union_if_present(old(self).values(), slice.0, index.0),
            final(self).next_tag() == old(self).next_tag(),
            final(self).sites() == old(self).sites(),
            final(self).sites_in_order() == old(self).sites_in_order(),
    {
        self.union_and_get_id(&slice.0, &index.0);
        &slice.1[index.1]
    }

    /// Gives `slice[index]` for writing, recording that the index met the
    /// slice's length.
    pub fn index_slice_mut<'a, 's, T>(
        &mut self,
        slice: &'a mut Tagged<&'s mut [T]>,
        index: &Tagged<usize>,
    ) -> (r: &'a mut T)
        requires
            old(self).wf(),
            index.1 < old(slice).1@.len(),
        ensures
            final(self).wf(),
            *r == old(slice).1@[index.1 as int],
            final(slice).0 == old(slice).0,
            final(slice).1@ == old(slice).1@.update(index.1 as int, *final(r)),
            final(self).values() == union_if_present(old(self).values(), old(slice).0, index.0),
            final(self).next_tag() == old(self).next_tag(),
            final(self).sites() == old(self).sites(),
            final(self).sites_in_order() == old(self).sites_in_order(),
    {
        self.union_and_get_id(&slice.0, &index.0);
        &mut slice.1[index.1]
    }

    /// Takes the elements of `collection` from `start` up to, not including,
    /// `end`, recording that the range met the collection's length.
    pub fn subslice<'a, 'b, T, C: TaggedSliceable<'a, T>>(
        &mut self,
        collection: &'b C,
        range: &Tagged<std::ops::Range<Tagged<usize>>>,
    ) -> (r: &'b [T])
        requires
            old(self).wf(),
            range.1.start.1 <= range.1.end.1 <= collection.elements().len(),
        ensures
            final(self).wf(),
            r@ == collection.elements().subrange(range.1.start.1 as int, range.1.end.1 as int),
            final(self).values() == union_if_present(old(self).values(), collection.tag(), range.0),
            final(self).next_tag() == old(self).next_tag(),
            final(self).sites() == old(self).sites(),
            final(self).sites_in_order() == old(self).sites_in_order(),
    {
        let id = collection.id();
        self.union_and_get_id(&id, &range.0);
        collection.raw_subslice(range.1.start.1..range.1.end.1)
    }

    /// Builds the tracked range `lo..hi`: the range gets a fresh id, joined
    /// with the ids of both ends.
    pub fn track_range<T>(&mut self, lo: Tagged<T>, hi: Tagged<T>) -> (r: Tagged<
        std::ops::Range<Tagged<T>>,
    >)
        requires
            old(self).wf(),
            old(self).next_tag() < u64::MAX,
        ensures
            final(self).wf(),
            r.0 == old(self).next_tag(),
            r.1.start == lo,
            r.1.end == hi,
            !old(self).values().contains(r.0),
            final(self).values() == union_if_present(
                union_if_present(old(self).values().introduce(r.0), r.0, lo.0),
                r.0,
                hi.0,
            ),
            final(self).next_tag() == old(self).next_tag() + 1,
            final(self).sites() == old(self).sites(),
            final(self).sites_in_order() == old(self).sites_in_order(),
    {
        let id = self.make_id();
        self.union_and_get_id(&id, &lo.0);
        self.union_and_get_id(&id, &hi.0);
        Tagged(id, lo..hi)
    }

    /// Builds the tracked range `lo..=hi`: the range gets a fresh id, joined
    /// with the ids of both ends.
    pub fn track_range_inclusive<T>(&mut self, lo: Tagged<T>, hi: Tagged<T>) -> (r: Tagged<
        std::ops::RangeInclusive<Tagged<T>>,
    >)
        requires
            old(self).wf(),
            old(self).next_tag() < u64::MAX,
        ensures
            final(self).wf(),
            r.0 == old(self).next_tag(),
            r.1@.start == lo,
            r.1@.end == hi,
            !r.1@.exhausted,
            !old(self).values().contains(r.0),
            final(self).values() == union_if_present(
                union_if_present(old(self).values().introduce(r.0), r.0, lo.0),
                r.0,
                hi.0,
            ),
            final(self).next_tag() == old(self).next_tag() + 1,
            final(self).sites() == old(self).sites(),
            final(self).sites_in_order() == old(self).sites_in_order(),
    {
        let id = self.make_id();
        self.union_and_get_id(&id, &lo.0);
        self.union_and_get_id(&id, &hi.0);
        Tagged(id, lo..=hi)
    }

    /// The report of the analysis: a header line, then the report of every
    /// site in the order of their names.
    pub fn report(&self) -> (text: String)
        requires
            self.wf(),
        ensures
            text@ == report_header() + sites_reports(self.sites_in_order()),
    {
        self.sites.report()
    }
}

} // verus!
