use vstd::prelude::*;

use std::collections::HashMap;

use crate::tagger::{Id, Tagger};
use crate::uf_model::UfModel;
use vstd::arithmetic::power2::{lemma_pow2_unfold, pow2};
use vstd::arithmetic::power::pow;

verus! {

/// Union-find over `Id`s with union by rank and path compression.
///
/// Each id is stored at an index; `parent` links indices towards the root of
/// their tree. The ghost `reps` records the root of every index, and `roots`
/// the indices that are roots.
pub struct UnionFind {
    id_to_index: HashMap<Id, usize>,
    index_to_set: Vec<Id>,
    parent: Vec<usize>,
    rank: Vec<usize>,
    tagger: Tagger,
    reps: Ghost<Seq<usize>>,
    roots: Ghost<Set<usize>>,
}

impl UnionFind {
    pub closed spec fn size(&self) -> nat {
        self.parent@.len()
    }

    /// The internal invariant: the trees, the ranks along them, the ghost roots,
    /// and the two-way map between ids and indices agree.
    pub closed spec fn wf(&self) -> bool {
        let n = self.parent@.len();
        &&& self.index_to_set@.len() == n
        &&& self.rank@.len() == n
        &&& self.reps@.len() == n
        &&& forall|i: int| 0 <= i < n ==> #[trigger] self.parent@[i] < n
        &&& forall|i: int| 0 <= i < n ==> #[trigger] self.reps@[i] < n
        &&& forall|i: int| 0 <= i < n ==> self.reps@[#[trigger] self.reps@[i] as int] == self.reps@[i]
        &&& forall|i: int| 0 <= i < n ==> self.parent@[#[trigger] self.reps@[i] as int] == self.reps@[i]
        &&& forall|i: int| 0 <= i < n ==> self.reps@[#[trigger] self.parent@[i] as int] == self.reps@[i]
        &&& forall|i: int| 0 <= i < n ==> (#[trigger] self.parent@[i] == i <==> self.reps@[i] == i)
        &&& forall|i: int|
            0 <= i < n && #[trigger] self.parent@[i] != i ==> self.rank@[i] < self.rank@[self.parent@[i] as int]
        &&& forall|i: int|
            0 <= i < n && #[trigger] self.reps@[i] != i ==> self.rank@[i] < self.rank@[self.reps@[i] as int]
        &&& self.roots@.finite()
        &&& forall|i: usize| #[trigger] self.roots@.contains(i) <==> (i < n && self.parent@[i as int] == i)
        &&& self.roots@.len() <= n
        &&& forall|i: int|
            0 <= i < n && #[trigger] self.parent@[i] == i ==> self.rank@[i] + self.roots@.len() <= n
        &&& forall|i: int, j: int|
            0 <= i < n && 0 <= j < n && i != j ==> #[trigger] self.index_to_set@[i] != #[trigger] self.index_to_set@[j]
        &&& forall|i: int|
            0 <= i < n ==> #[trigger] self.id_to_index@.contains_key(self.index_to_set@[i])
                && self.id_to_index@[self.index_to_set@[i]] == i
        &&& forall|id: Id|
            #[trigger] self.id_to_index@.contains_key(id) ==> self.id_to_index@[id] < n
                && self.index_to_set@[self.id_to_index@[id] as int] == id
        &&& forall|id: Id|
            #[trigger] self.id_to_index@.contains_key(id) ==> id < self.tagger.next() || id == u64::MAX
        &&& forall|i: int|
            0 <= i < n && #[trigger] self.parent@[i] == i ==> pow2(self.rank@[i] as nat)
                <= Self::members(self.reps@, i).len()
    }

    /// The indices whose root is `r`.
    spec fn members(reps: Seq<usize>, r: int) -> Set<int> {
        Set::new(|i: int| 0 <= i < reps.len() && reps[i] == r)
    }

    proof fn lemma_members_finite(reps: Seq<usize>, r: int)
        ensures
            Self::members(reps, r).finite(),
            Self::members(reps, r).len() <= reps.len(),
    {
        vstd::set_lib::lemma_int_range(0, reps.len() as int);
        vstd::set_lib::lemma_len_subset(Self::members(reps, r), vstd::set_lib::set_int_range(0, reps.len() as int));
    }

    /// The id is held by the union-find.
    pub closed spec fn contains(&self, id: Id) -> bool {
        self.id_to_index@.contains_key(id)
    }

    /// The leader of the set that holds `id`.
    pub closed spec fn leader(&self, id: Id) -> Id {
        self.index_to_set@[self.reps@[self.id_to_index@[id] as int] as int]
    }

    /// The rank of `id`.
    pub closed spec fn rank_of(&self, id: Id) -> nat {
        self.rank@[self.id_to_index@[id] as int] as nat
    }

    /// The ids held, in the order they were added.
    pub closed spec fn ids(&self) -> Seq<Id> {
        self.index_to_set@
    }

    /// The tag that the next `make_set` hands out.
    pub closed spec fn next_tag(&self) -> nat {
        self.tagger.next()
    }

    /// The partition this union-find stands for.
    pub open spec fn model(&self) -> UfModel {
        UfModel {
            ids: self.ids(),
            leader: Map::new(|id: Id| self.contains(id), |id: Id| self.leader(id)),
            rank: Map::new(|id: Id| self.contains(id), |id: Id| self.rank_of(id)),
        }
    }

    /// The model of a well-formed union-find is well formed.
    pub proof fn lemma_model_wf(&self)
        requires
            self.wf(),
        ensures
            self.model().wf(),
    {
        let m = self.model();
        let n = self.size();
        assert forall|id: Id| #[trigger] m.contains(id) <==> m.ids.contains(id) by {
            if m.contains(id) {
                let i = self.id_to_index@[id] as int;
                assert(m.ids[i] == id);
            }
            if m.ids.contains(id) {
                let i = choose|i: int| 0 <= i < m.ids.len() && m.ids[i] == id;
                assert(self.id_to_index@.contains_key(self.index_to_set@[i]));
            }
        }
        assert forall|id: Id| #[trigger] m.contains(id) implies m.contains(m.leader[id])
            && m.leader[m.leader[id]] == m.leader[id] by {
            let i = self.id_to_index@[id] as int;
            let r = self.reps@[i] as int;
            assert(self.id_to_index@.contains_key(self.index_to_set@[r]));
            assert(self.reps@[r] == r);
        }
    }

    /// Creates an empty union-find whose first fresh set gets tag 0.
    pub fn new() -> (uf: Self)
        ensures
            uf.wf(),
            uf.model() == UfModel::empty(),
            uf.next_tag() == 0,
    {
        let uf = Self {
            id_to_index: HashMap::new(),
            index_to_set: Vec::new(),
            parent: Vec::new(),
            rank: Vec::new(),
            tagger: Tagger::new(),
            reps: Ghost(Seq::empty()),
            roots: Ghost(Set::empty()),
        };
        assert(uf.model().leader =~= Map::empty());
        assert(uf.model().rank =~= Map::empty());
        uf
    }

    /// Whether another fresh set can be made.
    pub fn can_make_set(&self) -> (b: bool)
        ensures
            b == (self.next_tag() < u64::MAX),
    {
        self.tagger.can_tag()
    }

    /// Every rank is below the number of ids held: along each tree the ranks
    /// rise strictly towards the root, and a root's rank plus the number of
    /// roots is at most the number of ids.
    pub proof fn lemma_rank_below_size(&self)
        requires
            self.wf(),
        ensures
            forall|id: Id| #[trigger] self.model().contains(id) ==> self.model().rank[id] < self.model().ids.len(),
    {
        assert forall|id: Id| #[trigger] self.model().contains(id) implies self.model().rank[id] < self.model().ids.len() by {
            let i = self.id_to_index@[id] as int;
            let r = self.reps@[i] as int;
            assert(self.parent@[r] == r);
            assert(self.roots@.contains(r as usize));
            assert(self.roots@.len() >= 1) by {
                vstd::set_lib::lemma_set_empty_equivalency_len(self.roots@);
            }
            if r != i {
                assert(self.rank@[i] < self.rank@[r]);
            }
        }
    }

    /// Union by rank keeps sets large: a leader of rank `k` leads a set of at
    /// least `2^k` ids, so no rank exceeds the base-2 logarithm of the number
    /// of ids held.
    pub proof fn lemma_leader_set_size(&self, l: Id)
        requires
            self.wf(),
            self.model().contains(l),
            self.model().leader[l] == l,
        ensures
            pow2(self.model().rank[l]) <= self.model().set_of(l).len(),
            self.model().set_of(l).finite(),
            pow2(self.model().rank[l]) <= self.model().ids.len(),
    {
        let m = self.model();
        let r = self.id_to_index@[l] as int;
        let rr = self.reps@[r] as int;
        assert(self.index_to_set@[rr] == l);
        assert(self.index_to_set@[r] == l);
        if rr != r {
            assert(self.index_to_set@[rr] != self.index_to_set@[r]);
        }
        assert(self.parent@[r] == r);
        let mem = Self::members(self.reps@, r);
        Self::lemma_members_finite(self.reps@, r);
        let f = |i: int| self.index_to_set@[i];
        let target = m.set_of(l);
        assert forall|x: Id| target.contains(x) <==> #[trigger] mem.map(f).contains(x) by {
            if target.contains(x) {
                let i = self.id_to_index@[x] as int;
                let ri = self.reps@[i] as int;
                assert(self.index_to_set@[ri] == l);
                if ri != r {
                    assert(self.index_to_set@[ri] != self.index_to_set@[r]);
                }
                assert(mem.contains(i) && f(i) == x);
            }
            if mem.map(f).contains(x) {
                let i = choose|i: int| mem.contains(i) && f(i) == x;
                assert(self.id_to_index@.contains_key(self.index_to_set@[i]));
                assert(self.id_to_index@[x] == i);
            }
        }
        assert(mem.map(f) =~= target);
        assert forall|a: int, b: int| mem.contains(a) && mem.contains(b) && #[trigger] f(a) == #[trigger] f(b) implies a == b by {
            if a != b {
                assert(self.index_to_set@[a] != self.index_to_set@[b]);
            }
        }
        assert(vstd::relations::injective_on(f, mem));
        vstd::set_lib::lemma_map_size(mem, target, f);
    }

    /// The parent link of each index.
    pub closed spec fn parent_links(&self) -> Seq<usize> {
        self.parent@
    }

    /// The rank of each index.
    pub closed spec fn ranks(&self) -> Seq<usize> {
        self.rank@
    }

    /// The index at which the held id `id` is stored.
    pub closed spec fn index_of(&self, id: Id) -> usize {
        self.id_to_index@[id]
    }

    /// The root of the tree that holds index `i`.
    pub closed spec fn root_of(&self, i: int) -> usize {
        self.reps@[i]
    }

    /// The indices of the tree whose root is `r`.
    pub closed spec fn tree_of(&self, r: int) -> Set<int> {
        Self::members(self.reps@, r)
    }

    /// The layout that union by rank keeps, whatever operations led to the
    /// union-find: ids, parent links and ranks are stored at the same indices,
    /// ids and indices are found from each other, every parent link stays
    /// within the indices and leads to the root of the tree, ranks rise
    /// strictly towards the root, and a root of rank `k` heads a tree of at
    /// least `2^k` indices.
    pub proof fn lemma_array_invariant(&self)
        requires
            self.wf(),
        ensures
            self.parent_links().len() == self.ids().len(),
            self.ranks().len() == self.ids().len(),
            forall|i: int|
                0 <= i < self.ids().len() ==> self.contains(#[trigger] self.ids()[i]) && self.index_of(
                    self.ids()[i],
                ) == i,
            forall|id: Id|
                #[trigger] self.contains(id) ==> self.index_of(id) < self.ids().len() && self.ids()[self.index_of(
                    id,
                ) as int] == id,
            forall|i: int| 0 <= i < self.ids().len() ==> #[trigger] self.parent_links()[i] < self.ids().len(),
            forall|i: int|
                0 <= i < self.ids().len() ==> #[trigger] self.root_of(i) < self.ids().len()
                    && self.parent_links()[self.root_of(i) as int] == self.root_of(i) && self.root_of(
                    self.parent_links()[i] as int,
                ) == self.root_of(i),
            forall|i: int|
                0 <= i < self.ids().len() && #[trigger] self.parent_links()[i] != i ==> self.ranks()[i]
                    < self.ranks()[self.parent_links()[i] as int],
            forall|i: int|
                0 <= i < self.ids().len() && #[trigger] self.parent_links()[i] == i ==> pow2(
                    self.ranks()[i] as nat,
                ) <= self.tree_of(i).len() && self.tree_of(i).len() <= self.ids().len(),
    {
        assert forall|i: int|
            0 <= i < self.ids().len() implies self.contains(#[trigger] self.ids()[i]) && self.index_of(
                self.ids()[i],
            ) == i by {
            assert(self.id_to_index@.contains_key(self.index_to_set@[i]));
        }
        assert forall|i: int|
            0 <= i < self.ids().len() && #[trigger] self.parent_links()[i] == i implies pow2(
            self.ranks()[i] as nat,
        ) <= self.tree_of(i).len() && self.tree_of(i).len() <= self.ids().len() by {
            Self::lemma_members_finite(self.reps@, i);
        }
    }

    /// Every held id lies below the next tag, or is the largest id.
    pub proof fn lemma_ids_below_next(&self)
        requires
            self.wf(),
        ensures
            forall|id: Id| #[trigger] self.model().contains(id) ==> id < self.next_tag() || id == u64::MAX,
    {
    }

    /// Creates a new set holding the next tag, an id not held before, and
    /// returns that tag.
    pub fn make_set(&mut self) -> (id: Id)
        requires
            old(self).wf(),
            old(self).next_tag() < u64::MAX,
        ensures
            final(self).wf(),
            id == old(self).next_tag(),
            !old(self).model().contains(id),
            final(self).next_tag() == old(self).next_tag() + 1,
            final(self).model() == old(self).model().introduce(id),
    {
        let id = self.tagger.tag();
        assert(self.model() =~= old(self).model()) by {
            assert(self.model().leader =~= old(self).model().leader);
            assert(self.model().rank =~= old(self).model().rank);
        }
        self.introduce_tag(id)
    }

    /// Adds `id` to the union-find in a set of its own, and returns it.
    /// If `id` is already held, nothing changes. Fresh tags are kept above
    /// every held id: a new id at or past the next tag moves the next tag
    /// past it.
    pub fn introduce_tag(&mut self, id: Id) -> (r: Id)
        requires
            old(self).wf(),
        ensures
            final(self).wf(),
            r == id,
            final(self).model() == old(self).model().introduce(id),
            final(self).next_tag() == if !old(self).model().contains(id) && old(self).next_tag() <= id
                < u64::MAX {
                id + 1
            } else {
                old(self).next_tag() as int
            },
    {
        if self.id_to_index.contains_key(&id) {
            return id;
        }
        let ghost old_self = *self;
        let index = self.parent.len();
        self.id_to_index.insert(id, index);
        self.index_to_set.push(id);
        self.parent.push(index);
        self.rank.push(0);
        proof {
            self.reps@ = self.reps@.push(index);
            self.roots@ = self.roots@.insert(index);
        }
        assert(!old_self.roots@.contains(index));
        let ghost n = self.parent@.len();
        assert forall|i: int, j: int|
            0 <= i < n && 0 <= j < n && i != j implies #[trigger] self.index_to_set@[i]
                != #[trigger] self.index_to_set@[j] by {
            if i < n - 1 && j < n - 1 {
                assert(old_self.index_to_set@[i] != old_self.index_to_set@[j]);
            } else if i < n - 1 {
                assert(old_self.id_to_index@.contains_key(old_self.index_to_set@[i]));
            } else {
                assert(old_self.id_to_index@.contains_key(old_self.index_to_set@[j]));
            }
        }
        assert forall|i: int|
            0 <= i < n implies #[trigger] self.id_to_index@.contains_key(self.index_to_set@[i])
                && self.id_to_index@[self.index_to_set@[i]] == i by {
            if i < n - 1 {
                assert(old_self.id_to_index@.contains_key(old_self.index_to_set@[i]));
            }
        }
        assert forall|i: int|
            0 <= i < n && #[trigger] self.parent@[i] == i implies pow2(self.rank@[i] as nat)
                <= Self::members(self.reps@, i).len() by {
            if i < n - 1 {
                assert(Self::members(self.reps@, i) =~= Self::members(old_self.reps@, i));
            } else {
                assert(Self::members(self.reps@, i) =~= set![i]);
                assert(pow2(0) == 1) by {
                    reveal(pow);
                }
            }
        }
        proof {
            let m0 = old_self.model().introduce(id);
            let m1 = self.model();
            assert(m1.leader =~= m0.leader);
            assert(m1.rank =~= m0.rank);
            assert(m1 == old(self).model().introduce(id));
        }
        let ghost before = self.model();
        if id < u64::MAX {
            self.tagger.advance_past(id);
        }
        assert(self.model().leader =~= before.leader);
        assert(self.model().rank =~= before.rank);
        id
    }

    /// The index at which `id` is stored.
    fn get_index(&self, id: &Id) -> (r: Option<usize>)
        requires
            self.wf(),
        ensures
            r is Some <==> self.contains(*id),
            r matches Some(i) ==> i == self.id_to_index@[*id] && i < self.size(),
    {
        match self.id_to_index.get(id) {
            Some(i) => Some(*i),
            None => None,
        }
    }

    /// Finds the leader of the set that holds `id`, compressing the path
    /// from `id` to it. `None` when `id` is not held.
    pub fn find(&mut self, id: &Id) -> (r: Option<Id>)
        requires
            old(self).wf(),
        ensures
            final(self).wf(),
            final(self).model() == old(self).model(),
            final(self).next_tag() == old(self).next_tag(),
            r is Some <==> old(self).model().contains(*id),
            r matches Some(l) ==> l == old(self).model().leader[*id],
    {
        let index = self.get_index(id)?;
        let leader_index = self.find_index(index);
        assert(self.model() =~= old(self).model()) by {
            assert(self.model().leader =~= old(self).model().leader);
            assert(self.model().rank =~= old(self).model().rank);
        }
        Some(self.index_to_set[leader_index])
    }

    /// Joins the sets holding `id1` and `id2`, and returns the leader of the
    /// joined set. `None`, with nothing changed, when either id is not held.
    pub fn union_tags(&mut self, id1: &Id, id2: &Id) -> (r: Option<Id>)
        requires
            old(self).wf(),
        ensures
            final(self).wf(),
            final(self).next_tag() == old(self).next_tag(),
            r is Some <==> (old(self).model().contains(*id1) && old(self).model().contains(*id2)),
            r is None ==> final(self).model() == old(self).model(),
            r matches Some(l) ==> l == old(self).model().union_leader(*id1, *id2)
                && final(self).model() == old(self).model().union(*id1, *id2),
    {
        let i1 = self.get_index(id1)?;
        let i2 = self.get_index(id2)?;
        let leader_index = self.union_indices(i1, i2);
        Some(self.index_to_set[leader_index])
    }

    /// The leader of the set that holds `id`, found without changing the
    /// union-find. `None` when `id` is not held.
    pub fn leader_of(&self, id: &Id) -> (r: Option<Id>)
        requires
            self.wf(),
        ensures
            r is Some <==> self.model().contains(*id),
            r matches Some(l) ==> l == self.model().leader[*id],
    {
        let index = self.get_index(id)?;
        let ghost rep = self.reps@[index as int];
        let mut x = index;
        while self.parent[x] != x
            invariant
                self.wf(),
                x < self.size(),
                self.reps@[x as int] == rep,
            decreases self.rank@[rep as int] - self.rank@[x as int],
        {
            x = self.parent[x];
        }
        Some(self.index_to_set[x])
    }

    /// Finds the root of the tree holding index `x`, and points `x` straight at it.
    fn find_index(&mut self, x: usize) -> (r: usize)
        requires
            old(self).wf(),
            x < old(self).size(),
        ensures
            final(self).wf(),
            r == old(self).reps@[x as int],
            final(self).reps@ == old(self).reps@,
            final(self).rank@ == old(self).rank@,
            final(self).index_to_set@ == old(self).index_to_set@,
            final(self).id_to_index@ == old(self).id_to_index@,
            final(self).roots@ == old(self).roots@,
            final(self).tagger == old(self).tagger,
            final(self).size() == old(self).size(),
        decreases usize::MAX - old(self).rank@[x as int],
    {
        let p = self.parent[x];
        if p != x {
            let ghost mid = *self;
            let r = self.find_index(p);
            self.parent.set(x, r);
            let ghost n = self.parent@.len();
            assert forall|i: int|
                0 <= i < n && #[trigger] self.parent@[i] == i implies pow2(self.rank@[i] as nat)
                    <= Self::members(self.reps@, i).len() by {
                if i == x {
                    assert(old(self).parent@[old(self).reps@[i] as int] == old(self).reps@[i]);
                }
                assert(mid.parent@[i] == i);
            }
            assert forall|i: int| 0 <= i < n implies self.reps@[#[trigger] self.parent@[i] as int]
                == self.reps@[i] by {
                if i == x {
                    assert(self.reps@[self.reps@[i] as int] == self.reps@[i]);
                }
            }
        }
        self.parent[x]
    }

    /// Every index whose root was `loser` now has root `winner`.
    spec fn relinked(reps: Seq<usize>, winner: usize, loser: usize) -> Seq<usize> {
        Seq::new(reps.len(), |i: int| if reps[i] == loser { winner } else { reps[i] })
    }

    /// `s2` is `s1` with root `loser` linked under root `winner`, the rank of
    /// `winner` raised when the two ranks were equal.
    spec fn linked(s1: UnionFind, s2: UnionFind, winner: usize, loser: usize) -> bool {
        &&& s2.parent@ == s1.parent@.update(loser as int, winner)
        &&& s2.rank@ == if s1.rank@[winner as int] == s1.rank@[loser as int] {
            s1.rank@.update(winner as int, (s1.rank@[winner as int] + 1) as usize)
        } else {
            s1.rank@
        }
        &&& s2.reps@ == Self::relinked(s1.reps@, winner, loser)
        &&& s2.roots@ == s1.roots@.remove(loser)
        &&& s2.index_to_set@ == s1.index_to_set@
        &&& s2.id_to_index@ == s1.id_to_index@
        &&& s2.tagger == s1.tagger
    }

    proof fn lemma_linked_wf(s1: UnionFind, s2: UnionFind, winner: usize, loser: usize)
        requires
            s1.wf(),
            winner < s1.size(),
            loser < s1.size(),
            winner != loser,
            s1.parent@[winner as int] == winner,
            s1.parent@[loser as int] == loser,
            s1.rank@[loser as int] <= s1.rank@[winner as int],
            s1.rank@[winner as int] < usize::MAX,
            Self::linked(s1, s2, winner, loser),
        ensures
            s2.wf(),
    {
        let n = s1.parent@.len();
        assert(s1.roots@.contains(winner));
        assert(s1.roots@.contains(loser));
        assert(s1.roots@.remove(loser).contains(winner));
        assert(s2.roots@.len() + 1 == s1.roots@.len());
        assert forall|i: int| 0 <= i < n implies s2.reps@[#[trigger] s2.parent@[i] as int]
            == s2.reps@[i] by {
            if i != loser {
                assert(s1.reps@[s1.parent@[i] as int] == s1.reps@[i]);
            }
        }
        assert forall|i: int| 0 <= i < n implies s2.parent@[#[trigger] s2.reps@[i] as int]
            == s2.reps@[i] by {
            assert(s1.parent@[s1.reps@[i] as int] == s1.reps@[i]);
        }
        assert forall|i: int| 0 <= i < n implies s2.reps@[#[trigger] s2.reps@[i] as int]
            == s2.reps@[i] by {
            assert(s1.reps@[s1.reps@[i] as int] == s1.reps@[i]);
        }
        assert forall|i: int| 0 <= i < n implies (#[trigger] s2.parent@[i] == i <==> s2.reps@[i]
            == i) by {
            assert(s1.parent@[i] == i <==> s1.reps@[i] == i);
        }
        assert forall|i: int|
            0 <= i < n && #[trigger] s2.parent@[i] != i implies s2.rank@[i]
                < s2.rank@[s2.parent@[i] as int] by {
            if i != loser && s1.parent@[i] != i {
                assert(s1.rank@[i] < s1.rank@[s1.parent@[i] as int]);
            }
        }
        assert forall|i: int|
            0 <= i < n && #[trigger] s2.reps@[i] != i implies s2.rank@[i]
                < s2.rank@[s2.reps@[i] as int] by {
            if s1.reps@[i] != i {
                assert(s1.rank@[i] < s1.rank@[s1.reps@[i] as int]);
            }
        }
        assert forall|i: usize| #[trigger] s2.roots@.contains(i) <==> (i < n
            && s2.parent@[i as int] == i) by {
            assert(s1.roots@.contains(i) <==> (i < n && s1.parent@[i as int] == i));
        }
        assert forall|i: int|
            0 <= i < n && #[trigger] s2.parent@[i] == i implies s2.rank@[i] + s2.roots@.len()
                <= n by {
            assert(s1.rank@[i] + s1.roots@.len() <= n);
        }
        let w = winner as int;
        let l = loser as int;
        let mw = Self::members(s1.reps@, w);
        let ml = Self::members(s1.reps@, l);
        Self::lemma_members_finite(s1.reps@, w);
        Self::lemma_members_finite(s1.reps@, l);
        assert(Self::members(s2.reps@, w) =~= mw + ml);
        assert(mw.disjoint(ml));
        vstd::set_lib::lemma_set_disjoint_lens(mw, ml);
        assert(pow2(s1.rank@[w] as nat) <= mw.len());
        assert(pow2(s1.rank@[l] as nat) <= ml.len());
        if s1.rank@[w] == s1.rank@[l] {
            lemma_pow2_unfold((s1.rank@[w] + 1) as nat);
        }
        assert forall|i: int|
            0 <= i < n && #[trigger] s2.parent@[i] == i implies pow2(s2.rank@[i] as nat)
                <= Self::members(s2.reps@, i).len() by {
            if i != w {
                assert(i != l);
                assert(Self::members(s2.reps@, i) =~= Self::members(s1.reps@, i));
                assert(s1.parent@[i] == i);
            }
        }
    }

    proof fn lemma_linked_model(
        s1: UnionFind,
        s2: UnionFind,
        winner: usize,
        loser: usize,
        x: usize,
        y: usize,
    )
        requires
            s1.wf(),
            x < s1.size(),
            y < s1.size(),
            s1.reps@[x as int] != s1.reps@[y as int],
            winner == s1.reps@[x as int] || winner == s1.reps@[y as int],
            loser == s1.reps@[x as int] || loser == s1.reps@[y as int],
            winner != loser,
            s1.rank@[winner as int] < usize::MAX,
            winner == s1.reps@[y as int] <==> s1.rank@[s1.reps@[x as int] as int]
                < s1.rank@[s1.reps@[y as int] as int],
            Self::linked(s1, s2, winner, loser),
        ensures
            s2.model() == s1.model().union(s1.index_to_set@[x as int], s1.index_to_set@[y as int]),
            s1.model().union_leader(s1.index_to_set@[x as int], s1.index_to_set@[y as int])
                == s1.index_to_set@[winner as int],
    {
        let a = s1.index_to_set@[x as int];
        let b = s1.index_to_set@[y as int];
        let xr = s1.reps@[x as int];
        let yr = s1.reps@[y as int];
        let m0 = s1.model();
        let m1 = s2.model();
        let mu = m0.union(a, b);
        assert(s1.id_to_index@.contains_key(a));
        assert(s1.id_to_index@.contains_key(b));
        assert(s1.id_to_index@.contains_key(s1.index_to_set@[xr as int]));
        assert(s1.id_to_index@.contains_key(s1.index_to_set@[yr as int]));
        assert(m0.leader[a] == s1.index_to_set@[xr as int]);
        assert(m0.leader[b] == s1.index_to_set@[yr as int]);
        assert(m0.rank[m0.leader[a]] == s1.rank@[xr as int]);
        assert(m0.rank[m0.leader[b]] == s1.rank@[yr as int]);
        assert forall|id: Id| #[trigger] m1.leader.contains_key(id) implies m1.leader[id]
            == mu.leader[id] by {
            let i = s1.id_to_index@[id] as int;
            let ri = s1.reps@[i] as int;
            assert(s1.id_to_index@.contains_key(s1.index_to_set@[ri]));
        }
        assert(m1.leader =~= mu.leader);
        let w = s1.index_to_set@[winner as int];
        assert(m0.union_leader(a, b) == w);
        if s1.rank@[xr as int] == s1.rank@[yr as int] {
            assert(s1.id_to_index@.contains_key(s1.index_to_set@[winner as int]));
            assert(m0.rank[w] == s1.rank@[winner as int]);
            assert(mu.rank == m0.rank.insert(w, m0.rank[w] + 1));
            assert forall|id: Id| #[trigger] m1.rank.contains_key(id) implies m1.rank[id]
                == mu.rank[id] by {
                let i = s1.id_to_index@[id] as int;
                assert(s1.id_to_index@.contains_key(s1.index_to_set@[winner as int]));
                assert(s1.index_to_set@[i] == id);
                if i != winner as int {
                    assert(s1.index_to_set@[i] != s1.index_to_set@[winner as int]);
                }
            }
            assert(m1.rank =~= mu.rank);
        } else {
            assert(m1.rank =~= mu.rank);
        }
        assert(m1 =~= mu);
    }

    /// Joins the trees holding indices `x` and `y` by rank, and returns the
    /// root of the joined tree.
    fn union_indices(&mut self, x: usize, y: usize) -> (r: usize)
        requires
            old(self).wf(),
            x < old(self).size(),
            y < old(self).size(),
        ensures
            final(self).wf(),
            r < final(self).size(),
            final(self).index_to_set@[r as int] == old(self).model().union_leader(
                old(self).index_to_set@[x as int],
                old(self).index_to_set@[y as int],
            ),
            final(self).model() == old(self).model().union(
                old(self).index_to_set@[x as int],
                old(self).index_to_set@[y as int],
            ),
            final(self).tagger == old(self).tagger,
    {
        let ghost s0 = *self;
        let x_root = self.find_index(x);
        let y_root = self.find_index(y);
        let ghost s1 = *self;
        assert(s1.model() =~= s0.model()) by {
            assert(s1.model().leader =~= s0.model().leader);
            assert(s1.model().rank =~= s0.model().rank);
        }
        if x_root == y_root {
            proof {
                assert(s0.id_to_index@.contains_key(s0.index_to_set@[x as int]));
                assert(s0.id_to_index@.contains_key(s0.index_to_set@[y as int]));
            }
            return x_root;
        }
        let rx = self.rank[x_root];
        let ry = self.rank[y_root];
        let len = self.rank.len();
        proof {
            assert(s1.roots@.contains(x_root));
            assert(s1.roots@.contains(y_root));
            assert(s1.roots@.remove(y_root).contains(x_root));
            assert(s1.rank@[x_root as int] + s1.roots@.len() <= len);
        }
        let (winner, loser) = if rx < ry {
            (y_root, x_root)
        } else {
            (x_root, y_root)
        };
        self.parent.set(loser, winner);
        if rx == ry {
            self.rank.set(winner, rx + 1);
        }
        proof {
            self.reps@ = Self::relinked(s1.reps@, winner, loser);
            self.roots@ = s1.roots@.remove(loser);
            assert(self.parent@ =~= s1.parent@.update(loser as int, winner));
            if rx == ry {
                assert(self.rank@ =~= s1.rank@.update(winner as int, (s1.rank@[winner as int] + 1) as usize));
            } else {
                assert(self.rank@ =~= s1.rank@);
            }
            Self::lemma_linked_wf(s1, *self, winner, loser);
            Self::lemma_linked_model(s1, *self, winner, loser, x, y);
        }
        winner
    }
}

} // verus!
