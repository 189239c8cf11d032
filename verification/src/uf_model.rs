use vstd::prelude::*;

use crate::tagger::Id;

verus! {

/// The mathematical picture of a union-find: the ids it holds, in the order
/// they were added, the leader of the set of each id, and the rank of each id.
pub struct UfModel {
    pub ids: Seq<Id>,
    pub leader: Map<Id, Id>,
    pub rank: Map<Id, nat>,
}

impl UfModel {
    /// A model with no ids.
    pub open spec fn empty() -> UfModel {
        UfModel { ids: Seq::empty(), leader: Map::empty(), rank: Map::empty() }
    }

    pub open spec fn contains(self, id: Id) -> bool {
        self.leader.contains_key(id)
    }

    /// The ids whose leader is `l`.
    pub open spec fn set_of(self, l: Id) -> Set<Id> {
        Set::new(|x: Id| self.contains(x) && self.leader[x] == l)
    }

    /// Two ids lie in one set.
    pub open spec fn same_set(self, a: Id, b: Id) -> bool {
        self.contains(a) && self.contains(b) && self.leader[a] == self.leader[b]
    }

    /// The shape every model of a working union-find has.
    pub open spec fn wf(self) -> bool {
        &&& forall|i: int, j: int| 0 <= i < j < self.ids.len() ==> self.ids[i] != self.ids[j]
        &&& forall|id: Id| #[trigger] self.contains(id) <==> self.ids.contains(id)
        &&& forall|id: Id| #[trigger] self.contains(id) ==> self.rank.contains_key(id)
        &&& forall|id: Id| #[trigger] self.contains(id) ==> self.contains(self.leader[id])
        &&& forall|id: Id| #[trigger] self.contains(id) ==> self.leader[self.leader[id]] == self.leader[id]
    }

    /// Adding `id` in a set of its own; nothing changes if it is already there.
    pub open spec fn introduce(self, id: Id) -> UfModel {
        if self.contains(id) {
            self
        } else {
            UfModel {
                ids: self.ids.push(id),
                leader: self.leader.insert(id, id),
                rank: self.rank.insert(id, 0),
            }
        }
    }

    /// The leader of the set that joins the sets of `a` and `b`: the leader of
    /// higher rank, and the leader of `a` when the ranks are equal.
    pub open spec fn union_leader(self, a: Id, b: Id) -> Id {
        let la = self.leader[a];
        let lb = self.leader[b];
        if la == lb {
            la
        } else if self.rank[la] < self.rank[lb] {
            lb
        } else {
            la
        }
    }

    /// Joining the sets of `a` and `b` (both present).
    pub open spec fn union(self, a: Id, b: Id) -> UfModel {
        let la = self.leader[a];
        let lb = self.leader[b];
        let w = self.union_leader(a, b);
        if la == lb {
            self
        } else {
            UfModel {
                ids: self.ids,
                leader: Map::new(
                    |id: Id| self.leader.contains_key(id),
                    |id: Id|
                        if self.leader[id] == la || self.leader[id] == lb {
                            w
                        } else {
                            self.leader[id]
                        },
                ),
                rank: if self.rank[la] == self.rank[lb] {
                    self.rank.insert(w, self.rank[w] + 1)
                } else {
                    self.rank
                },
            }
        }
    }
}

} // verus!
