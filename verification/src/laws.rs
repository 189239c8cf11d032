use vstd::prelude::*;

use crate::analysis::{union_chain, union_if_present};
use crate::site::{stored_leader, update_all, update_step, Site};
use crate::tagged::{inclusive_steps, steps_between};
use crate::tagger::Id;
use crate::uf_model::UfModel;

verus! {

/// Adding an id keeps a partition well formed.
pub proof fn law_introduce_wf(m: UfModel, id: Id)
    requires
        m.wf(),
    ensures
        m.introduce(id).wf(),
{
    let m2 = m.introduce(id);
    if !m.contains(id) {
        assert forall|x: Id| #[trigger] m2.contains(x) <==> m2.ids.contains(x) by {
            if x != id && m.contains(x) {
                let i = choose|i: int| 0 <= i < m.ids.len() && m.ids[i] == x;
                assert(m2.ids[i] == x);
            }
            if x == id {
                assert(m2.ids[m.ids.len() as int] == id);
            }
            if m2.ids.contains(x) && x != id {
                let i = choose|i: int| 0 <= i < m2.ids.len() && m2.ids[i] == x;
                assert(m.ids[i] == x);
            }
        }
        assert forall|i: int, j: int| 0 <= i < j < m2.ids.len() implies m2.ids[i] != m2.ids[j] by {
            if j == m.ids.len() {
                assert(m.ids.contains(m.ids[i]));
            }
        }
        assert forall|x: Id| #[trigger] m2.contains(x) implies m2.rank.contains_key(x) && m2.contains(
            m2.leader[x],
        ) && m2.leader[m2.leader[x]] == m2.leader[x] by {
            if x != id {
                assert(m.contains(x));
                assert(m.contains(m.leader[x]));
            }
        }
    }
}

/// A new id stands in a set of its own, and every other id keeps its set.
pub proof fn law_introduce_fresh(m: UfModel, id: Id, x: Id, y: Id)
    requires
        m.wf(),
        !m.contains(id),
    ensures
        m.introduce(id).contains(id),
        m.introduce(id).leader[id] == id,
        m.introduce(id).same_set(id, x) <==> x == id,
        x != id && y != id ==> (m.introduce(id).same_set(x, y) <==> m.same_set(x, y)),
{
    if x != id && m.contains(x) {
        assert(m.contains(m.leader[x]));
    }
}

/// Adding an id that is already held changes nothing.
pub proof fn law_introduce_present(m: UfModel, id: Id)
    requires
        m.contains(id),
    ensures
        m.introduce(id) == m,
{
}

/// Joining two sets keeps a partition well formed.
pub proof fn law_union_wf(m: UfModel, a: Id, b: Id)
    requires
        m.wf(),
        m.contains(a),
        m.contains(b),
    ensures
        m.union(a, b).wf(),
{
    let m2 = m.union(a, b);
    let la = m.leader[a];
    let lb = m.leader[b];
    if la != lb {
        assert forall|x: Id| #[trigger] m2.contains(x) implies m2.contains(m2.leader[x])
            && m2.leader[m2.leader[x]] == m2.leader[x] by {
            let w = m.union_leader(a, b);
            assert(m.contains(x));
            assert(m.contains(a) && m.contains(b));
            assert(m.leader[la] == la);
            assert(m.leader[lb] == lb);
            assert(m.contains(m.leader[x]));
            assert(m.leader[m.leader[x]] == m.leader[x]);
            assert(m.contains(w));
        }
        assert forall|x: Id| #[trigger] m2.contains(x) implies m2.rank.contains_key(x) by {
            assert(m.contains(x));
        }
        assert forall|x: Id| #[trigger] m2.contains(x) <==> m2.ids.contains(x) by {
            assert(m.contains(x) <==> m.ids.contains(x));
        }
    }
}

/// After joining the sets of `a` and `b`, two ids share a set exactly when
/// they shared one before, or each was in the set of `a` or of `b`.
pub proof fn law_union_same_set(m: UfModel, a: Id, b: Id, x: Id, y: Id)
    requires
        m.wf(),
        m.contains(a),
        m.contains(b),
    ensures
        m.union(a, b).same_set(x, y) <==> (m.same_set(x, y) || ((m.same_set(x, a) || m.same_set(
            x,
            b,
        )) && (m.same_set(y, a) || m.same_set(y, b)))),
{
}

/// Joining makes `a` and `b` share a set, led by the leader the union reports.
pub proof fn law_union_joins(m: UfModel, a: Id, b: Id)
    requires
        m.wf(),
        m.contains(a),
        m.contains(b),
    ensures
        m.union(a, b).same_set(a, b),
        m.union(a, b).leader[a] == m.union_leader(a, b),
        m.union_leader(a, b) == m.leader[a] || m.union_leader(a, b) == m.leader[b],
{
}

/// The partition after a join does not depend on the order of its arguments.
pub proof fn law_union_symmetric(m: UfModel, a: Id, b: Id, x: Id, y: Id)
    requires
        m.wf(),
        m.contains(a),
        m.contains(b),
    ensures
        m.union(a, b).same_set(x, y) <==> m.union(b, a).same_set(x, y),
{
    law_union_same_set(m, a, b, x, y);
    law_union_same_set(m, b, a, x, y);
}

/// Joining two ids that already share a set changes nothing.
pub proof fn law_union_idempotent(m: UfModel, a: Id, b: Id)
    requires
        m.wf(),
        m.contains(a),
        m.contains(b),
    ensures
        m.union(a, b).union(a, b) == m.union(a, b),
{
    law_union_joins(m, a, b);
}

/// Joining never changes which ids are held, nor their order.
pub proof fn law_union_keeps_ids(m: UfModel, a: Id, b: Id)
    requires
        m.contains(a),
        m.contains(b),
    ensures
        m.union(a, b).ids == m.ids,
        forall|x: Id| #[trigger] m.union(a, b).contains(x) <==> m.contains(x),
{
}

/// A binary operation between two tracked values puts the result, the left
/// operand and the right operand in one set, the result's tag being fresh.
pub proof fn law_operation_joins(m: UfModel, res: Id, lhs: Id, rhs: Id)
    requires
        m.wf(),
        m.contains(lhs),
        m.contains(rhs),
        !m.contains(res),
    ensures
        ({
            let m2 = union_if_present(union_if_present(m.introduce(res), lhs, rhs), res, lhs);
            &&& m2.wf()
            &&& m2.same_set(res, lhs)
            &&& m2.same_set(lhs, rhs)
        }),
{
    let m0 = m.introduce(res);
    law_introduce_wf(m, res);
    let m1 = union_if_present(m0, lhs, rhs);
    law_union_wf(m0, lhs, rhs);
    law_union_joins(m0, lhs, rhs);
    let m2 = union_if_present(m1, res, lhs);
    law_union_wf(m1, res, lhs);
    law_union_joins(m1, res, lhs);
    law_union_same_set(m1, res, lhs, lhs, rhs);
}

/// Once a site has been updated, every variable seen at it has a recorded type.
pub proof fn law_update_binds_every_variable(
    types: UfModel,
    vars: Map<Seq<char>, Id>,
    values: UfModel,
    entries: Seq<(Seq<char>, Id)>,
)
    requires
        update_all(types, vars, values, entries) is Some,
    ensures
        ({
            let vars2 = update_all(types, vars, values, entries).unwrap().1;
            &&& forall|k: Seq<char>| #[trigger] vars.contains_key(k) ==> vars2.contains_key(k)
            &&& forall|i: int| 0 <= i < entries.len() ==> vars2.contains_key(#[trigger] entries[i].0)
            &&& forall|k: Seq<char>|
                #[trigger] vars2.contains_key(k) ==> vars.contains_key(k) || exists|i: int|
                    0 <= i < entries.len() && entries[i].0 == k
        }),
    decreases entries.len(),
{
    if entries.len() > 0 {
        let prefix = entries.drop_last();
        law_update_binds_every_variable(types, vars, values, prefix);
        let vars2 = update_all(types, vars, values, entries).unwrap().1;
        let vars1 = update_all(types, vars, values, prefix).unwrap().1;
        assert forall|k: Seq<char>| #[trigger] vars2.contains_key(k) implies vars.contains_key(k)
            || exists|i: int| 0 <= i < entries.len() && entries[i].0 == k by {
            if k != entries.last().0 {
                assert(vars1.contains_key(k));
                if !vars.contains_key(k) {
                    let i = choose|i: int| 0 <= i < prefix.len() && prefix[i].0 == k;
                    assert(entries[i].0 == k);
                }
            }
        }
        assert forall|i: int| 0 <= i < entries.len() implies vars2.contains_key(
            #[trigger] entries[i].0,
        ) by {
            if i < entries.len() - 1 {
                assert(prefix[i] == entries[i]);
            }
        }
    }
}

/// One step of an update, on a well-formed state whose recorded tags are
/// all types, takes the new value's leader into the types, puts the variable
/// in its type and in the type it had, and keeps every type joined before.
proof fn lemma_step(
    types: UfModel,
    vars: Map<Seq<char>, Id>,
    values: UfModel,
    e: (Seq<char>, Id),
)
    requires
        types.wf(),
        forall|k: Seq<char>| #[trigger] vars.contains_key(k) ==> types.contains(vars[k]),
        values.contains(e.1),
    ensures
        update_step(types, vars, values, e) is Some,
        ({
            let (t, v) = update_step(types, vars, values, e).unwrap();
            &&& t.wf()
            &&& forall|k: Seq<char>| #[trigger] v.contains_key(k) ==> t.contains(v[k])
            &&& forall|k: Seq<char>| #[trigger] vars.contains_key(k) ==> v.contains_key(k)
            &&& forall|k: Seq<char>| #[trigger] v.contains_key(k) ==> vars.contains_key(k) || k == e.0
            &&& forall|k: Seq<char>| k != e.0 && #[trigger] vars.contains_key(k) ==> v[k] == vars[k]
            &&& v.contains_key(e.0)
            &&& t.same_set(v[e.0], values.leader[e.1])
            &&& vars.contains_key(e.0) ==> t.same_set(v[e.0], stored_leader(values, vars[e.0]))
            &&& forall|x: Id| #[trigger] types.contains(x) ==> t.contains(x)
            &&& forall|x: Id, y: Id| #[trigger] types.same_set(x, y) ==> t.same_set(x, y)
        }),
{
    let var = e.0;
    let l = values.leader[e.1];
    let t1 = types.introduce(l);
    law_introduce_wf(types, l);
    assert forall|x: Id, y: Id| #[trigger] types.same_set(x, y) implies t1.same_set(x, y) by {
        lemma_introduce_keeps_sets(types, l, x, y);
    }
    if vars.contains_key(var) {
        let ot = vars[var];
        let ol = stored_leader(values, ot);
        let t2 = t1.introduce(ol);
        law_introduce_wf(t1, ol);
        let t4 = t2.union(ol, l);
        law_union_wf(t2, ol, l);
        law_union_joins(t2, ol, l);
        law_union_keeps_ids(t2, ol, l);
        let w = t2.union_leader(ol, l);
        let (t, v) = update_step(types, vars, values, e).unwrap();
        assert(t == t4 && v == vars.insert(var, w));
        assert(t2.contains(w));
        law_union_same_set(t2, ol, l, w, l);
        law_union_same_set(t2, ol, l, w, ol);
        assert forall|x: Id, y: Id| #[trigger] types.same_set(x, y) implies t.same_set(x, y) by {
            assert(t1.same_set(x, y));
            lemma_introduce_keeps_sets(t1, ol, x, y);
            law_union_same_set(t2, ol, l, x, y);
        }
        assert forall|k: Seq<char>| #[trigger] v.contains_key(k) implies t.contains(v[k]) by {
            if k != var {
                assert(types.contains(vars[k]));
            }
        }
    } else {
        let (t, v) = update_step(types, vars, values, e).unwrap();
        assert(t == t1);
        assert forall|k: Seq<char>| #[trigger] v.contains_key(k) implies t.contains(v[k]) by {
            if k != var {
                assert(types.contains(vars[k]));
            }
        }
    }
}

/// Every type tag recorded by an update names a set of the site's types,
/// when every tag recorded before did.
pub proof fn law_update_tags_are_types(
    types: UfModel,
    vars: Map<Seq<char>, Id>,
    values: UfModel,
    entries: Seq<(Seq<char>, Id)>,
)
    requires
        types.wf(),
        forall|k: Seq<char>| #[trigger] vars.contains_key(k) ==> types.contains(vars[k]),
        update_all(types, vars, values, entries) is Some,
    ensures
        ({
            let (types2, vars2) = update_all(types, vars, values, entries).unwrap();
            &&& types2.wf()
            &&& forall|k: Seq<char>| #[trigger] vars2.contains_key(k) ==> types2.contains(vars2[k])
        }),
{
    lemma_update_tags_known(types, vars, values, entries);
    lemma_update_shape(types, vars, values, entries);
}

/// Within one update, on a well-formed state whose recorded tags are all
/// types, the update goes through, and the recorded tags stay types.
proof fn lemma_update_shape(
    types: UfModel,
    vars: Map<Seq<char>, Id>,
    values: UfModel,
    entries: Seq<(Seq<char>, Id)>,
)
    requires
        types.wf(),
        forall|k: Seq<char>| #[trigger] vars.contains_key(k) ==> types.contains(vars[k]),
        forall|i: int| 0 <= i < entries.len() ==> values.contains(#[trigger] entries[i].1),
    ensures
        update_all(types, vars, values, entries) is Some,
        ({
            let (types2, vars2) = update_all(types, vars, values, entries).unwrap();
            &&& types2.wf()
            &&& forall|k: Seq<char>| #[trigger] vars2.contains_key(k) ==> types2.contains(vars2[k])
        }),
    decreases entries.len(),
{
    if entries.len() > 0 {
        let prefix = entries.drop_last();
        assert forall|i: int| 0 <= i < prefix.len() implies values.contains(#[trigger] prefix[i].1) by {
            assert(prefix[i] == entries[i]);
        }
        lemma_update_shape(types, vars, values, prefix);
        let (t0, v0) = update_all(types, vars, values, prefix).unwrap();
        let e = entries.last();
        assert(e == entries[entries.len() - 1]);
        lemma_step(t0, v0, values, e);
    }
}

/// An update only joins: two ids in one type before it are in one type after.
pub proof fn law_update_keeps_joined(
    types: UfModel,
    vars: Map<Seq<char>, Id>,
    values: UfModel,
    entries: Seq<(Seq<char>, Id)>,
    x: Id,
    y: Id,
)
    requires
        types.wf(),
        forall|k: Seq<char>| #[trigger] vars.contains_key(k) ==> types.contains(vars[k]),
        update_all(types, vars, values, entries) is Some,
        types.same_set(x, y),
    ensures
        update_all(types, vars, values, entries).unwrap().0.same_set(x, y),
    decreases entries.len(),
{
    if entries.len() > 0 {
        let prefix = entries.drop_last();
        lemma_update_tags_known(types, vars, values, entries);
        assert forall|i: int| 0 <= i < prefix.len() implies values.contains(#[trigger] prefix[i].1) by {
            assert(prefix[i] == entries[i]);
        }
        lemma_update_shape(types, vars, values, prefix);
        law_update_keeps_joined(types, vars, values, prefix, x, y);
        let (t0, v0) = update_all(types, vars, values, prefix).unwrap();
        let e = entries.last();
        assert(e == entries[entries.len() - 1]);
        lemma_step(t0, v0, values, e);
    }
}

/// Every id of `types` is held in `values`, in one type with the leader of
/// its value set.
pub open spec fn types_follow_values(types: UfModel, values: UfModel) -> bool {
    forall|x: Id|
        #[trigger] types.contains(x) ==> values.contains(x) && types.same_set(x, values.leader[x])
}

/// Adding an id keeps every two held ids in one set exactly when they were.
proof fn lemma_introduce_keeps_sets(m: UfModel, id: Id, x: Id, y: Id)
    requires
        m.wf(),
        m.contains(x),
        m.contains(y),
    ensures
        m.introduce(id).same_set(x, y) <==> m.same_set(x, y),
{
    if !m.contains(id) {
        law_introduce_fresh(m, id, x, y);
    }
}

/// Within one update, a variable ends up in the type of the value set of
/// every value it was seen holding; the state keeps its shape.
proof fn lemma_update_types(
    types: UfModel,
    vars: Map<Seq<char>, Id>,
    values: UfModel,
    entries: Seq<(Seq<char>, Id)>,
)
    requires
        values.wf(),
        types.wf(),
        types_follow_values(types, values),
        forall|k: Seq<char>| #[trigger] vars.contains_key(k) ==> types.contains(vars[k]),
        forall|i: int| 0 <= i < entries.len() ==> values.contains(#[trigger] entries[i].1),
    ensures
        update_all(types, vars, values, entries) is Some,
        ({
            let (types2, vars2) = update_all(types, vars, values, entries).unwrap();
            &&& types2.wf()
            &&& types_follow_values(types2, values)
            &&& forall|k: Seq<char>| #[trigger] vars2.contains_key(k) ==> types2.contains(vars2[k])
            &&& forall|i: int|
                0 <= i < entries.len() ==> vars2.contains_key(#[trigger] entries[i].0)
                    && types2.same_set(vars2[entries[i].0], values.leader[entries[i].1])
        }),
    decreases entries.len(),
{
    if entries.len() > 0 {
        let prefix = entries.drop_last();
        assert forall|i: int| 0 <= i < prefix.len() implies values.contains(#[trigger] prefix[i].1) by {
            assert(prefix[i] == entries[i]);
        }
        lemma_update_types(types, vars, values, prefix);
        law_update_binds_every_variable(types, vars, values, prefix);
        let (t0, v0) = update_all(types, vars, values, prefix).unwrap();
        let e = entries.last();
        let var = e.0;
        let tag = e.1;
        assert(values.contains(tag));
        let l = values.leader[tag];
        let t1 = t0.introduce(l);
        law_introduce_wf(t0, l);
        assert(values.contains(l));
        assert(types_follow_values(t1, values)) by {
            assert forall|x: Id| #[trigger] t1.contains(x) implies values.contains(x) && t1.same_set(
                x,
                values.leader[x],
            ) by {
                if x != l {
                    assert(t0.contains(x));
                    lemma_introduce_keeps_sets(t0, l, x, values.leader[x]);
                }
            }
        }
        if v0.contains_key(var) {
            let old_tag = v0[var];
            let old_leader = values.leader[old_tag];
            assert(t0.contains(old_tag));
            assert(t0.same_set(old_tag, old_leader));
            lemma_introduce_keeps_sets(t0, l, old_tag, old_leader);
            let (t2, v2) = update_all(types, vars, values, entries).unwrap();
            let w = t1.union_leader(old_leader, l);
            law_union_wf(t1, old_leader, l);
            law_union_joins(t1, old_leader, l);
            law_union_keeps_ids(t1, old_leader, l);
            assert(t1.contains(w));
            assert(t2 == t1.union(old_leader, l));
            assert(v2 == v0.insert(var, w));
            assert(t2.same_set(w, l)) by {
                law_union_same_set(t1, old_leader, l, w, l);
            }
            assert(t2.same_set(w, old_tag)) by {
                law_union_same_set(t1, old_leader, l, w, old_tag);
            }
            assert forall|x: Id| #[trigger] t2.contains(x) implies values.contains(x) && t2.same_set(
                x,
                values.leader[x],
            ) by {
                assert(t1.contains(x));
                assert(t1.same_set(x, values.leader[x]));
                law_union_same_set(t1, old_leader, l, x, values.leader[x]);
            }
            assert forall|k: Seq<char>| #[trigger] v2.contains_key(k) implies t2.contains(v2[k]) by {
                if k != var {
                    assert(t1.contains(v0[k]));
                }
            }
            assert forall|i: int| 0 <= i < entries.len() implies v2.contains_key(
                #[trigger] entries[i].0,
            ) && t2.same_set(v2[entries[i].0], values.leader[entries[i].1]) by {
                if i < entries.len() - 1 {
                    let ei = prefix[i];
                    assert(entries[i] == ei);
                    assert(v0.contains_key(ei.0));
                    assert(t0.same_set(v0[ei.0], values.leader[ei.1]));
                    assert(t0.contains(v0[ei.0]));
                    lemma_introduce_keeps_sets(t0, l, v0[ei.0], values.leader[ei.1]);
                    law_union_same_set(t1, old_leader, l, v0[ei.0], values.leader[ei.1]);
                    if ei.0 == var {
                        law_union_same_set(t1, old_leader, l, w, values.leader[ei.1]);
                        law_union_same_set(t1, old_leader, l, old_tag, values.leader[ei.1]);
                    }
                }
            }
        } else {
            let (t2, v2) = update_all(types, vars, values, entries).unwrap();
            assert(t2 == t1);
            assert(v2 == v0.insert(var, l));
            assert forall|k: Seq<char>| #[trigger] v2.contains_key(k) implies t2.contains(v2[k]) by {
                if k != var {
                    assert(t0.contains(v0[k]));
                }
            }
            assert forall|i: int| 0 <= i < entries.len() implies v2.contains_key(
                #[trigger] entries[i].0,
            ) && t2.same_set(v2[entries[i].0], values.leader[entries[i].1]) by {
                if i < entries.len() - 1 {
                    let ei = prefix[i];
                    assert(entries[i] == ei);
                    assert(v0.contains_key(ei.0));
                    assert(t0.same_set(v0[ei.0], values.leader[ei.1]));
                    assert(t0.contains(v0[ei.0]));
                    lemma_introduce_keeps_sets(t0, l, v0[ei.0], values.leader[ei.1]);
                }
            }
        }
    }
}

/// An update that can be carried out saw only values that are held.
proof fn lemma_update_tags_known(
    types: UfModel,
    vars: Map<Seq<char>, Id>,
    values: UfModel,
    entries: Seq<(Seq<char>, Id)>,
)
    requires
        update_all(types, vars, values, entries) is Some,
    ensures
        forall|i: int| 0 <= i < entries.len() ==> values.contains(#[trigger] entries[i].1),
    decreases entries.len(),
{
    if entries.len() > 0 {
        let prefix = entries.drop_last();
        lemma_update_tags_known(types, vars, values, prefix);
        assert forall|i: int| 0 <= i < entries.len() implies values.contains(#[trigger] entries[i].1) by {
            if i < entries.len() - 1 {
                assert(prefix[i] == entries[i]);
            }
        }
    }
}

/// An update can be carried out exactly when every value seen at the site
/// is held in the partition of values.
pub proof fn law_update_succeeds(
    types: UfModel,
    vars: Map<Seq<char>, Id>,
    values: UfModel,
    entries: Seq<(Seq<char>, Id)>,
)
    ensures
        update_all(types, vars, values, entries) is Some <==> forall|i: int|
            0 <= i < entries.len() ==> values.contains(#[trigger] entries[i].1),
    decreases entries.len(),
{
    if update_all(types, vars, values, entries) is Some {
        lemma_update_tags_known(types, vars, values, entries);
    }
    if entries.len() > 0 {
        let prefix = entries.drop_last();
        law_update_succeeds(types, vars, values, prefix);
        if forall|i: int| 0 <= i < entries.len() ==> values.contains(#[trigger] entries[i].1) {
            assert forall|i: int| 0 <= i < prefix.len() implies values.contains(#[trigger] prefix[i].1) by {
                assert(prefix[i] == entries[i]);
            }
            assert(values.contains(entries[entries.len() - 1].1));
        }
    }
}

/// The types of a site never updated follow any partition of values.
pub proof fn law_new_site_follows(values: UfModel)
    ensures
        types_follow_values(UfModel::empty(), values),
        forall|k: Seq<char>| #[trigger] Map::<Seq<char>, Id>::empty().contains_key(k) ==> UfModel::empty().contains(
            Map::<Seq<char>, Id>::empty()[k],
        ),
{
}

/// Replaying bindings whose values already share a type with their variable
/// leaves the partition of types as it is, and each variable in its type.
proof fn lemma_replay(
    types: UfModel,
    vars: Map<Seq<char>, Id>,
    values: UfModel,
    entries: Seq<(Seq<char>, Id)>,
)
    requires
        values.wf(),
        types.wf(),
        types_follow_values(types, values),
        forall|k: Seq<char>| #[trigger] vars.contains_key(k) ==> types.contains(vars[k]),
        forall|i: int|
            0 <= i < entries.len() ==> values.contains(#[trigger] entries[i].1) && vars.contains_key(
                entries[i].0,
            ) && types.same_set(vars[entries[i].0], values.leader[entries[i].1]),
    ensures
        update_all(types, vars, values, entries) is Some,
        update_all(types, vars, values, entries).unwrap().0 == types,
        ({
            let vars2 = update_all(types, vars, values, entries).unwrap().1;
            &&& forall|k: Seq<char>| #[trigger] vars2.contains_key(k) <==> vars.contains_key(k)
            &&& forall|k: Seq<char>| #[trigger] vars2.contains_key(k) ==> types.same_set(vars2[k], vars[k])
        }),
    decreases entries.len(),
{
    if entries.len() > 0 {
        let prefix = entries.drop_last();
        assert forall|i: int| 0 <= i < prefix.len() implies values.contains(#[trigger] prefix[i].1)
            && vars.contains_key(prefix[i].0) && types.same_set(
            vars[prefix[i].0],
            values.leader[prefix[i].1],
        ) by {
            assert(prefix[i] == entries[i]);
        }
        lemma_replay(types, vars, values, prefix);
        let v1 = update_all(types, vars, values, prefix).unwrap().1;
        let e = entries.last();
        assert(e == entries[entries.len() - 1]);
        let var = e.0;
        let l = values.leader[e.1];
        assert(types.contains(l));
        assert(types.introduce(l) == types);
        assert(v1.contains_key(var));
        let old_tag = v1[var];
        assert(types.same_set(old_tag, vars[var]));
        assert(types.contains(old_tag));
        let old_leader = values.leader[old_tag];
        assert(types.same_set(old_tag, old_leader));
        assert(types.leader[old_leader] == types.leader[l]);
        let w = types.union_leader(old_leader, l);
        assert(types.union(old_leader, l) == types);
        let v2 = v1.insert(var, w);
        assert(update_all(types, vars, values, entries) == Some((types, v2)));
        assert(types.same_set(w, vars[var])) by {
            assert(types.contains(types.leader[old_leader]));
            assert(types.leader[types.leader[old_leader]] == types.leader[old_leader]);
        }
        assert forall|k: Seq<char>| #[trigger] v2.contains_key(k) implies types.same_set(v2[k], vars[k]) by {
            if k != var {
                assert(v1.contains_key(k));
            }
        }
    }
}

/// Updating a site a second time, with no new interaction between values
/// and no new binding, leaves its partition of types as it is, and each
/// variable in the type it had.
pub proof fn law_update_again_keeps_types(
    types: UfModel,
    vars: Map<Seq<char>, Id>,
    values: UfModel,
    entries: Seq<(Seq<char>, Id)>,
)
    requires
        values.wf(),
        types.wf(),
        types_follow_values(types, values),
        forall|k: Seq<char>| #[trigger] vars.contains_key(k) ==> types.contains(vars[k]),
        update_all(types, vars, values, entries) is Some,
    ensures
        ({
            let (types2, vars2) = update_all(types, vars, values, entries).unwrap();
            &&& update_all(types2, vars2, values, entries) is Some
            &&& update_all(types2, vars2, values, entries).unwrap().0 == types2
            &&& forall|k: Seq<char>|
                #[trigger] update_all(types2, vars2, values, entries).unwrap().1.contains_key(k)
                    <==> vars2.contains_key(k)
            &&& forall|k: Seq<char>|
                #[trigger] update_all(types2, vars2, values, entries).unwrap().1.contains_key(k)
                    ==> types2.same_set(update_all(types2, vars2, values, entries).unwrap().1[k], vars2[k])
        }),
{
    lemma_update_tags_known(types, vars, values, entries);
    lemma_update_types(types, vars, values, entries);
    let (types2, vars2) = update_all(types, vars, values, entries).unwrap();
    lemma_replay(types2, vars2, values, entries);
}

/// The inference itself: within one update of a site whose types follow
/// the values, two variables seen holding values that interacted, directly
/// or through other values, end up with one abstract type.
pub proof fn law_update_joins_interacting(
    types: UfModel,
    vars: Map<Seq<char>, Id>,
    values: UfModel,
    entries: Seq<(Seq<char>, Id)>,
    i: int,
    j: int,
)
    requires
        values.wf(),
        types.wf(),
        types_follow_values(types, values),
        forall|k: Seq<char>| #[trigger] vars.contains_key(k) ==> types.contains(vars[k]),
        update_all(types, vars, values, entries) is Some,
        0 <= i < entries.len(),
        0 <= j < entries.len(),
        values.same_set(entries[i].1, entries[j].1),
    ensures
        ({
            let (types2, vars2) = update_all(types, vars, values, entries).unwrap();
            types2.same_set(vars2[entries[i].0], vars2[entries[j].0])
        }),
{
    lemma_update_tags_known(types, vars, values, entries);
    lemma_update_types(types, vars, values, entries);
}

/// Storing back the site that was taken out under a name restores the
/// collection of sites.
pub proof fn law_stash_after_extract(sites: Map<Seq<char>, Site>, name: Seq<char>)
    requires
        sites.contains_key(name),
    ensures
        sites.remove(name).insert(name, sites[name]) == sites,
{
    assert(sites.remove(name).insert(name, sites[name]) =~= sites);
}

/// Taking a value from either end of a non-empty range lowers the count of
/// the values left by one, the count being exact.
pub proof fn law_range_count_down(a: int, b: int)
    requires
        a < b,
        b - a <= usize::MAX,
    ensures
        steps_between(a, b) == ((b - a) as usize, Some((b - a) as usize)),
        steps_between(a + 1, b).0 == steps_between(a, b).0 - 1,
        steps_between(a, b - 1).0 == steps_between(a, b).0 - 1,
        steps_between(b, b) == (0usize, Some(0usize)),
{
}

/// The same for an inclusive range, whose count is one more; once its start
/// passes its end nothing is left.
pub proof fn law_inclusive_range_count_down(a: int, b: int)
    requires
        a < b,
        b - a < usize::MAX,
    ensures
        inclusive_steps(a, b) == ((b - a + 1) as usize, Some((b - a + 1) as usize)),
        inclusive_steps(a + 1, b).0 == inclusive_steps(a, b).0 - 1,
        inclusive_steps(a, b - 1).0 == inclusive_steps(a, b).0 - 1,
        inclusive_steps(b, b) == (1usize, Some(1usize)),
        inclusive_steps(b + 1, b) == (0usize, Some(0usize)),
{
}

/// Joining each of the first `k + 1` tags with the next puts all of them in
/// one set, keeps every set joined before, and holds the same ids.
pub proof fn law_union_chain_joins(m: UfModel, tags: Seq<Id>, k: nat)
    requires
        m.wf(),
        k < tags.len(),
        forall|i: int| 0 <= i <= k ==> m.contains(#[trigger] tags[i]),
    ensures
        union_chain(m, tags, k).wf(),
        forall|x: Id| #[trigger] union_chain(m, tags, k).contains(x) <==> m.contains(x),
        forall|i: int, j: int|
            0 <= i <= k && 0 <= j <= k ==> union_chain(m, tags, k).same_set(#[trigger] tags[i], #[trigger] tags[j]),
        forall|x: Id, y: Id| #[trigger] m.same_set(x, y) ==> union_chain(m, tags, k).same_set(x, y),
    decreases k,
{
    if k > 0 {
        let k1 = (k - 1) as nat;
        law_union_chain_joins(m, tags, k1);
        let c = union_chain(m, tags, k1);
        let a = tags[k1 as int];
        let b = tags[k as int];
        assert(m.contains(a) && m.contains(b));
        assert(c.contains(a) && c.contains(b));
        let r = union_chain(m, tags, k);
        assert(r == c.union(a, b));
        law_union_wf(c, a, b);
        law_union_keeps_ids(c, a, b);
        law_union_joins(c, a, b);
        assert forall|i: int, j: int| 0 <= i <= k && 0 <= j <= k implies r.same_set(
            #[trigger] tags[i],
            #[trigger] tags[j],
        ) by {
            law_union_same_set(c, a, b, tags[i], tags[j]);
            assert(c.contains(tags[i]) && c.contains(tags[j]));
            if i < k {
                assert(c.same_set(tags[i], a));
            } else {
                assert(c.same_set(tags[i], b));
            }
            if j < k {
                assert(c.same_set(tags[j], a));
            } else {
                assert(c.same_set(tags[j], b));
            }
        }
        assert forall|x: Id, y: Id| #[trigger] m.same_set(x, y) implies r.same_set(x, y) by {
            assert(c.same_set(x, y));
            law_union_same_set(c, a, b, x, y);
        }
    } else {
        assert forall|i: int, j: int| 0 <= i <= k && 0 <= j <= k implies union_chain(m, tags, k).same_set(
            #[trigger] tags[i],
            #[trigger] tags[j],
        ) by {
            assert(i == 0 && j == 0);
            assert(m.contains(tags[0]));
        }
    }
}

} // verus!
