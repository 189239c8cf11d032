use vstd::prelude::*;

use crate::names::NameMap;
use crate::tagged_value::TaggedValue;
use crate::tagger::Id;
use crate::text::{decimal, push_decimal};
use crate::laws::{law_introduce_wf, law_union_joins, law_union_keeps_ids, law_union_wf};
use crate::uf_model::UfModel;
use crate::union_find::UnionFind;

verus! {

/// The leader, among the values, of the type tag `tag` stored for a
/// variable: its current value leader, or the tag itself where the values
/// do not hold it.
pub open spec fn stored_leader(values: UfModel, tag: Id) -> Id {
    if values.contains(tag) {
        values.leader[tag]
    } else {
        tag
    }
}

/// One step of the abstract type update: the variable `entry.0` was seen
/// holding a value tagged `entry.1`. `types` and `vars` are the site's type
/// partition and the type tag recorded for each variable; `values` is the
/// partition of all values. The value's leader joins the site's types; for
/// a variable seen before, the current leader of its stored tag joins them
/// too, where it is not there yet, and its type is joined with the new
/// value's leader's. `None` where the value's tag is not held.
pub open spec fn update_step(
    types: UfModel,
    vars: Map<Seq<char>, Id>,
    values: UfModel,
    entry: (Seq<char>, Id),
) -> Option<(UfModel, Map<Seq<char>, Id>)> {
    let var = entry.0;
    let tag = entry.1;
    if !values.contains(tag) {
        None
    } else {
        let new_leader = values.leader[tag];
        let t1 = types.introduce(new_leader);
        if vars.contains_key(var) {
            let old_tag = vars[var];
            let old_leader = stored_leader(values, old_tag);
            let t2 = t1.introduce(old_leader);
            Some(
                (
                    t2.union(old_leader, new_leader),
                    vars.insert(var, t2.union_leader(old_leader, new_leader)),
                ),
            )
        } else {
            Some((t1, vars.insert(var, new_leader)))
        }
    }
}

/// The update steps for all `entries`, in order; `None` if one cannot be taken.
pub open spec fn update_all(
    types: UfModel,
    vars: Map<Seq<char>, Id>,
    values: UfModel,
    entries: Seq<(Seq<char>, Id)>,
) -> Option<(UfModel, Map<Seq<char>, Id>)>
    decreases entries.len(),
{
    if entries.len() == 0 {
        Some((types, vars))
    } else {
        match update_all(types, vars, values, entries.drop_last()) {
            None => None,
            Some(state) => update_step(state.0, state.1, values, entries.last()),
        }
    }
}

/// The line that reports `var` with type tag `tag`.
pub open spec fn var_line(var: Seq<char>, tag: Id) -> Seq<char> {
    var + seq![' ', '-', '>', ' '] + decimal(tag as nat) + seq!['\n']
}

/// The lines for all `entries`, in order.
pub open spec fn var_lines(entries: Seq<(Seq<char>, Id)>) -> Seq<char>
    decreases entries.len(),
{
    if entries.len() == 0 {
        Seq::empty()
    } else {
        var_lines(entries.drop_last()) + var_line(entries.last().0, entries.last().1)
    }
}

/// The report of a site: its name, a line per variable, and a closing `---`.
pub open spec fn site_report(name: Seq<char>, entries: Seq<(Seq<char>, Id)>) -> Seq<char> {
    name + seq!['\n'] + var_lines(entries) + seq!['-', '-', '-', '\n']
}

/// A program point under analysis: the variables bound at it and their
/// abstract types.
pub struct Site {
    type_uf: UnionFind,
    var_tags: NameMap<Id>,
    observed_var_tags: Vec<(String, Id)>,
    name: String,
}

impl Site {
    pub closed spec fn wf(&self) -> bool {
        &&& self.type_uf.wf()
        &&& self.var_tags.wf()
        &&& forall|k: Seq<char>| #[trigger] self.var_tags.map().contains_key(k) ==> self.type_uf.model().contains(
            self.var_tags.map()[k],
        )
    }

    pub closed spec fn name(&self) -> Seq<char> {
        self.name@
    }

    /// The partition of the site's types.
    pub closed spec fn types(&self) -> UfModel {
        self.type_uf.model()
    }

    /// The type tag recorded for each variable.
    pub closed spec fn vars(&self) -> Map<Seq<char>, Id> {
        self.var_tags.map()
    }

    /// The variables and their type tags, in the order of the variable names.
    pub closed spec fn var_entries(&self) -> Seq<(Seq<char>, Id)> {
        Seq::new(self.var_tags.keys().len(), |i: int| (self.var_tags.keys()[i], self.var_tags.values()[i]))
    }

    /// The label of each variable: the leader of its type.
    pub closed spec fn labels(&self) -> Map<Seq<char>, Id> {
        Map::new(
            |k: Seq<char>| self.var_tags.map().contains_key(k),
            |k: Seq<char>| self.type_uf.model().leader[self.var_tags.map()[k]],
        )
    }

    /// The variables and their labels, in the order of the variable names.
    pub closed spec fn label_entries(&self) -> Seq<(Seq<char>, Id)> {
        Seq::new(
            self.var_tags.keys().len(),
            |i: int| (self.var_tags.keys()[i], self.type_uf.model().leader[self.var_tags.values()[i]]),
        )
    }

    /// Two variables get one label exactly when they share a type, and the
    /// labelled entries are the variables in name order with their labels.
    pub proof fn lemma_labels(&self)
        requires
            self.wf(),
        ensures
            self.labels().dom() == self.vars().dom(),
            forall|x: Seq<char>, y: Seq<char>|
                #[trigger] self.vars().contains_key(x) && #[trigger] self.vars().contains_key(y) ==> (
                self.labels()[x] == self.labels()[y] <==> self.types().same_set(
                    self.vars()[x],
                    self.vars()[y],
                )),
            self.label_entries().len() == self.var_entries().len(),
            forall|i: int|
                0 <= i < self.label_entries().len() ==> #[trigger] self.label_entries()[i] == (
                self.var_entries()[i].0,
                self.labels()[self.var_entries()[i].0],
            ),
    {
        assert(self.labels().dom() =~= self.vars().dom());
        assert forall|i: int| 0 <= i < self.label_entries().len() implies #[trigger] self.label_entries()[i]
            == (self.var_entries()[i].0, self.labels()[self.var_entries()[i].0]) by {
            self.var_tags.lemma_lengths();
            self.var_tags.lemma_entry(i);
        }
    }

    /// Every binding seen so far, in order: the variable name and the tag of its value.
    pub closed spec fn observed(&self) -> Seq<(Seq<char>, Id)> {
        self.observed_var_tags@.map_values(|e: (String, Id)| (e.0@, e.1))
    }

    /// The variable entries are sorted by name, and they are the entries of `vars`.
    pub proof fn lemma_var_entries(&self)
        requires
            self.wf(),
        ensures
            forall|i: int, j: int|
                0 <= i < j < self.var_entries().len() ==> crate::names::name_lt(
                    #[trigger] self.var_entries()[i].0,
                    #[trigger] self.var_entries()[j].0,
                ),
            forall|i: int|
                0 <= i < self.var_entries().len() ==> #[trigger] self.vars().contains_key(
                    self.var_entries()[i].0,
                ) && self.vars()[self.var_entries()[i].0] == self.var_entries()[i].1,
            forall|k: Seq<char>|
                #[trigger] self.vars().contains_key(k) ==> exists|i: int|
                    0 <= i < self.var_entries().len() && self.var_entries()[i].0 == k,
    {
        self.var_tags.lemma_sorted();
        assert forall|i: int|
            0 <= i < self.var_entries().len() implies #[trigger] self.vars().contains_key(
            self.var_entries()[i].0,
        ) && self.vars()[self.var_entries()[i].0] == self.var_entries()[i].1 by {
            self.var_tags.lemma_entry(i);
        }
        assert forall|k: Seq<char>| #[trigger] self.vars().contains_key(k) implies exists|i: int|
            0 <= i < self.var_entries().len() && self.var_entries()[i].0 == k by {
            let i = self.var_tags.keys().index_of(k);
            assert(self.var_entries()[i].0 == k);
        }
    }

    /// Creates a site with no bindings.
    pub fn new(name: &str) -> (site: Self)
        ensures
            site.wf(),
            site.name() == name@,
            site.types() == UfModel::empty(),
            site.vars() == Map::<Seq<char>, Id>::empty(),
            site.observed() == Seq::<(Seq<char>, Id)>::empty(),
    {
        let site = Site {
            type_uf: UnionFind::new(),
            var_tags: NameMap::new(),
            observed_var_tags: Vec::new(),
            name: name.to_owned(),
        };
        assert(site.observed() =~= Seq::<(Seq<char>, Id)>::empty());
        site
    }

    /// Records that a variable named `var_name` was bound to the value `tv`.
    pub fn bind<T: Copy>(&mut self, var_name: &str, tv: &TaggedValue<T>)
        ensures
            final(self).observed() == old(self).observed().push((var_name@, tv.1)),
            final(self).name() == old(self).name(),
            final(self).types() == old(self).types(),
            final(self).vars() == old(self).vars(),
            final(self).var_entries() == old(self).var_entries(),
            final(self).wf() == old(self).wf(),
    {
        self.bind_tag(var_name, tv.1);
    }

    /// Records that a variable named `var_name` was bound to a value tagged `tag`.
    pub fn bind_tag(&mut self, var_name: &str, tag: Id)
        ensures
            final(self).observed() == old(self).observed().push((var_name@, tag)),
            final(self).name() == old(self).name(),
            final(self).types() == old(self).types(),
            final(self).vars() == old(self).vars(),
            final(self).var_entries() == old(self).var_entries(),
            final(self).wf() == old(self).wf(),
    {
        self.observed_var_tags.push((var_name.to_owned(), tag));
        assert(self.observed() =~= old(self).observed().push((var_name@, tag)));
    }

    /// Runs the update over every binding seen so far, against the value
    /// partition `value_uf`. Returns false, at the step where it cannot go on,
    /// if a tag it needs is missing; the site is then left part-way.
    pub fn try_update(&mut self, value_uf: &mut UnionFind) -> (ok: bool)
        requires
            old(self).wf(),
            old(value_uf).wf(),
        ensures
            final(self).wf(),
            final(value_uf).wf(),
            final(value_uf).model() == old(value_uf).model(),
            final(value_uf).next_tag() == old(value_uf).next_tag(),
            final(self).name() == old(self).name(),
            final(self).observed() == old(self).observed(),
            ok == update_all(old(self).types(), old(self).vars(), old(value_uf).model(), old(self).observed()) is Some,
            ok ==> update_all(old(self).types(), old(self).vars(), old(value_uf).model(), old(self).observed())
                == Some((final(self).types(), final(self).vars())),
    {
        let ghost values = value_uf.model();
        let ghost types0 = self.types();
        let ghost vars0 = self.vars();
        let ghost entries = self.observed();
        let n = self.observed_var_tags.len();
        let mut i: usize = 0;
        while i < n
            invariant
                self.wf(),
                value_uf.wf(),
                value_uf.model() == values,
                values == old(value_uf).model(),
                types0 == old(self).types(),
                vars0 == old(self).vars(),
                entries == old(self).observed(),
                value_uf.next_tag() == old(value_uf).next_tag(),
                self.name() == old(self).name(),
                self.observed() == entries,
                n == entries.len(),
                i <= n,
                update_all(types0, vars0, values, entries.take(i as int)) == Some(
                    (self.types(), self.vars()),
                ),
            decreases n - i,
        {
            proof {
                assert(entries.take(i + 1).drop_last() =~= entries.take(i as int));
                assert(entries.take(i + 1).last() == entries[i as int]);
            }
            let new_var_tag = self.observed_var_tags[i].1;
            let new_leader_tag = match value_uf.find(&new_var_tag) {
                Some(l) => l,
                None => {
                    proof {
                        Self::lemma_fail_extends(types0, vars0, values, entries, i as int + 1);
                    }
                    return false;
                },
            };
            let ghost t0 = self.types();
            let ghost v0 = self.vars();
            proof {
                self.type_uf.lemma_model_wf();
            }
            let new_leader_tag = self.type_uf.introduce_tag(new_leader_tag);
            proof {
                law_introduce_wf(t0, new_leader_tag);
            }
            match self.var_tags.get(self.observed_var_tags[i].0.as_str()) {
                Some(old_tag) => {
                    let old_tag = *old_tag;
                    let old_leader_tag = match value_uf.find(&old_tag) {
                        Some(l) => l,
                        None => old_tag,
                    };
                    let ghost t1 = self.types();
                    self.type_uf.introduce_tag(old_leader_tag);
                    proof {
                        law_introduce_wf(t1, old_leader_tag);
                    }
                    let ghost t3 = self.types();
                    let merged = match self.type_uf.union_tags(&old_leader_tag, &new_leader_tag) {
                        Some(m) => m,
                        None => {
                            assert(false);
                            old_leader_tag
                        },
                    };
                    proof {
                        law_union_keeps_ids(t3, old_leader_tag, new_leader_tag);
                        law_union_joins(t3, old_leader_tag, new_leader_tag);
                    }
                    let key = self.observed_var_tags[i].0.clone();
                    self.var_tags.insert(key, merged);
                    proof {
                        assert forall|k: Seq<char>| #[trigger] self.var_tags.map().contains_key(k) implies self.type_uf.model().contains(
                            self.var_tags.map()[k],
                        ) by {
                            if k != entries[i as int].0 {
                                assert(v0.contains_key(k));
                                assert(t0.contains(v0[k]));
                            }
                        }
                    }
                },
                None => {
                    let key = self.observed_var_tags[i].0.clone();
                    self.var_tags.insert(key, new_leader_tag);
                    proof {
                        assert forall|k: Seq<char>| #[trigger] self.var_tags.map().contains_key(k) implies self.type_uf.model().contains(
                            self.var_tags.map()[k],
                        ) by {
                            if k != entries[i as int].0 {
                                assert(v0.contains_key(k));
                                assert(t0.contains(v0[k]));
                            }
                        }
                    }
                },
            }
            i = i + 1;
        }
        proof {
            assert(entries.take(n as int) =~= entries);
        }
        true
    }

    /// Once a step fails, every longer run fails.
    proof fn lemma_fail_extends(
        types: UfModel,
        vars: Map<Seq<char>, Id>,
        values: UfModel,
        entries: Seq<(Seq<char>, Id)>,
        k: int,
    )
        requires
            0 < k <= entries.len(),
            update_all(types, vars, values, entries.take(k)) is None,
        ensures
            update_all(types, vars, values, entries) is None,
        decreases entries.len() - k,
    {
        if k < entries.len() {
            assert(entries.take(k + 1).drop_last() =~= entries.take(k));
            Self::lemma_fail_extends(types, vars, values, entries, k + 1);
        } else {
            assert(entries.take(k) =~= entries);
        }
    }

    /// Updates the abstract types of the site from every binding seen so far,
    /// against the value partition `value_uf`.
    pub fn update(&mut self, value_uf: &mut UnionFind)
        requires
            old(self).wf(),
            old(value_uf).wf(),
            update_all(old(self).types(), old(self).vars(), old(value_uf).model(), old(self).observed()) is Some,
        ensures
            final(self).wf(),
            final(value_uf).wf(),
            final(value_uf).model() == old(value_uf).model(),
            final(value_uf).next_tag() == old(value_uf).next_tag(),
            final(self).name() == old(self).name(),
            final(self).observed() == old(self).observed(),
            update_all(old(self).types(), old(self).vars(), old(value_uf).model(), old(self).observed())
                == Some((final(self).types(), final(self).vars())),
    {
        let ok = self.try_update(value_uf);
        assert(ok);
    }

    /// The report of this site: its name, a `var -> label` line per variable
    /// in name order, the label being the leader of the variable's type, and
    /// a closing `---` line.
    pub fn report(&self) -> (text: String)
        requires
            self.wf(),
        ensures
            text@ == site_report(self.name(), self.label_entries()),
    {
        let mut text = self.name.clone();
        text.append("\n");
        proof {
            reveal_strlit("\n");
            reveal_strlit(" -> ");
            reveal_strlit("---\n");
            self.var_tags.lemma_lengths();
        }
        let n = self.var_tags.len();
        let mut i: usize = 0;
        while i < n
            invariant
                self.wf(),
                n == self.label_entries().len(),
                n == self.var_tags.keys().len(),
                n == self.var_tags.values().len(),
                i <= n,
                text@ == self.name() + seq!['\n'] + var_lines(self.label_entries().take(i as int)),
            decreases n - i,
        {
            let tag = *self.var_tags.value_at(i);
            proof {
                self.var_tags.lemma_entry(i as int);
            }
            let label = match self.type_uf.leader_of(&tag) {
                Some(l) => l,
                None => {
                    assert(false);
                    tag
                },
            };
            text.append(self.var_tags.key_at(i).as_str());
            text.append(" -> ");
            push_decimal(&mut text, label);
            text.append("\n");
            proof {
                reveal_strlit(" -> ");
                reveal_strlit("\n");
                let e = self.label_entries();
                assert(e.take(i + 1).drop_last() =~= e.take(i as int));
                assert(e.take(i + 1).last() == e[i as int]);
                assert(var_lines(e.take(i + 1)) == var_lines(e.take(i as int)) + var_line(e[i as int].0, e[i as int].1));
            }
            assert(text@ =~= self.name() + seq!['\n'] + var_lines(self.label_entries().take(i + 1)));
            i = i + 1;
        }
        text.append("---\n");
        assert(self.label_entries().take(n as int) =~= self.label_entries());
        assert(text@ =~= site_report(self.name(), self.label_entries()));
        text
    }
}

/// The report of all `sites`, in order, one after another.
pub open spec fn sites_reports(sites: Seq<Site>) -> Seq<char>
    decreases sites.len(),
{
    if sites.len() == 0 {
        Seq::empty()
    } else {
        sites_reports(sites.drop_last()) + site_report(sites.last().name(), sites.last().label_entries())
    }
}

/// The header that opens the report of an analysis.
pub open spec fn report_header() -> Seq<char> {
    seq![
        '=', '=', '=', 'A', 'T', 'I', '-', 'A', 'N', 'A', 'L', 'Y', 'S', 'I', 'S', '-', 'S', 'T',
        'A', 'R', 'T', '=', '=', '=', '\n',
    ]
}

/// The sites of a program, each stored under its own name.
pub struct Sites {
    locs: NameMap<Site>,
}

impl Sites {
    pub closed spec fn wf(&self) -> bool {
        &&& self.locs.wf()
        &&& forall|k: Seq<char>| #[trigger] self.locs.map().contains_key(k) ==> self.locs.map()[k].wf()
        &&& forall|k: Seq<char>| #[trigger] self.locs.map().contains_key(k) ==> self.locs.map()[k].name() == k
    }

    /// The stored sites by name.
    pub closed spec fn map(&self) -> Map<Seq<char>, Site> {
        self.locs.map()
    }

    /// The stored sites in the order of their names.
    pub closed spec fn in_order(&self) -> Seq<Site> {
        self.locs.values()
    }

    /// The sites in order are exactly the stored sites, sorted by name.
    pub proof fn lemma_in_order(&self)
        requires
            self.wf(),
        ensures
            forall|i: int, j: int|
                0 <= i < j < self.in_order().len() ==> crate::names::name_lt(
                    #[trigger] self.in_order()[i].name(),
                    #[trigger] self.in_order()[j].name(),
                ),
            forall|i: int|
                0 <= i < self.in_order().len() ==> #[trigger] self.map().contains_key(
                    self.in_order()[i].name(),
                ) && self.map()[self.in_order()[i].name()] == self.in_order()[i],
            forall|k: Seq<char>|
                #[trigger] self.map().contains_key(k) ==> exists|i: int|
                    0 <= i < self.in_order().len() && self.in_order()[i].name() == k,
    {
        self.locs.lemma_lengths();
        assert forall|i: int| 0 <= i < self.in_order().len() implies self.locs.map().contains_key(
            self.locs.keys()[i],
        ) && self.map()[self.locs.keys()[i]] == self.in_order()[i] && self.in_order()[i].name()
            == self.locs.keys()[i] by {
            self.locs.lemma_entry(i);
        }
        self.locs.lemma_sorted();
        assert forall|i: int, j: int|
            0 <= i < j < self.in_order().len() implies crate::names::name_lt(
            #[trigger] self.in_order()[i].name(),
            #[trigger] self.in_order()[j].name(),
        ) by {
            self.locs.lemma_entry(i);
            self.locs.lemma_entry(j);
        }
        assert forall|k: Seq<char>| #[trigger] self.map().contains_key(k) implies exists|i: int|
            0 <= i < self.in_order().len() && self.in_order()[i].name() == k by {
            assert(self.locs.keys().contains(k));
            let i = self.locs.keys().index_of(k);
            self.locs.lemma_entry(i);
            assert(self.locs.map()[k].name() == k);
            assert(self.in_order()[i].name() == k);
        }
    }

    /// Creates an empty collection of sites.
    pub fn new() -> (sites: Self)
        ensures
            sites.wf(),
            sites.map() == Map::<Seq<char>, Site>::empty(),
    {
        Sites { locs: NameMap::new() }
    }

    /// Takes the site named `id` out of the collection, or creates a new,
    /// empty site named `id` if none is stored.
    pub fn extract(&mut self, id: &str) -> (site: Site)
        requires
            old(self).wf(),
        ensures
            final(self).wf(),
            site.wf(),
            site.name() == id@,
            final(self).map() == old(self).map().remove(id@),
            old(self).map().contains_key(id@) ==> site == old(self).map()[id@],
            !old(self).map().contains_key(id@) ==> site.types() == UfModel::empty()
                && site.vars() == Map::<Seq<char>, Id>::empty()
                && site.observed() == Seq::<(Seq<char>, Id)>::empty(),
    {
        if !self.locs.contains_key(id) {
            proof {
                assert(old(self).map().remove(id@) =~= old(self).map());
            }
            Site::new(id)
        } else {
            match self.locs.remove(id) {
                Some(site) => site,
                None => {
                    assert(false);
                    Site::new(id)
                },
            }
        }
    }

    /// Stores `site` under its name, replacing any site of that name.
    pub fn stash(&mut self, site: Site)
        requires
            old(self).wf(),
            site.wf(),
        ensures
            final(self).wf(),
            final(self).map() == old(self).map().insert(site.name(), site),
    {
        let ghost s = site;
        let key = site.name.clone();
        self.locs.insert(key, site);
    }

    /// The report of every site, in the order of their names, after a header line.
    pub fn report(&self) -> (text: String)
        requires
            self.wf(),
        ensures
            text@ == report_header() + sites_reports(self.in_order()),
    {
        let mut text = String::new();
        text.append("===ATI-ANALYSIS-START===\n");
        proof {
            reveal_strlit("===ATI-ANALYSIS-START===\n");
        }
        assert(text@ =~= report_header());
        let n = self.locs.len();
        proof {
            self.locs.lemma_lengths();
        }
        let mut i: usize = 0;
        while i < n
            invariant
                self.wf(),
                n == self.in_order().len(),
                i <= n,
                text@ == report_header() + sites_reports(self.in_order().take(i as int)),
            decreases n - i,
        {
            proof {
                self.locs.lemma_lengths();
                self.locs.lemma_entry(i as int);
            }
            let site = self.locs.value_at(i);
            let part = site.report();
            text.append(part.as_str());
            proof {
                let o = self.in_order();
                assert(o.take(i + 1).drop_last() =~= o.take(i as int));
                assert(o.take(i + 1).last() == o[i as int]);
            }
            assert(text@ =~= report_header() + sites_reports(self.in_order().take(i + 1)));
            i = i + 1;
        }
        assert(self.in_order().take(n as int) =~= self.in_order());
        text
    }
}

} // verus!
