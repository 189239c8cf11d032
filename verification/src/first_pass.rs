use vstd::prelude::*;

use crate::ati_info::DefKey;
use crate::names::{lemma_name_lt_irreflexive, NameMap};
use crate::span_key::{FileView, SpanKey, SpanMap};

verus! {

/// A function that the gathering pass wants instrumented.
#[derive(Debug, Clone)]
pub struct FnEntry {
    /// The function's name.
    pub ident: String,
    /// Where the function is defined.
    pub def_id: DefKey,
    /// The base name of the function's program points.
    pub base_ppt_name: String,
}

/// The instrumented functions of one module: free functions by name, and
/// methods by the name of their type, then by name.
pub struct ModEntry {
    pub free_fns: NameMap<FnEntry>,
    pub methods: NameMap<NameMap<FnEntry>>,
}

impl ModEntry {
    pub open spec fn wf(&self) -> bool {
        &&& self.free_fns.wf()
        &&& self.methods.wf()
        &&& forall|t: Seq<char>| #[trigger] self.methods.map().contains_key(t) ==> self.methods.map()[t].wf()
    }

    /// A module with no instrumented functions.
    pub fn new() -> (e: Self)
        ensures
            e.wf(),
            e.free_fns.map() == Map::<Seq<char>, FnEntry>::empty(),
            e.methods.map() == Map::<Seq<char>, NameMap<FnEntry>>::empty(),
    {
        ModEntry { free_fns: NameMap::new(), methods: NameMap::new() }
    }
}

/// What a list of names holds.
pub open spec fn names_view(names: Seq<String>) -> Seq<Seq<char>> {
    names.map_values(|s: String| s@)
}

/// The names of the entries of `m`, in order.
fn names_of<V>(m: &NameMap<V>) -> (r: Vec<String>)
    requires
        m.wf(),
    ensures
        forall|n: Seq<char>| #[trigger] names_view(r@).contains(n) <==> m.map().contains_key(n),
        forall|i: int, j: int| 0 <= i < j < r@.len() ==> r@[i]@ != r@[j]@,
{
    let n = m.len();
    let mut r: Vec<String> = Vec::new();
    let mut i: usize = 0;
    proof {
        m.lemma_sorted();
    }
    while i < n
        invariant
            m.wf(),
            n == m.keys().len(),
            i <= n,
            r@.len() == i,
            forall|j: int| 0 <= j < i ==> #[trigger] r@[j]@ == m.keys()[j],
            forall|a: int, b: int|
                0 <= a < b < m.keys().len() ==> crate::names::name_lt(
                    #[trigger] m.keys()[a],
                    #[trigger] m.keys()[b],
                ),
        decreases n - i,
    {
        r.push(m.key_at(i).clone());
        i = i + 1;
    }
    proof {
        assert forall|x: Seq<char>| #[trigger] names_view(r@).contains(x) <==> m.map().contains_key(x) by {
            if names_view(r@).contains(x) {
                let j = choose|j: int| 0 <= j < r@.len() && names_view(r@)[j] == x;
                assert(m.keys()[j] == x);
            }
            if m.map().contains_key(x) {
                let j = m.keys().index_of(x);
                assert(names_view(r@)[j] == x);
            }
        }
        assert forall|a: int, b: int| 0 <= a < b < r@.len() implies r@[a]@ != r@[b]@ by {
            assert(crate::names::name_lt(m.keys()[a], m.keys()[b]));
            lemma_name_lt_irreflexive(m.keys()[a]);
        }
    }
    r
}

/// What the gathering pass learns, by module and by place in the source,
/// for the instrumenting pass.
pub struct FirstPassInfo {
    mods: NameMap<ModEntry>,
    tracked_fn_def_ids: Vec<DefKey>,
    index_by_range_locs: SpanMap<()>,
    untracked_fn_calls: SpanMap<bool>,
    ref_to_tupleable_ty: SpanMap<()>,
    tag_stripping_deref_locs: SpanMap<()>,
    assign_through_tagged_ref_mut_locs: SpanMap<()>,
    ref_mut_to_tupleable_locs: SpanMap<()>,
    match_on_tagged_locs: SpanMap<()>,
}

/// `set` with the place `loc` added, when there is one.
pub open spec fn mark_spec(
    set: Set<(FileView, u32, u32)>,
    loc: Option<(FileView, u32, u32)>,
) -> Set<(FileView, u32, u32)> {
    match loc {
        Some(k) => set.insert(k),
        None => set,
    }
}

/// Everything that `a` records, `b` records too: its functions, its tracked
/// definitions, its untracked calls and all its places.
pub open spec fn records_at_least(a: FirstPassInfo, b: FirstPassInfo) -> bool {
    &&& a.free_fns().dom().subset_of(b.free_fns().dom())
    &&& a.methods().dom().subset_of(b.methods().dom())
    &&& a.tracked_fns().subset_of(b.tracked_fns())
    &&& a.untracked_calls().dom().subset_of(b.untracked_calls().dom())
    &&& a.range_indexes().subset_of(b.range_indexes())
    &&& a.refs_to_tupleable().subset_of(b.refs_to_tupleable())
    &&& a.tag_stripping_derefs().subset_of(b.tag_stripping_derefs())
    &&& a.assigns_through_tagged_refs().subset_of(b.assigns_through_tagged_refs())
    &&& a.ref_muts_to_tupleable().subset_of(b.ref_muts_to_tupleable())
    &&& a.matches_on_tagged().subset_of(b.matches_on_tagged())
}

/// Recording only ever adds, over a whole walk: where each state records at
/// least what the one before it did, every state records at least what any
/// earlier one did.
pub proof fn law_walk_only_adds(states: Seq<FirstPassInfo>)
    requires
        forall|i: int| 0 <= i < states.len() - 1 ==> records_at_least(#[trigger] states[i], states[i + 1]),
    ensures
        forall|i: int, j: int| 0 <= i <= j < states.len() ==> records_at_least(states[i], states[j]),
    decreases states.len(),
{
    if states.len() > 0 {
        let prefix = states.drop_last();
        assert forall|i: int| 0 <= i < prefix.len() - 1 implies records_at_least(
            #[trigger] prefix[i],
            prefix[i + 1],
        ) by {
            assert(prefix[i] == states[i] && prefix[i + 1] == states[i + 1]);
        }
        law_walk_only_adds(prefix);
        assert forall|i: int, j: int| 0 <= i <= j < states.len() implies records_at_least(
            states[i],
            states[j],
        ) by {
            if j < states.len() - 1 {
                assert(prefix[i] == states[i] && prefix[j] == states[j]);
            } else if i < j {
                assert(prefix[i] == states[i] && prefix[j - 1] == states[j - 1]);
                assert(records_at_least(states[i], states[j - 1]));
                assert(records_at_least(states[j - 1], states[j]));
            }
        }
    }
}

/// The view of a place, when there is one.
pub open spec fn loc_view(loc: Option<SpanKey>) -> Option<(FileView, u32, u32)> {
    match loc {
        Some(k) => Some(k@),
        None => None,
    }
}

/// Adds the place `loc`, when there is one, to `set`.
fn mark(set: &mut SpanMap<()>, loc: Option<SpanKey>)
    requires
        old(set).wf(),
    ensures
        final(set).wf(),
        final(set).map().dom() == mark_spec(old(set).map().dom(), loc_view(loc)),
{
    if let Some(key) = loc {
        let ghost m = set.map();
        let ghost k = key@;
        set.insert(key, ());
        assert(set.map().dom() =~= m.dom().insert(k));
    }
}

/// Whether there is a place `loc` and `set` holds it.
fn marked(set: &SpanMap<()>, loc: Option<&SpanKey>) -> (b: bool)
    requires
        set.wf(),
    ensures
        b == (loc matches Some(k) && set.map().dom().contains(k@)),
{
    match loc {
        Some(k) => set.contains_key(k),
        None => false,
    }
}

impl FirstPassInfo {
    pub closed spec fn wf(&self) -> bool {
        &&& self.mods.wf()
        &&& forall|m: Seq<char>| #[trigger] self.mods.map().contains_key(m) ==> self.mods.map()[m].wf()
        &&& forall|i: int, j: int|
            0 <= i < j < self.tracked_fn_def_ids@.len() ==> self.tracked_fn_def_ids@[i]
                != self.tracked_fn_def_ids@[j]
        &&& self.index_by_range_locs.wf()
        &&& self.untracked_fn_calls.wf()
        &&& self.ref_to_tupleable_ty.wf()
        &&& self.tag_stripping_deref_locs.wf()
        &&& self.assign_through_tagged_ref_mut_locs.wf()
        &&& self.ref_mut_to_tupleable_locs.wf()
        &&& self.match_on_tagged_locs.wf()
    }

    /// The free functions to instrument, by module and name.
    pub closed spec fn free_fns(&self) -> Map<(Seq<char>, Seq<char>), FnEntry> {
        Map::new(
            |k: (Seq<char>, Seq<char>)|
                self.mods.map().contains_key(k.0) && self.mods.map()[k.0].free_fns.map().contains_key(
                    k.1,
                ),
            |k: (Seq<char>, Seq<char>)| self.mods.map()[k.0].free_fns.map()[k.1],
        )
    }

    /// The methods to instrument, by module, type and name.
    pub closed spec fn methods(&self) -> Map<(Seq<char>, Seq<char>, Seq<char>), FnEntry> {
        Map::new(
            |k: (Seq<char>, Seq<char>, Seq<char>)|
                self.mods.map().contains_key(k.0) && self.mods.map()[k.0].methods.map().contains_key(
                    k.1,
                ) && self.mods.map()[k.0].methods.map()[k.1].map().contains_key(k.2),
            |k: (Seq<char>, Seq<char>, Seq<char>)| self.mods.map()[k.0].methods.map()[k.1].map()[k.2],
        )
    }

    /// The definitions of the tracked functions.
    pub closed spec fn tracked_fns(&self) -> Set<DefKey> {
        self.tracked_fn_def_ids@.to_set()
    }

    /// The places of untracked calls, with whether their results are tracked
    /// primitives.
    pub closed spec fn untracked_calls(&self) -> Map<(FileView, u32, u32), bool> {
        self.untracked_fn_calls.map()
    }

    /// The places where something is indexed by a range.
    pub closed spec fn range_indexes(&self) -> Set<(FileView, u32, u32)> {
        self.index_by_range_locs.map().dom()
    }

    /// The places of references to a tracked primitive.
    pub closed spec fn refs_to_tupleable(&self) -> Set<(FileView, u32, u32)> {
        self.ref_to_tupleable_ty.map().dom()
    }

    /// The places of dereferences that would strip a tag.
    pub closed spec fn tag_stripping_derefs(&self) -> Set<(FileView, u32, u32)> {
        self.tag_stripping_deref_locs.map().dom()
    }

    /// The places of assignments through a mutable reference to a tracked
    /// primitive.
    pub closed spec fn assigns_through_tagged_refs(&self) -> Set<(FileView, u32, u32)> {
        self.assign_through_tagged_ref_mut_locs.map().dom()
    }

    /// The places of mutable references to a tracked primitive.
    pub closed spec fn ref_muts_to_tupleable(&self) -> Set<(FileView, u32, u32)> {
        self.ref_mut_to_tupleable_locs.map().dom()
    }

    /// The places of `match` targets that are tracked primitives.
    pub closed spec fn matches_on_tagged(&self) -> Set<(FileView, u32, u32)> {
        self.match_on_tagged_locs.map().dom()
    }

    /// Nothing learnt yet.
    pub fn new() -> (info: Self)
        ensures
            info.wf(),
            info.free_fns() == Map::<(Seq<char>, Seq<char>), FnEntry>::empty(),
            info.methods() == Map::<(Seq<char>, Seq<char>, Seq<char>), FnEntry>::empty(),
            info.tracked_fns() == Set::<DefKey>::empty(),
            info.untracked_calls() == Map::<(FileView, u32, u32), bool>::empty(),
            info.range_indexes() == Set::<(FileView, u32, u32)>::empty(),
            info.refs_to_tupleable() == Set::<(FileView, u32, u32)>::empty(),
            info.tag_stripping_derefs() == Set::<(FileView, u32, u32)>::empty(),
            info.assigns_through_tagged_refs() == Set::<(FileView, u32, u32)>::empty(),
            info.ref_muts_to_tupleable() == Set::<(FileView, u32, u32)>::empty(),
            info.matches_on_tagged() == Set::<(FileView, u32, u32)>::empty(),
    {
        let info = FirstPassInfo {
            mods: NameMap::new(),
            tracked_fn_def_ids: Vec::new(),
            index_by_range_locs: SpanMap::new(),
            untracked_fn_calls: SpanMap::new(),
            ref_to_tupleable_ty: SpanMap::new(),
            tag_stripping_deref_locs: SpanMap::new(),
            assign_through_tagged_ref_mut_locs: SpanMap::new(),
            ref_mut_to_tupleable_locs: SpanMap::new(),
            match_on_tagged_locs: SpanMap::new(),
        };
        assert(info.free_fns() =~= Map::<(Seq<char>, Seq<char>), FnEntry>::empty());
        assert(info.methods() =~= Map::<(Seq<char>, Seq<char>, Seq<char>), FnEntry>::empty());
        assert(info.tracked_fns() =~= Set::<DefKey>::empty());
        assert(info.range_indexes() =~= Set::<(FileView, u32, u32)>::empty());
        assert(info.refs_to_tupleable() =~= Set::<(FileView, u32, u32)>::empty());
        assert(info.tag_stripping_derefs() =~= Set::<(FileView, u32, u32)>::empty());
        assert(info.assigns_through_tagged_refs() =~= Set::<(FileView, u32, u32)>::empty());
        assert(info.ref_muts_to_tupleable() =~= Set::<(FileView, u32, u32)>::empty());
        info
    }

    /// Records that the function `ident`, defined at `def_id`, in module
    /// `mod_path`, is to be instrumented: as a method of the type
    /// `type_key` when there is one, as a free function otherwise.
    pub fn observe_fn(
        &mut self,
        mod_path: String,
        type_key: Option<String>,
        ident: String,
        def_id: DefKey,
        base_ppt_name: String,
    )
        requires
            old(self).wf(),
        ensures
            final(self).wf(),
            records_at_least(*old(self), *final(self)),
            final(self).matches_on_tagged() == old(self).matches_on_tagged(),
            type_key is None ==> final(self).free_fns() == old(self).free_fns().insert(
                (mod_path@, ident@),
                (FnEntry { ident: ident, def_id: def_id, base_ppt_name: base_ppt_name }),
            ) && final(self).methods() == old(self).methods(),
            type_key matches Some(t) ==> final(self).methods() == old(self).methods().insert(
                (mod_path@, t@, ident@),
                (FnEntry { ident: ident, def_id: def_id, base_ppt_name: base_ppt_name }),
            ) && final(self).free_fns() == old(self).free_fns(),
            final(self).tracked_fns() == old(self).tracked_fns().insert(def_id),
            final(self).untracked_calls() == old(self).untracked_calls(),
            final(self).range_indexes() == old(self).range_indexes(),
            final(self).refs_to_tupleable() == old(self).refs_to_tupleable(),
            final(self).tag_stripping_derefs() == old(self).tag_stripping_derefs(),
            final(self).assigns_through_tagged_refs() == old(self).assigns_through_tagged_refs(),
            final(self).ref_muts_to_tupleable() == old(self).ref_muts_to_tupleable(),
    {
        let ghost entry_spec = FnEntry { ident: ident, def_id: def_id, base_ppt_name: base_ppt_name };
        let ghost m = mod_path@;
        let ghost name = ident@;
        let ghost old_mods = self.mods.map();
        let key = ident.clone();
        let entry = FnEntry { ident, def_id, base_ppt_name };
        let mut mod_entry = match self.mods.remove(mod_path.as_str()) {
            Some(e) => e,
            None => ModEntry::new(),
        };
        let ghost me0 = mod_entry;
        assert(mod_entry.wf());
        match type_key {
            None => {
                mod_entry.free_fns.insert(key, entry);
            },
            Some(tk) => {
                let ghost t = tk@;
                let mut inner = match mod_entry.methods.remove(tk.as_str()) {
                    Some(x) => x,
                    None => NameMap::new(),
                };
                inner.insert(key, entry);
                let ghost inner_v = inner;
                mod_entry.methods.insert(tk, inner);
                proof {
                    assert(mod_entry.methods.map() == me0.methods.map().insert(t, inner_v));
                }
            },
        }
        proof {
            assert forall|x: Seq<char>| #[trigger] mod_entry.methods.map().contains_key(x) implies mod_entry.methods.map()[x].wf() by {
                if type_key is None || x != type_key.unwrap()@ {
                    assert(me0.methods.map().contains_key(x));
                }
            }
        }
        let ghost me1 = mod_entry;
        self.mods.insert(mod_path, mod_entry);
        proof {
            assert(self.mods.map() == old_mods.remove(m).insert(m, me1));
            assert forall|x: Seq<char>| #[trigger] self.mods.map().contains_key(x) implies self.mods.map()[x].wf() by {
                if x != m {
                    assert(old_mods.contains_key(x));
                }
            }
            if type_key is None {
                assert forall|k: (Seq<char>, Seq<char>)| #[trigger] self.free_fns().contains_key(k) <==> old(self).free_fns().insert((m, name), entry_spec).contains_key(k) by {
                    if k.0 != m && self.mods.map().contains_key(k.0) {
                        assert(old_mods.contains_key(k.0));
                    }
                }
                assert forall|k: (Seq<char>, Seq<char>)| #[trigger] self.free_fns().contains_key(k) implies self.free_fns()[k] == old(self).free_fns().insert((m, name), entry_spec)[k] by {
                    if k.0 != m {
                        assert(old_mods.contains_key(k.0));
                    }
                }
                assert(self.free_fns() =~= old(self).free_fns().insert((m, name), entry_spec));
                assert forall|k: (Seq<char>, Seq<char>, Seq<char>)| #[trigger] self.methods().contains_key(k) <==> old(self).methods().contains_key(k) by {
                    if k.0 != m && self.mods.map().contains_key(k.0) {
                        assert(old_mods.contains_key(k.0));
                    }
                }
                assert forall|k: (Seq<char>, Seq<char>, Seq<char>)| #[trigger] self.methods().contains_key(k) implies self.methods()[k] == old(self).methods()[k] by {
                    if k.0 != m {
                        assert(old_mods.contains_key(k.0));
                    }
                }
                assert(self.methods() =~= old(self).methods());
            } else {
                let t = type_key.unwrap()@;
                assert forall|k: (Seq<char>, Seq<char>, Seq<char>)| #[trigger] self.methods().contains_key(k) <==> old(self).methods().insert((m, t, name), entry_spec).contains_key(k) by {
                    if k.0 != m && self.mods.map().contains_key(k.0) {
                        assert(old_mods.contains_key(k.0));
                    }
                    if k.0 == m && k.1 != t && me1.methods.map().contains_key(k.1) {
                        assert(me0.methods.map().contains_key(k.1));
                    }
                }
                assert forall|k: (Seq<char>, Seq<char>, Seq<char>)| #[trigger] self.methods().contains_key(k) implies self.methods()[k] == old(self).methods().insert((m, t, name), entry_spec)[k] by {
                    if k.0 != m {
                        assert(old_mods.contains_key(k.0));
                    } else if k.1 != t {
                        assert(me0.methods.map().contains_key(k.1));
                    }
                }
                assert(self.methods() =~= old(self).methods().insert((m, t, name), entry_spec));
                assert forall|k: (Seq<char>, Seq<char>)| #[trigger] self.free_fns().contains_key(k) <==> old(self).free_fns().contains_key(k) by {
                    if k.0 != m && self.mods.map().contains_key(k.0) {
                        assert(old_mods.contains_key(k.0));
                    }
                }
                assert forall|k: (Seq<char>, Seq<char>)| #[trigger] self.free_fns().contains_key(k) implies self.free_fns()[k] == old(self).free_fns()[k] by {
                    if k.0 != m {
                        assert(old_mods.contains_key(k.0));
                    }
                }
                assert(self.free_fns() =~= old(self).free_fns());
            }
        }
        if !self.is_fn_def_id_tracked(&def_id) {
            let ghost ids = self.tracked_fn_def_ids@;
            self.tracked_fn_def_ids.push(def_id);
            proof {
                assert forall|i: int, j: int|
                    0 <= i < j < self.tracked_fn_def_ids@.len() implies self.tracked_fn_def_ids@[i]
                    != self.tracked_fn_def_ids@[j] by {
                    if j == ids.len() {
                        assert(ids.contains(ids[i]));
                    }
                }
                assert forall|d: DefKey| #[trigger] self.tracked_fns().contains(d) <==> ids.to_set().insert(
                    def_id,
                ).contains(d) by {
                    if ids.contains(d) {
                        let k = choose|k: int| 0 <= k < ids.len() && ids[k] == d;
                        assert(self.tracked_fn_def_ids@[k] == d);
                    }
                    if self.tracked_fn_def_ids@.contains(d) && d != def_id {
                        let k = choose|k: int|
                            0 <= k < self.tracked_fn_def_ids@.len() && self.tracked_fn_def_ids@[k] == d;
                        assert(ids[k] == d);
                    }
                    if d == def_id {
                        assert(self.tracked_fn_def_ids@[ids.len() as int] == d);
                    }
                }
                assert(self.tracked_fns() =~= ids.to_set().insert(def_id));
            }
        } else {
            assert(self.tracked_fns() =~= old(self).tracked_fns().insert(def_id));
        }
    }

    /// Whether the function defined at `def_id` is tracked.
    pub fn is_fn_def_id_tracked(&self, def_id: &DefKey) -> (b: bool)
        ensures
            b == self.tracked_fns().contains(*def_id),
    {
        let n = self.tracked_fn_def_ids.len();
        let mut i: usize = 0;
        while i < n
            invariant
                n == self.tracked_fn_def_ids@.len(),
                i <= n,
                forall|j: int| 0 <= j < i ==> self.tracked_fn_def_ids@[j] != *def_id,
            decreases n - i,
        {
            if self.tracked_fn_def_ids[i] == *def_id {
                assert(self.tracked_fn_def_ids@.contains(*def_id));
                return true;
            }
            i = i + 1;
        }
        false
    }

    /// Records that at `loc`, when there is such a place, something is indexed
    /// by a range.
    pub fn observe_index_by_range(&mut self, loc: Option<SpanKey>)
        requires
            old(self).wf(),
        ensures
            final(self).wf(),
            records_at_least(*old(self), *final(self)),
            final(self).matches_on_tagged() == old(self).matches_on_tagged(),
            final(self).range_indexes() == mark_spec(old(self).range_indexes(), loc_view(loc)),
            final(self).free_fns() == old(self).free_fns(),
            final(self).methods() == old(self).methods(),
            final(self).tracked_fns() == old(self).tracked_fns(),
            final(self).untracked_calls() == old(self).untracked_calls(),
            final(self).refs_to_tupleable() == old(self).refs_to_tupleable(),
            final(self).tag_stripping_derefs() == old(self).tag_stripping_derefs(),
            final(self).assigns_through_tagged_refs() == old(self).assigns_through_tagged_refs(),
            final(self).ref_muts_to_tupleable() == old(self).ref_muts_to_tupleable(),
    {
        mark(&mut self.index_by_range_locs, loc);
    }

    /// Records that at `loc`, when there is such a place, a reference to a
    /// tracked primitive is taken.
    pub fn observe_ref_to_tupleable_ty(&mut self, loc: Option<SpanKey>)
        requires
            old(self).wf(),
        ensures
            final(self).wf(),
            records_at_least(*old(self), *final(self)),
            final(self).matches_on_tagged() == old(self).matches_on_tagged(),
            final(self).refs_to_tupleable() == mark_spec(old(self).refs_to_tupleable(), loc_view(loc)),
            final(self).free_fns() == old(self).free_fns(),
            final(self).methods() == old(self).methods(),
            final(self).tracked_fns() == old(self).tracked_fns(),
            final(self).untracked_calls() == old(self).untracked_calls(),
            final(self).range_indexes() == old(self).range_indexes(),
            final(self).tag_stripping_derefs() == old(self).tag_stripping_derefs(),
            final(self).assigns_through_tagged_refs() == old(self).assigns_through_tagged_refs(),
            final(self).ref_muts_to_tupleable() == old(self).ref_muts_to_tupleable(),
    {
        mark(&mut self.ref_to_tupleable_ty, loc);
    }

    /// Records that at `loc`, when there is such a place, a dereference would
    /// strip the tag of a tracked primitive.
    pub fn observe_tag_stripping_deref(&mut self, loc: Option<SpanKey>)
        requires
            old(self).wf(),
        ensures
            final(self).wf(),
            records_at_least(*old(self), *final(self)),
            final(self).matches_on_tagged() == old(self).matches_on_tagged(),
            final(self).tag_stripping_derefs() == mark_spec(old(self).tag_stripping_derefs(), loc_view(loc)),
            final(self).free_fns() == old(self).free_fns(),
            final(self).methods() == old(self).methods(),
            final(self).tracked_fns() == old(self).tracked_fns(),
            final(self).untracked_calls() == old(self).untracked_calls(),
            final(self).range_indexes() == old(self).range_indexes(),
            final(self).refs_to_tupleable() == old(self).refs_to_tupleable(),
            final(self).assigns_through_tagged_refs() == old(self).assigns_through_tagged_refs(),
            final(self).ref_muts_to_tupleable() == old(self).ref_muts_to_tupleable(),
    {
        mark(&mut self.tag_stripping_deref_locs, loc);
    }

    /// Records that at `loc`, when there is such a place, a tracked primitive
    /// is assigned through a mutable reference.
    pub fn observe_assign_through_tagged_ref_mut(&mut self, loc: Option<SpanKey>)
        requires
            old(self).wf(),
        ensures
            final(self).wf(),
            records_at_least(*old(self), *final(self)),
            final(self).matches_on_tagged() == old(self).matches_on_tagged(),
            final(self).assigns_through_tagged_refs() == mark_spec(old(self).assigns_through_tagged_refs(), loc_view(loc)),
            final(self).free_fns() == old(self).free_fns(),
            final(self).methods() == old(self).methods(),
            final(self).tracked_fns() == old(self).tracked_fns(),
            final(self).untracked_calls() == old(self).untracked_calls(),
            final(self).range_indexes() == old(self).range_indexes(),
            final(self).refs_to_tupleable() == old(self).refs_to_tupleable(),
            final(self).tag_stripping_derefs() == old(self).tag_stripping_derefs(),
            final(self).ref_muts_to_tupleable() == old(self).ref_muts_to_tupleable(),
    {
        mark(&mut self.assign_through_tagged_ref_mut_locs, loc);
    }

    /// Records that at `loc`, when there is such a place, an expression is a
    /// mutable reference to a tracked primitive.
    pub fn observe_ref_mut_to_tupleable(&mut self, loc: Option<SpanKey>)
        requires
            old(self).wf(),
        ensures
            final(self).wf(),
            records_at_least(*old(self), *final(self)),
            final(self).matches_on_tagged() == old(self).matches_on_tagged(),
            final(self).ref_muts_to_tupleable() == mark_spec(old(self).ref_muts_to_tupleable(), loc_view(loc)),
            final(self).free_fns() == old(self).free_fns(),
            final(self).methods() == old(self).methods(),
            final(self).tracked_fns() == old(self).tracked_fns(),
            final(self).untracked_calls() == old(self).untracked_calls(),
            final(self).range_indexes() == old(self).range_indexes(),
            final(self).refs_to_tupleable() == old(self).refs_to_tupleable(),
            final(self).tag_stripping_derefs() == old(self).tag_stripping_derefs(),
            final(self).assigns_through_tagged_refs() == old(self).assigns_through_tagged_refs(),
    {
        mark(&mut self.ref_mut_to_tupleable_locs, loc);
    }

    /// Whether a reference to a tracked primitive is taken at `loc`.
    pub fn is_span_ref_to_tupleable_ty(&self, loc: Option<&SpanKey>) -> (b: bool)
        requires
            self.wf(),
        ensures
            b == (loc matches Some(k) && self.refs_to_tupleable().contains(k@)),
    {
        marked(&self.ref_to_tupleable_ty, loc)
    }

    /// Whether a dereference at `loc` would strip a tag.
    pub fn is_tag_stripping_deref(&self, loc: Option<&SpanKey>) -> (b: bool)
        requires
            self.wf(),
        ensures
            b == (loc matches Some(k) && self.tag_stripping_derefs().contains(k@)),
    {
        marked(&self.tag_stripping_deref_locs, loc)
    }

    /// Whether a tracked primitive is assigned through a mutable reference at
    /// `loc`.
    pub fn is_assign_through_tagged_ref_mut(&self, loc: Option<&SpanKey>) -> (b: bool)
        requires
            self.wf(),
        ensures
            b == (loc matches Some(k) && self.assigns_through_tagged_refs().contains(k@)),
    {
        marked(&self.assign_through_tagged_ref_mut_locs, loc)
    }

    /// Records that at `loc`, when there is such a place, a `match` targets a
    /// tracked primitive, which is matched on by its plain value.
    pub fn observe_match_on_tagged(&mut self, loc: Option<SpanKey>)
        requires
            old(self).wf(),
        ensures
            final(self).wf(),
            records_at_least(*old(self), *final(self)),
            final(self).matches_on_tagged() == mark_spec(old(self).matches_on_tagged(), loc_view(loc)),
            final(self).free_fns() == old(self).free_fns(),
            final(self).methods() == old(self).methods(),
            final(self).tracked_fns() == old(self).tracked_fns(),
            final(self).untracked_calls() == old(self).untracked_calls(),
            final(self).range_indexes() == old(self).range_indexes(),
            final(self).refs_to_tupleable() == old(self).refs_to_tupleable(),
            final(self).tag_stripping_derefs() == old(self).tag_stripping_derefs(),
            final(self).assigns_through_tagged_refs() == old(self).assigns_through_tagged_refs(),
            final(self).ref_muts_to_tupleable() == old(self).ref_muts_to_tupleable(),
    {
        mark(&mut self.match_on_tagged_locs, loc);
    }

    /// Whether the `match` at `loc` targets a tracked primitive.
    pub fn is_match_on_tagged(&self, loc: Option<&SpanKey>) -> (b: bool)
        requires
            self.wf(),
        ensures
            b == (loc matches Some(k) && self.matches_on_tagged().contains(k@)),
    {
        marked(&self.match_on_tagged_locs, loc)
    }

    /// Whether the expression at `loc` is a mutable reference to a tracked
    /// primitive.
    pub fn is_ref_mut_to_tupleable(&self, loc: Option<&SpanKey>) -> (b: bool)
        requires
            self.wf(),
        ensures
            b == (loc matches Some(k) && self.ref_muts_to_tupleable().contains(k@)),
    {
        marked(&self.ref_mut_to_tupleable_locs, loc)
    }

    /// Whether something is indexed by a range at `location`.
    pub fn is_span_index_by_range(&self, loc: Option<&SpanKey>) -> (b: bool)
        requires
            self.wf(),
        ensures
            b == (loc matches Some(k) && self.range_indexes().contains(k@)),
    {
        marked(&self.index_by_range_locs, loc)
    }

    /// Records that at `loc`, when there is such a place, an untracked
    /// function is called, and whether its result is a tracked primitive.
    pub fn observe_untracked_fn_call(&mut self, loc: Option<SpanKey>, tupleable: bool)
        requires
            old(self).wf(),
        ensures
            final(self).wf(),
            records_at_least(*old(self), *final(self)),
            final(self).matches_on_tagged() == old(self).matches_on_tagged(),
            loc matches Some(k) ==> final(self).untracked_calls() == old(self).untracked_calls().insert(
                k@,
                tupleable,
            ),
            loc is None ==> final(self).untracked_calls() == old(self).untracked_calls(),
            final(self).free_fns() == old(self).free_fns(),
            final(self).methods() == old(self).methods(),
            final(self).tracked_fns() == old(self).tracked_fns(),
            final(self).range_indexes() == old(self).range_indexes(),
            final(self).refs_to_tupleable() == old(self).refs_to_tupleable(),
            final(self).tag_stripping_derefs() == old(self).tag_stripping_derefs(),
            final(self).assigns_through_tagged_refs() == old(self).assigns_through_tagged_refs(),
            final(self).ref_muts_to_tupleable() == old(self).ref_muts_to_tupleable(),
    {
        if let Some(key) = loc {
            self.untracked_fn_calls.insert(key, tupleable);
        }
    }

    /// Whether the result of the untracked call at `location` is a tracked
    /// primitive; `None` when no untracked call was recorded there.
    pub fn is_untracked_call_ret_tupleable(&self, location: Option<&SpanKey>) -> (r: Option<bool>)
        requires
            self.wf(),
        ensures
            r == (match location {
                Some(k) => if self.untracked_calls().contains_key(k@) {
                    Some(self.untracked_calls()[k@])
                } else {
                    None
                },
                None => None,
            }),
    {
        let key = location?;
        match self.untracked_fn_calls.get(key) {
            Some(b) => Some(*b),
            None => None,
        }
    }

    /// The entry of the free function `ident` of module `mod_path`.
    pub fn lookup_free_fn(&self, mod_path: &str, ident: &str) -> (r: Option<&FnEntry>)
        requires
            self.wf(),
        ensures
            r is Some <==> self.free_fns().contains_key((mod_path@, ident@)),
            r matches Some(e) ==> *e == self.free_fns()[(mod_path@, ident@)],
    {
        let entry = self.mods.get(mod_path)?;
        entry.free_fns.get(ident)
    }

    /// The entry of the method `ident` of the type `type_key` in module
    /// `mod_path`.
    pub fn lookup_method(&self, mod_path: &str, type_key: &str, ident: &str) -> (r: Option<&FnEntry>)
        requires
            self.wf(),
        ensures
            r is Some <==> self.methods().contains_key((mod_path@, type_key@, ident@)),
            r matches Some(e) ==> *e == self.methods()[(mod_path@, type_key@, ident@)],
    {
        let entry = self.mods.get(mod_path)?;
        let fns = entry.methods.get(type_key)?;
        fns.get(ident)
    }

    /// The names of the functions recorded in module `mod_path`: its methods
    /// of the type `type_key` when there is one, its free functions otherwise.
    /// Each name comes once, in name order.
    pub fn known_fn_names_in(&self, mod_path: &str, type_key: Option<&str>) -> (r: Vec<String>)
        requires
            self.wf(),
        ensures
            forall|n: Seq<char>| #[trigger] names_view(r@).contains(n) <==> (match type_key {
                None => self.free_fns().contains_key((mod_path@, n)),
                Some(t) => self.methods().contains_key((mod_path@, t@, n)),
            }),
            forall|i: int, j: int| 0 <= i < j < r@.len() ==> r@[i]@ != r@[j]@,
    {
        match self.mods.get(mod_path) {
            None => {
                let r: Vec<String> = Vec::new();
                assert(names_view(r@) =~= Seq::<Seq<char>>::empty());
                r
            },
            Some(entry) => match type_key {
                None => names_of(&entry.free_fns),
                Some(t) => match entry.methods.get(t) {
                    Some(fns) => names_of(fns),
                    None => {
                        let r: Vec<String> = Vec::new();
                        assert(names_view(r@) =~= Seq::<Seq<char>>::empty());
                        r
                    },
                },
            },
        }
    }
}

impl Default for ModEntry {
    fn default() -> (e: Self)
        ensures
            e.wf(),
            e.free_fns.map() == Map::<Seq<char>, FnEntry>::empty(),
            e.methods.map() == Map::<Seq<char>, NameMap<FnEntry>>::empty(),
    {
        ModEntry::new()
    }
}

impl Default for FirstPassInfo {
    fn default() -> (info: Self)
        ensures
            info.wf(),
            info.free_fns() == Map::<(Seq<char>, Seq<char>), FnEntry>::empty(),
            info.methods() == Map::<(Seq<char>, Seq<char>, Seq<char>), FnEntry>::empty(),
            info.tracked_fns() == Set::<DefKey>::empty(),
            info.untracked_calls() == Map::<(FileView, u32, u32), bool>::empty(),
            info.range_indexes() == Set::<(FileView, u32, u32)>::empty(),
            info.refs_to_tupleable() == Set::<(FileView, u32, u32)>::empty(),
            info.tag_stripping_derefs() == Set::<(FileView, u32, u32)>::empty(),
            info.assigns_through_tagged_refs() == Set::<(FileView, u32, u32)>::empty(),
            info.ref_muts_to_tupleable() == Set::<(FileView, u32, u32)>::empty(),
    {
        FirstPassInfo::new()
    }
}

} // verus!
