use vstd::prelude::*;

use crate::names::{compare_names, NameMap, NameOrder};
use crate::span_key::{FileView, SpanKey, SpanMap};

verus! {

/// A stable key for a definition: the crate it lies in, and its index there.
#[derive(Debug, Clone, Copy, PartialEq, Eq, Structural, Hash)]
pub struct DefKey {
    pub krate: u32,
    pub index: u32,
}

/// A field of an outside struct, and whether its values are tracked.
#[derive(Debug, Clone)]
pub struct StructFieldInfo {
    /// The name of the field.
    pub name: String,
    /// The field's type as written, such as `u32`.
    pub ty_str: String,
    /// Whether the field is wrapped so that its values carry an id.
    pub should_tuple: bool,
}

/// An outside struct that needs a variant whose fields carry ids.
#[derive(Debug, Clone)]
pub struct CompoundTypeInfo {
    /// The name of the struct, such as `Foo`.
    pub original_name: String,
    /// The name of its variant with tracked fields.
    pub tagged_name: String,
    /// Its fields.
    pub fields: Vec<StructFieldInfo>,
}

/// What becomes of the value returned by a call of a function that is not
/// tracked.
#[derive(Debug, Clone)]
pub enum UntrackedReturnKind {
    /// A primitive value, which is tracked as it comes back.
    Tupleable,
    /// An outside struct, converted into the variant of that name.
    Compound(String),
    /// Nothing to do.
    Untouched,
}

/// Everything the gathering pass learns about a program that the
/// instrumenting pass consults.
pub struct FirstPassInfo {
    tracked_fn_def_ids: Vec<DefKey>,
    tracked_fn_idents: NameMap<()>,
    array_to_slice_locs: SpanMap<()>,
    index_by_range_locs: SpanMap<()>,
    tracked_type_idents: NameMap<()>,
    untracked_fn_calls: SpanMap<UntrackedReturnKind>,
    untracked_index_locs: SpanMap<UntrackedReturnKind>,
    compound_types: NameMap<CompoundTypeInfo>,
}

impl FirstPassInfo {
    pub closed spec fn wf(&self) -> bool {
        &&& forall|i: int, j: int|
            0 <= i < j < self.tracked_fn_def_ids@.len() ==> self.tracked_fn_def_ids@[i]
                != self.tracked_fn_def_ids@[j]
        &&& self.tracked_fn_idents.wf()
        &&& self.array_to_slice_locs.wf()
        &&& self.index_by_range_locs.wf()
        &&& self.tracked_type_idents.wf()
        &&& self.untracked_fn_calls.wf()
        &&& self.untracked_index_locs.wf()
        &&& self.compound_types.wf()
    }

    /// The definitions of the tracked functions.
    pub closed spec fn tracked_fns(&self) -> Set<DefKey> {
        self.tracked_fn_def_ids@.to_set()
    }

    /// The names of the tracked functions.
    pub closed spec fn tracked_fn_names(&self) -> Set<Seq<char>> {
        self.tracked_fn_idents.map().dom()
    }

    /// The places where an array is coerced to a slice.
    pub closed spec fn slice_coercions(&self) -> Set<(FileView, u32, u32)> {
        self.array_to_slice_locs.map().dom()
    }

    /// The places where something is indexed by a range.
    pub closed spec fn range_indexes(&self) -> Set<(FileView, u32, u32)> {
        self.index_by_range_locs.map().dom()
    }

    /// The names of the tracked types.
    pub closed spec fn tracked_types(&self) -> Set<Seq<char>> {
        self.tracked_type_idents.map().dom()
    }

    /// The places of calls of untracked functions, with what becomes of
    /// their results.
    pub closed spec fn untracked_calls(&self) -> Map<(FileView, u32, u32), UntrackedReturnKind> {
        self.untracked_fn_calls.map()
    }

    /// The places where an untracked container is indexed, with what becomes
    /// of the element.
    pub closed spec fn untracked_indexes(&self) -> Map<(FileView, u32, u32), UntrackedReturnKind> {
        self.untracked_index_locs.map()
    }

    /// The outside structs that need a tracked variant, by the variant's name.
    pub closed spec fn compounds(&self) -> Map<Seq<char>, CompoundTypeInfo> {
        self.compound_types.map()
    }

    /// The outside structs in the order of their variants' names.
    pub closed spec fn compounds_in_order(&self) -> Seq<CompoundTypeInfo> {
        self.compound_types.values()
    }

    /// Nothing learnt yet.
    pub fn new() -> (info: Self)
        ensures
            info.wf(),
            info.tracked_fns() == Set::<DefKey>::empty(),
            info.tracked_fn_names() == Set::<Seq<char>>::empty(),
            info.slice_coercions() == Set::<(FileView, u32, u32)>::empty(),
            info.range_indexes() == Set::<(FileView, u32, u32)>::empty(),
            info.tracked_types() == Set::<Seq<char>>::empty(),
            info.untracked_calls() == Map::<(FileView, u32, u32), UntrackedReturnKind>::empty(),
            info.untracked_indexes() == Map::<(FileView, u32, u32), UntrackedReturnKind>::empty(),
            info.compounds() == Map::<Seq<char>, CompoundTypeInfo>::empty(),
    {
        let info = FirstPassInfo {
            tracked_fn_def_ids: Vec::new(),
            tracked_fn_idents: NameMap::new(),
            array_to_slice_locs: SpanMap::new(),
            index_by_range_locs: SpanMap::new(),
            tracked_type_idents: NameMap::new(),
            untracked_fn_calls: SpanMap::new(),
            untracked_index_locs: SpanMap::new(),
            compound_types: NameMap::new(),
        };
        assert(info.tracked_fns() =~= Set::<DefKey>::empty());
        assert(info.tracked_fn_names() =~= Set::<Seq<char>>::empty());
        assert(info.slice_coercions() =~= Set::<(FileView, u32, u32)>::empty());
        assert(info.range_indexes() =~= Set::<(FileView, u32, u32)>::empty());
        assert(info.tracked_types() =~= Set::<Seq<char>>::empty());
        info
    }

    /// Records that the function named `ident`, defined at `def_id`, is
    /// tracked.
    pub fn observe_tracked_fn(&mut self, ident: &str, def_id: DefKey)
        requires
            old(self).wf(),
        ensures
            final(self).wf(),
            final(self).tracked_fns() == old(self).tracked_fns().insert(def_id),
            final(self).tracked_fn_names() == old(self).tracked_fn_names().insert(ident@),
            final(self).tracked_types() == old(self).tracked_types(),
            final(self).slice_coercions() == old(self).slice_coercions(),
            final(self).range_indexes() == old(self).range_indexes(),
            final(self).untracked_calls() == old(self).untracked_calls(),
            final(self).untracked_indexes() == old(self).untracked_indexes(),
            final(self).compounds() == old(self).compounds(),
    {
        let ghost m = self.tracked_fn_idents.map();
        self.tracked_fn_idents.insert(ident.to_string(), ());
        assert(self.tracked_fn_idents.map().dom() =~= m.dom().insert(ident@));
        if !self.is_fn_def_id_tracked(&def_id) {
            let ghost ids = self.tracked_fn_def_ids@;
            self.tracked_fn_def_ids.push(def_id);
            proof {
                assert forall|i: int, j: int|
                    0 <= i < j < self.tracked_fn_def_ids@.len() implies self.tracked_fn_def_ids@[i]
                    != self.tracked_fn_def_ids@[j] by {
                    if j == ids.len() {
                        assert(ids.contains(ids[i]));
                    }
                }
                assert(self.tracked_fn_def_ids@ == ids.push(def_id));
                assert forall|d: DefKey| #[trigger] self.tracked_fns().contains(d) <==> ids.to_set().insert(
                    def_id,
                ).contains(d) by {
                    if ids.contains(d) {
                        let k = choose|k: int| 0 <= k < ids.len() && ids[k] == d;
                        assert(self.tracked_fn_def_ids@[k] == d);
                    }
                    if self.tracked_fn_def_ids@.contains(d) && d != def_id {
                        let k = choose|k: int| 0 <= k < self.tracked_fn_def_ids@.len() && self.tracked_fn_def_ids@[k] == d;
                        assert(ids[k] == d);
                    }
                    if d == def_id {
                        assert(self.tracked_fn_def_ids@[ids.len() as int] == d);
                    }
                }
                assert(self.tracked_fns() =~= ids.to_set().insert(def_id));
            }
        } else {
            assert(self.tracked_fns() =~= old(self).tracked_fns().insert(def_id));
        }
    }

    /// Records that the type named `name` is defined by the program, and so
    /// tracked.
    pub fn observe_tracked_type(&mut self, name: String)
        requires
            old(self).wf(),
        ensures
            final(self).wf(),
            final(self).tracked_types() == old(self).tracked_types().insert(name@),
            final(self).tracked_fns() == old(self).tracked_fns(),
            final(self).tracked_fn_names() == old(self).tracked_fn_names(),
            final(self).slice_coercions() == old(self).slice_coercions(),
            final(self).range_indexes() == old(self).range_indexes(),
            final(self).untracked_calls() == old(self).untracked_calls(),
            final(self).untracked_indexes() == old(self).untracked_indexes(),
            final(self).compounds() == old(self).compounds(),
    {
        let ghost m = self.tracked_type_idents.map();
        let ghost n = name@;
        self.tracked_type_idents.insert(name, ());
        assert(self.tracked_type_idents.map().dom() =~= m.dom().insert(n));
    }

    /// Records that the call at `loc` is of an untracked function, and what
    /// becomes of its result.
    pub fn observe_untracked_fn_call(&mut self, loc: SpanKey, kind: UntrackedReturnKind)
        requires
            old(self).wf(),
        ensures
            final(self).wf(),
            final(self).untracked_calls() == old(self).untracked_calls().insert(loc@, kind),
            final(self).tracked_fns() == old(self).tracked_fns(),
            final(self).tracked_fn_names() == old(self).tracked_fn_names(),
            final(self).tracked_types() == old(self).tracked_types(),
            final(self).slice_coercions() == old(self).slice_coercions(),
            final(self).range_indexes() == old(self).range_indexes(),
            final(self).untracked_indexes() == old(self).untracked_indexes(),
            final(self).compounds() == old(self).compounds(),
    {
        self.untracked_fn_calls.insert(loc, kind);
    }

    /// Records an outside struct that needs a tracked variant; a struct whose
    /// variant name is already known is kept as it was.
    pub fn register_compound_type(&mut self, info: CompoundTypeInfo)
        requires
            old(self).wf(),
        ensures
            final(self).wf(),
            old(self).compounds().contains_key(info.tagged_name@) ==> final(self).compounds()
                == old(self).compounds(),
            !old(self).compounds().contains_key(info.tagged_name@) ==> final(self).compounds()
                == old(self).compounds().insert(info.tagged_name@, info),
            final(self).tracked_fns() == old(self).tracked_fns(),
            final(self).tracked_fn_names() == old(self).tracked_fn_names(),
            final(self).tracked_types() == old(self).tracked_types(),
            final(self).slice_coercions() == old(self).slice_coercions(),
            final(self).range_indexes() == old(self).range_indexes(),
            final(self).untracked_calls() == old(self).untracked_calls(),
            final(self).untracked_indexes() == old(self).untracked_indexes(),
    {
        if !self.compound_types.contains_key(info.tagged_name.as_str()) {
            let key = info.tagged_name.clone();
            self.compound_types.insert(key, info);
        }
    }

    /// Records that at `loc` an array is coerced to a slice.
    pub fn observe_slice_coercion(&mut self, loc: SpanKey)
        requires
            old(self).wf(),
        ensures
            final(self).wf(),
            final(self).slice_coercions() == old(self).slice_coercions().insert(loc@),
            final(self).tracked_fns() == old(self).tracked_fns(),
            final(self).tracked_fn_names() == old(self).tracked_fn_names(),
            final(self).tracked_types() == old(self).tracked_types(),
            final(self).range_indexes() == old(self).range_indexes(),
            final(self).untracked_calls() == old(self).untracked_calls(),
            final(self).untracked_indexes() == old(self).untracked_indexes(),
            final(self).compounds() == old(self).compounds(),
    {
        let ghost m = self.array_to_slice_locs.map();
        let ghost k = loc@;
        self.array_to_slice_locs.insert(loc, ());
        assert(self.array_to_slice_locs.map().dom() =~= m.dom().insert(k));
    }

    /// Records that at `loc` an untracked container is indexed, and what
    /// becomes of the element.
    pub fn observe_untracked_index(&mut self, loc: SpanKey, kind: UntrackedReturnKind)
        requires
            old(self).wf(),
        ensures
            final(self).wf(),
            final(self).untracked_indexes() == old(self).untracked_indexes().insert(loc@, kind),
            final(self).tracked_fns() == old(self).tracked_fns(),
            final(self).tracked_fn_names() == old(self).tracked_fn_names(),
            final(self).tracked_types() == old(self).tracked_types(),
            final(self).slice_coercions() == old(self).slice_coercions(),
            final(self).range_indexes() == old(self).range_indexes(),
            final(self).untracked_calls() == old(self).untracked_calls(),
            final(self).compounds() == old(self).compounds(),
    {
        self.untracked_index_locs.insert(loc, kind);
    }

    /// Records that at `loc` something is indexed by a range.
    pub fn observe_index_by_range(&mut self, loc: SpanKey)
        requires
            old(self).wf(),
        ensures
            final(self).wf(),
            final(self).range_indexes() == old(self).range_indexes().insert(loc@),
            final(self).tracked_fns() == old(self).tracked_fns(),
            final(self).tracked_fn_names() == old(self).tracked_fn_names(),
            final(self).tracked_types() == old(self).tracked_types(),
            final(self).slice_coercions() == old(self).slice_coercions(),
            final(self).untracked_calls() == old(self).untracked_calls(),
            final(self).untracked_indexes() == old(self).untracked_indexes(),
            final(self).compounds() == old(self).compounds(),
    {
        let ghost m = self.index_by_range_locs.map();
        let ghost k = loc@;
        self.index_by_range_locs.insert(loc, ());
        assert(self.index_by_range_locs.map().dom() =~= m.dom().insert(k));
    }

    /// Whether the type named `name` is tracked.
    pub fn is_type_tracked(&self, name: &str) -> (b: bool)
        requires
            self.wf(),
        ensures
            b == self.tracked_types().contains(name@),
    {
        self.tracked_type_idents.contains_key(name)
    }

    /// Whether the function named `ident` is tracked.
    pub fn is_fn_ident_tracked(&self, ident: &str) -> (b: bool)
        requires
            self.wf(),
        ensures
            b == self.tracked_fn_names().contains(ident@),
    {
        self.tracked_fn_idents.contains_key(ident)
    }

    /// Whether the function defined at `def_id` is tracked.
    pub fn is_fn_def_id_tracked(&self, def_id: &DefKey) -> (b: bool)
        ensures
            b == self.tracked_fns().contains(*def_id),
    {
        let n = self.tracked_fn_def_ids.len();
        let mut i: usize = 0;
        while i < n
            invariant
                n == self.tracked_fn_def_ids@.len(),
                i <= n,
                forall|j: int| 0 <= j < i ==> self.tracked_fn_def_ids@[j] != *def_id,
            decreases n - i,
        {
            if self.tracked_fn_def_ids[i] == *def_id {
                assert(self.tracked_fn_def_ids@.contains(*def_id));
                return true;
            }
            i = i + 1;
        }
        false
    }

    /// What becomes of the result of the untracked call at `location`, if a
    /// call was recorded there.
    pub fn get_untracked_return_kind(&self, location: &SpanKey) -> (r: Option<&UntrackedReturnKind>)
        requires
            self.wf(),
        ensures
            r is Some <==> self.untracked_calls().contains_key(location@),
            r matches Some(k) ==> *k == self.untracked_calls()[location@],
    {
        self.untracked_fn_calls.get(location)
    }

    /// The outside structs that need a tracked variant.
    pub fn compound_types(&self) -> (r: &NameMap<CompoundTypeInfo>)
        requires
            self.wf(),
        ensures
            r.wf(),
            r.map() == self.compounds(),
            r.values() == self.compounds_in_order(),
    {
        &self.compound_types
    }

    /// The name of the tracked variant of the outside struct named
    /// `name`: that of the first such struct in the order of the
    /// variants' names.
    pub fn get_tagged_name_for_type(&self, name: &str) -> (r: Option<&str>)
        requires
            self.wf(),
        ensures
            r is Some <==> exists|i: int|
                0 <= i < self.compounds_in_order().len()
                    && #[trigger] self.compounds_in_order()[i].original_name@ == name@,
            r matches Some(t) ==> exists|i: int|
                0 <= i < self.compounds_in_order().len()
                    && self.compounds_in_order()[i].original_name@ == name@
                    && self.compounds_in_order()[i].tagged_name@ == t@
                    && forall|j: int|
                    0 <= j < i ==> #[trigger] self.compounds_in_order()[j].original_name@
                        != name@,
    {
        let n = self.compound_types.len();
        proof {
            self.compound_types.lemma_lengths();
        }
        let mut i: usize = 0;
        while i < n
            invariant
                self.wf(),
                n == self.compounds_in_order().len(),
                n == self.compound_types.keys().len(),
                i <= n,
                forall|j: int|
                    0 <= j < i ==> #[trigger] self.compounds_in_order()[j].original_name@
                        != name@,
            decreases n - i,
        {
            let info = self.compound_types.value_at(i);
            if compare_names(info.original_name.as_str(), name) == NameOrder::Equal {
                return Some(info.tagged_name.as_str());
            }
            i = i + 1;
        }
        None
    }

    /// What becomes of the element read at the untracked index at
    /// `location`, if one was recorded there.
    pub fn get_untracked_index_kind(&self, location: &SpanKey) -> (r: Option<&UntrackedReturnKind>)
        requires
            self.wf(),
        ensures
            r is Some <==> self.untracked_indexes().contains_key(location@),
            r matches Some(k) ==> *k == self.untracked_indexes()[location@],
    {
        self.untracked_index_locs.get(location)
    }

    /// Whether an array is coerced to a slice at `location`.
    pub fn is_span_ref_type_coercion(&self, location: &SpanKey) -> (b: bool)
        requires
            self.wf(),
        ensures
            b == self.slice_coercions().contains(location@),
    {
        self.array_to_slice_locs.contains_key(location)
    }

    /// Whether something is indexed by a range at `location`.
    pub fn is_span_index_by_range(&self, location: &SpanKey) -> (b: bool)
        requires
            self.wf(),
        ensures
            b == self.range_indexes().contains(location@),
    {
        self.index_by_range_locs.contains_key(location)
    }
}

impl Default for FirstPassInfo {
    fn default() -> (info: Self)
        ensures
            info.wf(),
            info.tracked_fns() == Set::<DefKey>::empty(),
            info.tracked_fn_names() == Set::<Seq<char>>::empty(),
            info.slice_coercions() == Set::<(FileView, u32, u32)>::empty(),
            info.range_indexes() == Set::<(FileView, u32, u32)>::empty(),
            info.tracked_types() == Set::<Seq<char>>::empty(),
            info.untracked_calls() == Map::<(FileView, u32, u32), UntrackedReturnKind>::empty(),
            info.untracked_indexes() == Map::<(FileView, u32, u32), UntrackedReturnKind>::empty(),
            info.compounds() == Map::<Seq<char>, CompoundTypeInfo>::empty(),
    {
        FirstPassInfo::new()
    }
}

} // verus!
