use datir::ati_info::{CompoundTypeInfo, DefKey, FirstPassInfo, StructFieldInfo, UntrackedReturnKind};
use datir::span_key::{FileKey, SpanKey};

fn span(file: &str, lo: u32, hi: u32) -> SpanKey {
    SpanKey::new(FileKey::Real(file.to_string()), lo, hi)
}

fn compound(struct_name: &str, tagged: &str) -> CompoundTypeInfo {
    CompoundTypeInfo {
        original_name: struct_name.to_string(),
        tagged_name: tagged.to_string(),
        fields: vec![StructFieldInfo {
            name: "x".to_string(),
            ty_str: "u32".to_string(),
            should_tuple: true,
        }],
    }
}

#[test]
fn span_keys_compare_by_file_and_offsets() {
    let a = span("src/main.rs", 3, 9);
    assert!(a.same(&span("src/main.rs", 3, 9)));
    assert!(!a.same(&span("src/main.rs", 3, 10)));
    assert!(!a.same(&span("src/lib.rs", 3, 9)));
    assert!(!a.same(&SpanKey::new(FileKey::Other("src/main.rs".to_string()), 3, 9)));
    assert!(FileKey::Other("m".to_string()).same(&FileKey::Other("m".to_string())));
}

#[test]
fn nothing_is_tracked_at_first() {
    let info = FirstPassInfo::default();
    assert!(!info.is_type_tracked("Foo"));
    assert!(!info.is_fn_ident_tracked("main"));
    assert!(!info.is_fn_def_id_tracked(&DefKey { krate: 0, index: 1 }));
    assert!(info.get_untracked_return_kind(&span("a.rs", 0, 1)).is_none());
    assert!(info.get_tagged_name_for_type("Foo").is_none());
    assert_eq!(info.compound_types().len(), 0);
}

#[test]
fn tracked_functions_and_types_are_remembered() {
    let mut info = FirstPassInfo::new();
    info.observe_tracked_fn("foo", DefKey { krate: 0, index: 4 });
    info.observe_tracked_fn("foo", DefKey { krate: 0, index: 4 });
    info.observe_tracked_type("Point".to_string());
    assert!(info.is_fn_ident_tracked("foo"));
    assert!(!info.is_fn_ident_tracked("fo"));
    assert!(info.is_fn_def_id_tracked(&DefKey { krate: 0, index: 4 }));
    assert!(!info.is_fn_def_id_tracked(&DefKey { krate: 1, index: 4 }));
    assert!(info.is_type_tracked("Point"));
    assert!(!info.is_type_tracked("point"));
}

#[test]
fn untracked_calls_and_indexes_are_keyed_by_span() {
    let mut info = FirstPassInfo::new();
    info.observe_untracked_fn_call(span("m.rs", 10, 20), UntrackedReturnKind::Tupleable);
    info.observe_untracked_fn_call(span("m.rs", 30, 40), UntrackedReturnKind::Compound("__ati_Foo".to_string()));
    info.observe_untracked_fn_call(span("m.rs", 10, 20), UntrackedReturnKind::Untouched);
    assert!(matches!(info.get_untracked_return_kind(&span("m.rs", 10, 20)), Some(UntrackedReturnKind::Untouched)));
    match info.get_untracked_return_kind(&span("m.rs", 30, 40)) {
        Some(UntrackedReturnKind::Compound(name)) => assert_eq!(name, "__ati_Foo"),
        _ => panic!("expected a compound kind"),
    }
    assert!(info.get_untracked_index_kind(&span("m.rs", 10, 20)).is_none());
    info.observe_untracked_index(span("m.rs", 50, 55), UntrackedReturnKind::Tupleable);
    assert!(matches!(info.get_untracked_index_kind(&span("m.rs", 50, 55)), Some(UntrackedReturnKind::Tupleable)));
}

#[test]
fn coercions_and_range_indexes_are_sets_of_spans() {
    let mut info = FirstPassInfo::new();
    info.observe_slice_coercion(span("m.rs", 1, 2));
    info.observe_index_by_range(span("m.rs", 3, 4));
    info.observe_index_by_range(span("m.rs", 3, 4));
    assert!(info.is_span_ref_type_coercion(&span("m.rs", 1, 2)));
    assert!(!info.is_span_ref_type_coercion(&span("m.rs", 3, 4)));
    assert!(info.is_span_index_by_range(&span("m.rs", 3, 4)));
    assert!(!info.is_span_index_by_range(&span("n.rs", 3, 4)));
}

#[test]
fn compound_types_keep_the_first_registration() {
    let mut info = FirstPassInfo::new();
    info.register_compound_type(compound("Foo", "__ati_Foo"));
    info.register_compound_type(compound("Other", "__ati_Foo"));
    info.register_compound_type(compound("Bar", "__ati_Bar"));
    assert_eq!(info.compound_types().len(), 2);
    assert_eq!(info.compound_types().get("__ati_Foo").unwrap().original_name, "Foo");
    assert_eq!(info.get_tagged_name_for_type("Foo"), Some("__ati_Foo"));
    assert_eq!(info.get_tagged_name_for_type("Bar"), Some("__ati_Bar"));
    assert_eq!(info.get_tagged_name_for_type("Other"), None);
}

#[test]
fn a_struct_with_two_variants_gives_the_first_by_name() {
    let mut info = FirstPassInfo::new();
    info.register_compound_type(compound("Foo", "__ati_Foo_b"));
    info.register_compound_type(compound("Foo", "__ati_Foo_a"));
    assert_eq!(info.get_tagged_name_for_type("Foo"), Some("__ati_Foo_a"));
}
