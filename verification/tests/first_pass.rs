use datir::ati_info::DefKey;
use datir::first_pass::{FirstPassInfo, ModEntry};
use datir::span_key::{FileKey, SpanKey};

fn span(lo: u32, hi: u32) -> SpanKey {
    SpanKey::new(FileKey::Real("src/main.rs".to_string()), lo, hi)
}

fn def(index: u32) -> DefKey {
    DefKey { krate: 0, index }
}

#[test]
fn free_functions_and_methods_are_indexed_by_module() {
    let mut info = FirstPassInfo::default();
    info.observe_fn("".to_string(), None, "main".to_string(), def(1), "main.rs::main".to_string());
    info.observe_fn("a::b".to_string(), None, "helper".to_string(), def(2), "a::b::helper".to_string());
    info.observe_fn("a::b".to_string(), Some("Point".to_string()), "norm".to_string(), def(3), "a::b::Point::norm".to_string());
    let main = info.lookup_free_fn("", "main").unwrap();
    assert_eq!(main.ident, "main");
    assert_eq!(main.def_id, def(1));
    assert_eq!(main.base_ppt_name, "main.rs::main");
    assert!(info.lookup_free_fn("a::b", "main").is_none());
    assert!(info.lookup_free_fn("a::b", "norm").is_none());
    assert_eq!(info.lookup_method("a::b", "Point", "norm").unwrap().def_id, def(3));
    assert!(info.lookup_method("a::b", "Line", "norm").is_none());
    assert!(info.lookup_method("a", "Point", "norm").is_none());
    assert!(info.is_fn_def_id_tracked(&def(2)));
    assert!(info.is_fn_def_id_tracked(&def(3)));
    assert!(!info.is_fn_def_id_tracked(&def(4)));
}

#[test]
fn a_later_record_of_the_same_name_replaces_the_entry() {
    let mut info = FirstPassInfo::new();
    info.observe_fn("m".to_string(), None, "f".to_string(), def(1), "first".to_string());
    info.observe_fn("m".to_string(), None, "f".to_string(), def(2), "second".to_string());
    assert_eq!(info.lookup_free_fn("m", "f").unwrap().base_ppt_name, "second");
    assert!(info.is_fn_def_id_tracked(&def(1)));
    assert!(info.is_fn_def_id_tracked(&def(2)));
}

#[test]
fn known_names_come_once_in_order() {
    let mut info = FirstPassInfo::new();
    for name in ["zeta", "alpha", "mid", "alpha"] {
        info.observe_fn("m".to_string(), None, name.to_string(), def(0), String::new());
    }
    info.observe_fn("m".to_string(), Some("T".to_string()), "go".to_string(), def(9), String::new());
    assert_eq!(info.known_fn_names_in("m", None), vec!["alpha", "mid", "zeta"]);
    assert_eq!(info.known_fn_names_in("m", Some("T")), vec!["go"]);
    assert!(info.known_fn_names_in("m", Some("U")).is_empty());
    assert!(info.known_fn_names_in("other", None).is_empty());
}

#[test]
fn places_are_recorded_only_when_known() {
    let mut info = FirstPassInfo::new();
    info.observe_index_by_range(Some(span(1, 5)));
    info.observe_index_by_range(None);
    info.observe_ref_to_tupleable_ty(Some(span(6, 7)));
    info.observe_tag_stripping_deref(Some(span(8, 9)));
    info.observe_assign_through_tagged_ref_mut(Some(span(10, 11)));
    info.observe_ref_mut_to_tupleable(Some(span(12, 13)));
    assert!(info.is_span_index_by_range(Some(&span(1, 5))));
    assert!(!info.is_span_index_by_range(None));
    assert!(!info.is_span_index_by_range(Some(&span(6, 7))));
    assert!(info.is_span_ref_to_tupleable_ty(Some(&span(6, 7))));
    assert!(info.is_tag_stripping_deref(Some(&span(8, 9))));
    assert!(!info.is_tag_stripping_deref(Some(&span(10, 11))));
    assert!(info.is_assign_through_tagged_ref_mut(Some(&span(10, 11))));
    assert!(info.is_ref_mut_to_tupleable(Some(&span(12, 13))));
    assert!(!info.is_ref_mut_to_tupleable(None));
}

#[test]
fn untracked_calls_remember_whether_results_are_tracked() {
    let mut info = FirstPassInfo::new();
    info.observe_untracked_fn_call(Some(span(20, 30)), true);
    info.observe_untracked_fn_call(Some(span(40, 50)), false);
    info.observe_untracked_fn_call(None, true);
    assert_eq!(info.is_untracked_call_ret_tupleable(Some(&span(20, 30))), Some(true));
    assert_eq!(info.is_untracked_call_ret_tupleable(Some(&span(40, 50))), Some(false));
    assert_eq!(info.is_untracked_call_ret_tupleable(Some(&span(20, 31))), None);
    assert_eq!(info.is_untracked_call_ret_tupleable(None), None);
    info.observe_untracked_fn_call(Some(span(20, 30)), false);
    assert_eq!(info.is_untracked_call_ret_tupleable(Some(&span(20, 30))), Some(false));
}

#[test]
fn an_empty_module_entry() {
    let e = ModEntry::default();
    assert_eq!(e.free_fns.len(), 0);
    assert_eq!(e.methods.len(), 0);
}

#[test]
fn matches_on_tracked_primitives_are_recorded() {
    let mut info = FirstPassInfo::new();
    let at = SpanKey::new(FileKey::Real("src/main.rs".to_string()), 10, 14);
    assert!(!info.is_match_on_tagged(Some(&at)));
    info.observe_match_on_tagged(Some(at.clone()));
    info.observe_match_on_tagged(None);
    assert!(info.is_match_on_tagged(Some(&at)));
    assert!(!info.is_match_on_tagged(None));
    assert!(!info.is_match_on_tagged(Some(&SpanKey::new(FileKey::Real("src/main.rs".to_string()), 10, 15))));
}
