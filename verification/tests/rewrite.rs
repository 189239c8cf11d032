use datir::operators::{binop_str, op_type, rewrite_op_type, BinOp, OpKind, RewriteKind};
use datir::first_pass::FirstPassInfo;
use datir::span_key::{FileKey, SpanKey};
use datir::rewrite::{transform_addr_of, transform_assign, transform_assign_op, untuple_index, rewrite_call, tuplify_array, tuplify_expr, untuple, CallArg, 
    assign_op_block, binary_op_block, range_constructor, rewrite_assign, rewrite_binary_op, slice_coercion,
};

#[test]
fn operator_kinds_and_text() {
    assert_eq!(op_type(BinOp::Lt), OpKind::Comparison);
    assert_eq!(op_type(BinOp::Rem), OpKind::Arithmetic);
    assert_eq!(op_type(BinOp::And), OpKind::Arithmetic);
    assert_eq!(op_type(BinOp::Shl), OpKind::Bitwise);
    assert_eq!(rewrite_op_type(BinOp::Or), RewriteKind::Logical);
    assert_eq!(rewrite_op_type(BinOp::Ne), RewriteKind::Comparison);
    assert_eq!(rewrite_op_type(BinOp::BitAnd), RewriteKind::Arithmetic);
    assert_eq!(binop_str(BinOp::Ge), ">=");
    assert_eq!(binop_str(BinOp::Shr), ">>");
    assert_eq!(binop_str(BinOp::And), "&&");
    assert_eq!(binop_str(BinOp::BitXor), "^");
}

#[test]
fn binary_blocks_follow_the_operator_kind() {
    assert_eq!(
        binary_op_block(BinOp::Add, "a", "b"),
        "{ let __ati_lhs = a; let __ati_rhs = b; \
         let __ati_id = ATI_ANALYSIS.lock().unwrap().union_and_get_id(&__ati_lhs.0, &__ati_rhs.0).unwrap(); \
         Tagged(__ati_id, __ati_lhs.1 + __ati_rhs.1) }"
    );
    assert_eq!(
        binary_op_block(BinOp::Eq, "x", "y + 1"),
        "{ let __ati_lhs = x; let __ati_rhs = y + 1; \
         ATI_ANALYSIS.lock().unwrap().union_and_get_id(&__ati_lhs.0, &__ati_rhs.0); \
         let __ati_id = ATI_ANALYSIS.lock().unwrap().make_id(); \
         Tagged(__ati_id, __ati_lhs.1 == __ati_rhs.1) }"
    );
    assert_eq!(
        binary_op_block(BinOp::BitOr, "m", "n"),
        "{ let __ati_lhs = m; let __ati_rhs = n; \
         let __ati_id = ATI_ANALYSIS.lock().unwrap().make_id(); \
         Tagged(__ati_id, __ati_lhs.1 | __ati_rhs.1) }"
    );
}

#[test]
fn compound_assignments_write_back() {
    assert_eq!(
        assign_op_block(BinOp::Sub, "total", "x"),
        "{ let __ati_rhs = x; \
         let __ati_id = ATI_ANALYSIS.lock().unwrap().union_and_get_id(&total.0, &__ati_rhs.0).unwrap(); \
         total = Tagged(__ati_id, total.1 - __ati_rhs.1); }"
    );
    assert_eq!(
        assign_op_block(BinOp::Shl, "v", "2"),
        "{ let __ati_rhs = 2; let __ati_id = ATI_ANALYSIS.lock().unwrap().make_id(); \
         v = Tagged(__ati_id, v.1 << __ati_rhs.1); }"
    );
}

#[test]
fn rewritten_operations_and_assignments() {
    assert_eq!(
        rewrite_binary_op(BinOp::Lt, "i", "n"),
        "{ let __ati_id = ATI_ANALYSIS.lock().unwrap().make_id(); Tagged(__ati_id, i < n) }"
    );
    assert_eq!(
        rewrite_binary_op(BinOp::And, "p", "q"),
        "{ let __ati_lhs = p; let __ati_rhs = q; \
         let __ati_id = ATI_ANALYSIS.lock().unwrap().union_and_get_id(&__ati_lhs.0, &__ati_rhs.0).unwrap(); \
         Tagged(__ati_id, __ati_lhs.1 && __ati_rhs.1) }"
    );
    assert_eq!(rewrite_binary_op(BinOp::Mul, "a", "b"), "{ (a * b) }");
    assert_eq!(
        rewrite_assign("x", "y"),
        "x = { let __ati_lhs = x; let __ati_rhs = y; \
         ATI_ANALYSIS.lock().unwrap().union_and_get_id(&__ati_lhs.0, &__ati_rhs.0); __ati_rhs }"
    );
}

#[test]
fn range_expressions_become_tracked_ranges() {
    assert_eq!(range_constructor(Some("0"), Some("n"), false), "ATI::track_range(0, n)");
    assert_eq!(range_constructor(Some("0"), Some("n"), true), "ATI::track_range_inclusive(0, n)");
    assert_eq!(range_constructor(Some("a"), None, true), "ATI::track_range_from(a)");
    assert_eq!(range_constructor(None, Some("b"), false), "ATI::track_range_to(b)");
    assert_eq!(range_constructor(None, Some("b"), true), "ATI::track_range_to_inclusive(b)");
    assert_eq!(range_constructor(None, None, false), "ATI::track_range_full()");
}

#[test]
fn array_to_slice_coercions() {
    assert_eq!(slice_coercion(false, "arr", None), "ATI::track_slice(&arr)");
    assert_eq!(slice_coercion(true, "arr", None), "ATI::track_slice_mut(&mut arr)");
    assert_eq!(slice_coercion(false, "arr", Some("1..3")), "ATI::track_subslice(&arr, 1..3)");
    assert_eq!(slice_coercion(true, "v", Some("..")), "ATI::track_subslice_mut(&mut v, ..)");
}

fn addr_span(lo: u32, hi: u32) -> SpanKey {
    SpanKey::new(FileKey::Real("src/main.rs".to_string()), lo, hi)
}

#[test]
fn a_borrow_of_a_range_index_becomes_a_subslice() {
    let mut info = FirstPassInfo::new();
    info.observe_index_by_range(Some(addr_span(5, 12)));
    let r = transform_addr_of(&info, false, "&a[1..3]", Some(&addr_span(4, 12)), Some(&addr_span(5, 12)), Some(("a", "1..3")));
    assert_eq!(r, Some("a.subslice(1..3)".to_string()));
    let r = transform_addr_of(&info, true, "&mut a[1..3]", Some(&addr_span(0, 12)), Some(&addr_span(5, 12)), Some(("a", "1..3")));
    assert_eq!(r, Some("a.subslice_mut(1..3)".to_string()));
}

#[test]
fn a_borrow_of_a_tracked_primitive_is_made_tagged() {
    let mut info = FirstPassInfo::new();
    info.observe_ref_to_tupleable_ty(Some(addr_span(0, 2)));
    let r = transform_addr_of(&info, false, "&x", Some(&addr_span(0, 2)), Some(&addr_span(1, 2)), None);
    assert_eq!(r, Some("(&x).as_tagged_ref()".to_string()));
    let r = transform_addr_of(&info, true, "&mut x", Some(&addr_span(0, 2)), Some(&addr_span(1, 2)), None);
    assert_eq!(r, Some("(&mut x).as_tagged_ref_mut()".to_string()));
}

#[test]
fn other_borrows_are_left_alone() {
    let info = FirstPassInfo::new();
    let r = transform_addr_of(&info, false, "&v", Some(&addr_span(0, 2)), Some(&addr_span(1, 2)), None);
    assert_eq!(r, None);
    let r = transform_addr_of(&info, false, "&v", None, None, None);
    assert_eq!(r, None);
}

#[test]
fn values_are_tracked_and_untracked_by_text() {
    assert_eq!(tuplify_expr("5"), "ATI::track(5)");
    assert_eq!(tuplify_array("[1, 2]"), "ATI::track_array([1, 2])");
    assert_eq!(untuple("a + b"), "(a + b).1");
}

fn arg(text: &str, by_ref: bool) -> CallArg {
    CallArg { text: text.to_string(), by_ref }
}

#[test]
fn an_untracked_call_takes_plain_values() {
    let mut info = FirstPassInfo::new();
    info.observe_untracked_fn_call(Some(addr_span(0, 3)), true);
    info.observe_untracked_fn_call(Some(addr_span(10, 13)), false);
    let args = vec![arg("x", false), arg("&v", true), arg("y + 1", false)];
    assert_eq!(
        rewrite_call(&info, Some(&addr_span(0, 3)), "max3", &args),
        Some("ATI::track(max3((x).1, &v, (y + 1).1))".to_string())
    );
    assert_eq!(
        rewrite_call(&info, Some(&addr_span(10, 13)), "show", &vec![arg("s", true)]),
        Some("show(s)".to_string())
    );
    assert_eq!(
        rewrite_call(&info, Some(&addr_span(10, 13)), "now", &vec![]),
        Some("now()".to_string())
    );
}

#[test]
fn a_tracked_call_stays() {
    let info = FirstPassInfo::new();
    assert_eq!(rewrite_call(&info, Some(&addr_span(0, 3)), "f", &vec![arg("x", false)]), None);
    assert_eq!(rewrite_call(&info, None, "f", &vec![]), None);
}

#[test]
fn an_assignment_through_a_tracked_reference_writes_tag_and_value() {
    let mut info = FirstPassInfo::new();
    info.observe_assign_through_tagged_ref_mut(Some(addr_span(0, 8)));
    assert_eq!(
        transform_assign(&info, Some(&addr_span(0, 8)), Some("r"), "v"),
        Some("r.assign(v)".to_string())
    );
    assert_eq!(
        transform_assign_op(&info, Some(&addr_span(0, 8)), Some("r"), BinOp::Add, "1"),
        Some("{ let mut __ati_lhs = r; __ati_lhs.assign(Tagged(*__ati_lhs.0, *__ati_lhs.1) + 1); }".to_string())
    );
}

#[test]
fn other_assignments_stay_assignments() {
    let mut info = FirstPassInfo::new();
    info.observe_assign_through_tagged_ref_mut(Some(addr_span(0, 8)));
    assert_eq!(transform_assign(&info, Some(&addr_span(0, 8)), None, "v"), None);
    assert_eq!(transform_assign(&info, Some(&addr_span(1, 8)), Some("r"), "v"), None);
    assert_eq!(transform_assign(&info, None, Some("r"), "v"), None);
    assert_eq!(transform_assign_op(&FirstPassInfo::new(), Some(&addr_span(0, 8)), Some("r"), BinOp::Mul, "2"), None);
}

#[test]
fn an_index_loses_its_tags() {
    assert_eq!(untuple_index("a", "i"), "(a).1[(i).1]");
}
