use datir::hoisting::{collect_hoists, hoist_binding, push_hoisted, ExprShape};

fn call() -> ExprShape {
    ExprShape::Call(Box::new(ExprShape::Path), vec![])
}

fn method(id: u64, name: &str, recv: ExprShape, args: Vec<ExprShape>) -> ExprShape {
    ExprShape::MethodCall(id, name.to_string(), Box::new(recv), args)
}

#[test]
fn a_temporary_receiver_is_hoisted() {
    let e = method(1, "as_tagged_ref", call(), vec![]);
    let (hoists, next) = collect_hoists(&e, 0);
    assert_eq!(hoists, vec![(1, "__ati_hoist_0".to_string())]);
    assert_eq!(next, 1);
}

#[test]
fn a_place_receiver_is_left_alone() {
    for recv in [
        ExprShape::Path,
        ExprShape::Field(Box::new(ExprShape::Path)),
        ExprShape::Index(Box::new(ExprShape::Path), Box::new(ExprShape::Other)),
        ExprShape::Unary(true, Box::new(ExprShape::Path)),
    ] {
        let e = method(1, "subslice", recv, vec![]);
        let (hoists, next) = collect_hoists(&e, 3);
        assert!(hoists.is_empty());
        assert_eq!(next, 3);
    }
    let negated = method(1, "subslice_mut", ExprShape::Unary(false, Box::new(ExprShape::Path)), vec![]);
    assert_eq!(collect_hoists(&negated, 3).0, vec![(1, "__ati_hoist_3".to_string())]);
}

#[test]
fn other_methods_are_not_hoisted() {
    let e = method(1, "len", call(), vec![]);
    assert_eq!(collect_hoists(&e, 0), (vec![], 0));
}

#[test]
fn inner_receivers_come_first_and_numbers_continue() {
    let inner = method(2, "subslice", call(), vec![ExprShape::Range(None, None)]);
    let outer = method(1, "as_tagged_ref_mut", ExprShape::Wrapped(Box::new(inner)), vec![]);
    let (hoists, next) = collect_hoists(&outer, 5);
    assert_eq!(
        hoists,
        vec![(2, "__ati_hoist_5".to_string()), (1, "__ati_hoist_6".to_string())]
    );
    assert_eq!(next, 7);
}

#[test]
fn parts_are_searched_left_to_right() {
    let a = method(10, "as_tagged_ref", call(), vec![]);
    let b = method(11, "as_tagged_ref", call(), vec![]);
    let c = method(12, "subslice", call(), vec![]);
    let d = method(13, "subslice", call(), vec![]);
    let e = ExprShape::List(vec![
        ExprShape::Index(Box::new(a), Box::new(b)),
        ExprShape::Struct(vec![c]),
        ExprShape::Range(Some(Box::new(d)), None),
    ]);
    let mut out = vec![99];
    push_hoisted(&e, &mut out);
    assert_eq!(out, vec![99, 10, 11, 12, 13]);
}

#[test]
fn short_circuit_operands_are_not_searched() {
    let a = method(1, "as_tagged_ref", call(), vec![]);
    let b = method(2, "as_tagged_ref", call(), vec![]);
    let lazy = ExprShape::Binary(true, Box::new(a), Box::new(ExprShape::Other));
    assert_eq!(collect_hoists(&lazy, 0).0, vec![]);
    let eager = ExprShape::Binary(false, Box::new(ExprShape::Other), Box::new(b));
    assert_eq!(collect_hoists(&eager, 0).0, vec![(2, "__ati_hoist_0".to_string())]);
}

#[test]
fn numbers_past_nine_have_all_their_digits() {
    let e = method(4, "subslice_mut", call(), vec![]);
    assert_eq!(collect_hoists(&e, 12), (vec![(4, "__ati_hoist_12".to_string())], 13));
}

#[test]
fn the_binding_statement_reads_as_a_let() {
    assert_eq!(hoist_binding("__ati_hoist_0", "foo()"), "let mut __ati_hoist_0 = foo();");
}
