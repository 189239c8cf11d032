use datir::expr_plan::{transform_expr, ExprKind, ExprPlan, ExprRewrite};

#[test]
fn assignments_instrument_only_their_right_hand_side() {
    assert_eq!(transform_expr(ExprKind::Assign), ExprPlan { only_rhs: true, rewrite: ExprRewrite::Assign });
    assert_eq!(transform_expr(ExprKind::AssignOp), ExprPlan { only_rhs: true, rewrite: ExprRewrite::AssignOp });
}

#[test]
fn other_kinds_are_instrumented_after_their_parts() {
    let cases = [
        (ExprKind::Lit, ExprRewrite::Literal),
        (ExprKind::Array, ExprRewrite::Array),
        (ExprKind::Repeat, ExprRewrite::Array),
        (ExprKind::AddrOf, ExprRewrite::AddrOf),
        (ExprKind::Let, ExprRewrite::LetCondition),
        (ExprKind::ForLoop, ExprRewrite::For),
        (ExprKind::Other, ExprRewrite::Untouched),
    ];
    for (k, rw) in cases {
        assert_eq!(transform_expr(k), ExprPlan { only_rhs: false, rewrite: rw });
    }
}
