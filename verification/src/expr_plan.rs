use vstd::prelude::*;

verus! {

/// The kinds of expression that instrumenting tells apart.
#[derive(Debug, Clone, Copy, PartialEq, Eq, Structural)]
pub enum ExprKind {
    Assign,
    AssignOp,
    Lit,
    Array,
    Repeat,
    AddrOf,
    Call,
    MethodCall,
    Binary,
    Unary,
    If,
    While,
    Let,
    ForLoop,
    Loop,
    Match,
    /// The collection and the index lose their tags (`rewrite::untuple_index`).
    Index,
    Range,
    Closure,
    /// Any other expression: a block, a path, a field, a tuple, a cast and the like.
    Other,
}

/// The rewrite that an expression gets once the parts it visits are instrumented.
#[derive(Debug, Clone, Copy, PartialEq, Eq, Structural)]
pub enum ExprRewrite {
    /// An assignment stays an assignment, its target untouched, unless it
    /// goes through a tracked mutable reference (`rewrite::transform_assign`).
    Assign,
    /// Likewise for a compound assignment (`rewrite::transform_assign_op`).
    AssignOp,
    Literal,
    Array,
    AddrOf,
    Call,
    MethodCall,
    Binary,
    Unary,
    If,
    While,
    LetCondition,
    For,
    Loop,
    /// A target that the first pass found to be a tracked primitive is
    /// matched by its plain value.
    Match,
    Index,
    Range,
    Closure,
    /// Left as it is.
    Untouched,
}

/// How an expression is instrumented: first its parts, where an assignment
/// instruments only its right-hand side so that its target is not
/// rewritten; then the rewrite of its kind.
#[derive(Debug, Clone, Copy, PartialEq, Eq, Structural)]
pub struct ExprPlan {
    pub only_rhs: bool,
    pub rewrite: ExprRewrite,
}

pub open spec fn plan_of(k: ExprKind) -> ExprPlan {
    match k {
        ExprKind::Assign => ExprPlan { only_rhs: true, rewrite: ExprRewrite::Assign },
        ExprKind::AssignOp => ExprPlan { only_rhs: true, rewrite: ExprRewrite::AssignOp },
        ExprKind::Lit => ExprPlan { only_rhs: false, rewrite: ExprRewrite::Literal },
        ExprKind::Array => ExprPlan { only_rhs: false, rewrite: ExprRewrite::Array },
        ExprKind::Repeat => ExprPlan { only_rhs: false, rewrite: ExprRewrite::Array },
        ExprKind::AddrOf => ExprPlan { only_rhs: false, rewrite: ExprRewrite::AddrOf },
        ExprKind::Call => ExprPlan { only_rhs: false, rewrite: ExprRewrite::Call },
        ExprKind::MethodCall => ExprPlan { only_rhs: false, rewrite: ExprRewrite::MethodCall },
        ExprKind::Binary => ExprPlan { only_rhs: false, rewrite: ExprRewrite::Binary },
        ExprKind::Unary => ExprPlan { only_rhs: false, rewrite: ExprRewrite::Unary },
        ExprKind::If => ExprPlan { only_rhs: false, rewrite: ExprRewrite::If },
        ExprKind::While => ExprPlan { only_rhs: false, rewrite: ExprRewrite::While },
        ExprKind::Let => ExprPlan { only_rhs: false, rewrite: ExprRewrite::LetCondition },
        ExprKind::ForLoop => ExprPlan { only_rhs: false, rewrite: ExprRewrite::For },
        ExprKind::Loop => ExprPlan { only_rhs: false, rewrite: ExprRewrite::Loop },
        ExprKind::Match => ExprPlan { only_rhs: false, rewrite: ExprRewrite::Match },
        ExprKind::Index => ExprPlan { only_rhs: false, rewrite: ExprRewrite::Index },
        ExprKind::Range => ExprPlan { only_rhs: false, rewrite: ExprRewrite::Range },
        ExprKind::Closure => ExprPlan { only_rhs: false, rewrite: ExprRewrite::Closure },
        ExprKind::Other => ExprPlan { only_rhs: false, rewrite: ExprRewrite::Untouched },
    }
}

/// How an expression of kind `k` is instrumented.
pub fn transform_expr(k: ExprKind) -> (r: ExprPlan)
    ensures
        r == plan_of(k),
{
    let only_rhs = match k {
        ExprKind::Assign | ExprKind::AssignOp => true,
        _ => false,
    };
    let rewrite = match k {
        ExprKind::Assign => ExprRewrite::Assign,
        ExprKind::AssignOp => ExprRewrite::AssignOp,
        ExprKind::Lit => ExprRewrite::Literal,
        ExprKind::Array | ExprKind::Repeat => ExprRewrite::Array,
        ExprKind::AddrOf => ExprRewrite::AddrOf,
        ExprKind::Call => ExprRewrite::Call,
        ExprKind::MethodCall => ExprRewrite::MethodCall,
        ExprKind::Binary => ExprRewrite::Binary,
        ExprKind::Unary => ExprRewrite::Unary,
        ExprKind::If => ExprRewrite::If,
        ExprKind::While => ExprRewrite::While,
        ExprKind::Let => ExprRewrite::LetCondition,
        ExprKind::ForLoop => ExprRewrite::For,
        ExprKind::Loop => ExprRewrite::Loop,
        ExprKind::Match => ExprRewrite::Match,
        ExprKind::Index => ExprRewrite::Index,
        ExprKind::Range => ExprRewrite::Range,
        ExprKind::Closure => ExprRewrite::Closure,
        ExprKind::Other => ExprRewrite::Untouched,
    };
    ExprPlan { only_rhs, rewrite }
}

} // verus!
