use vstd::prelude::*;

verus! {

/// The binary operators of Rust expressions.
#[derive(Debug, Clone, Copy, PartialEq, Eq, Structural)]
pub enum BinOp {
    Add,
    Sub,
    Mul,
    Div,
    Rem,
    And,
    Or,
    BitXor,
    BitAnd,
    BitOr,
    Shl,
    Shr,
    Eq,
    Lt,
    Le,
    Ne,
    Ge,
    Gt,
}

/// How the instrumentation joins tags around an operator.
#[derive(Debug, Clone, Copy, PartialEq, Eq, Structural)]
pub enum OpKind {
    /// `==`, `<` and the like: the operands are joined, the boolean result
    /// stands apart.
    Comparison,
    /// `+`, `%`, `&&` and the like: the operands and the result are joined.
    Arithmetic,
    /// Bit operations and shifts: nothing is joined, the result stands apart.
    Bitwise,
}

/// How the rewriting of expressions treats an operator.
#[derive(Debug, Clone, Copy, PartialEq, Eq, Structural)]
pub enum RewriteKind {
    /// `&&` and `||`: the operands and the result are joined.
    Logical,
    /// Comparisons: the boolean result gets a fresh id.
    Comparison,
    /// Arithmetic and bit operations, left to the operators of tagged values.
    Arithmetic,
}

/// The comparison operators.
pub open spec fn is_comparison(op: BinOp) -> bool {
    op is Eq || op is Ne || op is Lt || op is Gt || op is Le || op is Ge
}

/// The operators on bits: the bitwise ones and the shifts.
pub open spec fn is_bit_operation(op: BinOp) -> bool {
    op is BitXor || op is BitAnd || op is BitOr || op is Shl || op is Shr
}

/// The lazy boolean operators.
pub open spec fn is_logical(op: BinOp) -> bool {
    op is And || op is Or
}

/// The kind of `op` for joining tags.
pub fn op_type(op: BinOp) -> (k: OpKind)
    ensures
        k == if is_comparison(op) {
            OpKind::Comparison
        } else if is_bit_operation(op) {
            OpKind::Bitwise
        } else {
            OpKind::Arithmetic
        },
{
    match op {
        BinOp::Eq | BinOp::Ne | BinOp::Lt | BinOp::Gt | BinOp::Le | BinOp::Ge => OpKind::Comparison,
        BinOp::Add | BinOp::Sub | BinOp::Mul | BinOp::Div | BinOp::Rem | BinOp::And | BinOp::Or =>
            OpKind::Arithmetic,
        BinOp::BitXor | BinOp::BitAnd | BinOp::BitOr | BinOp::Shl | BinOp::Shr => OpKind::Bitwise,
    }
}

/// The kind of `op` for rewriting expressions.
pub fn rewrite_op_type(op: BinOp) -> (k: RewriteKind)
    ensures
        k == if is_comparison(op) {
            RewriteKind::Comparison
        } else if is_logical(op) {
            RewriteKind::Logical
        } else {
            RewriteKind::Arithmetic
        },
{
    match op {
        BinOp::Eq | BinOp::Ne | BinOp::Lt | BinOp::Gt | BinOp::Le | BinOp::Ge => RewriteKind::Comparison,
        BinOp::BitXor | BinOp::BitAnd | BinOp::BitOr | BinOp::Shl | BinOp::Shr | BinOp::Add
        | BinOp::Sub | BinOp::Mul | BinOp::Div | BinOp::Rem => RewriteKind::Arithmetic,
        BinOp::And | BinOp::Or => RewriteKind::Logical,
    }
}

/// How `op` is written in Rust source.
pub open spec fn op_text(op: BinOp) -> Seq<char> {
    match op {
        BinOp::Add => seq!['+'],
        BinOp::Sub => seq!['-'],
        BinOp::Mul => seq!['*'],
        BinOp::Div => seq!['/'],
        BinOp::Rem => seq!['%'],
        BinOp::And => seq!['&', '&'],
        BinOp::Or => seq!['|', '|'],
        BinOp::Eq => seq!['=', '='],
        BinOp::Ne => seq!['!', '='],
        BinOp::Lt => seq!['<'],
        BinOp::Gt => seq!['>'],
        BinOp::Le => seq!['<', '='],
        BinOp::Ge => seq!['>', '='],
        BinOp::BitXor => seq!['^'],
        BinOp::BitAnd => seq!['&'],
        BinOp::BitOr => seq!['|'],
        BinOp::Shl => seq!['<', '<'],
        BinOp::Shr => seq!['>', '>'],
    }
}

/// The source text of `op`.
pub fn binop_str(op: BinOp) -> (s: &'static str)
    ensures
        s@ == op_text(op),
{
    match op {
        BinOp::Add => {
            proof {
                reveal_strlit("+");
            }
            "+"
        },
        BinOp::Sub => {
            proof {
                reveal_strlit("-");
            }
            "-"
        },
        BinOp::Mul => {
            proof {
                reveal_strlit("*");
            }
            "*"
        },
        BinOp::Div => {
            proof {
                reveal_strlit("/");
            }
            "/"
        },
        BinOp::Rem => {
            proof {
                reveal_strlit("%");
            }
            "%"
        },
        BinOp::And => {
            proof {
                reveal_strlit("&&");
            }
            "&&"
        },
        BinOp::Or => {
            proof {
                reveal_strlit("||");
            }
            "||"
        },
        BinOp::Eq => {
            proof {
                reveal_strlit("==");
            }
            "=="
        },
        BinOp::Ne => {
            proof {
                reveal_strlit("!=");
            }
            "!="
        },
        BinOp::Lt => {
            proof {
                reveal_strlit("<");
            }
            "<"
        },
        BinOp::Gt => {
            proof {
                reveal_strlit(">");
            }
            ">"
        },
        BinOp::Le => {
            proof {
                reveal_strlit("<=");
            }
            "<="
        },
        BinOp::Ge => {
            proof {
                reveal_strlit(">=");
            }
            ">="
        },
        BinOp::BitXor => {
            proof {
                reveal_strlit("^");
            }
            "^"
        },
        BinOp::BitAnd => {
            proof {
                reveal_strlit("&");
            }
            "&"
        },
        BinOp::BitOr => {
            proof {
                reveal_strlit("|");
            }
            "|"
        },
        BinOp::Shl => {
            proof {
                reveal_strlit("<<");
            }
            "<<"
        },
        BinOp::Shr => {
            proof {
                reveal_strlit(">>");
            }
            ">>"
        },
    }
}

} // verus!
