use vstd::prelude::*;

use crate::first_pass::FirstPassInfo;
use crate::span_key::SpanKey;
use crate::operators::{binop_str, is_bit_operation, is_comparison, is_logical, op_text, op_type, rewrite_op_type, BinOp, OpKind, RewriteKind};

verus! {

/// The opening of a block that first evaluates both operands.
pub open spec fn operands_text(lhs: Seq<char>, rhs: Seq<char>) -> Seq<char> {
    "{ let __ati_lhs = "@ + lhs + "; let __ati_rhs = "@ + rhs + "; "@
}

/// The end of a block that builds the tagged result of `op`.
pub open spec fn result_text(op: BinOp) -> Seq<char> {
    "Tagged(__ati_id, __ati_lhs.1 "@ + op_text(op) + " __ati_rhs.1) }"@
}

/// The statement that joins the operands' tags.
pub open spec fn join_text() -> Seq<char> {
    "ATI_ANALYSIS.lock().unwrap().union_and_get_id(&__ati_lhs.0, &__ati_rhs.0); "@
}

/// The statement that takes the joined tag as the result's id.
pub open spec fn joined_id_text() -> Seq<char> {
    "let __ati_id = ATI_ANALYSIS.lock().unwrap().union_and_get_id(&__ati_lhs.0, &__ati_rhs.0).unwrap(); "@
}

/// The statement that takes a fresh id for the result.
pub open spec fn fresh_id_text() -> Seq<char> {
    "let __ati_id = ATI_ANALYSIS.lock().unwrap().make_id(); "@
}

/// The block that stands for `lhs op rhs` on tagged operands: comparisons
/// join the operands and give the result a fresh id, arithmetic joins the
/// operands and the result, bit operations give the result a fresh id.
pub open spec fn binary_op_text(op: BinOp, lhs: Seq<char>, rhs: Seq<char>) -> Seq<char> {
    operands_text(lhs, rhs) + if is_comparison(op) {
        join_text() + fresh_id_text()
    } else if is_bit_operation(op) {
        fresh_id_text()
    } else {
        joined_id_text()
    } + result_text(op)
}

/// The block that records `lhs op rhs` between tagged operands and builds
/// its tagged result.
pub fn binary_op_block(op: BinOp, lhs: &str, rhs: &str) -> (s: String)
    ensures
        s@ == binary_op_text(op, lhs@, rhs@),
{
    let mut s = String::new();
    s.append("{ let __ati_lhs = ");
    s.append(lhs);
    s.append("; let __ati_rhs = ");
    s.append(rhs);
    s.append("; ");
    match op_type(op) {
        OpKind::Comparison => {
            s.append("ATI_ANALYSIS.lock().unwrap().union_and_get_id(&__ati_lhs.0, &__ati_rhs.0); ");
            s.append("let __ati_id = ATI_ANALYSIS.lock().unwrap().make_id(); ");
        },
        OpKind::Arithmetic => {
            s.append(
                "let __ati_id = ATI_ANALYSIS.lock().unwrap().union_and_get_id(&__ati_lhs.0, &__ati_rhs.0).unwrap(); ",
            );
        },
        OpKind::Bitwise => {
            s.append("let __ati_id = ATI_ANALYSIS.lock().unwrap().make_id(); ");
        },
    }
    s.append("Tagged(__ati_id, __ati_lhs.1 ");
    s.append(binop_str(op));
    s.append(" __ati_rhs.1) }");
    assert(s@ =~= binary_op_text(op, lhs@, rhs@));
    s
}

/// The block that stands for `lhs op= rhs`: arithmetic joins the two sides,
/// bit operations give the new value a fresh id.
pub open spec fn assign_op_text(op: BinOp, lhs: Seq<char>, rhs: Seq<char>) -> Seq<char> {
    "{ let __ati_rhs = "@ + rhs + "; let __ati_id = ATI_ANALYSIS.lock().unwrap()."@ + if is_bit_operation(
        op,
    ) {
        "make_id()"@
    } else {
        "union_and_get_id(&"@ + lhs + ".0, &__ati_rhs.0).unwrap()"@
    } + "; "@ + lhs + " = Tagged(__ati_id, "@ + lhs + ".1 "@ + op_text(op) + " __ati_rhs.1); }"@
}

/// The block that records `lhs op= rhs` and writes the tagged result back.
/// A comparison is no compound assignment.
pub fn assign_op_block(op: BinOp, lhs: &str, rhs: &str) -> (s: String)
    requires
        !is_comparison(op),
    ensures
        s@ == assign_op_text(op, lhs@, rhs@),
{
    let mut s = String::new();
    s.append("{ let __ati_rhs = ");
    s.append(rhs);
    s.append("; let __ati_id = ATI_ANALYSIS.lock().unwrap().");
    if op_type(op) == OpKind::Bitwise {
        s.append("make_id()");
    } else {
        s.append("union_and_get_id(&");
        s.append(lhs);
        s.append(".0, &__ati_rhs.0).unwrap()");
    }
    s.append("; ");
    s.append(lhs);
    s.append(" = Tagged(__ati_id, ");
    s.append(lhs);
    s.append(".1 ");
    s.append(binop_str(op));
    s.append(" __ati_rhs.1); }");
    assert(s@ =~= assign_op_text(op, lhs@, rhs@));
    s
}

/// The block that stands for `lhs op rhs` when expressions are rewritten:
/// a comparison gives its boolean a fresh id, `&&` and `||` join both sides
/// with the result, and everything else is left to the operators of tagged
/// values.
pub open spec fn rewrite_binary_op_text(op: BinOp, lhs: Seq<char>, rhs: Seq<char>) -> Seq<char> {
    if is_comparison(op) {
        "{ "@ + fresh_id_text() + "Tagged(__ati_id, "@ + lhs + " "@ + op_text(op) + " "@ + rhs
            + ") }"@
    } else if is_logical(op) {
        operands_text(lhs, rhs) + joined_id_text() + result_text(op)
    } else {
        "{ ("@ + lhs + " "@ + op_text(op) + " "@ + rhs + ") }"@
    }
}

/// The rewritten text of `lhs op rhs`.
pub fn rewrite_binary_op(op: BinOp, lhs: &str, rhs: &str) -> (s: String)
    ensures
        s@ == rewrite_binary_op_text(op, lhs@, rhs@),
{
    let mut s = String::new();
    match rewrite_op_type(op) {
        RewriteKind::Comparison => {
            s.append("{ ");
            s.append("let __ati_id = ATI_ANALYSIS.lock().unwrap().make_id(); ");
            s.append("Tagged(__ati_id, ");
            s.append(lhs);
            s.append(" ");
            s.append(binop_str(op));
            s.append(" ");
            s.append(rhs);
            s.append(") }");
        },
        RewriteKind::Logical => {
            s.append("{ let __ati_lhs = ");
            s.append(lhs);
            s.append("; let __ati_rhs = ");
            s.append(rhs);
            s.append("; ");
            s.append(
                "let __ati_id = ATI_ANALYSIS.lock().unwrap().union_and_get_id(&__ati_lhs.0, &__ati_rhs.0).unwrap(); ",
            );
            s.append("Tagged(__ati_id, __ati_lhs.1 ");
            s.append(binop_str(op));
            s.append(" __ati_rhs.1) }");
        },
        RewriteKind::Arithmetic => {
            s.append("{ (");
            s.append(lhs);
            s.append(" ");
            s.append(binop_str(op));
            s.append(" ");
            s.append(rhs);
            s.append(") }");
        },
    }
    assert(s@ =~= rewrite_binary_op_text(op, lhs@, rhs@));
    s
}

/// The text that stands for `lhs = rhs`: both sides are joined, then the
/// right side is assigned.
pub open spec fn rewrite_assign_text(lhs: Seq<char>, rhs: Seq<char>) -> Seq<char> {
    lhs + " = "@ + operands_text(lhs, rhs) + join_text() + "__ati_rhs }"@
}

/// The rewritten text of `lhs = rhs`.
pub fn rewrite_assign(lhs: &str, rhs: &str) -> (s: String)
    ensures
        s@ == rewrite_assign_text(lhs@, rhs@),
{
    let mut s = String::new();
    s.append(lhs);
    s.append(" = ");
    s.append("{ let __ati_lhs = ");
    s.append(lhs);
    s.append("; let __ati_rhs = ");
    s.append(rhs);
    s.append("; ");
    s.append("ATI_ANALYSIS.lock().unwrap().union_and_get_id(&__ati_lhs.0, &__ati_rhs.0); ");
    s.append("__ati_rhs }");
    assert(s@ =~= rewrite_assign_text(lhs@, rhs@));
    s
}

/// The call that builds a tracked range from the text of its ends: `lo` and
/// `hi` where the range has them, `inclusive` for `..=`.
pub open spec fn range_call_text(lo: Option<Seq<char>>, hi: Option<Seq<char>>, inclusive: bool) -> Seq<
    char,
> {
    match (lo, hi) {
        (Some(l), Some(h)) => if inclusive {
            "ATI::track_range_inclusive("@ + l + ", "@ + h + ")"@
        } else {
            "ATI::track_range("@ + l + ", "@ + h + ")"@
        },
        (Some(l), None) => "ATI::track_range_from("@ + l + ")"@,
        (None, Some(h)) => if inclusive {
            "ATI::track_range_to_inclusive("@ + h + ")"@
        } else {
            "ATI::track_range_to("@ + h + ")"@
        },
        (None, None) => "ATI::track_range_full()"@,
    }
}

/// The view of an optional piece of text.
pub open spec fn opt_view(t: Option<&str>) -> Option<Seq<char>> {
    match t {
        Some(s) => Some(s@),
        None => None,
    }
}

/// The rewritten text of a range expression with the ends `lo` and `hi`.
pub fn range_constructor(lo: Option<&str>, hi: Option<&str>, inclusive: bool) -> (s: String)
    ensures
        s@ == range_call_text(opt_view(lo), opt_view(hi), inclusive),
{
    let mut s = String::new();
    match (lo, hi) {
        (Some(l), Some(h)) => {
            if inclusive {
                s.append("ATI::track_range_inclusive(");
            } else {
                s.append("ATI::track_range(");
            }
            s.append(l);
            s.append(", ");
            s.append(h);
            s.append(")");
        },
        (Some(l), None) => {
            s.append("ATI::track_range_from(");
            s.append(l);
            s.append(")");
        },
        (None, Some(h)) => {
            if inclusive {
                s.append("ATI::track_range_to_inclusive(");
            } else {
                s.append("ATI::track_range_to(");
            }
            s.append(h);
            s.append(")");
        },
        (None, None) => {
            s.append("ATI::track_range_full()");
        },
    }
    assert(s@ =~= range_call_text(opt_view(lo), opt_view(hi), inclusive));
    s
}

/// The call that turns a borrow of an array into a tracked slice: the
/// helper, then the borrow (`&` or `&mut ` by `mutable`) of `target`, and,
/// for a sub-slice, `, index`. The borrow written in front of the array is
/// taken into the helper's tracked slice, so none stands before the call.
pub open spec fn slice_coercion_text(mutable: bool, target: Seq<char>, index: Option<Seq<char>>) -> Seq<
    char,
> {
    let amp = if mutable {
        "&mut "@
    } else {
        "&"@
    };
    let helper = match index {
        Some(_) => if mutable {
            "ATI::track_subslice_mut("@
        } else {
            "ATI::track_subslice("@
        },
        None => if mutable {
            "ATI::track_slice_mut("@
        } else {
            "ATI::track_slice("@
        },
    };
    match index {
        Some(i) => helper + amp + target + ", "@ + i + ")"@,
        None => helper + amp + target + ")"@,
    }
}

/// The rewritten text of a borrow of `target`, indexed by `index` when
/// there is one, that coerces an array to a slice.
pub fn slice_coercion(mutable: bool, target: &str, index: Option<&str>) -> (s: String)
    ensures
        s@ == slice_coercion_text(mutable, target@, opt_view(index)),
{
    let amp = if mutable {
        "&mut "
    } else {
        "&"
    };
    let mut s = String::new();
    match index {
        Some(i) => {
            if mutable {
                s.append("ATI::track_subslice_mut(");
            } else {
                s.append("ATI::track_subslice(");
            }
            s.append(amp);
            s.append(target);
            s.append(", ");
            s.append(i);
            s.append(")");
        },
        None => {
            if mutable {
                s.append("ATI::track_slice_mut(");
            } else {
                s.append("ATI::track_slice(");
            }
            s.append(amp);
            s.append(target);
            s.append(")");
        },
    }
    assert(s@ =~= slice_coercion_text(mutable, target@, opt_view(index)));
    s
}

/// `"_mut"` for a mutable borrow, nothing for a shared one.
pub open spec fn mut_suffix(mutable: bool) -> Seq<char> {
    if mutable {
        "_mut"@
    } else {
        ""@
    }
}

/// The text of the parts of an index expression `recv[idx]`.
pub open spec fn index_parts_view(p: Option<(&str, &str)>) -> Option<(Seq<char>, Seq<char>)> {
    match p {
        Some((r, i)) => Some((r@, i@)),
        None => None,
    }
}

/// What a borrow `&e` or `&mut e` becomes: a borrow of a range of an array or
/// slice becomes a tracked sub-slice, `recv.subslice(idx)`; a borrow of a
/// tracked primitive becomes `(&e).as_tagged_ref()`; other borrows stay as
/// they are (`None`). The suffix `_mut` marks the mutable forms.
pub open spec fn addr_of_text(
    by_range: bool,
    to_tupleable: bool,
    mutable: bool,
    borrow: Seq<char>,
    index: Option<(Seq<char>, Seq<char>)>,
) -> Option<Seq<char>> {
    if by_range {
        match index {
            Some((r, i)) => Some(r + ".subslice"@ + mut_suffix(mutable) + "("@ + i + ")"@),
            None => None,
        }
    } else if to_tupleable {
        Some("("@ + borrow + ").as_tagged_ref"@ + mut_suffix(mutable) + "()"@)
    } else {
        None
    }
}

/// Rewrites the borrow written `borrow`, found at `loc`, of the expression at
/// `referent_loc`; `index` holds the receiver and index of the referent where
/// it is an index expression. `None` where the borrow stays as it is.
pub fn transform_addr_of(
    info: &FirstPassInfo,
    mutable: bool,
    borrow: &str,
    loc: Option<&SpanKey>,
    referent_loc: Option<&SpanKey>,
    index: Option<(&str, &str)>,
) -> (r: Option<String>)
    requires
        info.wf(),
        (referent_loc matches Some(k) && info.range_indexes().contains(k@)) ==> index is Some,
    ensures
        match r {
            Some(t) => addr_of_text(
                referent_loc matches Some(k) && info.range_indexes().contains(k@),
                loc matches Some(k) && info.refs_to_tupleable().contains(k@),
                mutable,
                borrow@,
                index_parts_view(index),
            ) == Some(t@),
            None => addr_of_text(
                referent_loc matches Some(k) && info.range_indexes().contains(k@),
                loc matches Some(k) && info.refs_to_tupleable().contains(k@),
                mutable,
                borrow@,
                index_parts_view(index),
            ) is None,
        },
{
    let suffix = if mutable {
        "_mut"
    } else {
        ""
    };
    proof {
        reveal_strlit("_mut");
        reveal_strlit("");
    }
    if info.is_span_index_by_range(referent_loc) {
        match index {
            Some((recv, idx)) => {
                let mut s = recv.to_owned();
                s.append(".subslice");
                s.append(suffix);
                s.append("(");
                s.append(idx);
                s.append(")");
                assert(s@ =~= recv@ + ".subslice"@ + mut_suffix(mutable) + "("@ + idx@ + ")"@);
                return Some(s);
            },
            None => {
                return None;
            },
        }
    }
    if info.is_span_ref_to_tupleable_ty(loc) {
        let mut s = "(".to_owned();
        s.append(borrow);
        s.append(").as_tagged_ref");
        s.append(suffix);
        s.append("()");
        assert(s@ =~= "("@ + borrow@ + ").as_tagged_ref"@ + mut_suffix(mutable) + "()"@);
        return Some(s);
    }
    None
}

/// `ATI::track(e)`: the value of `e` made tracked.
pub open spec fn track_text(e: Seq<char>) -> Seq<char> {
    "ATI::track("@ + e + ")"@
}

/// `ATI::track_array(e)`: the array `e` made tracked.
pub open spec fn track_array_text(e: Seq<char>) -> Seq<char> {
    "ATI::track_array("@ + e + ")"@
}

/// `(e).1`: the plain value inside the tracked value of `e`.
pub open spec fn untuple_text(e: Seq<char>) -> Seq<char> {
    "("@ + e + ").1"@
}

/// `ATI::track(e)`.
pub fn tuplify_expr(e: &str) -> (s: String)
    ensures
        s@ == track_text(e@),
{
    let mut s = "ATI::track(".to_owned();
    s.append(e);
    s.append(")");
    s
}

/// `ATI::track_array(e)`.
pub fn tuplify_array(e: &str) -> (s: String)
    ensures
        s@ == track_array_text(e@),
{
    let mut s = "ATI::track_array(".to_owned();
    s.append(e);
    s.append(")");
    s
}

/// `(e).1`.
pub fn untuple(e: &str) -> (s: String)
    ensures
        s@ == untuple_text(e@),
{
    let mut s = "(".to_owned();
    s.append(e);
    s.append(").1");
    s
}

/// An argument of a call: its text, and whether its type was a reference
/// before instrumenting.
pub struct CallArg {
    pub text: String,
    pub by_ref: bool,
}

/// An argument as an untracked function takes it: a reference as written,
/// any other value with its tag taken off.
pub open spec fn arg_text(a: CallArg) -> Seq<char> {
    if a.by_ref {
        a.text@
    } else {
        untuple_text(a.text@)
    }
}

/// The arguments, as an untracked function takes them, separated by `, `.
pub open spec fn args_text(s: Seq<CallArg>) -> Seq<char>
    decreases s.len(),
{
    if s.len() == 0 {
        Seq::empty()
    } else if s.len() == 1 {
        arg_text(s[0])
    } else {
        args_text(s.drop_last()) + ", "@ + arg_text(s.last())
    }
}

/// A call of the untracked function `callee`: its arguments lose their tags,
/// and a result that is a tracked primitive is made tracked.
pub open spec fn untracked_call_text(callee: Seq<char>, args: Seq<CallArg>, tupleable: bool) -> Seq<
    char,
> {
    let call = callee + "("@ + args_text(args) + ")"@;
    if tupleable {
        track_text(call)
    } else {
        call
    }
}

/// Rewrites the call of the function written `callee`, at `loc`, with
/// `args`: where an untracked call was recorded there, the call that
/// `untracked_call_text` describes; `None` where the call stays as it is.
pub fn rewrite_call(info: &FirstPassInfo, loc: Option<&SpanKey>, callee: &str, args: &Vec<CallArg>) -> (r:
    Option<String>)
    requires
        info.wf(),
    ensures
        match r {
            Some(t) => loc matches Some(k) && info.untracked_calls().contains_key(k@) && t@
                == untracked_call_text(callee@, args@, info.untracked_calls()[k@]),
            None => !(loc matches Some(k) && info.untracked_calls().contains_key(k@)),
        },
{
    let tupleable = match info.is_untracked_call_ret_tupleable(loc) {
        Some(b) => b,
        None => {
            return None;
        },
    };
    let mut call = callee.to_owned();
    call.append("(");
    let ghost start = call@;
    let mut i: usize = 0;
    while i < args.len()
        invariant
            i <= args.len(),
            call@ == start + args_text(args@.take(i as int)),
        decreases args.len() - i,
    {
        let ghost prev = call@;
        let ghost t = args@.take(i as int + 1);
        assert(t.drop_last() =~= args@.take(i as int));
        assert(t.last() == args@[i as int]);
        if i > 0 {
            call.append(", ");
        }
        if args[i].by_ref {
            call.append(args[i].text.as_str());
        } else {
            call.append("(");
            call.append(args[i].text.as_str());
            call.append(").1");
        }
        proof {
            if i == 0 {
                assert(t.len() == 1);
                assert(call@ =~= start + args_text(t));
            } else {
                assert(call@ =~= start + args_text(t));
            }
        }
        i = i + 1;
    }
    assert(args@.take(args@.len() as int) =~= args@);
    call.append(")");
    assert(call@ =~= callee@ + "("@ + args_text(args@) + ")"@);
    if tupleable {
        Some(tuplify_expr(call.as_str()))
    } else {
        Some(call)
    }
}

/// `inner.assign(rhs)`: an assignment through a tracked mutable reference
/// that writes both the tag and the value.
pub open spec fn assign_through_text(inner: Seq<char>, rhs: Seq<char>) -> Seq<char> {
    inner + ".assign("@ + rhs + ")"@
}

/// A compound assignment through a tracked mutable reference: the current
/// tracked value is read through the reference, combined with `rhs` by `op`,
/// and written back, tag and value.
pub open spec fn assign_op_through_text(inner: Seq<char>, op: BinOp, rhs: Seq<char>) -> Seq<char> {
    "{ let mut __ati_lhs = "@ + inner + "; __ati_lhs.assign(Tagged(*__ati_lhs.0, *__ati_lhs.1) "@ + op_text(
        op,
    ) + " "@ + rhs + "); }"@
}

/// Whether the first pass recorded an assignment through a tracked mutable
/// reference at `loc`.
pub open spec fn through_tagged_ref(info: FirstPassInfo, loc: Option<&SpanKey>) -> bool {
    loc matches Some(k) && info.assigns_through_tagged_refs().contains(k@)
}

/// Rewrites the assignment `lhs = rhs` found at `loc`, where `deref` holds
/// the text of `inner` when `lhs` is written `*inner`: an assignment that the
/// first pass recorded as going through a tracked mutable reference, with a
/// dereference on its left, becomes `inner.assign(rhs)`; any other stays as
/// it is (`None`), its left side not rewritten.
pub fn transform_assign(info: &FirstPassInfo, loc: Option<&SpanKey>, deref: Option<&str>, rhs: &str) -> (r:
    Option<String>)
    requires
        info.wf(),
    ensures
        match r {
            Some(t) => through_tagged_ref(*info, loc) && (deref matches Some(inner) && t@
                == assign_through_text(inner@, rhs@)),
            None => !(through_tagged_ref(*info, loc) && deref is Some),
        },
{
    if !info.is_assign_through_tagged_ref_mut(loc) {
        return None;
    }
    match deref {
        Some(inner) => {
            let mut s = inner.to_owned();
            s.append(".assign(");
            s.append(rhs);
            s.append(")");
            Some(s)
        },
        None => None,
    }
}

/// Rewrites the compound assignment `lhs op= rhs` found at `loc`, where
/// `deref` holds the text of `inner` when `lhs` is written `*inner`: one that
/// the first pass recorded as going through a tracked mutable reference,
/// with a dereference on its left, becomes the block of
/// `assign_op_through_text`; any other stays as it is (`None`).
pub fn transform_assign_op(
    info: &FirstPassInfo,
    loc: Option<&SpanKey>,
    deref: Option<&str>,
    op: BinOp,
    rhs: &str,
) -> (r: Option<String>)
    requires
        info.wf(),
    ensures
        match r {
            Some(t) => through_tagged_ref(*info, loc) && (deref matches Some(inner) && t@
                == assign_op_through_text(inner@, op, rhs@)),
            None => !(through_tagged_ref(*info, loc) && deref is Some),
        },
{
    if !info.is_assign_through_tagged_ref_mut(loc) {
        return None;
    }
    match deref {
        Some(inner) => {
            let mut s = "{ let mut __ati_lhs = ".to_owned();
            s.append(inner);
            s.append("; __ati_lhs.assign(Tagged(*__ati_lhs.0, *__ati_lhs.1) ");
            s.append(binop_str(op));
            s.append(" ");
            s.append(rhs);
            s.append("); }");
            Some(s)
        },
        None => None,
    }
}

/// `(recv).1[(index).1]`: an index expression whose collection and index
/// lose their tags.
pub open spec fn untuple_index_text(recv: Seq<char>, index: Seq<char>) -> Seq<char> {
    untuple_text(recv) + "["@ + untuple_text(index) + "]"@
}

/// The index expression `recv[index]` with its collection and index untupled.
pub fn untuple_index(recv: &str, index: &str) -> (s: String)
    ensures
        s@ == untuple_index_text(recv@, index@),
{
    let mut s = untuple(recv);
    s.append("[");
    let i = untuple(index);
    s.append(i.as_str());
    s.append("]");
    s
}

/// The block of a binary operation depends on the operator only through
/// its kind and its text: two operators of one kind give blocks that differ
/// only where the operator is written.
pub proof fn law_binary_op_kind_decides(op1: BinOp, op2: BinOp, lhs: Seq<char>, rhs: Seq<char>)
    requires
        is_comparison(op1) == is_comparison(op2),
        is_bit_operation(op1) == is_bit_operation(op2),
    ensures
        exists|pre: Seq<char>, post: Seq<char>|
            binary_op_text(op1, lhs, rhs) == pre + op_text(op1) + post && binary_op_text(op2, lhs, rhs)
                == pre + op_text(op2) + post,
{
    let mid = if is_comparison(op1) {
        join_text() + fresh_id_text()
    } else if is_bit_operation(op1) {
        fresh_id_text()
    } else {
        joined_id_text()
    };
    let pre = operands_text(lhs, rhs) + mid + "Tagged(__ati_id, __ati_lhs.1 "@;
    let post = " __ati_rhs.1) }"@;
    assert(binary_op_text(op1, lhs, rhs) =~= pre + op_text(op1) + post);
    assert(binary_op_text(op2, lhs, rhs) =~= pre + op_text(op2) + post);
}

/// What the block of `lhs op rhs` records, by the kind of `op`: after
/// evaluating both operands, a comparison joins their tags and then gives
/// its result a fresh id; an arithmetic operation gives its result the
/// joined tag of its operands; a bit operation gives its result a fresh id.
/// The block ends by building the tagged result of `op`.
pub proof fn law_binary_op_records(op: BinOp, lhs: Seq<char>, rhs: Seq<char>)
    ensures
        is_comparison(op) ==> (operands_text(lhs, rhs) + join_text() + fresh_id_text()).is_prefix_of(
            binary_op_text(op, lhs, rhs),
        ),
        !is_comparison(op) && is_bit_operation(op) ==> (operands_text(lhs, rhs)
            + fresh_id_text()).is_prefix_of(binary_op_text(op, lhs, rhs)),
        !is_comparison(op) && !is_bit_operation(op) ==> (operands_text(lhs, rhs)
            + joined_id_text()).is_prefix_of(binary_op_text(op, lhs, rhs)),
        result_text(op).is_suffix_of(binary_op_text(op, lhs, rhs)),
{
    let t = binary_op_text(op, lhs, rhs);
    let r = result_text(op);
    if is_comparison(op) {
        let p = operands_text(lhs, rhs) + join_text() + fresh_id_text();
        assert(t =~= p + r);
        assert(t.subrange(0, p.len() as int) =~= p);
        assert(t.subrange(t.len() - r.len(), t.len() as int) =~= r);
    } else if is_bit_operation(op) {
        let p = operands_text(lhs, rhs) + fresh_id_text();
        assert(t =~= p + r);
        assert(t.subrange(0, p.len() as int) =~= p);
        assert(t.subrange(t.len() - r.len(), t.len() as int) =~= r);
    } else {
        let p = operands_text(lhs, rhs) + joined_id_text();
        assert(t =~= p + r);
        assert(t.subrange(0, p.len() as int) =~= p);
        assert(t.subrange(t.len() - r.len(), t.len() as int) =~= r);
    }
}

} // verus!
