use vstd::prelude::*;

use crate::text::{decimal, push_decimal};
use crate::ty_shape::name_is;

verus! {

/// The shape of the initialiser of a `let`, as far as hoisting reads it.
/// A method call carries the id by which the caller finds its node again.
pub enum ExprShape {
    /// A path; a place.
    Path,
    /// A field access; a place.
    Field(Box<ExprShape>),
    /// An index; a place.
    Index(Box<ExprShape>, Box<ExprShape>),
    /// A unary operation; `true` for a dereference, which is a place.
    Unary(bool, Box<ExprShape>),
    /// `&e`, `(e)`, `e as T` or `[e; N]`.
    Wrapped(Box<ExprShape>),
    /// A tuple or an array.
    List(Vec<ExprShape>),
    /// A call of a function.
    Call(Box<ExprShape>, Vec<ExprShape>),
    /// A method call: its node, the method's name, the receiver and the arguments.
    MethodCall(u64, String, Box<ExprShape>, Vec<ExprShape>),
    /// A binary operation; `true` for `&&` and `||`, whose operands are left alone.
    Binary(bool, Box<ExprShape>, Box<ExprShape>),
    /// A range with its optional ends.
    Range(Option<Box<ExprShape>>, Option<Box<ExprShape>>),
    /// A struct literal, by the expressions of its fields.
    Struct(Vec<ExprShape>),
    /// Any other expression, which hoisting does not look into.
    Other,
}

/// A place expression: a path, a field, an index or a dereference.
pub open spec fn is_place(e: ExprShape) -> bool {
    ||| e is Path
    ||| e is Field
    ||| e is Index
    ||| e matches ExprShape::Unary(deref, _) && deref
}

/// The methods whose receiver is moved into a binding of its own.
pub open spec fn is_hoisted_method(name: Seq<char>) -> bool {
    ||| name == "as_tagged_ref"@
    ||| name == "as_tagged_ref_mut"@
    ||| name == "subslice"@
    ||| name == "subslice_mut"@
}

/// Whether the receiver of `e` goes into a binding of its own: `e` calls one
/// of those methods on a receiver that is not a place.
pub open spec fn requires_hoist(e: ExprShape) -> bool {
    e matches ExprShape::MethodCall(_, name, recv, _) && is_hoisted_method(name@) && !is_place(*recv)
}

/// The method calls below and at `e` whose receivers are hoisted, in the
/// order their bindings come: the parts of `e` first, from left to right,
/// then `e` itself.
pub open spec fn hoisted(e: ExprShape) -> Seq<u64>
    decreases e,
{
    let inner = match e {
        ExprShape::Field(a) => hoisted(*a),
        ExprShape::Unary(_, a) => hoisted(*a),
        ExprShape::Wrapped(a) => hoisted(*a),
        ExprShape::Index(a, b) => hoisted(*a) + hoisted(*b),
        ExprShape::List(v) => hoisted_all(v@),
        ExprShape::Struct(v) => hoisted_all(v@),
        ExprShape::Call(f, v) => hoisted(*f) + hoisted_all(v@),
        ExprShape::MethodCall(_, _, r, v) => hoisted(*r) + hoisted_all(v@),
        ExprShape::Binary(short, a, b) => if short {
            Seq::empty()
        } else {
            hoisted(*a) + hoisted(*b)
        },
        ExprShape::Range(a, b) => hoisted_opt(a) + hoisted_opt(b),
        _ => Seq::empty(),
    };
    match e {
        ExprShape::MethodCall(id, _, _, _) => if requires_hoist(e) {
            inner.push(id)
        } else {
            inner
        },
        _ => inner,
    }
}

pub open spec fn hoisted_all(s: Seq<ExprShape>) -> Seq<u64>
    decreases s,
{
    if s.len() == 0 {
        Seq::empty()
    } else {
        hoisted_all(s.subrange(0, s.len() - 1)) + hoisted(s[s.len() - 1])
    }
}

pub open spec fn hoisted_opt(o: Option<Box<ExprShape>>) -> Seq<u64>
    decreases o,
{
    match o {
        Some(b) => hoisted(*b),
        None => Seq::empty(),
    }
}

fn is_place_shape(e: &ExprShape) -> (b: bool)
    ensures
        b == is_place(*e),
{
    match e {
        ExprShape::Path => true,
        ExprShape::Field(_) => true,
        ExprShape::Index(_, _) => true,
        ExprShape::Unary(deref, _) => *deref,
        _ => false,
    }
}

fn is_hoisted_method_name(n: &str) -> (b: bool)
    ensures
        b == is_hoisted_method(n@),
{
    name_is(n, "as_tagged_ref") || name_is(n, "as_tagged_ref_mut") || name_is(n, "subslice")
        || name_is(n, "subslice_mut")
}

/// Appends to `out` the method calls below and at `e` whose receivers are
/// hoisted, in the order their bindings come.
pub fn push_hoisted(e: &ExprShape, out: &mut Vec<u64>)
    ensures
        final(out)@ == old(out)@ + hoisted(*e),
    decreases e,
{
    let ghost o0 = out@;
    match e {
        ExprShape::Field(a) => push_hoisted(a, out),
        ExprShape::Unary(_, a) => push_hoisted(a, out),
        ExprShape::Wrapped(a) => push_hoisted(a, out),
        ExprShape::Index(a, b) => {
            push_hoisted(a, out);
            push_hoisted(b, out);
            assert(out@ =~= o0 + (hoisted(**a) + hoisted(**b)));
        },
        ExprShape::List(v) => push_hoisted_all(v, out),
        ExprShape::Struct(v) => push_hoisted_all(v, out),
        ExprShape::Call(f, v) => {
            push_hoisted(f, out);
            push_hoisted_all(v, out);
            assert(out@ =~= o0 + (hoisted(**f) + hoisted_all(v@)));
        },
        ExprShape::MethodCall(id, name, r, v) => {
            push_hoisted(r, out);
            push_hoisted_all(v, out);
            let ghost inner = hoisted(**r) + hoisted_all(v@);
            assert(out@ =~= o0 + inner);
            if is_hoisted_method_name(name.as_str()) && !is_place_shape(r) {
                out.push(*id);
                assert(out@ =~= o0 + inner.push(*id));
            }
        },
        ExprShape::Binary(short, a, b) => {
            if !*short {
                push_hoisted(a, out);
                push_hoisted(b, out);
                assert(out@ =~= o0 + (hoisted(**a) + hoisted(**b)));
            } else {
                assert(out@ =~= o0 + Seq::<u64>::empty());
            }
        },
        ExprShape::Range(a, b) => {
            match a {
                Some(x) => push_hoisted(x, out),
                None => {},
            }
            let ghost mid = out@;
            assert(mid =~= o0 + hoisted_opt(*a));
            match b {
                Some(y) => push_hoisted(y, out),
                None => {},
            }
            assert(out@ =~= mid + hoisted_opt(*b));
            assert(out@ =~= o0 + (hoisted_opt(*a) + hoisted_opt(*b)));
        },
        _ => {
            assert(out@ =~= o0 + Seq::<u64>::empty());
        },
    }
}

/// Appends to `out` what `push_hoisted` appends for each of `v`, in turn.
pub fn push_hoisted_all(v: &Vec<ExprShape>, out: &mut Vec<u64>)
    ensures
        final(out)@ == old(out)@ + hoisted_all(v@),
    decreases v,
{
    let ghost o0 = out@;
    let mut i: usize = 0;
    assert(hoisted_all(v@.subrange(0, 0)) =~= Seq::<u64>::empty());
    assert(out@ =~= o0 + hoisted_all(v@.subrange(0, 0)));
    while i < v.len()
        invariant
            i <= v.len(),
            out@ == o0 + hoisted_all(v@.subrange(0, i as int)),
        decreases v.len() - i,
    {
        let ghost before = out@;
        push_hoisted(&v[i], out);
        proof {
            let s = v@.subrange(0, i + 1);
            assert(s.subrange(0, s.len() - 1) =~= v@.subrange(0, i as int));
            assert(s[s.len() - 1] == v@[i as int]);
            assert(out@ =~= o0 + hoisted_all(s));
        }
        i = i + 1;
    }
    assert(v@.subrange(0, v@.len() as int) =~= v@);
}

/// The name of the binding that takes the receiver numbered `k`.
pub open spec fn hoist_name(k: nat) -> Seq<char> {
    "__ati_hoist_"@ + decimal(k)
}

/// Hoisting in the initialiser `e` of a `let`, the bindings numbered from
/// `counter`: each method call whose receiver moves into a binding of its
/// own, with that binding's name, in the order the bindings come before the
/// `let`; and the number the next binding gets.
pub fn collect_hoists(e: &ExprShape, counter: u64) -> (r: (Vec<(u64, String)>, u64))
    requires
        counter + hoisted(*e).len() <= u64::MAX,
    ensures
        r.0@.len() == hoisted(*e).len(),
        forall|j: int|
            0 <= j < r.0@.len() ==> (#[trigger] r.0@[j]).0 == hoisted(*e)[j] && r.0@[j].1@ == hoist_name(
                (counter + j) as nat,
            ),
        r.1 == counter + hoisted(*e).len(),
        forall|id: u64|
            #[trigger] hoists_at(*e, id) <==> exists|j: int| 0 <= j < r.0@.len() && r.0@[j].0 == id,
{
    let mut ids: Vec<u64> = Vec::new();
    push_hoisted(e, &mut ids);
    assert(ids@ =~= hoisted(*e));
    let mut out: Vec<(u64, String)> = Vec::new();
    let mut i: usize = 0;
    while i < ids.len()
        invariant
            i <= ids.len(),
            ids@ == hoisted(*e),
            counter + ids@.len() <= u64::MAX,
            out@.len() == i,
            forall|j: int|
                0 <= j < i ==> (#[trigger] out@[j]).0 == ids@[j] && out@[j].1@ == hoist_name(
                    (counter + j) as nat,
                ),
        decreases ids.len() - i,
    {
        let mut name = "__ati_hoist_".to_owned();
        push_decimal(&mut name, counter + i as u64);
        out.push((ids[i], name));
        i = i + 1;
    }
    proof {
        assert forall|id: u64| #[trigger] hoists_at(*e, id) <==> exists|j: int|
            0 <= j < out@.len() && out@[j].0 == id by {
            law_hoisted_finds_every_receiver(*e, id);
            if hoists_at(*e, id) {
                let j = choose|j: int| 0 <= j < ids@.len() && ids@[j] == id;
                assert(out@[j].0 == id);
            }
            if exists|j: int| 0 <= j < out@.len() && out@[j].0 == id {
                let j = choose|j: int| 0 <= j < out@.len() && out@[j].0 == id;
                assert(ids@[j] == id);
            }
        }
    }
    (out, counter + ids.len() as u64)
}

/// The statement that binds `name` to the receiver written `receiver`:
/// `let mut name = receiver;`.
pub fn hoist_binding(name: &str, receiver: &str) -> (s: String)
    ensures
        s@ == "let mut "@ + name@ + " = "@ + receiver@ + ";"@,
{
    let mut s = "let mut ".to_owned();
    s.append(name);
    s.append(" = ");
    s.append(receiver);
    s.append(";");
    assert(s@ =~= "let mut "@ + name@ + " = "@ + receiver@ + ";"@);
    s
}

/// Whether a method call numbered `id` whose receiver must move into a
/// binding stands anywhere in `e`, the operands of `&&` and `||` aside.
pub open spec fn hoists_at(e: ExprShape, id: u64) -> bool
    decreases e,
{
    ||| (e matches ExprShape::MethodCall(i, _, _, _) && i == id && requires_hoist(e))
    ||| match e {
        ExprShape::Field(a) => hoists_at(*a, id),
        ExprShape::Unary(_, a) => hoists_at(*a, id),
        ExprShape::Wrapped(a) => hoists_at(*a, id),
        ExprShape::Index(a, b) => hoists_at(*a, id) || hoists_at(*b, id),
        ExprShape::List(v) => hoists_in(v@, id),
        ExprShape::Struct(v) => hoists_in(v@, id),
        ExprShape::Call(f, v) => hoists_at(*f, id) || hoists_in(v@, id),
        ExprShape::MethodCall(_, _, r, v) => hoists_at(*r, id) || hoists_in(v@, id),
        ExprShape::Binary(short, a, b) => !short && (hoists_at(*a, id) || hoists_at(*b, id)),
        ExprShape::Range(a, b) => (a matches Some(x) && hoists_at(*x, id)) || (b matches Some(y)
            && hoists_at(*y, id)),
        _ => false,
    }
}

/// Whether such a method call stands in one of `s`.
pub open spec fn hoists_in(s: Seq<ExprShape>, id: u64) -> bool
    decreases s,
{
    s.len() > 0 && (hoists_in(s.subrange(0, s.len() - 1), id) || hoists_at(s[s.len() - 1], id))
}

proof fn lemma_contains_add(a: Seq<u64>, b: Seq<u64>, x: u64)
    ensures
        (a + b).contains(x) <==> (a.contains(x) || b.contains(x)),
{
    if a.contains(x) {
        let i = choose|i: int| 0 <= i < a.len() && a[i] == x;
        assert((a + b)[i] == x);
    }
    if b.contains(x) {
        let i = choose|i: int| 0 <= i < b.len() && b[i] == x;
        assert((a + b)[a.len() + i] == x);
    }
    if (a + b).contains(x) {
        let i = choose|i: int| 0 <= i < (a + b).len() && (a + b)[i] == x;
        if i < a.len() {
            assert(a[i] == x);
        } else {
            assert(b[i - a.len()] == x);
        }
    }
}

proof fn lemma_contains_push(a: Seq<u64>, y: u64, x: u64)
    ensures
        a.push(y).contains(x) <==> (a.contains(x) || y == x),
{
    lemma_contains_add(a, seq![y], x);
    assert(a.push(y) =~= a + seq![y]);
    if y == x {
        assert(seq![y][0] == x);
    }
}

/// Hoisting finds every receiver that must move: a method call is among
/// the hoisted ones exactly when it stands in the expression, wherever that
/// is (in a call's arguments, a method's receiver or arguments, a tuple, an
/// array, a struct literal, an index, a range), except in the operands of
/// `&&` and `||`.
pub proof fn law_hoisted_finds_every_receiver(e: ExprShape, id: u64)
    ensures
        hoisted(e).contains(id) <==> hoists_at(e, id),
    decreases e,
{
    match e {
        ExprShape::Field(a) => law_hoisted_finds_every_receiver(*a, id),
        ExprShape::Unary(_, a) => law_hoisted_finds_every_receiver(*a, id),
        ExprShape::Wrapped(a) => law_hoisted_finds_every_receiver(*a, id),
        ExprShape::Index(a, b) => {
            law_hoisted_finds_every_receiver(*a, id);
            law_hoisted_finds_every_receiver(*b, id);
            lemma_contains_add(hoisted(*a), hoisted(*b), id);
        },
        ExprShape::List(v) => lemma_hoisted_all_finds(v@, id),
        ExprShape::Struct(v) => lemma_hoisted_all_finds(v@, id),
        ExprShape::Call(f, v) => {
            law_hoisted_finds_every_receiver(*f, id);
            lemma_hoisted_all_finds(v@, id);
            lemma_contains_add(hoisted(*f), hoisted_all(v@), id);
        },
        ExprShape::MethodCall(i, _, r, v) => {
            law_hoisted_finds_every_receiver(*r, id);
            lemma_hoisted_all_finds(v@, id);
            let inner = hoisted(*r) + hoisted_all(v@);
            lemma_contains_add(hoisted(*r), hoisted_all(v@), id);
            lemma_contains_push(inner, i, id);
        },
        ExprShape::Binary(short, a, b) => {
            law_hoisted_finds_every_receiver(*a, id);
            law_hoisted_finds_every_receiver(*b, id);
            lemma_contains_add(hoisted(*a), hoisted(*b), id);
        },
        ExprShape::Range(a, b) => {
            if let Some(x) = a {
                law_hoisted_finds_every_receiver(*x, id);
            }
            if let Some(y) = b {
                law_hoisted_finds_every_receiver(*y, id);
            }
            lemma_contains_add(hoisted_opt(a), hoisted_opt(b), id);
        },
        _ => {},
    }
}

proof fn lemma_hoisted_all_finds(s: Seq<ExprShape>, id: u64)
    ensures
        hoisted_all(s).contains(id) <==> hoists_in(s, id),
    decreases s,
{
    if s.len() > 0 {
        let p = s.subrange(0, s.len() - 1);
        lemma_hoisted_all_finds(p, id);
        law_hoisted_finds_every_receiver(s[s.len() - 1], id);
        lemma_contains_add(hoisted_all(p), hoisted(s[s.len() - 1]), id);
    }
}

} // verus!
