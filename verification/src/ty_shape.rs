use vstd::prelude::*;

use crate::names::{compare_names, NameOrder};

verus! {

/// The shape of a written Rust type, as far as wrapping its primitives in
/// `Tagged` reads it.
#[derive(Debug, PartialEq, Eq)]
pub enum TyShape {
    /// A path such as `u32`, `Vec<u8>` or `std::ops::Range<usize>`, with its
    /// qualified self type where it has one (`<X as Tr>::Y`).
    Path(Option<QSelfShape>, Vec<Segment>),
    /// `[T]`.
    Slice(Box<TyShape>),
    /// `[T; N]`, with the length as written.
    Array(Box<TyShape>, String),
    /// `&'a T` or `&'a mut T`, with its lifetime where one is written.
    Ref(Option<String>, bool, Box<TyShape>),
    /// `*const T` or `*mut T`.
    Ptr(bool, Box<TyShape>),
    /// `(A, B, ..)`.
    Tup(Vec<TyShape>),
    /// `fn(A, ..) -> R`: the types of its const generic parameters, its inputs
    /// and its output.
    FnPtr(Vec<TyShape>, Vec<TyShape>, Option<Box<TyShape>>),
    /// `_`.
    Infer,
    /// A kind of type that the wrapping refuses: `!`, `dyn Tr`, `impl Tr`, a
    /// parenthesized or macro type and the like.
    Unsupported,
}

/// The qualified self of a path: the type, and how many segments of the
/// path belong to the trait.
#[derive(Debug, PartialEq, Eq)]
pub struct QSelfShape {
    pub ty: Box<TyShape>,
    pub position: usize,
}

/// One segment of a path, and its generic arguments.
#[derive(Debug, PartialEq, Eq)]
pub struct Segment {
    pub name: String,
    pub args: ArgsShape,
}

/// The generic arguments of a path segment.
#[derive(Debug, PartialEq, Eq)]
pub enum ArgsShape {
    NoArgs,
    /// `<..>`.
    Angle(Vec<ArgShape>),
    /// `(A, ..) -> R`.
    Paren(Vec<TyShape>, Option<Box<TyShape>>),
    /// `(..)`, which the wrapping refuses.
    Elided,
}

/// One argument between angle brackets.
#[derive(Debug, PartialEq, Eq)]
pub enum ArgShape {
    Type(TyShape),
    Const(String),
    Lifetime(String),
    /// An associated item constraint, which the wrapping refuses.
    Constraint,
}

/// Which of the two rewrites a type goes through: the one for types inside
/// instrumented items and bodies, or the one for the signatures of tracked
/// functions.
#[derive(Clone, Copy, PartialEq, Eq, Structural)]
pub enum Wrapping {
    Instrument,
    Declaration,
}

/// What a `TyShape` stands for.
pub enum Ty {
    Path(Option<QSelf>, Seq<Seg>),
    Slice(Box<Ty>),
    Array(Box<Ty>, Seq<char>),
    Ref(Option<Seq<char>>, bool, Box<Ty>),
    Ptr(bool, Box<Ty>),
    Tup(Seq<Ty>),
    FnPtr(Seq<Ty>, Seq<Ty>, Option<Box<Ty>>),
    Infer,
    Unsupported,
}

/// What a `QSelfShape` stands for.
pub struct QSelf {
    pub ty: Box<Ty>,
    pub position: nat,
}

/// What a `Segment` stands for.
pub struct Seg {
    pub name: Seq<char>,
    pub args: Args,
}

/// What an `ArgsShape` stands for.
pub enum Args {
    NoArgs,
    Angle(Seq<Arg>),
    Paren(Seq<Ty>, Option<Box<Ty>>),
    Elided,
}

/// What an `ArgShape` stands for.
pub enum Arg {
    Type(Ty),
    Const(Seq<char>),
    Lifetime(Seq<char>),
    Constraint,
}

/// The text of an optional name.
pub open spec fn view_name(o: Option<String>) -> Option<Seq<char>> {
    match o {
        Some(s) => Some(s@),
        None => None,
    }
}

pub open spec fn view_ty(t: TyShape) -> Ty
    decreases t,
{
    match t {
        TyShape::Path(q, segs) => Ty::Path(view_qself(q), view_segs(segs@)),
        TyShape::Slice(b) => Ty::Slice(Box::new(view_ty(*b))),
        TyShape::Array(b, n) => Ty::Array(Box::new(view_ty(*b)), n@),
        TyShape::Ref(lt, m, b) => Ty::Ref(view_name(lt), m, Box::new(view_ty(*b))),
        TyShape::Ptr(m, b) => Ty::Ptr(m, Box::new(view_ty(*b))),
        TyShape::Tup(ts) => Ty::Tup(view_tys(ts@)),
        TyShape::FnPtr(c, i, o) => Ty::FnPtr(view_tys(c@), view_tys(i@), view_opt(o)),
        TyShape::Infer => Ty::Infer,
        TyShape::Unsupported => Ty::Unsupported,
    }
}

pub open spec fn view_qself(q: Option<QSelfShape>) -> Option<QSelf>
    decreases q,
{
    match q {
        Some(qs) => Some(QSelf { ty: Box::new(view_ty(*qs.ty)), position: qs.position as nat }),
        None => None,
    }
}

pub open spec fn view_tys(s: Seq<TyShape>) -> Seq<Ty>
    decreases s,
{
    if s.len() == 0 {
        Seq::empty()
    } else {
        view_tys(s.drop_last()).push(view_ty(s.last()))
    }
}

pub open spec fn view_opt(o: Option<Box<TyShape>>) -> Option<Box<Ty>>
    decreases o,
{
    match o {
        Some(b) => Some(Box::new(view_ty(*b))),
        None => None,
    }
}

pub open spec fn view_segs(s: Seq<Segment>) -> Seq<Seg>
    decreases s,
{
    if s.len() == 0 {
        Seq::empty()
    } else {
        view_segs(s.drop_last()).push(Seg { name: s.last().name@, args: view_args(s.last().args) })
    }
}

pub open spec fn view_args(a: ArgsShape) -> Args
    decreases a,
{
    match a {
        ArgsShape::NoArgs => Args::NoArgs,
        ArgsShape::Angle(s) => Args::Angle(view_argseq(s@)),
        ArgsShape::Paren(i, o) => Args::Paren(view_tys(i@), view_opt(o)),
        ArgsShape::Elided => Args::Elided,
    }
}

pub open spec fn view_argseq(s: Seq<ArgShape>) -> Seq<Arg>
    decreases s,
{
    if s.len() == 0 {
        Seq::empty()
    } else {
        view_argseq(s.drop_last()).push(
            match s.last() {
                ArgShape::Type(t) => Arg::Type(view_ty(t)),
                ArgShape::Const(c) => Arg::Const(c@),
                ArgShape::Lifetime(l) => Arg::Lifetime(l@),
                ArgShape::Constraint => Arg::Constraint,
            },
        )
    }
}

pub open spec fn view_arg(a: ArgShape) -> Arg {
    match a {
        ArgShape::Type(t) => Arg::Type(view_ty(t)),
        ArgShape::Const(c) => Arg::Const(c@),
        ArgShape::Lifetime(l) => Arg::Lifetime(l@),
        ArgShape::Constraint => Arg::Constraint,
    }
}

impl View for TyShape {
    type V = Ty;

    open spec fn view(&self) -> Ty {
        view_ty(*self)
    }
}

/// A measure that every part of a type is below.
pub open spec fn height(t: Ty) -> nat
    decreases t,
{
    match t {
        Ty::Path(_, segs) => 1 + height_segs(segs),
        Ty::Slice(b) => 1 + height(*b),
        Ty::Array(b, _) => 1 + height(*b),
        Ty::Ref(_, _, b) => 1 + height(*b),
        Ty::Ptr(_, b) => 1 + height(*b),
        Ty::Tup(ts) => 1 + height_tys(ts),
        Ty::FnPtr(c, i, o) => 1 + height_tys(c) + height_tys(i) + height_opt(o),
        Ty::Infer => 1,
        Ty::Unsupported => 1,
    }
}

pub open spec fn height_tys(s: Seq<Ty>) -> nat
    decreases s,
{
    if s.len() == 0 {
        0
    } else {
        height_tys(s.drop_last()) + height(s.last()) + 1
    }
}

pub open spec fn height_opt(o: Option<Box<Ty>>) -> nat
    decreases o,
{
    match o {
        Some(b) => height(*b) + 1,
        None => 0,
    }
}

pub open spec fn height_segs(s: Seq<Seg>) -> nat
    decreases s,
{
    if s.len() == 0 {
        0
    } else {
        height_segs(s.drop_last()) + height_args(s.last().args) + 1
    }
}

pub open spec fn height_args(a: Args) -> nat
    decreases a,
{
    match a {
        Args::NoArgs => 0,
        Args::Angle(s) => height_argseq(s) + 1,
        Args::Paren(i, o) => height_tys(i) + height_opt(o) + 1,
        Args::Elided => 0,
    }
}

pub open spec fn height_argseq(s: Seq<Arg>) -> nat
    decreases s,
{
    if s.len() == 0 {
        0
    } else {
        height_argseq(s.drop_last()) + match s.last() {
            Arg::Type(t) => height(t),
            _ => 0,
        } + 1
    }
}

/// One reference or raw pointer around a type: whether it is a raw pointer,
/// its lifetime where one is written, and whether it is mutable.
pub struct Layer {
    pub raw: bool,
    pub lifetime: Option<Seq<char>>,
    pub mutable: bool,
}

/// The type below every reference and raw pointer around `t`.
pub open spec fn peel(t: Ty) -> Ty
    decreases t,
{
    match t {
        Ty::Ref(_, _, b) => peel(*b),
        Ty::Ptr(_, b) => peel(*b),
        _ => t,
    }
}

/// The references and raw pointers around `t`, outermost first.
pub open spec fn refs(t: Ty) -> Seq<Layer>
    decreases t,
{
    match t {
        Ty::Ref(lt, m, b) => seq![Layer { raw: false, lifetime: lt, mutable: m }] + refs(*b),
        Ty::Ptr(m, b) => seq![Layer { raw: true, lifetime: None, mutable: m }] + refs(*b),
        _ => Seq::empty(),
    }
}

/// `c` behind the references and raw pointers `ws`, outermost first.
pub open spec fn wrap_refs(ws: Seq<Layer>, c: Ty) -> Ty
    decreases ws.len(),
{
    if ws.len() == 0 {
        c
    } else if ws[0].raw {
        Ty::Ptr(ws[0].mutable, Box::new(wrap_refs(ws.drop_first(), c)))
    } else {
        Ty::Ref(ws[0].lifetime, ws[0].mutable, Box::new(wrap_refs(ws.drop_first(), c)))
    }
}

/// `Tagged<t>`.
pub open spec fn tagged(t: Ty) -> Ty {
    Ty::Path(None, seq![Seg { name: "Tagged"@, args: Args::Angle(seq![Arg::Type(t)]) }])
}

/// The names of the primitive types whose values are tracked.
pub open spec fn is_primitive(n: Seq<char>) -> bool {
    ||| n == "u8"@
    ||| n == "u16"@
    ||| n == "u32"@
    ||| n == "u64"@
    ||| n == "u128"@
    ||| n == "usize"@
    ||| n == "i8"@
    ||| n == "i16"@
    ||| n == "i32"@
    ||| n == "i64"@
    ||| n == "i128"@
    ||| n == "isize"@
    ||| n == "f32"@
    ||| n == "f64"@
    ||| n == "bool"@
    ||| n == "char"@
}

/// The names of the standard range types.
pub open spec fn is_range_name(n: Seq<char>) -> bool {
    ||| n == "Range"@
    ||| n == "RangeInclusive"@
    ||| n == "RangeFrom"@
    ||| n == "RangeTo"@
    ||| n == "RangeToInclusive"@
    ||| n == "RangeFull"@
}

/// A primitive type written as a single bare name.
pub open spec fn can_be_tupled(t: Ty) -> bool {
    t matches Ty::Path(q, segs) && q is None && segs.len() == 1 && segs[0].args is NoArgs
        && is_primitive(segs[0].name)
}

pub proof fn lemma_peel_height(t: Ty)
    ensures
        height(peel(t)) <= height(t),
    decreases t,
{
    match t {
        Ty::Ref(_, _, b) => lemma_peel_height(*b),
        Ty::Ptr(_, b) => lemma_peel_height(*b),
        _ => {},
    }
}

/// The types that the wrapping takes: those without a refused kind, an
/// associated item constraint or elided arguments; a slice only right
/// behind a reference; and, in a signature, no `_`.
pub open spec fn wrappable(t: Ty, w: Wrapping) -> bool
    decreases height(t),
{
    let p = peel(t);
    proof {
        lemma_peel_height(t);
    }
    if can_be_tupled(p) {
        true
    } else {
        match p {
            Ty::Slice(e) => t is Ref && wrappable(*e, w),
            Ty::Array(e, _) => wrappable(*e, w),
            Ty::Tup(ts) => wrappable_tys(ts, w),
            Ty::FnPtr(c, i, o) => wrappable_tys(c, w) && wrappable_tys(i, w) && wrappable_opt(o, w),
            Ty::Path(_, segs) => wrappable_segs(segs, w),
            Ty::Infer => w is Instrument,
            Ty::Unsupported => false,
            _ => true,
        }
    }
}

pub open spec fn wrappable_tys(s: Seq<Ty>, w: Wrapping) -> bool
    decreases height_tys(s),
{
    s.len() == 0 || (wrappable_tys(s.drop_last(), w) && wrappable(s.last(), w))
}

pub open spec fn wrappable_opt(o: Option<Box<Ty>>, w: Wrapping) -> bool
    decreases height_opt(o),
{
    match o {
        Some(b) => wrappable(*b, w),
        None => true,
    }
}

pub open spec fn wrappable_segs(s: Seq<Seg>, w: Wrapping) -> bool
    decreases height_segs(s),
{
    s.len() == 0 || (wrappable_segs(s.drop_last(), w) && wrappable_args(s.last().args, w))
}

pub open spec fn wrappable_args(a: Args, w: Wrapping) -> bool
    decreases height_args(a),
{
    match a {
        Args::NoArgs => true,
        Args::Angle(s) => wrappable_argseq(s, w),
        Args::Paren(i, o) => wrappable_tys(i, w) && wrappable_opt(o, w),
        Args::Elided => false,
    }
}

pub open spec fn wrappable_argseq(s: Seq<Arg>, w: Wrapping) -> bool
    decreases height_argseq(s),
{
    s.len() == 0 || (wrappable_argseq(s.drop_last(), w) && match s.last() {
        Arg::Type(t) => wrappable(t, w),
        Arg::Constraint => false,
        _ => true,
    })
}

/// `t` with every tracked primitive wrapped in `Tagged`. A primitive below
/// its references becomes `Tagged<T>` there; tuples, function pointers and
/// generic arguments are wrapped within, a qualified self type is left as it
/// is, and lifetimes are kept. In an instrumented item, an array below its
/// references becomes `Tagged<[T'; N]>`, a reference to a slice `&'a [T]`
/// becomes `Tagged<&'a [T']>`, and a path to a standard range is wrapped as
/// a whole. In a signature, an array is wrapped together with its
/// references, and `&'a [T]` becomes `&'a Tagged<&'a [T']>`. Meant for the
/// types that are `wrappable`.
pub open spec fn tuple_ty(t: Ty, w: Wrapping) -> Ty
    decreases height(t),
{
    let p = peel(t);
    proof {
        lemma_peel_height(t);
    }
    if can_be_tupled(p) {
        wrap_refs(refs(t), tagged(p))
    } else {
        match p {
            Ty::Slice(e) => match t {
                Ty::Ref(lt, m, b) => {
                    let inner = Ty::Ref(
                        lt,
                        m,
                        Box::new(wrap_refs(refs(*b), Ty::Slice(Box::new(tuple_ty(*e, w))))),
                    );
                    if w is Instrument {
                        tagged(inner)
                    } else {
                        Ty::Ref(lt, m, Box::new(tagged(inner)))
                    }
                },
                _ => t,
            },
            Ty::Array(e, n) => if w is Instrument {
                wrap_refs(refs(t), tagged(Ty::Array(Box::new(tuple_ty(*e, w)), n)))
            } else {
                tagged(wrap_refs(refs(t), Ty::Array(Box::new(tuple_ty(*e, w)), n)))
            },
            Ty::Tup(ts) => wrap_refs(refs(t), Ty::Tup(tuple_tys(ts, w))),
            Ty::FnPtr(c, i, o) => wrap_refs(
                refs(t),
                Ty::FnPtr(tuple_tys(c, w), tuple_tys(i, w), tuple_opt(o, w)),
            ),
            Ty::Path(q, segs) => {
                let p2 = Ty::Path(q, tuple_segs(segs, w));
                if w is Instrument && segs.len() > 0 && is_range_name(segs.last().name) {
                    wrap_refs(refs(t), tagged(p2))
                } else {
                    wrap_refs(refs(t), p2)
                }
            },
            _ => t,
        }
    }
}

pub open spec fn tuple_tys(s: Seq<Ty>, w: Wrapping) -> Seq<Ty>
    decreases height_tys(s),
{
    if s.len() == 0 {
        Seq::empty()
    } else {
        tuple_tys(s.drop_last(), w).push(tuple_ty(s.last(), w))
    }
}

pub open spec fn tuple_opt(o: Option<Box<Ty>>, w: Wrapping) -> Option<Box<Ty>>
    decreases height_opt(o),
{
    match o {
        Some(b) => Some(Box::new(tuple_ty(*b, w))),
        None => None,
    }
}

pub open spec fn tuple_segs(s: Seq<Seg>, w: Wrapping) -> Seq<Seg>
    decreases height_segs(s),
{
    if s.len() == 0 {
        Seq::empty()
    } else {
        tuple_segs(s.drop_last(), w).push(
            Seg { name: s.last().name, args: tuple_args(s.last().args, w) },
        )
    }
}

pub open spec fn tuple_args(a: Args, w: Wrapping) -> Args
    decreases height_args(a),
{
    match a {
        Args::Angle(s) => Args::Angle(tuple_argseq(s, w)),
        Args::Paren(i, o) => Args::Paren(tuple_tys(i, w), tuple_opt(o, w)),
        _ => a,
    }
}

pub open spec fn tuple_argseq(s: Seq<Arg>, w: Wrapping) -> Seq<Arg>
    decreases height_argseq(s),
{
    if s.len() == 0 {
        Seq::empty()
    } else {
        tuple_argseq(s.drop_last(), w).push(
            match s.last() {
                Arg::Type(t) => Arg::Type(tuple_ty(t, w)),
                other => other,
            },
        )
    }
}

/// What an optional shape stands for.
pub open spec fn view_opt_ty(r: Option<TyShape>) -> Option<Ty> {
    match r {
        Some(x) => Some(x@),
        None => None,
    }
}

/// Putting back the references that `refs` took off gives the type again.
pub proof fn lemma_wrap_refs_peel(t: Ty)
    ensures
        wrap_refs(refs(t), peel(t)) == t,
        !(peel(t) is Ref),
        !(peel(t) is Ptr),
    decreases t,
{
    match t {
        Ty::Ref(lt, m, b) => {
            lemma_wrap_refs_peel(*b);
            assert((seq![Layer { raw: false, lifetime: lt, mutable: m }] + refs(*b)).drop_first()
                =~= refs(*b));
        },
        Ty::Ptr(m, b) => {
            lemma_wrap_refs_peel(*b);
            assert((seq![Layer { raw: true, lifetime: None, mutable: m }] + refs(*b)).drop_first()
                =~= refs(*b));
        },
        _ => {},
    }
}

proof fn lemma_refs_head(t: Ty)
    ensures
        (t is Ref) <==> (refs(t).len() > 0 && !refs(t)[0].raw),
        t matches Ty::Ref(lt, m, b) ==> refs(t)[0].lifetime == lt && refs(t)[0].mutable == m
            && refs(t).drop_first() == refs(*b),
{
    match t {
        Ty::Ref(lt, m, b) => {
            assert((seq![Layer { raw: false, lifetime: lt, mutable: m }] + refs(*b)).drop_first()
                =~= refs(*b));
        },
        Ty::Ptr(m, b) => {
            assert((seq![Layer { raw: true, lifetime: None, mutable: m }] + refs(*b))[0].raw);
        },
        _ => {},
    }
}

proof fn lemma_view_tys_push(s: Seq<TyShape>, x: TyShape)
    ensures
        view_tys(s.push(x)) == view_tys(s).push(view_ty(x)),
{
    assert(s.push(x).drop_last() =~= s);
}

proof fn lemma_view_segs_push(s: Seq<Segment>, x: Segment)
    ensures
        view_segs(s.push(x)) == view_segs(s).push(Seg { name: x.name@, args: view_args(x.args) }),
{
    assert(s.push(x).drop_last() =~= s);
}

proof fn lemma_view_argseq_push(s: Seq<ArgShape>, x: ArgShape)
    ensures
        view_argseq(s.push(x)) == view_argseq(s).push(view_arg(x)),
{
    assert(s.push(x).drop_last() =~= s);
}

proof fn lemma_view_segs_len(s: Seq<Segment>)
    ensures
        view_segs(s).len() == s.len(),
    decreases s.len(),
{
    if s.len() > 0 {
        lemma_view_segs_len(s.drop_last());
    }
}

/// One reference or raw pointer around a type, as written.
struct RefLayer {
    raw: bool,
    lifetime: Option<String>,
    mutable: bool,
}

spec fn layer_view(l: RefLayer) -> Layer {
    Layer { raw: l.raw, lifetime: view_name(l.lifetime), mutable: l.mutable }
}

spec fn layers_view(s: Seq<RefLayer>) -> Seq<Layer> {
    Seq::new(s.len(), |i: int| layer_view(s[i]))
}

/// A copy of an optional name.
fn copy_name(o: &Option<String>) -> (r: Option<String>)
    ensures
        view_name(r) == view_name(*o),
{
    match o {
        Some(s) => Some(s.clone()),
        None => None,
    }
}

/// The references and raw pointers around `t`, and the type below them.
fn split_refs(t: TyShape) -> (r: (Vec<RefLayer>, TyShape))
    ensures
        layers_view(r.0@) == refs(t@),
        r.1@ == peel(t@),
    decreases t,
{
    match t {
        TyShape::Ref(lt, m, b) => {
            let inner: TyShape = *b;
            let ghost iv = inner@;
            let ghost ltv = view_name(lt);
            let (mut ws, c) = split_refs(inner);
            ws.insert(0, RefLayer { raw: false, lifetime: lt, mutable: m });
            assert(layers_view(ws@) =~= seq![Layer { raw: false, lifetime: ltv, mutable: m }] + refs(
                iv,
            ));
            (ws, c)
        },
        TyShape::Ptr(m, b) => {
            let inner: TyShape = *b;
            let ghost iv = inner@;
            let (mut ws, c) = split_refs(inner);
            ws.insert(0, RefLayer { raw: true, lifetime: None, mutable: m });
            assert(layers_view(ws@) =~= seq![Layer { raw: true, lifetime: None, mutable: m }] + refs(
                iv,
            ));
            (ws, c)
        },
        other => {
            let ws: Vec<RefLayer> = Vec::new();
            assert(layers_view(ws@) =~= Seq::<Layer>::empty());
            (ws, other)
        },
    }
}

/// `c` behind the references and raw pointers `ws`, outermost first.
fn wrap_refs_shape(ws: Vec<RefLayer>, c: TyShape) -> (r: TyShape)
    ensures
        r@ == wrap_refs(layers_view(ws@), c@),
{
    let ghost cv = c@;
    let ghost lv = layers_view(ws@);
    let ghost n = ws@.len();
    let mut ws = ws;
    let mut acc = c;
    assert(layers_view(ws@) == lv.take(n as int)) by {
        assert(lv.take(n as int) =~= lv);
    }
    assert(lv.skip(n as int).len() == 0);
    while ws.len() > 0
        invariant
            ws@.len() <= n,
            n == lv.len(),
            layers_view(ws@) == lv.take(ws@.len() as int),
            acc@ == wrap_refs(lv.skip(ws@.len() as int), cv),
        decreases ws.len(),
    {
        let ghost before = ws@;
        let l = ws.pop().unwrap();
        let ghost k = ws@.len() as int;
        proof {
            assert(ws@ == before.drop_last());
            assert(layers_view(before)[k] == layer_view(l));
            assert(lv[k] == lv.take(k + 1)[k]);
            assert(layers_view(ws@) =~= lv.take(k));
            assert(lv.skip(k).drop_first() =~= lv.skip(k + 1));
            assert(lv.skip(k)[0] == lv[k]);
        }
        if l.raw {
            acc = TyShape::Ptr(l.mutable, Box::new(acc));
        } else {
            acc = TyShape::Ref(l.lifetime, l.mutable, Box::new(acc));
        }
    }
    assert(lv.skip(0) =~= lv);
    acc
}

/// `Tagged<t>`.
fn tagged_shape(t: TyShape) -> (r: TyShape)
    ensures
        r@ == tagged(t@),
{
    let ghost tv = t@;
    let a = ArgShape::Type(t);
    assert(view_arg(a) == Arg::Type(tv));
    let mut args: Vec<ArgShape> = Vec::new();
    proof {
        lemma_view_argseq_push(args@, a);
    }
    args.push(a);
    assert(view_argseq(args@) =~= seq![Arg::Type(tv)]);
    let seg = Segment { name: "Tagged".to_owned(), args: ArgsShape::Angle(args) };
    let mut segs: Vec<Segment> = Vec::new();
    proof {
        lemma_view_segs_push(segs@, seg);
    }
    segs.push(seg);
    assert(view_segs(segs@) =~= seq![Seg { name: "Tagged"@, args: Args::Angle(seq![Arg::Type(tv)]) }]);
    proof {
        lemma_view_qself_none(None);
    }
    TyShape::Path(None, segs)
}

proof fn lemma_view_qself_none(q: Option<QSelfShape>)
    ensures
        view_qself(q) is None <==> q is None,
{
}

pub(crate) fn name_is(n: &str, lit: &str) -> (b: bool)
    ensures
        b == (n@ == lit@),
{
    compare_names(n, lit) == NameOrder::Equal
}

fn is_primitive_name(n: &str) -> (b: bool)
    ensures
        b == is_primitive(n@),
{
    name_is(n, "u8") || name_is(n, "u16") || name_is(n, "u32") || name_is(n, "u64")
        || name_is(n, "u128") || name_is(n, "usize") || name_is(n, "i8") || name_is(n, "i16")
        || name_is(n, "i32") || name_is(n, "i64") || name_is(n, "i128") || name_is(n, "isize")
        || name_is(n, "f32") || name_is(n, "f64") || name_is(n, "bool") || name_is(n, "char")
}

fn is_range_type_name(n: &str) -> (b: bool)
    ensures
        b == is_range_name(n@),
{
    name_is(n, "Range") || name_is(n, "RangeInclusive") || name_is(n, "RangeFrom")
        || name_is(n, "RangeTo") || name_is(n, "RangeToInclusive") || name_is(n, "RangeFull")
}

/// Whether `t` is a primitive type written as a single bare name.
pub fn shape_can_be_tupled(t: &TyShape) -> (b: bool)
    ensures
        b == can_be_tupled(t@),
{
    match t {
        TyShape::Path(q, segs) => {
            proof {
                lemma_view_qself_none(*q);
            }
            if q.is_some() {
                return false;
            }
            if segs.len() == 1 {
                proof {
                    assert(segs@ =~= Seq::<Segment>::empty().push(segs@[0]));
                    lemma_view_segs_push(Seq::<Segment>::empty(), segs@[0]);
                    assert(view_segs(Seq::<Segment>::empty()) == Seq::<Seg>::empty());
                }
                let ghost s0 = view_segs(segs@)[0];
                assert(s0.name == segs@[0].name@);
                assert(s0.args == view_args(segs@[0].args));
                match &segs[0].args {
                    ArgsShape::NoArgs => is_primitive_name(segs[0].name.as_str()),
                    _ => false,
                }
            } else {
                proof {
                    lemma_view_segs_len(segs@);
                }
                false
            }
        },
        _ => false,
    }
}

/// The type below every reference and raw pointer around `t`.
fn peeled<'a>(t: &'a TyShape) -> (r: &'a TyShape)
    ensures
        r@ == peel(t@),
    decreases t,
{
    match t {
        TyShape::Ref(_, _, b) => peeled(b),
        TyShape::Ptr(_, b) => peeled(b),
        _ => t,
    }
}

/// Whether the wrapping takes `t`: see `wrappable`.
pub fn is_wrappable(t: &TyShape, w: Wrapping) -> (b: bool)
    ensures
        b == wrappable(t@, w),
    decreases height(t@),
{
    let ghost tv = t@;
    let p = peeled(t);
    let ghost pv = p@;
    proof {
        lemma_peel_height(tv);
    }
    if shape_can_be_tupled(p) {
        return true;
    }
    match p {
        TyShape::Slice(e) => {
            let is_ref = match t {
                TyShape::Ref(_, _, _) => true,
                _ => false,
            };
            is_ref && is_wrappable(e, w)
        },
        TyShape::Array(e, _) => is_wrappable(e, w),
        TyShape::Tup(ts) => {
            assert(ts@.take(ts@.len() as int) =~= ts@);
            tys_wrappable_upto(ts, ts.len(), w)
        },
        TyShape::FnPtr(c, i, o) => {
            assert(c@.take(c@.len() as int) =~= c@);
            assert(i@.take(i@.len() as int) =~= i@);
            tys_wrappable_upto(c, c.len(), w) && tys_wrappable_upto(i, i.len(), w) && opt_wrappable(
                o,
                w,
            )
        },
        TyShape::Path(_, segs) => {
            assert(segs@.take(segs@.len() as int) =~= segs@);
            segs_wrappable_upto(segs, segs.len(), w)
        },
        TyShape::Infer => w == Wrapping::Instrument,
        TyShape::Unsupported => false,
        _ => true,
    }
}

/// Whether the wrapping takes each of `v`.
pub fn tys_wrappable(v: &Vec<TyShape>, w: Wrapping) -> (b: bool)
    ensures
        b == wrappable_tys(view_tys(v@), w),
{
    assert(v@.take(v@.len() as int) =~= v@);
    tys_wrappable_upto(v, v.len(), w)
}

fn tys_wrappable_upto(v: &Vec<TyShape>, n: usize, w: Wrapping) -> (b: bool)
    requires
        n <= v@.len(),
    ensures
        b == wrappable_tys(view_tys(v@.take(n as int)), w),
    decreases height_tys(view_tys(v@.take(n as int))),
{
    if n == 0 {
        assert(view_tys(v@.take(0)) == Seq::<Ty>::empty()) by {
            assert(v@.take(0).len() == 0);
        }
        return true;
    }
    proof {
        let s = v@.take(n as int);
        assert(s.drop_last() =~= v@.take(n - 1));
        assert(s.last() == v@[n - 1]);
        assert(view_tys(s).drop_last() =~= view_tys(s.drop_last()));
    }
    if !tys_wrappable_upto(v, n - 1, w) {
        return false;
    }
    is_wrappable(&v[n - 1], w)
}

fn opt_wrappable(o: &Option<Box<TyShape>>, w: Wrapping) -> (b: bool)
    ensures
        b == wrappable_opt(view_opt(*o), w),
    decreases height_opt(view_opt(*o)),
{
    match o {
        Some(b) => is_wrappable(b, w),
        None => true,
    }
}

fn segs_wrappable_upto(v: &Vec<Segment>, n: usize, w: Wrapping) -> (b: bool)
    requires
        n <= v@.len(),
    ensures
        b == wrappable_segs(view_segs(v@.take(n as int)), w),
    decreases height_segs(view_segs(v@.take(n as int))),
{
    if n == 0 {
        assert(view_segs(v@.take(0)) == Seq::<Seg>::empty()) by {
            assert(v@.take(0).len() == 0);
        }
        return true;
    }
    proof {
        let s = v@.take(n as int);
        assert(s.drop_last() =~= v@.take(n - 1));
        assert(s.last() == v@[n - 1]);
        assert(view_segs(s).drop_last() =~= view_segs(s.drop_last()));
    }
    if !segs_wrappable_upto(v, n - 1, w) {
        return false;
    }
    args_wrappable(&v[n - 1].args, w)
}

fn args_wrappable(a: &ArgsShape, w: Wrapping) -> (b: bool)
    ensures
        b == wrappable_args(view_args(*a), w),
    decreases height_args(view_args(*a)),
{
    match a {
        ArgsShape::NoArgs => true,
        ArgsShape::Angle(s) => {
            assert(s@.take(s@.len() as int) =~= s@);
            argseq_wrappable_upto(s, s.len(), w)
        },
        ArgsShape::Paren(i, o) => {
            assert(i@.take(i@.len() as int) =~= i@);
            tys_wrappable_upto(i, i.len(), w) && opt_wrappable(o, w)
        },
        ArgsShape::Elided => false,
    }
}

fn argseq_wrappable_upto(v: &Vec<ArgShape>, n: usize, w: Wrapping) -> (b: bool)
    requires
        n <= v@.len(),
    ensures
        b == wrappable_argseq(view_argseq(v@.take(n as int)), w),
    decreases height_argseq(view_argseq(v@.take(n as int))),
{
    if n == 0 {
        assert(view_argseq(v@.take(0)) == Seq::<Arg>::empty()) by {
            assert(v@.take(0).len() == 0);
        }
        return true;
    }
    proof {
        let s = v@.take(n as int);
        assert(s.drop_last() =~= v@.take(n - 1));
        assert(s.last() == v@[n - 1]);
        assert(view_argseq(s).drop_last() =~= view_argseq(s.drop_last()));
        assert(view_argseq(s).last() == view_arg(v@[n - 1]));
    }
    if !argseq_wrappable_upto(v, n - 1, w) {
        return false;
    }
    match &v[n - 1] {
        ArgShape::Type(t) => is_wrappable(t, w),
        ArgShape::Constraint => false,
        _ => true,
    }
}

/// `t` with every tracked primitive wrapped in `Tagged`, exactly as
/// `tuple_ty` describes, for a type that the wrapping takes.
pub fn tuple_type(t: TyShape, w: Wrapping) -> (r: TyShape)
    requires
        wrappable(t@, w),
    ensures
        r@ == tuple_ty(t@, w),
        !bare(r@),
    decreases height(t@),
{
    let ghost tv = t@;
    proof {
        law_tuple_ty_wraps_every_primitive(tv, w);
    }
    let (mut ws, p) = split_refs(t);
    let ghost pv = p@;
    proof {
        lemma_peel_height(tv);
        lemma_wrap_refs_peel(tv);
    }
    if shape_can_be_tupled(&p) {
        let tp = tagged_shape(p);
        return wrap_refs_shape(ws, tp);
    }
    match p {
        TyShape::Slice(e) => {
            let inner: TyShape = *e;
            let e2 = tuple_type(inner, w);
            proof {
                lemma_refs_head(tv);
            }
            if ws.len() > 0 && !ws[0].raw {
                let l = ws.remove(0);
                assert(layers_view(ws@) =~= refs(tv).drop_first());
                let lt2 = copy_name(&l.lifetime);
                let rest = wrap_refs_shape(ws, TyShape::Slice(Box::new(e2)));
                let tg = tagged_shape(TyShape::Ref(l.lifetime, l.mutable, Box::new(rest)));
                match w {
                    Wrapping::Instrument => tg,
                    Wrapping::Declaration => TyShape::Ref(lt2, l.mutable, Box::new(tg)),
                }
            } else {
                proof {
                    assert(false);
                }
                TyShape::Unsupported
            }
        },
        TyShape::Array(e, n) => {
            let inner: TyShape = *e;
            let e2 = tuple_type(inner, w);
            match w {
                Wrapping::Instrument => {
                    let tg = tagged_shape(TyShape::Array(Box::new(e2), n));
                    wrap_refs_shape(ws, tg)
                },
                Wrapping::Declaration => {
                    let arr = wrap_refs_shape(ws, TyShape::Array(Box::new(e2), n));
                    tagged_shape(arr)
                },
            }
        },
        TyShape::Tup(ts) => {
            let ts2 = tuple_tys_shape(ts, w);
            wrap_refs_shape(ws, TyShape::Tup(ts2))
        },
        TyShape::FnPtr(c, i, o) => {
            let c2 = tuple_tys_shape(c, w);
            let i2 = tuple_tys_shape(i, w);
            let o2 = tuple_opt_shape(o, w);
            wrap_refs_shape(ws, TyShape::FnPtr(c2, i2, o2))
        },
        TyShape::Path(q, segs) => {
            proof {
                lemma_view_segs_len(segs@);
            }
            let is_range = if w == Wrapping::Instrument && segs.len() > 0 {
                let k = segs.len() - 1;
                proof {
                    assert(view_segs(segs@).last().name == segs@[k as int].name@);
                }
                is_range_type_name(segs[k].name.as_str())
            } else {
                false
            };
            let segs2 = tuple_segs_shape(segs, w);
            if is_range {
                let tg = tagged_shape(TyShape::Path(q, segs2));
                wrap_refs_shape(ws, tg)
            } else {
                wrap_refs_shape(ws, TyShape::Path(q, segs2))
            }
        },
        TyShape::Unsupported => {
            proof {
                assert(false);
            }
            TyShape::Unsupported
        },
        TyShape::Infer => match w {
            Wrapping::Instrument => wrap_refs_shape(ws, TyShape::Infer),
            Wrapping::Declaration => {
                proof {
                    assert(false);
                }
                TyShape::Unsupported
            },
        },
        other => wrap_refs_shape(ws, other),
    }
}

/// Each of `ts` wrapped, as `tuple_tys` says: the field types of a struct or
/// an enum variant, or a list of parameter types.
pub fn tuple_tys_shape(ts: Vec<TyShape>, w: Wrapping) -> (r: Vec<TyShape>)
    requires
        wrappable_tys(view_tys(ts@), w),
    ensures
        view_tys(r@) == tuple_tys(view_tys(ts@), w),
    decreases height_tys(view_tys(ts@)),
{
    let ghost s = ts@;
    let mut ts = ts;
    if ts.len() == 0 {
        return Vec::new();
    }
    let last = ts.pop().unwrap();
    proof {
        let vs = view_tys(s);
        assert(ts@ == s.drop_last());
        assert(vs.drop_last() =~= view_tys(s.drop_last()));
    }
    let mut a = tuple_tys_shape(ts, w);
    let b = tuple_type(last, w);
    proof {
        lemma_view_tys_push(a@, b);
    }
    a.push(b);
    a
}

fn tuple_opt_shape(o: Option<Box<TyShape>>, w: Wrapping) -> (r: Option<Box<TyShape>>)
    requires
        wrappable_opt(view_opt(o), w),
    ensures
        view_opt(r) == tuple_opt(view_opt(o), w),
    decreases height_opt(view_opt(o)),
{
    match o {
        Some(b) => {
            let inner: TyShape = *b;
            Some(Box::new(tuple_type(inner, w)))
        },
        None => None,
    }
}

fn tuple_segs_shape(segs: Vec<Segment>, w: Wrapping) -> (r: Vec<Segment>)
    requires
        wrappable_segs(view_segs(segs@), w),
    ensures
        view_segs(r@) == tuple_segs(view_segs(segs@), w),
    decreases height_segs(view_segs(segs@)),
{
    let ghost s = segs@;
    let mut segs = segs;
    if segs.len() == 0 {
        return Vec::new();
    }
    let last = segs.pop().unwrap();
    proof {
        let vs = view_segs(s);
        assert(segs@ == s.drop_last());
        assert(vs.drop_last() =~= view_segs(s.drop_last()));
    }
    let Segment { name, args } = last;
    let mut a = tuple_segs_shape(segs, w);
    let b = tuple_args_shape(args, w);
    let seg = Segment { name, args: b };
    proof {
        lemma_view_segs_push(a@, seg);
    }
    a.push(seg);
    a
}

fn tuple_args_shape(a: ArgsShape, w: Wrapping) -> (r: ArgsShape)
    requires
        wrappable_args(view_args(a), w),
    ensures
        view_args(r) == tuple_args(view_args(a), w),
    decreases height_args(view_args(a)),
{
    match a {
        ArgsShape::Angle(s) => ArgsShape::Angle(tuple_argseq_shape(s, w)),
        ArgsShape::Paren(i, o) => {
            let i2 = tuple_tys_shape(i, w);
            let o2 = tuple_opt_shape(o, w);
            ArgsShape::Paren(i2, o2)
        },
        other => other,
    }
}

fn tuple_argseq_shape(s: Vec<ArgShape>, w: Wrapping) -> (r: Vec<ArgShape>)
    requires
        wrappable_argseq(view_argseq(s@), w),
    ensures
        view_argseq(r@) == tuple_argseq(view_argseq(s@), w),
    decreases height_argseq(view_argseq(s@)),
{
    let ghost s0 = s@;
    let mut s = s;
    if s.len() == 0 {
        return Vec::new();
    }
    let last = s.pop().unwrap();
    proof {
        let vs = view_argseq(s0);
        assert(s@ == s0.drop_last());
        assert(vs.drop_last() =~= view_argseq(s0.drop_last()));
        assert(vs.last() == view_arg(last));
    }
    let mut a = tuple_argseq_shape(s, w);
    let b: ArgShape = match last {
        ArgShape::Type(t) => ArgShape::Type(tuple_type(t, w)),
        other => other,
    };
    proof {
        lemma_view_argseq_push(a@, b);
    }
    a.push(b);
    a
}

/// The argument of `t` where `t` is `Tagged<x>`.
pub open spec fn tag_arg(t: Ty) -> Option<Ty> {
    match t {
        Ty::Path(q, segs) => if q is None && segs.len() == 1 && segs[0].name == "Tagged"@ {
            match segs[0].args {
                Args::Angle(a) => if a.len() == 1 {
                    match a[0] {
                        Arg::Type(x) => Some(x),
                        _ => None,
                    }
                } else {
                    None
                },
                _ => None,
            }
        } else {
            None
        },
        _ => None,
    }
}

pub proof fn lemma_tag_arg_height(t: Ty)
    ensures
        tag_arg(t) matches Some(x) ==> height(x) < height(t),
{
    if let Ty::Path(q, segs) = t {
        if tag_arg(t) is Some {
            let sg = segs[0];
            if let Args::Angle(a) = sg.args {
                assert(segs.last() == sg);
                assert(height_segs(segs) >= height_args(sg.args) + 1);
                assert(a.last() == a[0]);
                assert(height_argseq(a) >= height(tag_arg(t)->0) + 1);
            }
        }
    }
}

/// Whether a tracked primitive stands in `t` other than as the argument of a
/// `Tagged`: `t` is one, or one stands within it. A qualified self type is
/// not looked into.
pub open spec fn bare(t: Ty) -> bool
    decreases height(t), 1nat,
{
    can_be_tupled(t) || bare_within(t)
}

/// Whether a tracked primitive stands within `t`, other than as the argument
/// of a `Tagged`.
pub open spec fn bare_within(t: Ty) -> bool
    decreases height(t), 0nat,
{
    proof {
        lemma_tag_arg_height(t);
    }
    match tag_arg(t) {
        Some(x) => bare_within(x),
        None => match t {
            Ty::Path(_, segs) => bare_segs(segs),
            Ty::Slice(b) => bare(*b),
            Ty::Array(b, _) => bare(*b),
            Ty::Ref(_, _, b) => bare(*b),
            Ty::Ptr(_, b) => bare(*b),
            Ty::Tup(ts) => bare_tys(ts),
            Ty::FnPtr(c, i, o) => bare_tys(c) || bare_tys(i) || bare_opt(o),
            _ => false,
        },
    }
}

pub open spec fn bare_tys(s: Seq<Ty>) -> bool
    decreases height_tys(s), 2nat,
{
    s.len() > 0 && (bare_tys(s.drop_last()) || bare(s.last()))
}

pub open spec fn bare_opt(o: Option<Box<Ty>>) -> bool
    decreases height_opt(o), 2nat,
{
    match o {
        Some(b) => bare(*b),
        None => false,
    }
}

pub open spec fn bare_segs(s: Seq<Seg>) -> bool
    decreases height_segs(s), 2nat,
{
    s.len() > 0 && (bare_segs(s.drop_last()) || bare_args(s.last().args))
}

pub open spec fn bare_args(a: Args) -> bool
    decreases height_args(a), 2nat,
{
    match a {
        Args::Angle(s) => bare_argseq(s),
        Args::Paren(i, o) => bare_tys(i) || bare_opt(o),
        _ => false,
    }
}

pub open spec fn bare_argseq(s: Seq<Arg>) -> bool
    decreases height_argseq(s), 2nat,
{
    s.len() > 0 && (bare_argseq(s.drop_last()) || match s.last() {
        Arg::Type(t) => bare(t),
        _ => false,
    })
}

proof fn lemma_bare_wrap_refs(ws: Seq<Layer>, x: Ty)
    ensures
        bare(wrap_refs(ws, x)) == bare(x),
        ws.len() > 0 ==> bare_within(wrap_refs(ws, x)) == bare(x),
    decreases ws.len(),
{
    if ws.len() > 0 {
        lemma_bare_wrap_refs(ws.drop_first(), x);
        let y = wrap_refs(ws.drop_first(), x);
        let r = wrap_refs(ws, x);
        assert(tag_arg(r) is None);
        assert(!can_be_tupled(r));
        assert(bare_within(r) == bare(y));
    }
}

proof fn lemma_bare_tagged(x: Ty)
    ensures
        bare(tagged(x)) == bare_within(x),
{
    let t = tagged(x);
    assert(!can_be_tupled(t));
    assert(tag_arg(t) == Some(x));
}

proof fn lemma_primitive_within(p: Ty)
    requires
        can_be_tupled(p),
    ensures
        !bare_within(p),
{
    if let Ty::Path(q, segs) = p {
        assert(tag_arg(p) is None);
        assert(segs.drop_last().len() == 0);
        assert(!bare_segs(segs.drop_last()));
        assert(segs.last() == segs[0]);
        assert(!bare_args(segs.last().args));
        assert(!bare_segs(segs));
    }
}

proof fn lemma_bare_path(q: Option<QSelf>, segs: Seq<Seg>)
    ensures
        bare_within(Ty::Path(q, segs)) ==> bare_segs(segs),
{
    let t = Ty::Path(q, segs);
    if let Some(x) = tag_arg(t) {
        if bare_within(x) {
            assert(bare(x));
            let sg = segs[0];
            assert(segs.last() == sg);
            if let Args::Angle(a) = sg.args {
                assert(a.last() == a[0]);
                assert(bare_argseq(a));
                assert(bare_args(sg.args));
            }
            assert(bare_segs(segs));
        }
    }
}

proof fn lemma_tuple_segs_len(s: Seq<Seg>, w: Wrapping)
    ensures
        tuple_segs(s, w).len() == s.len(),
    decreases s.len(),
{
    if s.len() > 0 {
        lemma_tuple_segs_len(s.drop_last(), w);
    }
}

/// Wrapping leaves no tracked primitive bare: in what it makes of a type it
/// takes, every primitive stands as the argument of a `Tagged`, whichever
/// the wrapping, and wherever the primitive stood (behind references, in an
/// array or slice, a tuple, a function pointer or a generic argument).
pub proof fn law_tuple_ty_wraps_every_primitive(t: Ty, w: Wrapping)
    requires
        wrappable(t, w),
    ensures
        !bare(tuple_ty(t, w)),
    decreases height(t),
{
    let p = peel(t);
    lemma_peel_height(t);
    lemma_wrap_refs_peel(t);
    let ws = refs(t);
    if can_be_tupled(p) {
        lemma_bare_wrap_refs(ws, tagged(p));
        lemma_bare_tagged(p);
        lemma_primitive_within(p);
    } else {
        match p {
            Ty::Slice(e) => {
                law_tuple_ty_wraps_every_primitive(*e, w);
                let e2 = tuple_ty(*e, w);
                if let Ty::Ref(lt, m, b) = t {
                    let sl = Ty::Slice(Box::new(e2));
                    assert(!can_be_tupled(sl) && tag_arg(sl) is None);
                    assert(!bare(sl));
                    lemma_bare_wrap_refs(refs(*b), sl);
                    let inner = Ty::Ref(lt, m, Box::new(wrap_refs(refs(*b), sl)));
                    assert(tag_arg(inner) is None);
                    assert(!bare_within(inner));
                    lemma_bare_tagged(inner);
                    let outer = Ty::Ref(lt, m, Box::new(tagged(inner)));
                    assert(tag_arg(outer) is None && !can_be_tupled(outer));
                    assert(!bare(outer));
                }
            },
            Ty::Array(e, n) => {
                law_tuple_ty_wraps_every_primitive(*e, w);
                let a = Ty::Array(Box::new(tuple_ty(*e, w)), n);
                assert(tag_arg(a) is None && !can_be_tupled(a));
                assert(!bare_within(a));
                lemma_bare_tagged(a);
                lemma_bare_wrap_refs(ws, tagged(a));
                lemma_bare_wrap_refs(ws, a);
                lemma_bare_tagged(wrap_refs(ws, a));
                if ws.len() == 0 {
                    assert(wrap_refs(ws, a) == a);
                }
            },
            Ty::Tup(ts) => {
                lemma_tys_wrapped(ts, w);
                let r = Ty::Tup(tuple_tys(ts, w));
                assert(tag_arg(r) is None && !can_be_tupled(r));
                lemma_bare_wrap_refs(ws, r);
            },
            Ty::FnPtr(c, i, o) => {
                lemma_tys_wrapped(c, w);
                lemma_tys_wrapped(i, w);
                lemma_opt_wrapped(o, w);
                let r = Ty::FnPtr(tuple_tys(c, w), tuple_tys(i, w), tuple_opt(o, w));
                assert(tag_arg(r) is None && !can_be_tupled(r));
                lemma_bare_wrap_refs(ws, r);
            },
            Ty::Path(q, segs) => {
                lemma_segs_wrapped(segs, w);
                let s2 = tuple_segs(segs, w);
                let p2 = Ty::Path(q, s2);
                lemma_bare_path(q, s2);
                lemma_tuple_segs_len(segs, w);
                if q is None && segs.len() == 1 {
                    assert(s2 == tuple_segs(segs.drop_last(), w).push(
                        Seg { name: segs.last().name, args: tuple_args(segs.last().args, w) },
                    ));
                    assert(s2[0].name == segs[0].name);
                    assert(segs.last() == segs[0]);
                    assert(s2[0].args is NoArgs <==> segs[0].args is NoArgs);
                }
                assert(!can_be_tupled(p2));
                assert(!bare(p2));
                lemma_bare_tagged(p2);
                lemma_bare_wrap_refs(ws, p2);
                lemma_bare_wrap_refs(ws, tagged(p2));
            },
            Ty::Infer => {
                lemma_bare_wrap_refs(ws, p);
                assert(tag_arg(p) is None);
            },
            _ => {},
        }
    }
}

proof fn lemma_tys_wrapped(s: Seq<Ty>, w: Wrapping)
    requires
        wrappable_tys(s, w),
    ensures
        !bare_tys(tuple_tys(s, w)),
    decreases height_tys(s),
{
    if s.len() > 0 {
        lemma_tys_wrapped(s.drop_last(), w);
        law_tuple_ty_wraps_every_primitive(s.last(), w);
        let r = tuple_tys(s, w);
        assert(r.drop_last() =~= tuple_tys(s.drop_last(), w));
        assert(r.last() == tuple_ty(s.last(), w));
    }
}

proof fn lemma_opt_wrapped(o: Option<Box<Ty>>, w: Wrapping)
    requires
        wrappable_opt(o, w),
    ensures
        !bare_opt(tuple_opt(o, w)),
    decreases height_opt(o),
{
    if let Some(b) = o {
        law_tuple_ty_wraps_every_primitive(*b, w);
    }
}

proof fn lemma_segs_wrapped(s: Seq<Seg>, w: Wrapping)
    requires
        wrappable_segs(s, w),
    ensures
        !bare_segs(tuple_segs(s, w)),
    decreases height_segs(s),
{
    if s.len() > 0 {
        lemma_segs_wrapped(s.drop_last(), w);
        lemma_args_wrapped(s.last().args, w);
        let r = tuple_segs(s, w);
        assert(r.drop_last() =~= tuple_segs(s.drop_last(), w));
        assert(r.last().args == tuple_args(s.last().args, w));
    }
}

proof fn lemma_args_wrapped(a: Args, w: Wrapping)
    requires
        wrappable_args(a, w),
    ensures
        !bare_args(tuple_args(a, w)),
    decreases height_args(a),
{
    match a {
        Args::Angle(s) => lemma_argseq_wrapped(s, w),
        Args::Paren(i, o) => {
            lemma_tys_wrapped(i, w);
            lemma_opt_wrapped(o, w);
        },
        _ => {},
    }
}

proof fn lemma_argseq_wrapped(s: Seq<Arg>, w: Wrapping)
    requires
        wrappable_argseq(s, w),
    ensures
        !bare_argseq(tuple_argseq(s, w)),
    decreases height_argseq(s),
{
    if s.len() > 0 {
        lemma_argseq_wrapped(s.drop_last(), w);
        let r = tuple_argseq(s, w);
        assert(r.drop_last() =~= tuple_argseq(s.drop_last(), w));
        if let Arg::Type(t) = s.last() {
            law_tuple_ty_wraps_every_primitive(t, w);
            assert(r.last() == Arg::Type(tuple_ty(t, w)));
        } else {
            assert(r.last() == s.last());
        }
    }
}

} // verus!
