use vstd::prelude::*;

use crate::ati_info::FirstPassInfo;
use crate::first_pass::FirstPassInfo as GatheredInfo;
use crate::ty_shape::{
    bare, law_tuple_ty_wraps_every_primitive, is_wrappable, tuple_ty, tuple_type, view_name, view_opt_ty, view_ty, view_tys, wrappable, Ty, TyShape,
    Wrapping,
};

verus! {

/// A parameter of a function: whether it is the `self` receiver, whether its
/// pattern is a plain identifier, and its type.
pub struct ParamShape {
    pub is_self: bool,
    pub ident_pattern: bool,
    pub ty: TyShape,
}

/// What a `ParamShape` stands for.
pub struct ParamView {
    pub is_self: bool,
    pub ident_pattern: bool,
    pub ty: Ty,
}

pub open spec fn view_params(s: Seq<ParamShape>) -> Seq<ParamView> {
    Seq::new(
        s.len(),
        |i: int| ParamView { is_self: s[i].is_self, ident_pattern: s[i].ident_pattern, ty: view_ty(s[i].ty) },
    )
}

/// How a method takes its receiver.
#[derive(Debug, Clone, Copy, PartialEq, Eq, Structural)]
pub enum ReceiverKind {
    /// Not a method with a receiver.
    NoReceiver,
    /// `self`, or `self` with its type written out.
    Value,
    /// `&self`.
    Ref,
    /// `&mut self`.
    RefMut,
}

/// The receiver kind of a function with parameters `s`: that of its first
/// parameter, where that is the receiver.
pub open spec fn receiver_of(s: Seq<ParamView>) -> ReceiverKind {
    if s.len() == 0 || !s[0].is_self {
        ReceiverKind::NoReceiver
    } else {
        match s[0].ty {
            Ty::Ref(_, m, _) => if m {
                ReceiverKind::RefMut
            } else {
                ReceiverKind::Ref
            },
            _ => ReceiverKind::Value,
        }
    }
}

/// Every parameter type but the receiver's is taken by the wrapping `w`.
pub open spec fn wrappable_params(s: Seq<ParamView>, w: Wrapping) -> bool {
    forall|i: int| 0 <= i < s.len() && !(#[trigger] s[i]).is_self ==> wrappable(s[i].ty, w)
}

/// The parameter types, every type but the receiver's wrapped by `w`.
pub open spec fn wrap_params(s: Seq<ParamView>, w: Wrapping) -> Seq<Ty> {
    Seq::new(
        s.len(),
        |i: int| if s[i].is_self {
            s[i].ty
        } else {
            tuple_ty(s[i].ty, w)
        },
    )
}

/// The return type is taken by the wrapping `w`, where there is one.
pub open spec fn wrappable_ret(o: Option<Ty>, w: Wrapping) -> bool {
    o matches Some(t) ==> wrappable(t, w)
}

/// The return type wrapped by `w`.
pub open spec fn wrap_ret(o: Option<Ty>, w: Wrapping) -> Option<Ty> {
    match o {
        Some(t) => Some(tuple_ty(t, w)),
        None => None,
    }
}

/// Whether each parameter is a mutable reference, which gets a `mut`
/// binding so that the tracked value behind it can be assigned to.
pub open spec fn mut_bindings(s: Seq<ParamView>) -> Seq<bool> {
    Seq::new(s.len(), |i: int| s[i].ty matches Ty::Ref(_, m, _) && m)
}

/// A mutable reference parameter has a plain identifier as its pattern.
pub open spec fn mut_refs_named(s: Seq<ParamView>) -> bool {
    forall|i: int| 0 <= i < s.len() && (#[trigger] mut_bindings(s)[i]) ==> s[i].ident_pattern
}

/// The name a tracked function goes by once a stub has taken its own name.
pub open spec fn unstubbed_name(name: Seq<char>) -> Seq<char> {
    name + "_unstubbed"@
}

/// A signature with its types wrapped.
pub struct Signature {
    pub params: Vec<TyShape>,
    pub ret: Option<TyShape>,
}

/// A signature with its types wrapped, and which parameters get a `mut`
/// binding.
pub struct FnRewrite {
    pub params: Vec<TyShape>,
    pub ret: Option<TyShape>,
    pub mut_bindings: Vec<bool>,
}

fn wrap_param_shapes(ps: Vec<ParamShape>, w: Wrapping) -> (r: Vec<TyShape>)
    requires
        wrappable_params(view_params(ps@), w),
    ensures
        view_tys(r@) == wrap_params(view_params(ps@), w),
{
    let ghost s0 = view_params(ps@);
    let ghost n = ps@.len();
    let mut ps = ps;
    let mut out: Vec<TyShape> = Vec::new();
    assert(view_tys(out@) =~= wrap_params(s0, w).skip(n as int)) by {
        assert(view_tys(out@) == Seq::<Ty>::empty());
    }
    while ps.len() > 0
        invariant
            ps@.len() <= n,
            n == s0.len(),
            forall|j: int| 0 <= j < ps@.len() ==> view_params(ps@)[j] == s0[j],
            view_tys(out@) == wrap_params(s0, w).skip(ps@.len() as int),
            wrappable_params(s0, w),
        decreases ps.len(),
    {
        let ghost before = ps@;
        let p = ps.pop().unwrap();
        let ghost k = ps@.len() as int;
        assert(view_params(before)[k] == s0[k]);
        assert(s0[k].is_self == p.is_self && s0[k].ty == p.ty@);
        let t = if p.is_self {
            p.ty
        } else {
            assert(wrappable(s0[k].ty, w));
            tuple_type(p.ty, w)
        };
        let ghost old_out = out@;
        assert(t@ == wrap_params(s0, w)[k]);
        out.insert(0, t);
        proof {
            assert(out@ =~= seq![t] + old_out);
            assert forall|j: int| 0 <= j < ps@.len() implies view_params(ps@)[j] == s0[j] by {
                assert(view_params(before)[j] == s0[j]);
            }
            lemma_view_tys_cons(t, old_out);
            assert(wrap_params(s0, w).skip(k) =~= seq![wrap_params(s0, w)[k]] + wrap_params(s0, w).skip(
                k + 1,
            ));
        }
    }
    assert(wrap_params(s0, w).skip(0) =~= wrap_params(s0, w));
    out
}

proof fn lemma_view_tys_cons(x: TyShape, s: Seq<TyShape>)
    ensures
        view_tys(seq![x] + s) == seq![view_ty(x)] + view_tys(s),
    decreases s.len(),
{
    if s.len() == 0 {
        let xs = seq![x] + s;
        assert(xs.drop_last() =~= Seq::<TyShape>::empty());
        assert(xs.last() == x);
        assert(view_tys(Seq::<TyShape>::empty()) == Seq::<Ty>::empty());
        assert(view_tys(s) == Seq::<Ty>::empty());
        assert(view_tys(xs) == view_tys(xs.drop_last()).push(view_ty(xs.last())));
        assert(view_tys(xs) =~= seq![view_ty(x)] + view_tys(s));
    } else {
        lemma_view_tys_cons(x, s.drop_last());
        let xs = seq![x] + s;
        assert(xs.drop_last() =~= seq![x] + s.drop_last());
        assert(xs.last() == s.last());
        assert(view_tys(xs) == view_tys(xs.drop_last()).push(view_ty(xs.last())));
        assert(view_tys(s) == view_tys(s.drop_last()).push(view_ty(s.last())));
        assert((seq![view_ty(x)] + view_tys(s.drop_last())).push(view_ty(s.last())) =~= seq![view_ty(x)]
            + view_tys(s.drop_last()).push(view_ty(s.last())));
    }
}

fn wrap_ret_shape(ret: Option<TyShape>, w: Wrapping) -> (r: Option<TyShape>)
    requires
        wrappable_ret(view_opt_ty(ret), w),
    ensures
        view_opt_ty(r) == wrap_ret(view_opt_ty(ret), w),
{
    match ret {
        Some(t) => Some(tuple_type(t, w)),
        None => None,
    }
}

/// Whether the wrapping `w` takes every parameter type but the receiver's,
/// and the return type.
pub fn signature_wrappable(params: &Vec<ParamShape>, ret: &Option<TyShape>, w: Wrapping) -> (b: bool)
    ensures
        b == (wrappable_params(view_params(params@), w) && wrappable_ret(view_opt_ty(*ret), w)),
{
    let ghost s = view_params(params@);
    let mut i: usize = 0;
    while i < params.len()
        invariant
            i <= params.len(),
            s == view_params(params@),
            forall|j: int| 0 <= j < i && !(#[trigger] s[j]).is_self ==> wrappable(s[j].ty, w),
        decreases params.len() - i,
    {
        if !params[i].is_self && !is_wrappable(&params[i].ty, w) {
            assert(!s[i as int].is_self && !wrappable(s[i as int].ty, w));
            return false;
        }
        i = i + 1;
    }
    match ret {
        Some(t) => is_wrappable(t, w),
        None => true,
    }
}

/// Rewrites the signature of the function `ident` for instrumenting: where
/// the function is tracked, every parameter type but the receiver's and the
/// return type are wrapped by `w`; an untracked function is left alone
/// (`None`).
pub fn wrap_signature(
    info: &FirstPassInfo,
    ident: &str,
    params: Vec<ParamShape>,
    ret: Option<TyShape>,
    w: Wrapping,
) -> (r: Option<Signature>)
    requires
        info.wf(),
        info.tracked_fn_names().contains(ident@) ==> wrappable_params(view_params(params@), w)
            && wrappable_ret(view_opt_ty(ret), w),
    ensures
        r is Some <==> info.tracked_fn_names().contains(ident@),
        r matches Some(sig) ==> view_tys(sig.params@) == wrap_params(view_params(params@), w)
            && view_opt_ty(sig.ret) == wrap_ret(view_opt_ty(ret), w),
{
    if !info.is_fn_ident_tracked(ident) {
        return None;
    }
    let p = wrap_param_shapes(params, w);
    let o = wrap_ret_shape(ret, w);
    Some(Signature { params: p, ret: o })
}

fn mut_binding_flags(params: &Vec<ParamShape>) -> (r: Vec<bool>)
    ensures
        r@ == mut_bindings(view_params(params@)),
{
    let ghost s = view_params(params@);
    let mut out: Vec<bool> = Vec::new();
    let mut i: usize = 0;
    while i < params.len()
        invariant
            i <= params.len(),
            s == view_params(params@),
            out@ == mut_bindings(s).take(i as int),
        decreases params.len() - i,
    {
        let b = match &params[i].ty {
            TyShape::Ref(_, m, _) => *m,
            _ => false,
        };
        assert(b == mut_bindings(s)[i as int]);
        out.push(b);
        assert(out@ =~= mut_bindings(s).take(i + 1));
        i = i + 1;
    }
    assert(mut_bindings(s).take(params@.len() as int) =~= mut_bindings(s));
    out
}

/// Rewrites the free function `ident` of module `mod_path` for
/// instrumenting: where the gathering pass recorded it, its parameter and
/// return types are wrapped as in an instrumented item, and every mutable
/// reference parameter gets a `mut` binding; a function not recorded is
/// left alone (`None`).
pub fn transform_fn(
    info: &GatheredInfo,
    mod_path: &str,
    ident: &str,
    params: Vec<ParamShape>,
    ret: Option<TyShape>,
) -> (r: Option<FnRewrite>)
    requires
        info.wf(),
        info.free_fns().contains_key((mod_path@, ident@)) ==> wrappable_params(
            view_params(params@),
            Wrapping::Instrument,
        ) && wrappable_ret(view_opt_ty(ret), Wrapping::Instrument) && mut_refs_named(
            view_params(params@),
        ),
    ensures
        r is Some <==> info.free_fns().contains_key((mod_path@, ident@)),
        r matches Some(f) ==> view_tys(f.params@) == wrap_params(view_params(params@), Wrapping::Instrument)
            && view_opt_ty(f.ret) == wrap_ret(view_opt_ty(ret), Wrapping::Instrument) && f.mut_bindings@
            == mut_bindings(view_params(params@)),
{
    if info.lookup_free_fn(mod_path, ident).is_none() {
        return None;
    }
    let flags = mut_binding_flags(&params);
    let p = wrap_param_shapes(params, Wrapping::Instrument);
    let o = wrap_ret_shape(ret, Wrapping::Instrument);
    Some(FnRewrite { params: p, ret: o, mut_bindings: flags })
}

/// Rewrites the method `ident` of the type `type_key` in module `mod_path`
/// for instrumenting: where the gathering pass recorded it, every parameter
/// type but the receiver's and the return type are wrapped as in an
/// instrumented item; a method not recorded is left alone (`None`).
pub fn transform_method(
    info: &GatheredInfo,
    mod_path: &str,
    type_key: &str,
    ident: &str,
    params: Vec<ParamShape>,
    ret: Option<TyShape>,
) -> (r: Option<Signature>)
    requires
        info.wf(),
        info.methods().contains_key((mod_path@, type_key@, ident@)) ==> wrappable_params(
            view_params(params@),
            Wrapping::Instrument,
        ) && wrappable_ret(view_opt_ty(ret), Wrapping::Instrument),
    ensures
        r is Some <==> info.methods().contains_key((mod_path@, type_key@, ident@)),
        r matches Some(sig) ==> view_tys(sig.params@) == wrap_params(view_params(params@), Wrapping::Instrument)
            && view_opt_ty(sig.ret) == wrap_ret(view_opt_ty(ret), Wrapping::Instrument),
{
    if info.lookup_method(mod_path, type_key, ident).is_none() {
        return None;
    }
    let p = wrap_param_shapes(params, Wrapping::Instrument);
    let o = wrap_ret_shape(ret, Wrapping::Instrument);
    Some(Signature { params: p, ret: o })
}

/// A rewritten signature leaves no tracked primitive bare: every parameter
/// type but the receiver's, and the return type, has each primitive as the
/// argument of a `Tagged`.
pub proof fn law_wrapped_signature_has_no_bare_primitive(s: Seq<ParamView>, ret: Option<Ty>, w: Wrapping)
    requires
        wrappable_params(s, w),
        wrappable_ret(ret, w),
    ensures
        forall|i: int| 0 <= i < s.len() && !(#[trigger] s[i]).is_self ==> !bare(wrap_params(s, w)[i]),
        wrap_ret(ret, w) matches Some(t) ==> !bare(t),
{
    assert forall|i: int| 0 <= i < s.len() && !(#[trigger] s[i]).is_self implies !bare(
        wrap_params(s, w)[i],
    ) by {
        law_tuple_ty_wraps_every_primitive(s[i].ty, w);
    }
    if let Some(t) = ret {
        law_tuple_ty_wraps_every_primitive(t, w);
    }
}

} // verus!
