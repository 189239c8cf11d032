use vstd::prelude::*;

use crate::ati_info::FirstPassInfo;
use crate::signatures::{
    receiver_of, unstubbed_name, view_params, wrap_params, wrap_ret, wrappable_params, wrappable_ret,
    ParamShape, ReceiverKind,
};
use crate::ty_shape::{
    bare, law_tuple_ty_wraps_every_primitive, is_wrappable, tuple_ty, tuple_type, view_name, view_opt_ty, view_ty, view_tys, wrappable, Ty, TyShape,
    Wrapping,
};

verus! {

/// The signature of a tracked function, recorded so that a stub can be made
/// for it: the type it is a method of, its name, how it takes its receiver,
/// its parameter types (a receiver's as written) and its return type, all
/// wrapped as a signature's types are.
pub struct FnStub {
    pub owner: Option<String>,
    pub name: String,
    pub receiver: ReceiverKind,
    pub params: Vec<TyShape>,
    pub ret: Option<TyShape>,
}

/// What an `FnStub` stands for.
pub struct SigView {
    pub owner: Option<Seq<char>>,
    pub name: Seq<char>,
    pub receiver: ReceiverKind,
    pub params: Seq<Ty>,
    pub ret: Option<Ty>,
}

pub open spec fn sig_view(f: FnStub) -> SigView {
    SigView {
        owner: view_name(f.owner),
        name: f.name@,
        receiver: f.receiver,
        params: view_tys(f.params@),
        ret: view_opt_ty(f.ret),
    }
}

/// A field of a struct or of an enum variant: its name, where it has one,
/// and its type.
pub struct FieldShape {
    pub name: Option<String>,
    pub ty: TyShape,
}

/// A variant of an enum.
pub struct VariantShape {
    pub name: String,
    pub fields: Vec<FieldShape>,
}

/// A type definition recorded so that its values can be bound to sites.
pub enum TypeStub {
    Struct(String, Vec<FieldShape>),
    Enum(String, Vec<VariantShape>),
}

/// What a `FieldShape` stands for.
pub struct FieldView {
    pub name: Option<Seq<char>>,
    pub ty: Ty,
}

/// What a `VariantShape` stands for.
pub struct VariantView {
    pub name: Seq<char>,
    pub fields: Seq<FieldView>,
}

/// What a `TypeStub` stands for.
pub enum TypeView {
    Struct(Seq<char>, Seq<FieldView>),
    Enum(Seq<char>, Seq<VariantView>),
}

pub open spec fn fields_view(s: Seq<FieldShape>) -> Seq<FieldView> {
    Seq::new(s.len(), |i: int| FieldView { name: view_name(s[i].name), ty: view_ty(s[i].ty) })
}

pub open spec fn variants_view(s: Seq<VariantShape>) -> Seq<VariantView> {
    Seq::new(s.len(), |i: int| VariantView { name: s[i].name@, fields: fields_view(s[i].fields@) })
}

pub open spec fn type_view(t: TypeStub) -> TypeView {
    match t {
        TypeStub::Struct(n, fs) => TypeView::Struct(n@, fields_view(fs@)),
        TypeStub::Enum(n, vs) => TypeView::Enum(n@, variants_view(vs@)),
    }
}

/// Every field type is taken by the wrapping of signatures.
pub open spec fn wrappable_fields(s: Seq<FieldView>) -> bool {
    forall|i: int| 0 <= i < s.len() ==> wrappable((#[trigger] s[i]).ty, Wrapping::Declaration)
}

/// Every field type of every variant is taken by the wrapping of signatures.
pub open spec fn wrappable_variants(s: Seq<VariantView>) -> bool {
    forall|i: int| 0 <= i < s.len() ==> wrappable_fields((#[trigger] s[i]).fields)
}

/// The fields with their types wrapped as a signature's types are.
pub open spec fn wrap_fields(s: Seq<FieldView>) -> Seq<FieldView> {
    Seq::new(s.len(), |i: int| FieldView { name: s[i].name, ty: tuple_ty(s[i].ty, Wrapping::Declaration) })
}

/// The variants with their field types wrapped as a signature's types are.
pub open spec fn wrap_variants(s: Seq<VariantView>) -> Seq<VariantView> {
    Seq::new(s.len(), |i: int| VariantView { name: s[i].name, fields: wrap_fields(s[i].fields) })
}

/// The signatures and type definitions that the rewriting of declarations
/// records, in the order it met them.
pub struct StubInfo {
    fns: Vec<FnStub>,
    types: Vec<TypeStub>,
}

impl StubInfo {
    /// The recorded signatures.
    pub closed spec fn fns(&self) -> Seq<SigView> {
        Seq::new(self.fns@.len(), |i: int| sig_view(self.fns@[i]))
    }

    /// The recorded type definitions.
    pub closed spec fn types(&self) -> Seq<TypeView> {
        Seq::new(self.types@.len(), |i: int| type_view(self.types@[i]))
    }

    /// Nothing recorded.
    pub fn new() -> (s: Self)
        ensures
            s.fns() == Seq::<SigView>::empty(),
            s.types() == Seq::<TypeView>::empty(),
    {
        let s = StubInfo { fns: Vec::new(), types: Vec::new() };
        assert(s.fns() =~= Seq::<SigView>::empty());
        assert(s.types() =~= Seq::<TypeView>::empty());
        s
    }

    /// The number of recorded signatures.
    pub fn fn_count(&self) -> (n: usize)
        ensures
            n == self.fns().len(),
    {
        self.fns.len()
    }

    /// The recorded signature at `i`.
    pub fn fn_stub(&self, i: usize) -> (r: &FnStub)
        requires
            i < self.fns().len(),
        ensures
            sig_view(*r) == self.fns()[i as int],
    {
        &self.fns[i]
    }

    /// The number of recorded type definitions.
    pub fn type_count(&self) -> (n: usize)
        ensures
            n == self.types().len(),
    {
        self.types.len()
    }

    /// The recorded type definition at `i`.
    pub fn type_stub(&self, i: usize) -> (r: &TypeStub)
        requires
            i < self.types().len(),
        ensures
            type_view(*r) == self.types()[i as int],
    {
        &self.types[i]
    }

    fn push_fn(&mut self, f: FnStub)
        ensures
            final(self).fns() == old(self).fns().push(sig_view(f)),
            final(self).types() == old(self).types(),
    {
        self.fns.push(f);
        assert(self.fns() =~= old(self).fns().push(sig_view(f)));
        assert(self.types() =~= old(self).types());
    }

    fn push_type(&mut self, t: TypeStub)
        ensures
            final(self).types() == old(self).types().push(type_view(t)),
            final(self).fns() == old(self).fns(),
    {
        self.types.push(t);
        assert(self.types() =~= old(self).types().push(type_view(t)));
        assert(self.fns() =~= old(self).fns());
    }
}

fn owned_name(o: Option<&str>) -> (r: Option<String>)
    ensures
        view_name(r) == match o {
            Some(s) => Some(s@),
            None => None::<Seq<char>>,
        },
{
    match o {
        Some(s) => Some(s.to_owned()),
        None => None,
    }
}

fn receiver_kind(params: &Vec<ParamShape>) -> (r: ReceiverKind)
    ensures
        r == receiver_of(view_params(params@)),
{
    if params.len() == 0 || !params[0].is_self {
        return ReceiverKind::NoReceiver;
    }
    match &params[0].ty {
        TyShape::Ref(_, m, _) => if *m {
            ReceiverKind::RefMut
        } else {
            ReceiverKind::Ref
        },
        _ => ReceiverKind::Value,
    }
}

/// Rewrites the signature of the function `ident`, a method of `owner`
/// where there is one, for the declarations: where the function is tracked,
/// every parameter type but the receiver's and the return type are wrapped
/// as a signature's types are, the signature is recorded with its receiver
/// kind so that a stub can be made for it, and the name the function itself
/// now goes by is returned, its old name being left to the stub. An
/// untracked function is left alone (`None`).
pub fn update_signature(
    info: &FirstPassInfo,
    stubs: &mut StubInfo,
    owner: Option<&str>,
    ident: &str,
    params: Vec<ParamShape>,
    ret: Option<TyShape>,
) -> (r: Option<String>)
    requires
        info.wf(),
        info.tracked_fn_names().contains(ident@) ==> wrappable_params(
            view_params(params@),
            Wrapping::Declaration,
        ) && wrappable_ret(view_opt_ty(ret), Wrapping::Declaration),
    ensures
        r is Some <==> info.tracked_fn_names().contains(ident@),
        r matches Some(n) ==> n@ == unstubbed_name(ident@) && final(stubs).fns() == old(stubs).fns().push(
            SigView {
                owner: match owner {
                    Some(s) => Some(s@),
                    None => None,
                },
                name: ident@,
                receiver: receiver_of(view_params(params@)),
                params: wrap_params(view_params(params@), Wrapping::Declaration),
                ret: wrap_ret(view_opt_ty(ret), Wrapping::Declaration),
            },
        ),
        r is None ==> final(stubs).fns() == old(stubs).fns(),
        final(stubs).types() == old(stubs).types(),
{
    if !info.is_fn_ident_tracked(ident) {
        return None;
    }
    let receiver = receiver_kind(&params);
    let p = crate::signatures::wrap_signature(info, ident, params, ret, Wrapping::Declaration);
    let sig = p.unwrap();
    let stub = FnStub { owner: owned_name(owner), name: ident.to_owned(), receiver, params: sig.params, ret: sig.ret };
    stubs.push_fn(stub);
    let mut renamed = ident.to_owned();
    renamed.append("_unstubbed");
    Some(renamed)
}

proof fn lemma_fields_view_cons(f: FieldShape, s: Seq<FieldShape>)
    ensures
        fields_view(seq![f] + s) == seq![FieldView { name: view_name(f.name), ty: view_ty(f.ty) }]
            + fields_view(s),
{
    assert(fields_view(seq![f] + s) =~= seq![FieldView { name: view_name(f.name), ty: view_ty(f.ty) }]
        + fields_view(s));
}

fn wrap_field_shapes(fs: Vec<FieldShape>) -> (r: Vec<FieldShape>)
    requires
        wrappable_fields(fields_view(fs@)),
    ensures
        fields_view(r@) == wrap_fields(fields_view(fs@)),
{
    let ghost s0 = fields_view(fs@);
    let ghost n = fs@.len();
    let mut fs = fs;
    let mut out: Vec<FieldShape> = Vec::new();
    assert(fields_view(out@) =~= wrap_fields(s0).skip(n as int));
    while fs.len() > 0
        invariant
            fs@.len() <= n,
            n == s0.len(),
            forall|j: int| 0 <= j < fs@.len() ==> fields_view(fs@)[j] == s0[j],
            fields_view(out@) == wrap_fields(s0).skip(fs@.len() as int),
            wrappable_fields(s0),
        decreases fs.len(),
    {
        let ghost before = fs@;
        let f = fs.pop().unwrap();
        let ghost k = fs@.len() as int;
        assert(fields_view(before)[k] == s0[k]);
        assert(wrappable(s0[k].ty, Wrapping::Declaration));
        let FieldShape { name, ty } = f;
        let f2 = FieldShape { name, ty: tuple_type(ty, Wrapping::Declaration) };
        let ghost old_out = out@;
        out.insert(0, f2);
        proof {
            assert(out@ =~= seq![f2] + old_out);
            lemma_fields_view_cons(f2, old_out);
            assert forall|j: int| 0 <= j < fs@.len() implies fields_view(fs@)[j] == s0[j] by {
                assert(fields_view(before)[j] == s0[j]);
            }
            assert(wrap_fields(s0).skip(k) =~= seq![wrap_fields(s0)[k]] + wrap_fields(s0).skip(k + 1));
        }
    }
    assert(wrap_fields(s0).skip(0) =~= wrap_fields(s0));
    out
}

fn wrap_variant_shapes(vs: Vec<VariantShape>) -> (r: Vec<VariantShape>)
    requires
        wrappable_variants(variants_view(vs@)),
    ensures
        variants_view(r@) == wrap_variants(variants_view(vs@)),
{
    let ghost s0 = variants_view(vs@);
    let ghost n = vs@.len();
    let mut vs = vs;
    let mut out: Vec<VariantShape> = Vec::new();
    assert(variants_view(out@) =~= wrap_variants(s0).skip(n as int));
    while vs.len() > 0
        invariant
            vs@.len() <= n,
            n == s0.len(),
            forall|j: int| 0 <= j < vs@.len() ==> variants_view(vs@)[j] == s0[j],
            variants_view(out@) == wrap_variants(s0).skip(vs@.len() as int),
            wrappable_variants(s0),
        decreases vs.len(),
    {
        let ghost before = vs@;
        let v = vs.pop().unwrap();
        let ghost k = vs@.len() as int;
        assert(variants_view(before)[k] == s0[k]);
        assert(wrappable_fields(s0[k].fields));
        let VariantShape { name, fields } = v;
        let v2 = VariantShape { name, fields: wrap_field_shapes(fields) };
        let ghost old_out = out@;
        out.insert(0, v2);
        proof {
            assert(out@ =~= seq![v2] + old_out);
            assert(variants_view(out@) =~= seq![wrap_variants(s0)[k]] + variants_view(old_out));
            assert forall|j: int| 0 <= j < vs@.len() implies variants_view(vs@)[j] == s0[j] by {
                assert(variants_view(before)[j] == s0[j]);
            }
            assert(wrap_variants(s0).skip(k) =~= seq![wrap_variants(s0)[k]] + wrap_variants(s0).skip(k + 1));
        }
    }
    assert(wrap_variants(s0).skip(0) =~= wrap_variants(s0));
    out
}

/// Whether the wrapping of signatures takes every field type.
pub fn fields_wrappable(fs: &Vec<FieldShape>) -> (b: bool)
    ensures
        b == wrappable_fields(fields_view(fs@)),
{
    let ghost s = fields_view(fs@);
    let mut i: usize = 0;
    while i < fs.len()
        invariant
            i <= fs.len(),
            s == fields_view(fs@),
            forall|j: int| 0 <= j < i ==> wrappable((#[trigger] s[j]).ty, Wrapping::Declaration),
        decreases fs.len() - i,
    {
        if !is_wrappable(&fs[i].ty, Wrapping::Declaration) {
            assert(!wrappable(s[i as int].ty, Wrapping::Declaration));
            return false;
        }
        i = i + 1;
    }
    true
}

/// Whether the wrapping of signatures takes every field type of every variant.
pub fn variants_wrappable(vs: &Vec<VariantShape>) -> (b: bool)
    ensures
        b == wrappable_variants(variants_view(vs@)),
{
    let ghost s = variants_view(vs@);
    let mut i: usize = 0;
    while i < vs.len()
        invariant
            i <= vs.len(),
            s == variants_view(vs@),
            forall|j: int| 0 <= j < i ==> wrappable_fields((#[trigger] s[j]).fields),
        decreases vs.len() - i,
    {
        if !fields_wrappable(&vs[i].fields) {
            assert(!wrappable_fields(s[i as int].fields));
            return false;
        }
        i = i + 1;
    }
    true
}

/// Wraps the field types of the struct `name` as a signature's types are,
/// and records the struct so that its values can be bound to sites.
pub fn update_struct(stubs: &mut StubInfo, name: String, fields: Vec<FieldShape>)
    requires
        wrappable_fields(fields_view(fields@)),
    ensures
        final(stubs).types() == old(stubs).types().push(
            TypeView::Struct(name@, wrap_fields(fields_view(fields@))),
        ),
        final(stubs).fns() == old(stubs).fns(),
{
    let fs = wrap_field_shapes(fields);
    stubs.push_type(TypeStub::Struct(name, fs));
}

/// Wraps the field types of every variant of the enum `name` as a
/// signature's types are, and records the enum so that its values can be
/// bound to sites.
pub fn update_enum(stubs: &mut StubInfo, name: String, variants: Vec<VariantShape>)
    requires
        wrappable_variants(variants_view(variants@)),
    ensures
        final(stubs).types() == old(stubs).types().push(
            TypeView::Enum(name@, wrap_variants(variants_view(variants@))),
        ),
        final(stubs).fns() == old(stubs).fns(),
{
    let vs = wrap_variant_shapes(variants);
    stubs.push_type(TypeStub::Enum(name, vs));
}

/// Recorded fields leave no tracked primitive bare: every wrapped field type
/// has each primitive as the argument of a `Tagged`, in a struct or in any
/// variant of an enum.
pub proof fn law_wrapped_fields_have_no_bare_primitive(s: Seq<FieldView>, vs: Seq<VariantView>)
    requires
        wrappable_fields(s),
        wrappable_variants(vs),
    ensures
        forall|i: int| 0 <= i < s.len() ==> !bare((#[trigger] wrap_fields(s)[i]).ty),
        forall|i: int, j: int|
            0 <= i < vs.len() && 0 <= j < vs[i].fields.len() ==> !bare(
                (#[trigger] wrap_variants(vs)[i].fields[j]).ty,
            ),
{
    assert forall|i: int| 0 <= i < s.len() implies !bare((#[trigger] wrap_fields(s)[i]).ty) by {
        assert(wrappable(s[i].ty, Wrapping::Declaration));
        law_tuple_ty_wraps_every_primitive(s[i].ty, Wrapping::Declaration);
    }
    assert forall|i: int, j: int| 0 <= i < vs.len() && 0 <= j < vs[i].fields.len() implies !bare(
        (#[trigger] wrap_variants(vs)[i].fields[j]).ty,
    ) by {
        assert(wrappable_fields(vs[i].fields));
        assert(wrappable(vs[i].fields[j].ty, Wrapping::Declaration));
        law_tuple_ty_wraps_every_primitive(vs[i].fields[j].ty, Wrapping::Declaration);
    }
}

} // verus!
