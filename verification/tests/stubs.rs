use datir::ati_info::{DefKey, FirstPassInfo};
use datir::signatures::{ParamShape, ReceiverKind};
use datir::stubs::{
    fields_wrappable, update_enum, update_signature, update_struct, variants_wrappable, FieldShape, StubInfo,
    TypeStub, VariantShape,
};
use datir::ty_shape::{ArgShape, ArgsShape, Segment, TyShape};

fn path(name: &str) -> TyShape {
    TyShape::Path(None, vec![Segment { name: name.to_string(), args: ArgsShape::NoArgs }])
}

fn tagged(inner: TyShape) -> TyShape {
    TyShape::Path(
        None,
        vec![Segment { name: "Tagged".to_string(), args: ArgsShape::Angle(vec![ArgShape::Type(inner)]) }],
    )
}

fn field(name: &str, ty: TyShape) -> FieldShape {
    FieldShape { name: Some(name.to_string()), ty }
}

fn info_tracking(name: &str) -> FirstPassInfo {
    let mut info = FirstPassInfo::new();
    info.observe_tracked_fn(name, DefKey { krate: 0, index: 1 });
    info
}

#[test]
fn a_struct_is_wrapped_and_recorded() {
    let mut stubs = StubInfo::new();
    let fields = vec![
        field("x", path("u32")),
        field("y", TyShape::Array(Box::new(path("u8")), "2".to_string())),
        field("z", TyShape::Ref(Some("'static".to_string()), false, Box::new(path("u16")))),
    ];
    assert!(fields_wrappable(&fields));
    update_struct(&mut stubs, "P".to_string(), fields);
    assert_eq!(stubs.type_count(), 1);
    match stubs.type_stub(0) {
        TypeStub::Struct(name, fs) => {
            assert_eq!(name, "P");
            assert_eq!(fs.len(), 3);
            assert_eq!(fs[0].name.as_deref(), Some("x"));
            assert_eq!(fs[0].ty, tagged(path("u32")));
            assert_eq!(fs[1].ty, tagged(TyShape::Array(Box::new(tagged(path("u8"))), "2".to_string())));
            assert_eq!(
                fs[2].ty,
                TyShape::Ref(Some("'static".to_string()), false, Box::new(tagged(path("u16"))))
            );
        }
        TypeStub::Enum(..) => panic!("a struct was recorded as an enum"),
    }
}

#[test]
fn an_enum_is_wrapped_and_recorded() {
    let mut stubs = StubInfo::new();
    let variants = vec![
        VariantShape { name: "A".to_string(), fields: vec![FieldShape { name: None, ty: path("i8") }] },
        VariantShape { name: "B".to_string(), fields: vec![] },
    ];
    assert!(variants_wrappable(&variants));
    update_enum(&mut stubs, "E".to_string(), variants);
    match stubs.type_stub(0) {
        TypeStub::Enum(name, vs) => {
            assert_eq!(name, "E");
            assert_eq!(vs[0].name, "A");
            assert_eq!(vs[0].fields[0].ty, tagged(path("i8")));
            assert!(vs[1].fields.is_empty());
        }
        TypeStub::Struct(..) => panic!("an enum was recorded as a struct"),
    }
    assert!(!variants_wrappable(&vec![VariantShape {
        name: "C".to_string(),
        fields: vec![FieldShape { name: None, ty: TyShape::Infer }],
    }]));
}

#[test]
fn a_tracked_method_is_renamed_and_recorded_with_its_receiver() {
    let info = info_tracking("m");
    let mut stubs = StubInfo::new();
    let params = vec![
        ParamShape { is_self: true, ident_pattern: true, ty: TyShape::Ref(None, true, Box::new(TyShape::Unsupported)) },
        ParamShape { is_self: false, ident_pattern: true, ty: path("u32") },
    ];
    let renamed = update_signature(&info, &mut stubs, Some("S"), "m", params, Some(path("bool")));
    assert_eq!(renamed.as_deref(), Some("m_unstubbed"));
    assert_eq!(stubs.fn_count(), 1);
    let stub = stubs.fn_stub(0);
    assert_eq!(stub.owner.as_deref(), Some("S"));
    assert_eq!(stub.name, "m");
    assert_eq!(stub.receiver, ReceiverKind::RefMut);
    assert_eq!(stub.params[1], tagged(path("u32")));
    assert_eq!(stub.ret, Some(tagged(path("bool"))));
}

#[test]
fn receivers_are_told_apart() {
    let info = info_tracking("f");
    let mut stubs = StubInfo::new();
    let by_value = vec![ParamShape { is_self: true, ident_pattern: true, ty: TyShape::Unsupported }];
    update_signature(&info, &mut stubs, Some("S"), "f", by_value, None);
    let by_ref = vec![ParamShape {
        is_self: true,
        ident_pattern: true,
        ty: TyShape::Ref(None, false, Box::new(TyShape::Unsupported)),
    }];
    update_signature(&info, &mut stubs, Some("S"), "f", by_ref, None);
    update_signature(&info, &mut stubs, None, "f", vec![], None);
    assert_eq!(stubs.fn_stub(0).receiver, ReceiverKind::Value);
    assert_eq!(stubs.fn_stub(1).receiver, ReceiverKind::Ref);
    assert_eq!(stubs.fn_stub(2).receiver, ReceiverKind::NoReceiver);
}

#[test]
fn an_untracked_function_is_neither_renamed_nor_recorded() {
    let info = info_tracking("m");
    let mut stubs = StubInfo::new();
    assert_eq!(update_signature(&info, &mut stubs, None, "other", vec![], None), None);
    assert_eq!(stubs.fn_count(), 0);
}
