use datir::ati_info::{DefKey, FirstPassInfo};
use datir::first_pass::FirstPassInfo as GatheredInfo;
use datir::signatures::{
    signature_wrappable, transform_fn, transform_method, wrap_signature, ParamShape,
};
use datir::ty_shape::{ArgShape, ArgsShape, Segment, TyShape, Wrapping};

fn path(name: &str) -> TyShape {
    TyShape::Path(None, vec![Segment { name: name.to_string(), args: ArgsShape::NoArgs }])
}

fn tagged(inner: TyShape) -> TyShape {
    TyShape::Path(
        None,
        vec![Segment { name: "Tagged".to_string(), args: ArgsShape::Angle(vec![ArgShape::Type(inner)]) }],
    )
}

fn param(is_self: bool, ty: TyShape) -> ParamShape {
    ParamShape { is_self, ident_pattern: true, ty }
}

fn info_tracking(name: &str) -> FirstPassInfo {
    let mut info = FirstPassInfo::new();
    info.observe_tracked_fn(name, DefKey { krate: 0, index: 1 });
    info
}

#[test]
fn an_untracked_function_keeps_its_signature() {
    let info = info_tracking("foo");
    let r = wrap_signature(&info, "bar", vec![param(false, path("u32"))], None, Wrapping::Declaration);
    assert!(r.is_none());
}

#[test]
fn a_tracked_function_is_wrapped() {
    let info = info_tracking("foo");
    let params = vec![param(false, path("u32")), param(false, path("String"))];
    let ret = Some(path("bool"));
    assert!(signature_wrappable(&params, &ret, Wrapping::Declaration));
    let sig = wrap_signature(&info, "foo", params, ret, Wrapping::Declaration).unwrap();
    assert_eq!(sig.params, vec![tagged(path("u32")), path("String")]);
    assert_eq!(sig.ret, Some(tagged(path("bool"))));
}

#[test]
fn the_receiver_is_kept_as_written() {
    let info = info_tracking("get");
    let receiver = TyShape::Ref(None, false, Box::new(TyShape::Unsupported));
    let params = vec![param(true, receiver), param(false, path("usize"))];
    assert!(signature_wrappable(&params, &None, Wrapping::Instrument));
    let sig = wrap_signature(&info, "get", params, None, Wrapping::Instrument).unwrap();
    assert_eq!(
        sig.params,
        vec![TyShape::Ref(None, false, Box::new(TyShape::Unsupported)), tagged(path("usize"))]
    );
    assert_eq!(sig.ret, None);
}

#[test]
fn refused_signatures_are_found_before_the_call() {
    assert!(!signature_wrappable(&vec![param(false, TyShape::Infer)], &None, Wrapping::Declaration));
    assert!(signature_wrappable(&vec![param(false, TyShape::Infer)], &None, Wrapping::Instrument));
    assert!(!signature_wrappable(&vec![], &Some(TyShape::Unsupported), Wrapping::Instrument));
}

#[test]
fn a_recorded_free_function_gets_mut_bindings_for_mutable_references() {
    let mut info = GatheredInfo::new();
    info.observe_fn("m".to_string(), None, "f".to_string(), DefKey { krate: 0, index: 3 }, "m::f".to_string());
    let params = vec![
        param(false, TyShape::Ref(None, true, Box::new(path("u8")))),
        param(false, TyShape::Ref(None, false, Box::new(path("u8")))),
        param(false, path("i32")),
    ];
    let r = transform_fn(&info, "m", "f", params, Some(path("u8"))).unwrap();
    assert_eq!(r.mut_bindings, vec![true, false, false]);
    assert_eq!(
        r.params,
        vec![
            TyShape::Ref(None, true, Box::new(tagged(path("u8")))),
            TyShape::Ref(None, false, Box::new(tagged(path("u8")))),
            tagged(path("i32")),
        ]
    );
    assert_eq!(r.ret, Some(tagged(path("u8"))));
    assert!(transform_fn(&info, "other", "f", vec![], None).is_none());
}

#[test]
fn a_recorded_method_is_wrapped_and_others_are_left() {
    let mut info = GatheredInfo::new();
    info.observe_fn(
        "m".to_string(),
        Some("S".to_string()),
        "get".to_string(),
        DefKey { krate: 0, index: 4 },
        "m::S::get".to_string(),
    );
    let params = vec![param(true, TyShape::Unsupported), param(false, path("u64"))];
    let sig = transform_method(&info, "m", "S", "get", params, None).unwrap();
    assert_eq!(sig.params, vec![TyShape::Unsupported, tagged(path("u64"))]);
    assert!(transform_method(&info, "m", "T", "get", vec![], None).is_none());
}
