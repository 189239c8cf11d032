use datir::ty_shape::{
    is_wrappable, shape_can_be_tupled, tuple_tys_shape, tuple_type, tys_wrappable, ArgShape, ArgsShape,
    QSelfShape, Segment, TyShape, Wrapping,
};

fn seg(name: &str, args: ArgsShape) -> Segment {
    Segment { name: name.to_string(), args }
}

fn path(name: &str) -> TyShape {
    TyShape::Path(None, vec![seg(name, ArgsShape::NoArgs)])
}

fn generic(name: &str, inner: TyShape) -> TyShape {
    TyShape::Path(None, vec![seg(name, ArgsShape::Angle(vec![ArgShape::Type(inner)]))])
}

fn tagged(inner: TyShape) -> TyShape {
    generic("Tagged", inner)
}

fn reference(mutable: bool, inner: TyShape) -> TyShape {
    TyShape::Ref(None, mutable, Box::new(inner))
}

fn ref_lt(lt: &str, mutable: bool, inner: TyShape) -> TyShape {
    TyShape::Ref(Some(lt.to_string()), mutable, Box::new(inner))
}

fn wrap(t: TyShape, w: Wrapping) -> TyShape {
    assert!(is_wrappable(&t, w));
    tuple_type(t, w)
}

#[test]
fn a_primitive_is_wrapped() {
    assert_eq!(wrap(path("u32"), Wrapping::Instrument), tagged(path("u32")));
    assert_eq!(wrap(path("bool"), Wrapping::Declaration), tagged(path("bool")));
}

#[test]
fn a_primitive_is_wrapped_below_its_references() {
    let t = reference(true, reference(false, path("u8")));
    let expected = reference(true, reference(false, tagged(path("u8"))));
    assert_eq!(wrap(t, Wrapping::Instrument), expected);
}

#[test]
fn lifetimes_of_references_are_kept() {
    let t = ref_lt("'static", false, path("u16"));
    assert_eq!(wrap(t, Wrapping::Declaration), ref_lt("'static", false, tagged(path("u16"))));
    let t = ref_lt("'a", true, path("u32"));
    assert_eq!(wrap(t, Wrapping::Instrument), ref_lt("'a", true, tagged(path("u32"))));
}

#[test]
fn other_paths_are_wrapped_within() {
    assert_eq!(wrap(path("String"), Wrapping::Instrument), path("String"));
    let t = generic("Vec", path("u64"));
    assert_eq!(wrap(t, Wrapping::Declaration), generic("Vec", tagged(path("u64"))));
}

#[test]
fn a_qualified_self_is_left_alone() {
    let q = || Some(QSelfShape { ty: Box::new(path("u8")), position: 1 });
    let t = TyShape::Path(
        q(),
        vec![seg("Tr", ArgsShape::Angle(vec![ArgShape::Type(path("u32"))])), seg("Y", ArgsShape::NoArgs)],
    );
    let expected = TyShape::Path(
        q(),
        vec![seg("Tr", ArgsShape::Angle(vec![ArgShape::Type(tagged(path("u32")))])), seg("Y", ArgsShape::NoArgs)],
    );
    assert_eq!(wrap(t, Wrapping::Instrument), expected);
    let bare = TyShape::Path(q(), vec![seg("u8", ArgsShape::NoArgs)]);
    assert!(!shape_can_be_tupled(&bare));
}

#[test]
fn a_range_path_is_wrapped_whole_in_items_only() {
    let range = |inner: TyShape| {
        TyShape::Path(
            None,
            vec![
                seg("std", ArgsShape::NoArgs),
                seg("ops", ArgsShape::NoArgs),
                seg("Range", ArgsShape::Angle(vec![ArgShape::Type(inner)])),
            ],
        )
    };
    assert_eq!(wrap(range(path("usize")), Wrapping::Instrument), tagged(range(tagged(path("usize")))));
    assert_eq!(wrap(range(path("usize")), Wrapping::Declaration), range(tagged(path("usize"))));
}

#[test]
fn arrays_are_wrapped_as_values() {
    let arr = || TyShape::Array(Box::new(path("u8")), "2".to_string());
    let wrapped = || TyShape::Array(Box::new(tagged(path("u8"))), "2".to_string());
    assert_eq!(wrap(arr(), Wrapping::Instrument), tagged(wrapped()));
    assert_eq!(wrap(arr(), Wrapping::Declaration), tagged(wrapped()));
    assert_eq!(wrap(reference(false, arr()), Wrapping::Instrument), reference(false, tagged(wrapped())));
    assert_eq!(wrap(reference(false, arr()), Wrapping::Declaration), tagged(reference(false, wrapped())));
}

#[test]
fn slice_references_take_the_reference_into_the_wrapper() {
    let slice = || ref_lt("'a", true, TyShape::Slice(Box::new(path("i32"))));
    let inner = || ref_lt("'a", true, TyShape::Slice(Box::new(tagged(path("i32")))));
    assert_eq!(wrap(slice(), Wrapping::Instrument), tagged(inner()));
    assert_eq!(wrap(slice(), Wrapping::Declaration), ref_lt("'a", true, tagged(inner())));
}

#[test]
fn tuples_and_function_pointers_are_wrapped_within() {
    let t = TyShape::Tup(vec![path("u8"), path("String")]);
    assert_eq!(wrap(t, Wrapping::Instrument), TyShape::Tup(vec![tagged(path("u8")), path("String")]));
    let f = TyShape::FnPtr(vec![], vec![path("i64")], Some(Box::new(path("char"))));
    assert_eq!(
        wrap(f, Wrapping::Declaration),
        TyShape::FnPtr(vec![], vec![tagged(path("i64"))], Some(Box::new(tagged(path("char")))))
    );
}

#[test]
fn parenthesized_arguments_are_wrapped_within() {
    let t = TyShape::Path(None, vec![seg("Fn", ArgsShape::Paren(vec![path("u16")], Some(Box::new(path("bool")))))]);
    let expected = TyShape::Path(
        None,
        vec![seg("Fn", ArgsShape::Paren(vec![tagged(path("u16"))], Some(Box::new(tagged(path("bool"))))))],
    );
    assert_eq!(wrap(t, Wrapping::Instrument), expected);
}

#[test]
fn inferred_types_stay_in_items_and_are_refused_in_signatures() {
    assert_eq!(wrap(generic("Vec", TyShape::Infer), Wrapping::Instrument), generic("Vec", TyShape::Infer));
    assert!(!is_wrappable(&generic("Vec", TyShape::Infer), Wrapping::Declaration));
}

#[test]
fn refused_shapes_are_not_wrappable() {
    assert!(!is_wrappable(&TyShape::Unsupported, Wrapping::Instrument));
    let c = TyShape::Path(None, vec![seg("Iterator", ArgsShape::Angle(vec![ArgShape::Constraint]))]);
    assert!(!is_wrappable(&c, Wrapping::Instrument));
    let e = TyShape::Path(None, vec![seg("f", ArgsShape::Elided)]);
    assert!(!is_wrappable(&e, Wrapping::Declaration));
    assert!(!is_wrappable(&generic("Vec", TyShape::Unsupported), Wrapping::Instrument));
    let ptr_slice = TyShape::Ptr(false, Box::new(TyShape::Slice(Box::new(path("u8")))));
    assert!(!is_wrappable(&ptr_slice, Wrapping::Instrument));
    assert!(!is_wrappable(&TyShape::Slice(Box::new(path("u8"))), Wrapping::Declaration));
}

#[test]
fn lifetimes_and_consts_are_kept() {
    let t = TyShape::Path(
        None,
        vec![seg(
            "Foo",
            ArgsShape::Angle(vec![
                ArgShape::Lifetime("'a".to_string()),
                ArgShape::Const("3".to_string()),
                ArgShape::Type(path("u8")),
            ]),
        )],
    );
    let expected = TyShape::Path(
        None,
        vec![seg(
            "Foo",
            ArgsShape::Angle(vec![
                ArgShape::Lifetime("'a".to_string()),
                ArgShape::Const("3".to_string()),
                ArgShape::Type(tagged(path("u8"))),
            ]),
        )],
    );
    assert_eq!(wrap(t, Wrapping::Declaration), expected);
}

#[test]
fn lists_of_types_are_wrapped_in_order() {
    let ts = vec![path("u8"), path("String"), reference(false, path("i8"))];
    assert!(tys_wrappable(&ts, Wrapping::Declaration));
    assert_eq!(
        tuple_tys_shape(ts, Wrapping::Declaration),
        vec![tagged(path("u8")), path("String"), reference(false, tagged(path("i8")))]
    );
    assert!(!tys_wrappable(&vec![path("u8"), TyShape::Unsupported], Wrapping::Instrument));
}

#[test]
fn only_bare_primitive_names_can_be_tupled() {
    assert!(shape_can_be_tupled(&path("usize")));
    assert!(shape_can_be_tupled(&path("f64")));
    assert!(!shape_can_be_tupled(&path("String")));
    assert!(!shape_can_be_tupled(&generic("u8", path("u8"))));
    assert!(!shape_can_be_tupled(&reference(false, path("u8"))));
    let qualified = TyShape::Path(None, vec![seg("core", ArgsShape::NoArgs), seg("u8", ArgsShape::NoArgs)]);
    assert!(!shape_can_be_tupled(&qualified));
}
