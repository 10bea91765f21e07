use defamed::params::{
    ArgAttr, ArgDescriptor, AttrShape, FnReceiver, FunctionParam, FunctionParams, ParamAttr,
    ParamError, PatTypeDesc, ReceiverDesc,
};

fn desc(pat: &str, ty: &str, attrs: Vec<ArgAttr>) -> PatTypeDesc {
    PatTypeDesc { pat: pat.to_string(), ty: ty.to_string(), attrs }
}

fn attr(name: &str, shape: AttrShape) -> ArgAttr {
    ArgAttr { name: name.to_string(), shape }
}

fn recv(mutable: bool, reference: bool) -> ReceiverDesc {
    ReceiverDesc {
        ty: "Self".to_string(),
        mutable,
        reference,
        lifetime: None,
        colon: false,
    }
}

#[test]
fn bare_marker_means_zero_value() {
    let p = FunctionParam::from_pat_type(desc("a", "i32", vec![attr("default", AttrShape::Path)]))
        .unwrap();
    assert!(matches!(p.default_value, ParamAttr::ZeroValue));
    assert_eq!(p.pat, "a");
    assert_eq!(p.ty, "i32");
}

#[test]
fn list_marker_means_expression() {
    let p = FunctionParam::from_pat_type(desc(
        "a",
        "u8",
        vec![attr("default", AttrShape::List(vec!["1".to_string()]))],
    ))
    .unwrap();
    match p.default_value {
        ParamAttr::Expr(e) => assert_eq!(e, "1"),
        _ => panic!("expected an expression default"),
    }
}

#[test]
fn no_annotation_means_required() {
    let p = FunctionParam::from_pat_type(desc("a", "i32", vec![])).unwrap();
    assert!(matches!(p.default_value, ParamAttr::NoDefault));
}

#[test]
fn unrecognized_attributes_are_ignored() {
    let p = FunctionParam::from_pat_type(desc(
        "a",
        "i32",
        vec![attr("cfg", AttrShape::NameValue), attr("default", AttrShape::Path)],
    ))
    .unwrap();
    assert!(matches!(p.default_value, ParamAttr::ZeroValue));
}

#[test]
fn name_value_annotation_is_rejected_with_advisory() {
    let r = FunctionParam::from_pat_type(desc(
        "a",
        "i32",
        vec![attr("default", AttrShape::NameValue)],
    ));
    let e = r.unwrap_err();
    assert!(matches!(e, ParamError::UnsupportedAttrShape));
    assert_eq!(
        e.message(),
        "name-values are not supported. Use #[default] or #[default(CONST_VALUE)] instead."
    );
}

#[test]
fn empty_annotation_list_is_rejected() {
    let r = FunctionParam::from_pat_type(desc(
        "a",
        "i32",
        vec![attr("default", AttrShape::List(vec![]))],
    ));
    let e = r.unwrap_err();
    assert!(matches!(e, ParamError::EmptyAttrList));
    assert_eq!(e.message(), "expected at least 1 item in metalist");
}

#[test]
fn second_receiver_is_rejected() {
    let r = FunctionParams::from_punctuated(vec![
        ArgDescriptor::Receiver(recv(false, true)),
        ArgDescriptor::Receiver(recv(true, true)),
    ]);
    assert!(matches!(r.unwrap_err(), ParamError::MultipleReceivers));
}

#[test]
fn invalid_ordering_is_rejected_naming_the_offender() {
    let params = FunctionParams::from_punctuated(vec![
        ArgDescriptor::Typed(desc("a", "i32", vec![])),
        ArgDescriptor::Typed(desc("b", "u8", vec![attr("default", AttrShape::Path)])),
        ArgDescriptor::Typed(desc("c", "usize", vec![])),
    ])
    .unwrap();
    assert!(!params.is_valid_sequence());
    match params.permute_params_checked() {
        Err(ParamError::InvalidDefaultOrdering(pat)) => assert_eq!(pat, "c"),
        _ => panic!("expected an ordering error"),
    }
}

#[test]
fn valid_ordering_is_accepted() {
    let params = FunctionParams::from_punctuated(vec![
        ArgDescriptor::Typed(desc("a", "i32", vec![])),
        ArgDescriptor::Typed(desc("b", "u8", vec![attr("default", AttrShape::Path)])),
    ])
    .unwrap();
    assert!(params.is_valid_sequence());
    let shapes = params.permute_params_checked().unwrap();
    // (0! + 1!) * 2
    assert_eq!(shapes.len(), 4);
}

#[test]
fn round_trip_strips_attributes() {
    let params = FunctionParams::from_punctuated(vec![
        ArgDescriptor::Receiver(recv(true, true)),
        ArgDescriptor::Typed(desc("a", "i32", vec![])),
        ArgDescriptor::Typed(desc(
            "b",
            "u8",
            vec![attr("default", AttrShape::List(vec!["1".to_string()]))],
        )),
    ])
    .unwrap();
    let rebuilt = params.to_punctuated();
    assert_eq!(rebuilt.len(), 3);
    match &rebuilt[0] {
        ArgDescriptor::Receiver(rd) => {
            assert!(rd.mutable && rd.reference);
        }
        _ => panic!("receiver must come first"),
    }
    match &rebuilt[1] {
        ArgDescriptor::Typed(td) => {
            assert_eq!(td.pat, "a");
            assert_eq!(td.ty, "i32");
            assert!(td.attrs.is_empty());
        }
        _ => panic!("expected a typed argument"),
    }
    match &rebuilt[2] {
        ArgDescriptor::Typed(td) => {
            assert_eq!(td.pat, "b");
            assert_eq!(td.ty, "u8");
            assert!(td.attrs.is_empty());
        }
        _ => panic!("expected a typed argument"),
    }
}

#[test]
fn receiver_forms_are_kept() {
    let params = FunctionParams::from_punctuated(vec![
        ArgDescriptor::Receiver(recv(false, false)),
        ArgDescriptor::Typed(desc("x", "i32", vec![])),
    ])
    .unwrap();
    match &params.receiver {
        FnReceiver::Slf(rd) => {
            assert!(!rd.mutable && !rd.reference);
        }
        FnReceiver::Absent => panic!("receiver lost"),
    }
    assert_eq!(params.params.len(), 1);
}

#[test]
fn parameters_are_equal_on_pattern_text_alone() {
    let p1 = FunctionParam::from_pat_type(desc("a", "i32", vec![])).unwrap();
    let p2 = FunctionParam::from_pat_type(desc("a", "u8", vec![attr("default", AttrShape::Path)]))
        .unwrap();
    let p3 = FunctionParam::from_pat_type(desc("b", "i32", vec![])).unwrap();
    assert!(p1 == p2);
    assert!(p1 != p3);
}
