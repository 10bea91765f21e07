use defamed::params::{
    ArgAttr, ArgDescriptor, AttrShape, FnReceiver, FunctionParams, PatTypeDesc, PermutedParam,
    ReceiverDesc,
};
use defamed::render::render;

fn typed_arg(pat: &str, ty: &str) -> ArgDescriptor {
    ArgDescriptor::Typed(PatTypeDesc {
        pat: pat.to_string(),
        ty: ty.to_string(),
        attrs: Vec::new(),
    })
}

fn defaulted_arg(pat: &str, ty: &str, shape: AttrShape) -> ArgDescriptor {
    ArgDescriptor::Typed(PatTypeDesc {
        pat: pat.to_string(),
        ty: ty.to_string(),
        attrs: vec![ArgAttr { name: "default".to_string(), shape }],
    })
}

#[test]
fn slot_fragments_are_exact() {
    let params = FunctionParams::from_punctuated(vec![
        typed_arg("a", "i32"),
        defaulted_arg("e", "i32", AttrShape::Path),
        defaulted_arg("f", "u8", AttrShape::List(vec!["1".to_string()])),
    ])
    .unwrap();
    let a = &params.params[0];
    let e = &params.params[1];
    let f = &params.params[2];

    let positional = PermutedParam::Positional(a.clone());
    assert_eq!(positional.to_macro_pattern().unwrap(), "$a_val: expr");
    assert_eq!(positional.to_func_call_pattern(), "$a_val");

    let named = PermutedParam::Named(a.clone());
    assert_eq!(named.to_macro_pattern().unwrap(), "a = $a_val: expr");
    assert_eq!(named.to_func_call_pattern(), "$a_val");

    let used = PermutedParam::DefaultUsed(e.clone());
    assert_eq!(used.to_macro_pattern().unwrap(), "e = $e_val: expr");
    assert_eq!(used.to_func_call_pattern(), "$e_val");

    let unused_zero = PermutedParam::DefaultUnused(e.clone());
    assert!(unused_zero.to_macro_pattern().is_none());
    assert_eq!(
        unused_zero.to_func_call_pattern(),
        "std::default::Default::default()"
    );

    let unused_expr = PermutedParam::DefaultUnused(f.clone());
    assert!(unused_expr.to_macro_pattern().is_none());
    assert_eq!(unused_expr.to_func_call_pattern(), "1");
}

#[test]
fn every_generated_shape_renders() {
    let params = FunctionParams::from_punctuated(vec![
        typed_arg("a", "i32"),
        typed_arg("b", "u8"),
        defaulted_arg("e", "i32", AttrShape::Path),
        defaulted_arg("f", "u8", AttrShape::List(vec!["1".to_string()])),
    ])
    .unwrap();
    let shapes = params.permute_params();
    assert_eq!(shapes.len(), 4 * 5);
    for shape in &shapes {
        let (pattern, call) = render(&params.receiver, shape);
        // the call expression references every slot: three commas join four fragments
        assert_eq!(call.matches(", ").count(), 3);
        // the pattern mentions exactly the slots that are not omitted defaults
        let omitted = shape
            .iter()
            .filter(|s| matches!(s, PermutedParam::DefaultUnused(_)))
            .count();
        for slot in shape {
            match slot {
                PermutedParam::DefaultUnused(p) => {
                    assert!(!pattern.contains(&format!("{}_val", p.pat)));
                }
                _ => {
                    let inner = slot.param();
                    assert!(pattern.contains(&format!("${}_val", inner.pat)));
                }
            }
        }
        if omitted == 4 {
            assert_eq!(pattern, "");
        }
    }
}

#[test]
fn all_omitted_shape_renders_empty_pattern() {
    let params = FunctionParams::from_punctuated(vec![
        defaulted_arg("a", "i32", AttrShape::Path),
        defaulted_arg("c", "u8", AttrShape::List(vec!["1".to_string()])),
    ])
    .unwrap();
    let shapes = params.permute_params();
    assert_eq!(shapes.len(), 5);
    let mut empty_patterns = 0;
    for shape in &shapes {
        let (pattern, call) = render(&params.receiver, shape);
        if pattern.is_empty() {
            empty_patterns += 1;
            // both defaults are inlined
            assert_eq!(call, "std::default::Default::default(), 1");
        }
    }
    assert_eq!(empty_patterns, 1);
}

#[test]
fn receiver_is_prepended_to_calls_and_absent_from_patterns() {
    let receiver = ArgDescriptor::Receiver(ReceiverDesc {
        ty: "Self".to_string(),
        mutable: true,
        reference: true,
        lifetime: None,
        colon: false,
    });
    let params =
        FunctionParams::from_punctuated(vec![receiver, typed_arg("x", "i32")]).unwrap();
    assert!(matches!(params.receiver, FnReceiver::Slf(_)));
    let shapes = params.permute_params();
    // one positional and one named shape
    assert_eq!(shapes.len(), 2);
    for shape in &shapes {
        let (pattern, call) = render(&params.receiver, shape);
        assert!(!pattern.contains("self"));
        assert!(call.starts_with("&mut self, "));
        assert!(call.ends_with("$x_val"));
    }
}

#[test]
fn lifetime_and_value_receivers_render_verbatim() {
    let shapes: Vec<PermutedParam> = Vec::new();
    let (pattern, call) = render(
        &FnReceiver::Slf(ReceiverDesc {
            ty: "Self".to_string(),
            mutable: false,
            reference: true,
            lifetime: Some("'a".to_string()),
            colon: false,
        }),
        &shapes,
    );
    assert_eq!(pattern, "");
    assert_eq!(call, "&'a self");

    let (_, call) = render(
        &FnReceiver::Slf(ReceiverDesc {
            ty: "Self".to_string(),
            mutable: true,
            reference: false,
            lifetime: None,
            colon: false,
        }),
        &shapes,
    );
    assert_eq!(call, "mut self");

    let (_, call) = render(
        &FnReceiver::Slf(ReceiverDesc {
            ty: "Pin<&mut Self>".to_string(),
            mutable: false,
            reference: false,
            lifetime: None,
            colon: true,
        }),
        &shapes,
    );
    assert_eq!(call, "self: Pin<&mut Self>");
}
