use defamed::params::{
    ArgAttr, ArgDescriptor, AttrShape, FunctionParams, PatTypeDesc, PermutedParam,
};

fn typed(pat: &str, ty: &str) -> ArgDescriptor {
    ArgDescriptor::Typed(PatTypeDesc {
        pat: pat.to_string(),
        ty: ty.to_string(),
        attrs: Vec::new(),
    })
}

fn typed_default(pat: &str, ty: &str) -> ArgDescriptor {
    ArgDescriptor::Typed(PatTypeDesc {
        pat: pat.to_string(),
        ty: ty.to_string(),
        attrs: vec![ArgAttr { name: "default".to_string(), shape: AttrShape::Path }],
    })
}

fn typed_default_expr(pat: &str, ty: &str, expr: &str) -> ArgDescriptor {
    ArgDescriptor::Typed(PatTypeDesc {
        pat: pat.to_string(),
        ty: ty.to_string(),
        attrs: vec![ArgAttr {
            name: "default".to_string(),
            shape: AttrShape::List(vec![expr.to_string()]),
        }],
    })
}

fn slot_is(slot: &PermutedParam, tag: &str, pat: &str) -> bool {
    match slot {
        PermutedParam::Positional(p) => tag == "positional" && p.pat == pat,
        PermutedParam::Named(p) => tag == "named" && p.pat == pat,
        PermutedParam::DefaultUsed(p) => tag == "used" && p.pat == pat,
        PermutedParam::DefaultUnused(p) => tag == "unused" && p.pat == pat,
    }
}

fn shape_is(shape: &[PermutedParam], expected: &[(&str, &str)]) -> bool {
    shape.len() == expected.len()
        && shape.iter().zip(expected.iter()).all(|(s, (tag, pat))| slot_is(s, tag, pat))
}

#[test]
fn test_permute_named() {
    let tokens = vec![
        typed("a", "i32"),
        typed("b", "u8"),
        typed("c", "usize"),
        typed("d", "i64"),
    ];

    let params = FunctionParams::from_punctuated(tokens).unwrap();

    let permutations = FunctionParams::permute_named(&params.params);

    println!("{:#?}", permutations);

    // 0 0
    // 0 1
    // 1 0
    // 1 1
    assert_eq!(permutations.len(), 24);
}

#[test]
fn test_permute_defaults() {
    let tokens = vec![typed_default("a", "i32"), typed_default_expr("c", "u8", "1")];

    let params = FunctionParams::from_punctuated(tokens).unwrap();

    let permutations = FunctionParams::permute_default(&params.params);

    println!("{:#?}", permutations);

    // 0 0
    // 0 1
    // 1 0
    // 1 1
    // 1 1 again because used defaults have to be permuted
    assert_eq!(permutations.len(), 5);

    // empty case
    let permutations = FunctionParams::permute_default(&Vec::new());
    println!("{:?}", permutations);
    assert_eq!(permutations.len(), 0);
}

/// Full permutation test with positional and named parameters
#[test]
fn test_permute_all_positional_named() {
    let tokens = vec![
        typed("a", "i32"),
        typed("b", "u8"),
        typed("c", "usize"),
        typed("d", "i64"),
    ];

    let params = FunctionParams::from_punctuated(tokens).unwrap();

    let permutations = params.permute_params();

    println!("{:?}", permutations);

    // 34
    assert_eq!(permutations.len(), 34);
}

#[test]
fn test_all_positional_full() {
    let tokens = vec![
        // 34 permutations for positional and named
        typed("a", "i32"),
        typed("b", "u8"),
        typed("c", "usize"),
        typed("d", "i64"),
        // 5 permutations for default parameters
        typed_default("e", "i32"),
        typed_default_expr("f", "u8", "1"),
    ];

    let params = FunctionParams::from_punctuated(tokens).unwrap();

    let permutations = params.permute_params();

    println!("{:#?}", permutations[0]);

    // 34
    assert_eq!(permutations.len(), 34 * 5);
}

#[test]
fn required_tail_counts_by_length() {
    // 0!; 0!+1!; 0!+1!+2!; 0!+1!+2!+3!
    let expected: [usize; 4] = [1, 2, 4, 10];
    let names = ["a", "b", "c"];
    for k in 0..4 {
        let tokens: Vec<_> = names.iter().take(k).map(|n| typed(n, "i32")).collect();
        let params = FunctionParams::from_punctuated(tokens).unwrap();
        assert_eq!(params.permute_params().len(), expected[k]);
    }
}

#[test]
fn default_tail_counts_by_length() {
    // the all-omitted selection is retained, so m = 1 reports 2
    let expected: [usize; 4] = [0, 2, 5, 16];
    let names = ["a", "b", "c"];
    for m in 0..4 {
        let tokens: Vec<_> = names.iter().take(m).map(|n| typed_default(n, "i32")).collect();
        let params = FunctionParams::from_punctuated(tokens).unwrap();
        assert_eq!(FunctionParams::permute_default(&params.params).len(), expected[m]);
    }
}

#[test]
fn product_of_required_and_default_counts() {
    let tokens = vec![
        typed("a", "i32"),
        typed("b", "u8"),
        typed_default("e", "i32"),
        typed_default_expr("f", "u8", "1"),
    ];
    let params = FunctionParams::from_punctuated(tokens).unwrap();
    // (0! + 1! + 2!) * 5
    assert_eq!(params.permute_params().len(), 4 * 5);
}

#[test]
fn sample_shape_two_positional_two_named() {
    let tokens = vec![
        typed("a", "i32"),
        typed("b", "u8"),
        typed("c", "usize"),
        typed("d", "i64"),
    ];
    let params = FunctionParams::from_punctuated(tokens).unwrap();
    let shapes = params.permute_params();
    let expected = [
        ("positional", "a"),
        ("positional", "b"),
        ("named", "d"),
        ("named", "c"),
    ];
    assert!(shapes.iter().any(|s| shape_is(s, &expected)));
}

#[test]
fn sample_default_shapes() {
    let tokens = vec![typed_default("a", "i32"), typed_default_expr("c", "u8", "1")];
    let params = FunctionParams::from_punctuated(tokens).unwrap();
    let shapes = FunctionParams::permute_default(&params.params);
    assert_eq!(shapes.len(), 5);
    assert!(shapes.iter().any(|s| shape_is(s, &[("used", "c"), ("unused", "a")])));
    assert!(shapes.iter().any(|s| shape_is(s, &[("used", "a"), ("used", "c")])));
    // the all-omitted shape is present in the count of 5
    assert!(shapes.iter().any(|s| shape_is(s, &[("unused", "a"), ("unused", "c")])));
}

#[test]
fn positional_slots_precede_all_others() {
    let tokens = vec![
        typed("a", "i32"),
        typed("b", "u8"),
        typed("c", "usize"),
        typed_default("e", "i32"),
    ];
    let params = FunctionParams::from_punctuated(tokens).unwrap();
    for shape in params.permute_params() {
        let mut seen_non_positional = false;
        for slot in &shape {
            match slot {
                PermutedParam::Positional(_) => assert!(!seen_non_positional),
                _ => seen_non_positional = true,
            }
        }
    }
}

#[test]
fn every_parameter_exactly_once_in_each_shape() {
    let tokens = vec![
        typed("a", "i32"),
        typed("b", "u8"),
        typed_default("e", "i32"),
        typed_default_expr("f", "u8", "1"),
    ];
    let params = FunctionParams::from_punctuated(tokens).unwrap();
    for shape in params.permute_params() {
        assert_eq!(shape.len(), 4);
        for name in ["a", "b", "e", "f"] {
            let count = shape
                .iter()
                .filter(|s| s.param().pat == name)
                .count();
            assert_eq!(count, 1);
        }
        // defaulted parameters are tagged used or unused, required ones never are
        for slot in &shape {
            match slot {
                PermutedParam::DefaultUsed(p) | PermutedParam::DefaultUnused(p) => {
                    assert!(p.pat == "e" || p.pat == "f");
                }
                PermutedParam::Positional(p) | PermutedParam::Named(p) => {
                    assert!(p.pat == "a" || p.pat == "b");
                }
            }
        }
    }
}
