use spiceai::udf_override::{override_spice_udf_in_exprs, Expr, SpiceUDFsOverride, UdfOverrideError};

fn call(name: &str, args: Vec<Expr>) -> Expr {
    Expr::ScalarFunction { name: name.to_string(), args }
}

fn leaf(kind: &str) -> Expr {
    Expr::Other { kind: kind.to_string(), children: vec![] }
}

fn shown(v: &[Expr]) -> String {
    format!("{v:?}")
}

fn query() -> Vec<Expr> {
    vec![
        leaf("column id"),
        Expr::Other {
            kind: "alias distance".to_string(),
            children: vec![call(
                "cosine_distance",
                vec![leaf("column embedding"), call("MAKE_ARRAY", vec![leaf("1.0"), leaf("2.0")])],
            )],
        },
        call("make_array", vec![leaf("3.0")]),
    ]
}

#[test]
fn duckdb_rewrites_cosine_distance() {
    let (out, modified) = override_spice_udf_in_exprs(&query(), Some(true)).expect("rewrites");
    assert!(modified);
    let expected = vec![
        leaf("column id"),
        Expr::Other {
            kind: "alias distance".to_string(),
            children: vec![call(
                "array_cosine_distance",
                vec![leaf("column embedding"), call("array_value", vec![leaf("1.0"), leaf("2.0")])],
            )],
        },
        call("make_array", vec![leaf("3.0")]),
    ];
    assert_eq!(shown(&out), shown(&expected));
}

#[test]
fn other_engines_keep_expressions() {
    let (out, modified) = override_spice_udf_in_exprs(&query(), Some(false)).expect("no rewrite");
    assert!(!modified);
    assert_eq!(shown(&out), shown(&query()));
}

#[test]
fn unknown_dialect_fails_only_on_cosine_distance() {
    assert_eq!(
        override_spice_udf_in_exprs(&query(), None).unwrap_err(),
        UdfOverrideError::UnknownDialect
    );
    let plain = vec![call("make_array", vec![leaf("1")])];
    let (out, modified) = override_spice_udf_in_exprs(&plain, None).expect("nothing to rewrite");
    assert!(!modified);
    assert_eq!(shown(&out), shown(&plain));
}

#[test]
fn rewriting_twice_changes_nothing_more() {
    let (once, _) = override_spice_udf_in_exprs(&query(), Some(true)).expect("rewrites");
    let (twice, modified) = override_spice_udf_in_exprs(&once, Some(true)).expect("rewrites");
    assert!(!modified);
    assert_eq!(shown(&twice), shown(&once));
}

#[test]
fn nested_calls_are_rewritten_inside_out() {
    let nested = vec![call(
        "cosine_distance",
        vec![call("cosine_distance", vec![call("Make_Array", vec![]), leaf("x")]), leaf("y")],
    )];
    let (out, modified) = override_spice_udf_in_exprs(&nested, Some(true)).expect("rewrites");
    assert!(modified);
    let expected = vec![call(
        "array_cosine_distance",
        vec![call("array_cosine_distance", vec![call("array_value", vec![]), leaf("x")]), leaf("y")],
    )];
    assert_eq!(shown(&out), shown(&expected));
}

#[test]
fn rule_name() {
    assert_eq!(SpiceUDFsOverride::new().name(), "spiceai_udf_override_rule");
}
