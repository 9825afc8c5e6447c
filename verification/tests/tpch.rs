use spiceai::tpch::{add_tpch_parameters, tpch_parameters_for, ParameterValue, Query};

fn q(name: &str) -> Query {
    Query { name: name.to_string(), sql: format!("-- {name}"), parameters: None }
}

#[test]
fn tpch_parameters_fill_known_queries() {
    let out = add_tpch_parameters(vec![q("q1"), q("q6"), q("q15"), q("custom")]);
    assert_eq!(out.len(), 4);
    assert_eq!(out[0].parameters, Some(vec![ParameterValue::String("1998-09-02".to_string())]));
    assert_eq!(
        out[1].parameters,
        Some(vec![
            ParameterValue::Decimal { mantissa: 6, scale: 2 },
            ParameterValue::Decimal { mantissa: 1, scale: 2 },
            ParameterValue::Decimal { mantissa: 6, scale: 2 },
            ParameterValue::Decimal { mantissa: 1, scale: 2 },
            ParameterValue::Number(24),
        ])
    );
    assert_eq!(out[2].parameters, None);
    assert_eq!(out[3], q("custom"));
    assert_eq!(out[1].sql, "-- q6");
}

#[test]
fn tpch_parameter_counts() {
    let counts = [
        ("q1", 1), ("q2", 4), ("q3", 3), ("q4", 3), ("q5", 1), ("q6", 5), ("q7", 6), ("q8", 5),
        ("q9", 1), ("q10", 3), ("q11", 2), ("q12", 8), ("q13", 1), ("q14", 6), ("q16", 11),
        ("q17", 4), ("q18", 1), ("q19", 39), ("q20", 5), ("q21", 2), ("q22", 15),
    ];
    for (name, n) in counts {
        assert_eq!(tpch_parameters_for(name).unwrap().len(), n, "{name}");
    }
    assert!(tpch_parameters_for("q15").is_none());
    assert_eq!(tpch_parameters_for("q17").unwrap()[0], ParameterValue::Decimal { mantissa: 70, scale: 1 });
}

#[test]
fn tpch_keeps_existing_parameters_of_unknown_queries() {
    let mut custom = q("other");
    custom.parameters = Some(vec![ParameterValue::Number(7)]);
    let out = add_tpch_parameters(vec![custom.clone()]);
    assert_eq!(out, vec![custom]);
}
