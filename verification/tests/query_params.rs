use spiceai::query_params::{convert_json_to_param_values, JsonParams, JsonScalar, ParamValues, ScalarValue};

fn integer(i: i64) -> JsonScalar {
    JsonScalar::Number { as_i64: Some(i), as_f64_bits: Some((i as f64).to_bits()) }
}

fn float(f: f64) -> JsonScalar {
    JsonScalar::Number { as_i64: None, as_f64_bits: Some(f.to_bits()) }
}

fn text(s: &str) -> JsonScalar {
    JsonScalar::String(s.to_string())
}

fn obj(pairs: Vec<(&str, JsonScalar)>) -> JsonParams {
    JsonParams::Object(pairs.into_iter().map(|(k, v)| (k.to_string(), v)).collect())
}

fn named(pairs: Vec<(&str, ScalarValue)>) -> ParamValues {
    ParamValues::Named(pairs.into_iter().map(|(k, v)| (k.to_string(), v)).collect())
}

#[test]
fn test_json_array() {
    let json = JsonParams::Array(vec![integer(1), text("hello"), JsonScalar::Bool(true), JsonScalar::Null]);
    let got = convert_json_to_param_values(json).unwrap();
    let want = ParamValues::List(vec![
        ScalarValue::Int64(Some(1)),
        ScalarValue::Utf8(Some("hello".to_string())),
        ScalarValue::Boolean(Some(true)),
        ScalarValue::Utf8(None),
    ]);
    assert_eq!(got, want);
}

#[test]
fn test_json_object() {
    let json = obj(vec![("x", integer(42)), ("y", text("world")), ("z", JsonScalar::Bool(false))]);
    let got = convert_json_to_param_values(json).unwrap();
    let want = named(vec![
        ("x", ScalarValue::Int64(Some(42))),
        ("y", ScalarValue::Utf8(Some("world".to_string()))),
        ("z", ScalarValue::Boolean(Some(false))),
    ]);
    assert_eq!(got, want);
}

#[test]
fn test_invalid_top_level() {
    let result = convert_json_to_param_values(JsonParams::Other);
    assert!(result.is_err());
}

#[test]
fn test_array_with_nested_array() {
    let json = JsonParams::Array(vec![integer(1), JsonScalar::Array]);
    let result = convert_json_to_param_values(json);
    assert!(result.is_err());
}

#[test]
fn test_object_with_nested_object() {
    let json = obj(vec![("a", integer(1)), ("b", JsonScalar::Object)]);
    let result = convert_json_to_param_values(json);
    assert!(result.is_err());
}

#[test]
fn test_empty_array() {
    let result = convert_json_to_param_values(JsonParams::Array(vec![])).unwrap();
    assert_eq!(result, ParamValues::List(vec![]));
}

#[test]
fn test_empty_object() {
    let result = convert_json_to_param_values(JsonParams::Object(vec![])).unwrap();
    assert_eq!(result, ParamValues::Named(vec![]));
}

#[test]
fn test_array_with_nulls() {
    let result = convert_json_to_param_values(JsonParams::Array(vec![JsonScalar::Null, JsonScalar::Null])).unwrap();
    assert_eq!(result, ParamValues::List(vec![ScalarValue::Utf8(None), ScalarValue::Utf8(None)]));
}

#[test]
fn test_object_with_nulls() {
    let result = convert_json_to_param_values(obj(vec![("a", JsonScalar::Null), ("b", JsonScalar::Null)])).unwrap();
    assert_eq!(result, named(vec![("a", ScalarValue::Utf8(None)), ("b", ScalarValue::Utf8(None))]));
}

#[test]
fn test_array_with_floats() {
    let result = convert_json_to_param_values(JsonParams::Array(vec![float(1.5), float(2.0)])).unwrap();
    assert_eq!(
        result,
        ParamValues::List(vec![
            ScalarValue::Float64Bits(Some(1.5f64.to_bits())),
            ScalarValue::Float64Bits(Some(2.0f64.to_bits())),
        ])
    );
}

#[test]
fn test_object_with_floats() {
    let result = convert_json_to_param_values(obj(vec![("pi", float(3.14)), ("e", float(2.718))])).unwrap();
    assert_eq!(
        result,
        named(vec![
            ("pi", ScalarValue::Float64Bits(Some(3.14f64.to_bits()))),
            ("e", ScalarValue::Float64Bits(Some(2.718f64.to_bits()))),
        ])
    );
}

#[test]
fn test_array_with_strings_and_bools() {
    let json = JsonParams::Array(vec![text("test"), JsonScalar::Bool(true), JsonScalar::Bool(false)]);
    let result = convert_json_to_param_values(json).unwrap();
    assert_eq!(
        result,
        ParamValues::List(vec![
            ScalarValue::Utf8(Some("test".to_string())),
            ScalarValue::Boolean(Some(true)),
            ScalarValue::Boolean(Some(false)),
        ])
    );
}

#[test]
fn test_object_with_strings_and_bools() {
    let json = obj(vec![("name", text("Alice")), ("is_active", JsonScalar::Bool(true))]);
    let result = convert_json_to_param_values(json).unwrap();
    assert_eq!(
        result,
        named(vec![
            ("name", ScalarValue::Utf8(Some("Alice".to_string()))),
            ("is_active", ScalarValue::Boolean(Some(true))),
        ])
    );
}

#[test]
fn test_error_with_specific_index() {
    let json = JsonParams::Array(vec![integer(1), text("two"), JsonScalar::Array]);
    let result = convert_json_to_param_values(json);
    assert!(result.is_err());
}

#[test]
fn test_error_with_specific_key() {
    let json = obj(vec![("a", integer(1)), ("b", text("two")), ("c", JsonScalar::Object)]);
    let result = convert_json_to_param_values(json);
    assert!(result.is_err());
}

#[test]
fn error_messages_name_the_failing_element() {
    let r = convert_json_to_param_values(JsonParams::Array(vec![integer(1), text("two"), JsonScalar::Array]));
    assert_eq!(
        r,
        Err("failed to convert array element at index 2: Nested arrays or objects are not supported as parameter values".to_string())
    );
    let r = convert_json_to_param_values(obj(vec![("a", integer(1)), ("c", JsonScalar::Object)]));
    assert_eq!(
        r,
        Err("failed to convert value for key 'c': Nested arrays or objects are not supported as parameter values".to_string())
    );
    let r = convert_json_to_param_values(JsonParams::Array(vec![JsonScalar::Number { as_i64: None, as_f64_bits: None }]));
    assert_eq!(r, Err("failed to convert array element at index 0: Unsupported JSON number format".to_string()));
    assert_eq!(
        convert_json_to_param_values(JsonParams::Other),
        Err("params must be a JSON array or object".to_string())
    );
}
