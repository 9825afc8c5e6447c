//! Parameters of prepared SQL statements, read from JSON.

use vstd::prelude::*;
use vstd::string::StringExecFns;
use crate::text::{decimal, decimal_string};

verus! {

broadcast use vstd::string::group_string_axioms;

/// A JSON value inside a parameter list. A number carries what it reads as
/// (an `i64` if it is one, else the bits of its `f64` if it has one); a
/// nested array or object carries nothing, as it is never a parameter.
#[derive(Debug, Clone, PartialEq)]
pub enum JsonScalar {
    Null,
    Bool(bool),
    Number { as_i64: Option<i64>, as_f64_bits: Option<u64> },
    String(String),
    Array,
    Object,
}

/// The parameters of a prepared statement as JSON: an array (positional),
/// an object (named), or any other value.
#[derive(Debug, Clone, PartialEq)]
pub enum JsonParams {
    Array(Vec<JsonScalar>),
    Object(Vec<(String, JsonScalar)>),
    Other,
}

/// A typed parameter value. A float carries the bits of its `f64`.
#[derive(Debug, Clone, PartialEq)]
pub enum ScalarValue {
    Utf8(Option<String>),
    Boolean(Option<bool>),
    Int64(Option<i64>),
    Float64Bits(Option<u64>),
}

/// Positional or named parameter values.
#[derive(Debug, Clone, PartialEq)]
pub enum ParamValues {
    List(Vec<ScalarValue>),
    Named(Vec<(String, ScalarValue)>),
}

/// The abstract content of a scalar value.
pub enum ScalarModel {
    Utf8(Option<Seq<char>>),
    Boolean(Option<bool>),
    Int64(Option<i64>),
    Float64Bits(Option<u64>),
}

/// The abstract content of a scalar value.
pub open spec fn scalar_view(v: ScalarValue) -> ScalarModel {
    match v {
        ScalarValue::Utf8(s) => ScalarModel::Utf8(
            match s {
                Some(t) => Some(t@),
                None => None,
            },
        ),
        ScalarValue::Boolean(b) => ScalarModel::Boolean(b),
        ScalarValue::Int64(i) => ScalarModel::Int64(i),
        ScalarValue::Float64Bits(f) => ScalarModel::Float64Bits(f),
    }
}

/// The message of an unsupported number.
pub open spec fn unsupported_number_msg() -> Seq<char> {
    "Unsupported JSON number format"@
}

/// The message of a nested array or object.
pub open spec fn nested_msg() -> Seq<char> {
    "Nested arrays or objects are not supported as parameter values"@
}

/// The parameter value of a JSON value: null is an absent string; a number
/// is an integer when it reads as one, else a float; nested arrays and
/// objects are refused.
pub open spec fn json_scalar(j: JsonScalar) -> Result<ScalarModel, Seq<char>> {
    match j {
        JsonScalar::Null => Ok(ScalarModel::Utf8(None)),
        JsonScalar::Bool(b) => Ok(ScalarModel::Boolean(Some(b))),
        JsonScalar::Number { as_i64, as_f64_bits } => match as_i64 {
            Some(i) => Ok(ScalarModel::Int64(Some(i))),
            None => match as_f64_bits {
                Some(f) => Ok(ScalarModel::Float64Bits(Some(f))),
                None => Err(unsupported_number_msg()),
            },
        },
        JsonScalar::String(s) => Ok(ScalarModel::Utf8(Some(s@))),
        JsonScalar::Array | JsonScalar::Object => Err(nested_msg()),
    }
}

/// Converts one JSON value to a parameter value.
pub fn json_to_scalar(json: &JsonScalar) -> (res: Result<ScalarValue, String>)
    ensures
        match json_scalar(*json) {
            Ok(m) => res matches Ok(v) && scalar_view(v) == m,
            Err(e) => res matches Err(msg) && msg@ == e,
        },
{
    match json {
        JsonScalar::Null => Ok(ScalarValue::Utf8(None)),
        JsonScalar::Bool(b) => Ok(ScalarValue::Boolean(Some(*b))),
        JsonScalar::Number { as_i64, as_f64_bits } => match as_i64 {
            Some(i) => Ok(ScalarValue::Int64(Some(*i))),
            None => match as_f64_bits {
                Some(f) => Ok(ScalarValue::Float64Bits(Some(*f))),
                None => Err(String::from_str("Unsupported JSON number format")),
            },
        },
        JsonScalar::String(s) => Ok(ScalarValue::Utf8(Some(s.clone()))),
        JsonScalar::Array | JsonScalar::Object => Err(
            String::from_str("Nested arrays or objects are not supported as parameter values"),
        ),
    }
}

/// Index of the first element that does not convert, or -1.
pub open spec fn first_bad(v: Seq<JsonScalar>) -> int
    decreases v.len(),
{
    if v.len() == 0 {
        -1
    } else if first_bad(v.drop_last()) >= 0 {
        first_bad(v.drop_last())
    } else if json_scalar(v.last()) is Err {
        v.len() - 1
    } else {
        -1
    }
}

proof fn lemma_first_bad(v: Seq<JsonScalar>)
    ensures
        -1 <= first_bad(v) < v.len(),
        first_bad(v) >= 0 ==> json_scalar(v[first_bad(v)]) is Err,
        forall|j: int|
            0 <= j < v.len() && (first_bad(v) < 0 || j < first_bad(v)) ==> json_scalar(
                #[trigger] v[j],
            ) is Ok,
    decreases v.len(),
{
    if v.len() > 0 {
        lemma_first_bad(v.drop_last());
        assert forall|j: int|
            0 <= j < v.len() && (first_bad(v) < 0 || j < first_bad(v)) implies json_scalar(
            #[trigger] v[j],
        ) is Ok by {
            if j < v.len() - 1 {
                assert(v.drop_last()[j] == v[j]);
            }
        }
    }
}

/// The parameter values of the positional parameters, when all convert.
pub open spec fn list_values(v: Seq<JsonScalar>) -> Seq<ScalarModel> {
    Seq::new(v.len(), |i: int| json_scalar(v[i])->Ok_0)
}

/// The outcome of converting a parameter list: the values, or the message
/// of the first element that fails.
pub open spec fn param_values(j: JsonParams) -> Result<ParamModel, Seq<char>> {
    match j {
        JsonParams::Array(v) => {
            let i = first_bad(v@);
            if i >= 0 {
                Err("failed to convert array element at index "@ + decimal(i as nat) + ": "@
                    + json_scalar(v@[i])->Err_0)
            } else {
                Ok(ParamModel::List(list_values(v@)))
            }
        },
        JsonParams::Object(kv) => {
            let vals = kv@.map_values(|p: (String, JsonScalar)| p.1);
            let i = first_bad(vals);
            if i >= 0 {
                Err("failed to convert value for key '"@ + kv@[i].0@ + "': "@ + json_scalar(
                    vals[i],
                )->Err_0)
            } else {
                Ok(
                    ParamModel::Named(
                        Seq::new(kv@.len(), |k: int| (kv@[k].0@, json_scalar(vals[k])->Ok_0)),
                    ),
                )
            }
        },
        JsonParams::Other => Err("params must be a JSON array or object"@),
    }
}

/// The abstract content of parameter values.
pub enum ParamModel {
    List(Seq<ScalarModel>),
    Named(Seq<(Seq<char>, ScalarModel)>),
}

/// The abstract content of parameter values.
pub open spec fn param_values_view(p: ParamValues) -> ParamModel {
    match p {
        ParamValues::List(v) => ParamModel::List(v@.map_values(|s: ScalarValue| scalar_view(s))),
        ParamValues::Named(m) => ParamModel::Named(
            m@.map_values(|p: (String, ScalarValue)| (p.0@, scalar_view(p.1))),
        ),
    }
}

/// Converts JSON parameters: an array to positional values, an object to
/// named values (in the object's order); anything else, or an element that
/// does not convert, is an error that says where.
#[verifier::loop_isolation(false)]
pub fn convert_json_to_param_values(json: JsonParams) -> (res: Result<ParamValues, String>)
    ensures
        match param_values(json) {
            Ok(m) => res matches Ok(v) && param_values_view(v) == m,
            Err(e) => res matches Err(msg) && msg@ == e,
        },
{
    match json {
        JsonParams::Array(arr) => {
            proof {
                lemma_first_bad(arr@);
            }
            let mut vals: Vec<ScalarValue> = Vec::new();
            let mut i: usize = 0;
            while i < arr.len()
                invariant
                    i <= arr.len(),
                    -1 <= first_bad(arr@) < arr@.len(),
                    first_bad(arr@) >= 0 ==> json_scalar(arr@[first_bad(arr@)]) is Err,
                    forall|j: int|
                        0 <= j < arr@.len() && (first_bad(arr@) < 0 || j < first_bad(arr@))
                            ==> json_scalar(#[trigger] arr@[j]) is Ok,
                    forall|j: int| 0 <= j < i ==> json_scalar(#[trigger] arr@[j]) is Ok,
                    vals@.len() == i,
                    forall|j: int|
                        0 <= j < i ==> scalar_view(#[trigger] vals@[j]) == json_scalar(arr@[j])->Ok_0,
                decreases arr.len() - i,
            {
                match json_to_scalar(&arr[i]) {
                    Ok(v) => {
                        vals.push(v);
                    },
                    Err(e) => {
                        assert(json_scalar(arr@[i as int]) is Err);
                        assert(e@ == json_scalar(arr@[i as int])->Err_0);
                        assert(first_bad(arr@) == i);
                        let mut msg = String::from_str("failed to convert array element at index ");
                        let idx = decimal_string(i);
                        msg.append(idx.as_str());
                        msg.append(": ");
                        msg.append(e.as_str());
                        assert(msg@ == "failed to convert array element at index "@ + decimal(
                            first_bad(arr@) as nat,
                        ) + ": "@ + json_scalar(arr@[first_bad(arr@)])->Err_0);
                        return Err(msg);
                    },
                }
                i += 1;
            }
            assert(first_bad(arr@) == -1);
            let res = ParamValues::List(vals);
            assert(vals@.map_values(|s: ScalarValue| scalar_view(s)) =~= list_values(arr@));
            Ok(res)
        },
        JsonParams::Object(obj) => {
            let ghost valsj = obj@.map_values(|p: (String, JsonScalar)| p.1);
            proof {
                lemma_first_bad(valsj);
            }
            let mut out: Vec<(String, ScalarValue)> = Vec::new();
            let mut i: usize = 0;
            while i < obj.len()
                invariant
                    i <= obj.len(),
                    valsj == obj@.map_values(|p: (String, JsonScalar)| p.1),
                    -1 <= first_bad(valsj) < valsj.len(),
                    first_bad(valsj) >= 0 ==> json_scalar(valsj[first_bad(valsj)]) is Err,
                    forall|j: int|
                        0 <= j < valsj.len() && (first_bad(valsj) < 0 || j < first_bad(valsj))
                            ==> json_scalar(#[trigger] valsj[j]) is Ok,
                    forall|j: int| 0 <= j < i ==> json_scalar(#[trigger] valsj[j]) is Ok,
                    out@.len() == i,
                    forall|j: int|
                        0 <= j < i ==> (#[trigger] out@[j]).0@ == obj@[j].0@ && scalar_view(out@[j].1)
                            == json_scalar(valsj[j])->Ok_0,
                decreases obj.len() - i,
            {
                assert(valsj[i as int] == obj@[i as int].1);
                match json_to_scalar(&obj[i].1) {
                    Ok(v) => {
                        out.push((obj[i].0.clone(), v));
                    },
                    Err(e) => {
                        assert(json_scalar(valsj[i as int]) is Err);
                        assert(e@ == json_scalar(valsj[i as int])->Err_0);
                        assert(first_bad(valsj) == i);
                        let mut msg = String::from_str("failed to convert value for key '");
                        msg.append(obj[i].0.as_str());
                        msg.append("': ");
                        msg.append(e.as_str());
                        return Err(msg);
                    },
                }
                i += 1;
            }
            assert(first_bad(valsj) == -1);
            assert(out@.map_values(|p: (String, ScalarValue)| (p.0@, scalar_view(p.1))) =~= Seq::new(
                obj@.len(),
                |k: int| (obj@[k].0@, json_scalar(valsj[k])->Ok_0),
            ));
            Ok(ParamValues::Named(out))
        },
        JsonParams::Other => Err(String::from_str("params must be a JSON array or object")),
    }
}

} // verus!
