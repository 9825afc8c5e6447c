//! Parameters of the TPC-H benchmark queries.

use vstd::prelude::*;
use vstd::string::StringExecFns;
use crate::text::str_eq;

verus! {

broadcast use vstd::string::group_string_axioms;

/// A parameter value of a prepared query. A decimal is `mantissa / 10^scale`.
#[derive(Debug, Clone, PartialEq)]
pub enum ParameterValue {
    String(String),
    Number(i64),
    Decimal { mantissa: i64, scale: u32 },
}

/// The abstract content of a parameter value.
pub enum ParamModel {
    Str(Seq<char>),
    Number(i64),
    Decimal(i64, u32),
}

/// The abstract content of a parameter value.
pub open spec fn param_view(p: ParameterValue) -> ParamModel {
    match p {
        ParameterValue::String(s) => ParamModel::Str(s@),
        ParameterValue::Number(n) => ParamModel::Number(n),
        ParameterValue::Decimal { mantissa, scale } => ParamModel::Decimal(mantissa, scale),
    }
}

/// The abstract content of a list of parameter values.
pub open spec fn params_view(v: Seq<ParameterValue>) -> Seq<ParamModel> {
    v.map_values(|p: ParameterValue| param_view(p))
}

/// A benchmark query: its name, its text, and the values of its parameters.
#[derive(Debug, Clone, PartialEq)]
pub struct Query {
    pub name: String,
    pub sql: String,
    pub parameters: Option<Vec<ParameterValue>>,
}

/// The parameter values of the TPC-H query named `name`: the values that
/// the plain TPC-H queries hold where the parameterized ones hold `?`;
/// `None` for any other name (and for `q15`, which has none).
pub open spec fn tpch_parameters(name: Seq<char>) -> Option<Seq<ParamModel>> {
    if name == "q1"@ {
        Some(seq![ParamModel::Str("1998-09-02"@)])
    } else if name == "q2"@ {
        Some(seq![ParamModel::Number(15), ParamModel::Str("%BRASS"@), ParamModel::Str("EUROPE"@), ParamModel::Str("EUROPE"@)])
    } else if name == "q3"@ {
        Some(seq![ParamModel::Str("BUILDING"@), ParamModel::Str("1995-03-15"@), ParamModel::Str("1995-03-15"@)])
    } else if name == "q4"@ {
        Some(seq![ParamModel::Str("1993-07-01"@), ParamModel::Str("1993-07-01"@), ParamModel::Str("3"@)])
    } else if name == "q5"@ {
        Some(seq![ParamModel::Str("ASIA"@)])
    } else if name == "q6"@ {
        Some(seq![ParamModel::Decimal(6, 2), ParamModel::Decimal(1, 2), ParamModel::Decimal(6, 2), ParamModel::Decimal(1, 2), ParamModel::Number(24)])
    } else if name == "q7"@ {
        Some(seq![ParamModel::Str("FRANCE"@), ParamModel::Str("GERMANY"@), ParamModel::Str("GERMANY"@), ParamModel::Str("FRANCE"@), ParamModel::Str("1995-01-01"@), ParamModel::Str("1996-12-31"@)])
    } else if name == "q8"@ {
        Some(seq![ParamModel::Str("BRAZIL"@), ParamModel::Str("AMERICA"@), ParamModel::Str("1995-01-01"@), ParamModel::Str("1996-12-31"@), ParamModel::Str("ECONOMY ANODIZED STEEL"@)])
    } else if name == "q9"@ {
        Some(seq![ParamModel::Str("%green%"@)])
    } else if name == "q10"@ {
        Some(seq![ParamModel::Str("1993-10-01"@), ParamModel::Str("1994-01-01"@), ParamModel::Str("R"@)])
    } else if name == "q11"@ {
        Some(seq![ParamModel::Str("GERMANY"@), ParamModel::Str("GERMANY"@)])
    } else if name == "q12"@ {
        Some(seq![ParamModel::Str("1-URGENT"@), ParamModel::Str("2-HIGH"@), ParamModel::Str("1-URGENT"@), ParamModel::Str("2-HIGH"@), ParamModel::Str("MAIL"@), ParamModel::Str("SHIP"@), ParamModel::Str("1994-01-01"@), ParamModel::Str("1995-01-01"@)])
    } else if name == "q13"@ {
        Some(seq![ParamModel::Str("%special%requests%"@)])
    } else if name == "q14"@ {
        Some(seq![ParamModel::Str("PROMO%"@), ParamModel::Number(1), ParamModel::Number(0), ParamModel::Number(1), ParamModel::Str("1995-09-01"@), ParamModel::Str("1995-10-01"@)])
    } else if name == "q16"@ {
        Some(seq![ParamModel::Str("Brand#45"@), ParamModel::Str("MEDIUM POLISHED%"@), ParamModel::Number(49), ParamModel::Number(14), ParamModel::Number(23), ParamModel::Number(45), ParamModel::Number(19), ParamModel::Number(3), ParamModel::Number(36), ParamModel::Number(9), ParamModel::Str("%Customer%Complaints%"@)])
    } else if name == "q17"@ {
        Some(seq![ParamModel::Decimal(70, 1), ParamModel::Str("Brand#23"@), ParamModel::Str("MED BOX"@), ParamModel::Decimal(2, 1)])
    } else if name == "q18"@ {
        Some(seq![ParamModel::Number(300)])
    } else if name == "q19"@ {
        Some(seq![ParamModel::Str("Brand#12"@), ParamModel::Str("SM CASE"@), ParamModel::Str("SM BOX"@), ParamModel::Str("SM PACK"@), ParamModel::Str("SM PKG"@), ParamModel::Number(1), ParamModel::Number(1), ParamModel::Number(10), ParamModel::Number(1), ParamModel::Number(5), ParamModel::Str("AIR"@), ParamModel::Str("AIR REG"@), ParamModel::Str("DELIVER IN PERSON"@), ParamModel::Str("Brand#23"@), ParamModel::Str("MED BAG"@), ParamModel::Str("MED BOX"@), ParamModel::Str("MED PKG"@), ParamModel::Str("MED PACK"@), ParamModel::Number(10), ParamModel::Number(10), ParamModel::Number(10), ParamModel::Number(1), ParamModel::Number(10), ParamModel::Str("AIR"@), ParamModel::Str("AIR REG"@), ParamModel::Str("DELIVER IN PERSON"@), ParamModel::Str("Brand#34"@), ParamModel::Str("LG CASE"@), ParamModel::Str("LG BOX"@), ParamModel::Str("LG PACK"@), ParamModel::Str("LG PKG"@), ParamModel::Number(20), ParamModel::Number(20), ParamModel::Number(10), ParamModel::Number(1), ParamModel::Number(15), ParamModel::Str("AIR"@), ParamModel::Str("AIR REG"@), ParamModel::Str("DELIVER IN PERSON"@)])
    } else if name == "q20"@ {
        Some(seq![ParamModel::Str("forest%"@), ParamModel::Decimal(5, 1), ParamModel::Str("1994-01-01"@), ParamModel::Str("1994-01-01"@), ParamModel::Str("CANADA"@)])
    } else if name == "q21"@ {
        Some(seq![ParamModel::Str("F"@), ParamModel::Str("SAUDI ARABIA"@)])
    } else if name == "q22"@ {
        Some(seq![ParamModel::Str("13"@), ParamModel::Str("31"@), ParamModel::Str("23"@), ParamModel::Str("29"@), ParamModel::Str("30"@), ParamModel::Str("18"@), ParamModel::Str("17"@), ParamModel::Decimal(0, 2), ParamModel::Str("13"@), ParamModel::Str("31"@), ParamModel::Str("23"@), ParamModel::Str("29"@), ParamModel::Str("30"@), ParamModel::Str("18"@), ParamModel::Str("17"@)])
    } else {
        None
    }
}

/// The parameter values of the TPC-H query named `name`.
pub fn tpch_parameters_for(name: &str) -> (res: Option<Vec<ParameterValue>>)
    ensures
        match res {
            Some(v) => tpch_parameters(name@) == Some(params_view(v@)),
            None => tpch_parameters(name@) is None,
        },
{
    if str_eq(name, "q1") {
        let v = vec![
            ParameterValue::String(String::from_str("1998-09-02")),
        ];
        assert(params_view(v@) =~= seq![ParamModel::Str("1998-09-02"@)]);
        Some(v)
    } else if str_eq(name, "q2") {
        let v = vec![
            ParameterValue::Number(15),
            ParameterValue::String(String::from_str("%BRASS")),
            ParameterValue::String(String::from_str("EUROPE")),
            ParameterValue::String(String::from_str("EUROPE")),
        ];
        assert(params_view(v@) =~= seq![ParamModel::Number(15), ParamModel::Str("%BRASS"@), ParamModel::Str("EUROPE"@), ParamModel::Str("EUROPE"@)]);
        Some(v)
    } else if str_eq(name, "q3") {
        let v = vec![
            ParameterValue::String(String::from_str("BUILDING")),
            ParameterValue::String(String::from_str("1995-03-15")),
            ParameterValue::String(String::from_str("1995-03-15")),
        ];
        assert(params_view(v@) =~= seq![ParamModel::Str("BUILDING"@), ParamModel::Str("1995-03-15"@), ParamModel::Str("1995-03-15"@)]);
        Some(v)
    } else if str_eq(name, "q4") {
        let v = vec![
            ParameterValue::String(String::from_str("1993-07-01")),
            ParameterValue::String(String::from_str("1993-07-01")),
            ParameterValue::String(String::from_str("3")),
        ];
        assert(params_view(v@) =~= seq![ParamModel::Str("1993-07-01"@), ParamModel::Str("1993-07-01"@), ParamModel::Str("3"@)]);
        Some(v)
    } else if str_eq(name, "q5") {
        let v = vec![
            ParameterValue::String(String::from_str("ASIA")),
        ];
        assert(params_view(v@) =~= seq![ParamModel::Str("ASIA"@)]);
        Some(v)
    } else if str_eq(name, "q6") {
        let v = vec![
            ParameterValue::Decimal { mantissa: 6, scale: 2 },
            ParameterValue::Decimal { mantissa: 1, scale: 2 },
            ParameterValue::Decimal { mantissa: 6, scale: 2 },
            ParameterValue::Decimal { mantissa: 1, scale: 2 },
            ParameterValue::Number(24),
        ];
        assert(params_view(v@) =~= seq![ParamModel::Decimal(6, 2), ParamModel::Decimal(1, 2), ParamModel::Decimal(6, 2), ParamModel::Decimal(1, 2), ParamModel::Number(24)]);
        Some(v)
    } else if str_eq(name, "q7") {
        let v = vec![
            ParameterValue::String(String::from_str("FRANCE")),
            ParameterValue::String(String::from_str("GERMANY")),
            ParameterValue::String(String::from_str("GERMANY")),
            ParameterValue::String(String::from_str("FRANCE")),
            ParameterValue::String(String::from_str("1995-01-01")),
            ParameterValue::String(String::from_str("1996-12-31")),
        ];
        assert(params_view(v@) =~= seq![ParamModel::Str("FRANCE"@), ParamModel::Str("GERMANY"@), ParamModel::Str("GERMANY"@), ParamModel::Str("FRANCE"@), ParamModel::Str("1995-01-01"@), ParamModel::Str("1996-12-31"@)]);
        Some(v)
    } else if str_eq(name, "q8") {
        let v = vec![
            ParameterValue::String(String::from_str("BRAZIL")),
            ParameterValue::String(String::from_str("AMERICA")),
            ParameterValue::String(String::from_str("1995-01-01")),
            ParameterValue::String(String::from_str("1996-12-31")),
            ParameterValue::String(String::from_str("ECONOMY ANODIZED STEEL")),
        ];
        assert(params_view(v@) =~= seq![ParamModel::Str("BRAZIL"@), ParamModel::Str("AMERICA"@), ParamModel::Str("1995-01-01"@), ParamModel::Str("1996-12-31"@), ParamModel::Str("ECONOMY ANODIZED STEEL"@)]);
        Some(v)
    } else if str_eq(name, "q9") {
        let v = vec![
            ParameterValue::String(String::from_str("%green%")),
        ];
        assert(params_view(v@) =~= seq![ParamModel::Str("%green%"@)]);
        Some(v)
    } else if str_eq(name, "q10") {
        let v = vec![
            ParameterValue::String(String::from_str("1993-10-01")),
            ParameterValue::String(String::from_str("1994-01-01")),
            ParameterValue::String(String::from_str("R")),
        ];
        assert(params_view(v@) =~= seq![ParamModel::Str("1993-10-01"@), ParamModel::Str("1994-01-01"@), ParamModel::Str("R"@)]);
        Some(v)
    } else if str_eq(name, "q11") {
        let v = vec![
            ParameterValue::String(String::from_str("GERMANY")),
            ParameterValue::String(String::from_str("GERMANY")),
        ];
        assert(params_view(v@) =~= seq![ParamModel::Str("GERMANY"@), ParamModel::Str("GERMANY"@)]);
        Some(v)
    } else if str_eq(name, "q12") {
        let v = vec![
            ParameterValue::String(String::from_str("1-URGENT")),
            ParameterValue::String(String::from_str("2-HIGH")),
            ParameterValue::String(String::from_str("1-URGENT")),
            ParameterValue::String(String::from_str("2-HIGH")),
            ParameterValue::String(String::from_str("MAIL")),
            ParameterValue::String(String::from_str("SHIP")),
            ParameterValue::String(String::from_str("1994-01-01")),
            ParameterValue::String(String::from_str("1995-01-01")),
        ];
        assert(params_view(v@) =~= seq![ParamModel::Str("1-URGENT"@), ParamModel::Str("2-HIGH"@), ParamModel::Str("1-URGENT"@), ParamModel::Str("2-HIGH"@), ParamModel::Str("MAIL"@), ParamModel::Str("SHIP"@), ParamModel::Str("1994-01-01"@), ParamModel::Str("1995-01-01"@)]);
        Some(v)
    } else if str_eq(name, "q13") {
        let v = vec![
            ParameterValue::String(String::from_str("%special%requests%")),
        ];
        assert(params_view(v@) =~= seq![ParamModel::Str("%special%requests%"@)]);
        Some(v)
    } else if str_eq(name, "q14") {
        let v = vec![
            ParameterValue::String(String::from_str("PROMO%")),
            ParameterValue::Number(1),
            ParameterValue::Number(0),
            ParameterValue::Number(1),
            ParameterValue::String(String::from_str("1995-09-01")),
            ParameterValue::String(String::from_str("1995-10-01")),
        ];
        assert(params_view(v@) =~= seq![ParamModel::Str("PROMO%"@), ParamModel::Number(1), ParamModel::Number(0), ParamModel::Number(1), ParamModel::Str("1995-09-01"@), ParamModel::Str("1995-10-01"@)]);
        Some(v)
    } else if str_eq(name, "q16") {
        let v = vec![
            ParameterValue::String(String::from_str("Brand#45")),
            ParameterValue::String(String::from_str("MEDIUM POLISHED%")),
            ParameterValue::Number(49),
            ParameterValue::Number(14),
            ParameterValue::Number(23),
            ParameterValue::Number(45),
            ParameterValue::Number(19),
            ParameterValue::Number(3),
            ParameterValue::Number(36),
            ParameterValue::Number(9),
            ParameterValue::String(String::from_str("%Customer%Complaints%")),
        ];
        assert(params_view(v@) =~= seq![ParamModel::Str("Brand#45"@), ParamModel::Str("MEDIUM POLISHED%"@), ParamModel::Number(49), ParamModel::Number(14), ParamModel::Number(23), ParamModel::Number(45), ParamModel::Number(19), ParamModel::Number(3), ParamModel::Number(36), ParamModel::Number(9), ParamModel::Str("%Customer%Complaints%"@)]);
        Some(v)
    } else if str_eq(name, "q17") {
        let v = vec![
            ParameterValue::Decimal { mantissa: 70, scale: 1 },
            ParameterValue::String(String::from_str("Brand#23")),
            ParameterValue::String(String::from_str("MED BOX")),
            ParameterValue::Decimal { mantissa: 2, scale: 1 },
        ];
        assert(params_view(v@) =~= seq![ParamModel::Decimal(70, 1), ParamModel::Str("Brand#23"@), ParamModel::Str("MED BOX"@), ParamModel::Decimal(2, 1)]);
        Some(v)
    } else if str_eq(name, "q18") {
        let v = vec![
            ParameterValue::Number(300),
        ];
        assert(params_view(v@) =~= seq![ParamModel::Number(300)]);
        Some(v)
    } else if str_eq(name, "q19") {
        let v = vec![
            ParameterValue::String(String::from_str("Brand#12")),
            ParameterValue::String(String::from_str("SM CASE")),
            ParameterValue::String(String::from_str("SM BOX")),
            ParameterValue::String(String::from_str("SM PACK")),
            ParameterValue::String(String::from_str("SM PKG")),
            ParameterValue::Number(1),
            ParameterValue::Number(1),
            ParameterValue::Number(10),
            ParameterValue::Number(1),
            ParameterValue::Number(5),
            ParameterValue::String(String::from_str("AIR")),
            ParameterValue::String(String::from_str("AIR REG")),
            ParameterValue::String(String::from_str("DELIVER IN PERSON")),
            ParameterValue::String(String::from_str("Brand#23")),
            ParameterValue::String(String::from_str("MED BAG")),
            ParameterValue::String(String::from_str("MED BOX")),
            ParameterValue::String(String::from_str("MED PKG")),
            ParameterValue::String(String::from_str("MED PACK")),
            ParameterValue::Number(10),
            ParameterValue::Number(10),
            ParameterValue::Number(10),
            ParameterValue::Number(1),
            ParameterValue::Number(10),
            ParameterValue::String(String::from_str("AIR")),
            ParameterValue::String(String::from_str("AIR REG")),
            ParameterValue::String(String::from_str("DELIVER IN PERSON")),
            ParameterValue::String(String::from_str("Brand#34")),
            ParameterValue::String(String::from_str("LG CASE")),
            ParameterValue::String(String::from_str("LG BOX")),
            ParameterValue::String(String::from_str("LG PACK")),
            ParameterValue::String(String::from_str("LG PKG")),
            ParameterValue::Number(20),
            ParameterValue::Number(20),
            ParameterValue::Number(10),
            ParameterValue::Number(1),
            ParameterValue::Number(15),
            ParameterValue::String(String::from_str("AIR")),
            ParameterValue::String(String::from_str("AIR REG")),
            ParameterValue::String(String::from_str("DELIVER IN PERSON")),
        ];
        assert(params_view(v@) =~= seq![ParamModel::Str("Brand#12"@), ParamModel::Str("SM CASE"@), ParamModel::Str("SM BOX"@), ParamModel::Str("SM PACK"@), ParamModel::Str("SM PKG"@), ParamModel::Number(1), ParamModel::Number(1), ParamModel::Number(10), ParamModel::Number(1), ParamModel::Number(5), ParamModel::Str("AIR"@), ParamModel::Str("AIR REG"@), ParamModel::Str("DELIVER IN PERSON"@), ParamModel::Str("Brand#23"@), ParamModel::Str("MED BAG"@), ParamModel::Str("MED BOX"@), ParamModel::Str("MED PKG"@), ParamModel::Str("MED PACK"@), ParamModel::Number(10), ParamModel::Number(10), ParamModel::Number(10), ParamModel::Number(1), ParamModel::Number(10), ParamModel::Str("AIR"@), ParamModel::Str("AIR REG"@), ParamModel::Str("DELIVER IN PERSON"@), ParamModel::Str("Brand#34"@), ParamModel::Str("LG CASE"@), ParamModel::Str("LG BOX"@), ParamModel::Str("LG PACK"@), ParamModel::Str("LG PKG"@), ParamModel::Number(20), ParamModel::Number(20), ParamModel::Number(10), ParamModel::Number(1), ParamModel::Number(15), ParamModel::Str("AIR"@), ParamModel::Str("AIR REG"@), ParamModel::Str("DELIVER IN PERSON"@)]);
        Some(v)
    } else if str_eq(name, "q20") {
        let v = vec![
            ParameterValue::String(String::from_str("forest%")),
            ParameterValue::Decimal { mantissa: 5, scale: 1 },
            ParameterValue::String(String::from_str("1994-01-01")),
            ParameterValue::String(String::from_str("1994-01-01")),
            ParameterValue::String(String::from_str("CANADA")),
        ];
        assert(params_view(v@) =~= seq![ParamModel::Str("forest%"@), ParamModel::Decimal(5, 1), ParamModel::Str("1994-01-01"@), ParamModel::Str("1994-01-01"@), ParamModel::Str("CANADA"@)]);
        Some(v)
    } else if str_eq(name, "q21") {
        let v = vec![
            ParameterValue::String(String::from_str("F")),
            ParameterValue::String(String::from_str("SAUDI ARABIA")),
        ];
        assert(params_view(v@) =~= seq![ParamModel::Str("F"@), ParamModel::Str("SAUDI ARABIA"@)]);
        Some(v)
    } else if str_eq(name, "q22") {
        let v = vec![
            ParameterValue::String(String::from_str("13")),
            ParameterValue::String(String::from_str("31")),
            ParameterValue::String(String::from_str("23")),
            ParameterValue::String(String::from_str("29")),
            ParameterValue::String(String::from_str("30")),
            ParameterValue::String(String::from_str("18")),
            ParameterValue::String(String::from_str("17")),
            ParameterValue::Decimal { mantissa: 0, scale: 2 },
            ParameterValue::String(String::from_str("13")),
            ParameterValue::String(String::from_str("31")),
            ParameterValue::String(String::from_str("23")),
            ParameterValue::String(String::from_str("29")),
            ParameterValue::String(String::from_str("30")),
            ParameterValue::String(String::from_str("18")),
            ParameterValue::String(String::from_str("17")),
        ];
        assert(params_view(v@) =~= seq![ParamModel::Str("13"@), ParamModel::Str("31"@), ParamModel::Str("23"@), ParamModel::Str("29"@), ParamModel::Str("30"@), ParamModel::Str("18"@), ParamModel::Str("17"@), ParamModel::Decimal(0, 2), ParamModel::Str("13"@), ParamModel::Str("31"@), ParamModel::Str("23"@), ParamModel::Str("29"@), ParamModel::Str("30"@), ParamModel::Str("18"@), ParamModel::Str("17"@)]);
        Some(v)
    } else {
        None
    }
}

/// Gives each TPC-H query its parameter values; other queries are left as they are.
pub fn add_tpch_parameters(queries: Vec<Query>) -> (res: Vec<Query>)
    ensures
        res@.len() == queries@.len(),
        forall|i: int|
            0 <= i < queries@.len() ==> {
                let (q, r) = (queries@[i], #[trigger] res@[i]);
                &&& r.name == q.name
                &&& r.sql == q.sql
                &&& match tpch_parameters(q.name@) {
                    Some(p) => r.parameters matches Some(v) && params_view(v@) == p,
                    None => r.parameters == q.parameters,
                }
            },
{
    let mut out: Vec<Query> = Vec::new();
    let mut queries = queries;
    let ghost orig = queries@;
    let mut i: usize = 0;
    let n = queries.len();
    while i < n
        invariant
            n == orig.len(),
            i <= n,
            queries@.len() == n - i,
            forall|k: int| 0 <= k < queries@.len() ==> #[trigger] queries@[k] == orig[k + i],
            out@.len() == i,
            forall|k: int|
                0 <= k < i ==> {
                    let (q, r) = (orig[k], #[trigger] out@[k]);
                    &&& r.name == q.name
                    &&& r.sql == q.sql
                    &&& match tpch_parameters(q.name@) {
                        Some(p) => r.parameters matches Some(v) && params_view(v@) == p,
                        None => r.parameters == q.parameters,
                    }
                },
        decreases n - i,
    {
        let mut q = queries.remove(0);
        match tpch_parameters_for(q.name.as_str()) {
            Some(p) => {
                q.parameters = Some(p);
            },
            None => {},
        }
        out.push(q);
        i += 1;
    }
    out
}

} // verus!
