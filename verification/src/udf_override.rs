//! Rewriting Spice's own functions into the functions of the engine that
//! runs a federated query: on DuckDB, `cosine_distance(a, b)` becomes
//! `array_cosine_distance(a, b)`, with each `make_array` inside its
//! arguments (any letter case) becoming `array_value`.

use vstd::prelude::*;
use crate::text::str_eq;

verus! {

/// An expression: a scalar function call, or another node with its
/// sub-expressions.
#[derive(Debug)]
pub enum Expr {
    ScalarFunction { name: String, args: Vec<Expr> },
    Other { kind: String, children: Vec<Expr> },
}

/// The abstract content of an expression.
pub enum ExprModel {
    ScalarFunction { name: Seq<char>, args: Seq<ExprModel> },
    Other { kind: Seq<char>, children: Seq<ExprModel> },
}

/// The abstract content of an expression.
pub open spec fn expr_view(e: Expr) -> ExprModel
    decreases e, 1nat,
{
    match e {
        Expr::ScalarFunction { name, args } => ExprModel::ScalarFunction {
            name: name@,
            args: exprs_view(args@),
        },
        Expr::Other { kind, children } => ExprModel::Other {
            kind: kind@,
            children: exprs_view(children@),
        },
    }
}

/// The abstract content of a list of expressions.
pub open spec fn exprs_view(s: Seq<Expr>) -> Seq<ExprModel>
    decreases s, 0nat,
{
    if s.len() == 0 {
        Seq::empty()
    } else {
        exprs_view(s.drop_last()).push(expr_view(s.last()))
    }
}

/// The lowercase form of a text, as `str::to_lowercase` gives it.
pub uninterp spec fn lowercase(s: Seq<char>) -> Seq<char>;

/// The lowercase form of a text (`str::to_lowercase`). Its result is named,
/// not spelled out: the Unicode case mapping takes tables to state. It
/// depends on the text alone.
#[verifier::external_body]
fn to_lowercase(s: &str) -> (res: String)
    ensures
        res@ == lowercase(s@),
{
    s.to_lowercase()
}

/// Renames every function whose lowercase name is `make_array` to
/// `array_value`, sub-expressions first.
pub open spec fn rename_make_array(e: ExprModel) -> ExprModel
    decreases e, 1nat,
{
    match e {
        ExprModel::ScalarFunction { name, args } => {
            let a = rename_all(args);
            if lowercase(name) == "make_array"@ {
                ExprModel::ScalarFunction { name: "array_value"@, args: a }
            } else {
                ExprModel::ScalarFunction { name, args: a }
            }
        },
        ExprModel::Other { kind, children } => ExprModel::Other {
            kind,
            children: rename_all(children),
        },
    }
}

/// `rename_make_array` on each expression.
pub open spec fn rename_all(s: Seq<ExprModel>) -> Seq<ExprModel>
    decreases s, 0nat,
{
    if s.len() == 0 {
        Seq::empty()
    } else {
        rename_all(s.drop_last()).push(rename_make_array(s.last()))
    }
}

/// The override of one expression, sub-expressions first: on DuckDB
/// (`duckdb` is `Some(true)`) each `cosine_distance` call becomes
/// `array_cosine_distance` with `make_array` renamed in its arguments. The
/// flag tells whether anything was rewritten. `None` when a
/// `cosine_distance` call is met and the dialect is unknown (`duckdb` is
/// `None`).
pub open spec fn override_expr(e: ExprModel, duckdb: Option<bool>) -> Option<(ExprModel, bool)>
    decreases e, 1nat,
{
    match e {
        ExprModel::ScalarFunction { name, args } => match override_all(args, duckdb) {
            None => None,
            Some((a, m)) => if name == "cosine_distance"@ {
                match duckdb {
                    None => None,
                    Some(true) => Some(
                        (ExprModel::ScalarFunction { name: "array_cosine_distance"@, args: rename_all(a) }, true),
                    ),
                    Some(false) => Some((ExprModel::ScalarFunction { name, args: a }, m)),
                }
            } else {
                Some((ExprModel::ScalarFunction { name, args: a }, m))
            },
        },
        ExprModel::Other { kind, children } => match override_all(children, duckdb) {
            None => None,
            Some((c, m)) => Some((ExprModel::Other { kind, children: c }, m)),
        },
    }
}

/// `override_expr` on each expression, in order; `None` if any fails.
pub open spec fn override_all(s: Seq<ExprModel>, duckdb: Option<bool>) -> Option<(Seq<ExprModel>, bool)>
    decreases s, 0nat,
{
    if s.len() == 0 {
        Some((Seq::empty(), false))
    } else {
        match override_all(s.drop_last(), duckdb) {
            None => None,
            Some((r, m)) => match override_expr(s.last(), duckdb) {
                None => None,
                Some((x, m2)) => Some((r.push(x), m || m2)),
            },
        }
    }
}

fn rename_expr(e: &Expr) -> (res: Expr)
    ensures
        expr_view(res) == rename_make_array(expr_view(*e)),
    decreases e, 1nat,
{
    match e {
        Expr::ScalarFunction { name, args } => {
            let a = rename_exprs(args);
            let lc = to_lowercase(name.as_str());
            if str_eq(lc.as_str(), "make_array") {
                Expr::ScalarFunction { name: String::from_str("array_value"), args: a }
            } else {
                Expr::ScalarFunction { name: name.clone(), args: a }
            }
        },
        Expr::Other { kind, children } => Expr::Other { kind: kind.clone(), children: rename_exprs(children) },
    }
}

fn rename_exprs(v: &Vec<Expr>) -> (res: Vec<Expr>)
    ensures
        exprs_view(res@) == rename_all(exprs_view(v@)),
    decreases v, 0nat,
{
    let mut out: Vec<Expr> = Vec::new();
    let mut i: usize = 0;
    while i < v.len()
        invariant
            i <= v.len(),
            exprs_view(out@) == rename_all(exprs_view(v@.take(i as int))),
        decreases v.len() - i,
    {
        assert(v@.take(i + 1).drop_last() =~= v@.take(i as int));
        assert(v@.take(i + 1).last() == v@[i as int]);
        assert(decreases_to!(v => v@[i as int]));
        assert(exprs_view(v@.take(i + 1)) == exprs_view(v@.take(i as int)).push(expr_view(v@[i as int])));
        assert(exprs_view(v@.take(i as int)).push(expr_view(v@[i as int])).drop_last() =~= exprs_view(
            v@.take(i as int),
        ));
        let x = rename_expr(&v[i]);
        let ghost prev = out@;
        out.push(x);
        assert(out@.drop_last() =~= prev);
        assert(exprs_view(out@) == exprs_view(prev).push(expr_view(x)));
        i += 1;
    }
    assert(v@.take(v.len() as int) =~= v@);
    out
}

/// Why the override could not be applied.
#[derive(Debug, Clone, Copy, PartialEq, Eq, Structural)]
pub enum UdfOverrideError {
    /// A `cosine_distance` call was met and the engine's dialect could not
    /// be determined.
    UnknownDialect,
}

fn override_one(e: &Expr, duckdb: Option<bool>) -> (res: Result<(Expr, bool), UdfOverrideError>)
    ensures
        match override_expr(expr_view(*e), duckdb) {
            None => res is Err,
            Some((x, m)) => res matches Ok((r, rm)) && expr_view(r) == x && rm == m,
        },
    decreases e, 1nat,
{
    match e {
        Expr::ScalarFunction { name, args } => {
            let (a, m) = match override_many(args, duckdb) {
                Ok(p) => p,
                Err(err) => return Err(err),
            };
            if str_eq(name.as_str(), "cosine_distance") {
                match duckdb {
                    None => Err(UdfOverrideError::UnknownDialect),
                    Some(true) => {
                        let renamed = rename_exprs(&a);
                        Ok((Expr::ScalarFunction { name: String::from_str("array_cosine_distance"), args: renamed }, true))
                    },
                    Some(false) => Ok((Expr::ScalarFunction { name: name.clone(), args: a }, m)),
                }
            } else {
                Ok((Expr::ScalarFunction { name: name.clone(), args: a }, m))
            }
        },
        Expr::Other { kind, children } => {
            let (c, m) = match override_many(children, duckdb) {
                Ok(p) => p,
                Err(err) => return Err(err),
            };
            Ok((Expr::Other { kind: kind.clone(), children: c }, m))
        },
    }
}

fn override_many(v: &Vec<Expr>, duckdb: Option<bool>) -> (res: Result<(Vec<Expr>, bool), UdfOverrideError>)
    ensures
        match override_all(exprs_view(v@), duckdb) {
            None => res is Err,
            Some((x, m)) => res matches Ok((r, rm)) && exprs_view(r@) == x && rm == m,
        },
    decreases v, 0nat,
{
    let mut out: Vec<Expr> = Vec::new();
    let mut modified = false;
    let mut i: usize = 0;
    while i < v.len()
        invariant
            i <= v.len(),
            override_all(exprs_view(v@.take(i as int)), duckdb) == Some((exprs_view(out@), modified)),
        decreases v.len() - i,
    {
        assert(v@.take(i + 1).drop_last() =~= v@.take(i as int));
        assert(v@.take(i + 1).last() == v@[i as int]);
        assert(decreases_to!(v => v@[i as int]));
        assert(exprs_view(v@.take(i + 1)) == exprs_view(v@.take(i as int)).push(expr_view(v@[i as int])));
        assert(exprs_view(v@.take(i as int)).push(expr_view(v@[i as int])).drop_last() =~= exprs_view(
            v@.take(i as int),
        ));
        let (x, m) = match override_one(&v[i], duckdb) {
            Ok(p) => p,
            Err(err) => {
                proof {
                    lemma_exprs_view_take(v@, i + 1);
                    lemma_override_all_fails(exprs_view(v@), duckdb, i + 1);
                }
                return Err(err);
            },
        };
        let ghost prev = out@;
        out.push(x);
        assert(out@.drop_last() =~= prev);
        assert(exprs_view(out@) == exprs_view(prev).push(expr_view(x)));
        modified = modified || m;
        i += 1;
    }
    assert(v@.take(v.len() as int) =~= v@);
    Ok((out, modified))
}

proof fn lemma_exprs_view_take(s: Seq<Expr>, k: int)
    requires
        0 <= k <= s.len(),
    ensures
        exprs_view(s.take(k)) == exprs_view(s).take(k),
        exprs_view(s).len() == s.len(),
    decreases s.len(),
{
    if s.len() > 0 {
        if k == s.len() {
            assert(s.take(k) =~= s);
            lemma_exprs_view_take(s.drop_last(), k - 1);
        } else {
            assert(s.take(k) =~= s.drop_last().take(k));
            lemma_exprs_view_take(s.drop_last(), k);
        }
    }
}

/// A failing prefix makes the whole list fail.
proof fn lemma_override_all_fails(s: Seq<ExprModel>, duckdb: Option<bool>, k: int)
    requires
        1 <= k <= s.len(),
        override_all(s.take(k), duckdb) is None,
    ensures
        override_all(s, duckdb) is None,
    decreases s.len() - k,
{
    if k == s.len() {
        assert(s.take(k) =~= s);
    } else {
        assert(s.take(k + 1).drop_last() =~= s.take(k));
        lemma_override_all_fails(s, duckdb, k + 1);
    }
}

/// Replaces Spice's functions in the expressions of a projection with the
/// engine's: on DuckDB (`duckdb` is `Some(true)`), `cosine_distance` by
/// `array_cosine_distance`, with `make_array` inside renamed `array_value`.
/// `duckdb` is `None` when the engine's dialect could not be determined,
/// which is an error only if a `cosine_distance` call is met. Returns the
/// expressions and whether any was rewritten.
pub fn override_spice_udf_in_exprs(exprs: &Vec<Expr>, duckdb: Option<bool>) -> (res: Result<
    (Vec<Expr>, bool),
    UdfOverrideError,
>)
    ensures
        match override_all(exprs_view(exprs@), duckdb) {
            None => res is Err,
            Some((x, m)) => res matches Ok((r, rm)) && exprs_view(r@) == x && rm == m,
        },
{
    override_many(exprs, duckdb)
}

/// Whether no call in an expression is named `cosine_distance`.
pub open spec fn no_cosine(e: ExprModel) -> bool
    decreases e, 1nat,
{
    match e {
        ExprModel::ScalarFunction { name, args } => name != "cosine_distance"@ && no_cosine_all(args),
        ExprModel::Other { kind, children } => no_cosine_all(children),
    }
}

/// `no_cosine` of each expression.
pub open spec fn no_cosine_all(s: Seq<ExprModel>) -> bool
    decreases s, 0nat,
{
    if s.len() == 0 {
        true
    } else {
        no_cosine_all(s.drop_last()) && no_cosine(s.last())
    }
}

proof fn lemma_rename_keeps(e: ExprModel)
    requires
        no_cosine(e),
    ensures
        no_cosine(rename_make_array(e)),
    decreases e, 1nat,
{
    reveal_strlit("array_value");
    reveal_strlit("cosine_distance");
    assert("array_value"@.len() != "cosine_distance"@.len());
    match e {
        ExprModel::ScalarFunction { name, args } => lemma_rename_keeps_all(args),
        ExprModel::Other { kind, children } => lemma_rename_keeps_all(children),
    }
}

proof fn lemma_rename_keeps_all(s: Seq<ExprModel>)
    requires
        no_cosine_all(s),
    ensures
        no_cosine_all(rename_all(s)),
    decreases s, 0nat,
{
    if s.len() > 0 {
        lemma_rename_keeps_all(s.drop_last());
        lemma_rename_keeps(s.last());
        let r = rename_all(s.drop_last()).push(rename_make_array(s.last()));
        assert(r.drop_last() =~= rename_all(s.drop_last()));
    }
}

proof fn lemma_override_fixed(e: ExprModel, duckdb: bool)
    requires
        duckdb ==> no_cosine(e),
    ensures
        override_expr(e, Some(duckdb)) == Some((e, false)),
    decreases e, 1nat,
{
    match e {
        ExprModel::ScalarFunction { name, args } => lemma_override_fixed_all(args, duckdb),
        ExprModel::Other { kind, children } => lemma_override_fixed_all(children, duckdb),
    }
}

proof fn lemma_override_fixed_all(s: Seq<ExprModel>, duckdb: bool)
    requires
        duckdb ==> no_cosine_all(s),
    ensures
        override_all(s, Some(duckdb)) == Some((s, false)),
    decreases s, 0nat,
{
    if s.len() > 0 {
        lemma_override_fixed_all(s.drop_last(), duckdb);
        lemma_override_fixed(s.last(), duckdb);
        assert(s.drop_last().push(s.last()) =~= s);
    }
}

proof fn lemma_override_clears(e: ExprModel)
    ensures
        override_expr(e, Some(true)) matches Some((x, _)) ==> no_cosine(x),
    decreases e, 1nat,
{
    reveal_strlit("array_cosine_distance");
    reveal_strlit("cosine_distance");
    assert("array_cosine_distance"@.len() != "cosine_distance"@.len());
    match e {
        ExprModel::ScalarFunction { name, args } => {
            lemma_override_clears_all(args);
            if let Some((a, _)) = override_all(args, Some(true)) {
                lemma_rename_keeps_all(a);
            }
        },
        ExprModel::Other { kind, children } => lemma_override_clears_all(children),
    }
}

proof fn lemma_override_clears_all(s: Seq<ExprModel>)
    ensures
        override_all(s, Some(true)) matches Some((x, _)) ==> no_cosine_all(x),
    decreases s, 0nat,
{
    if s.len() > 0 {
        lemma_override_clears_all(s.drop_last());
        lemma_override_clears(s.last());
        if let Some((r, _)) = override_all(s.drop_last(), Some(true)) {
            if let Some((x, _)) = override_expr(s.last(), Some(true)) {
                assert(r.push(x).drop_last() =~= r);
            }
        }
    }
}

/// The rule can be applied again with no effect: on DuckDB, rewritten
/// expressions hold no `cosine_distance` call and are left as they are;
/// on another engine the rule changes nothing.
pub proof fn lemma_override_idempotent(s: Seq<ExprModel>)
    ensures
        override_all(s, Some(true)) matches Some((x, _)) ==> override_all(x, Some(true)) == Some(
            (x, false),
        ),
        override_all(s, Some(false)) == Some((s, false)),
{
    lemma_override_clears_all(s);
    if let Some((x, _)) = override_all(s, Some(true)) {
        lemma_override_fixed_all(x, true);
    }
    lemma_override_fixed_all(s, false);
}

/// The optimizer rule that replaces Spice's functions with those of the
/// engine that runs a federated query.
#[derive(Debug, Clone, Copy, PartialEq, Eq, Structural, Default)]
pub struct SpiceUDFsOverride;

impl SpiceUDFsOverride {
    pub fn new() -> (res: Self) {
        SpiceUDFsOverride
    }

    /// The rule's name.
    pub fn name(&self) -> (res: &'static str)
        ensures
            res@ == "spiceai_udf_override_rule"@,
    {
        "spiceai_udf_override_rule"
    }
}

} // verus!
