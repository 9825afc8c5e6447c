//! Reciprocal Rank Fusion (RRF): combining several ranked candidate sets.
//!
//! The rank of an entry in each set is turned into a score
//! `1 / (rank_i + offset) + 1 / (rank_j + offset) + ...`; only the order of
//! the sets matters, not their own scores.

use vstd::prelude::*;
use vstd::string::StringExecFns;
use crate::text::{push_char, decimal, decimal_string, join, lemma_join_concat, lemma_join_push};

verus! {

broadcast use vstd::string::group_string_axioms;

/// The score column of a candidate set.
pub const SEARCH_SCORE_COLUMN_NAME: &'static str = "score";

/// The value column of a candidate set.
pub const SEARCH_VALUE_COLUMN_NAME: &'static str = "value";

/// The characters of each string of a list.
pub open spec fn strs_view(v: Seq<String>) -> Seq<Seq<char>> {
    v.map_values(|s: String| s@)
}

/// `(1.0 / (<table>.score + <offset>))`
pub open spec fn rank_term(table: Seq<char>, offset: nat) -> Seq<char> {
    "(1.0 / ("@ + table + ".score + "@ + decimal(offset) + "))"@
}

/// `<table>.score as <table>_rank`
pub open spec fn rank_column(table: Seq<char>) -> Seq<char> {
    table + ".score as "@ + table + "_rank"@
}

/// `<table>.<column>`
pub open spec fn qualified(table: Seq<char>, column: Seq<char>) -> Seq<char> {
    table + seq!['.'] + column
}

/// `<base>.<column> = <table>.<column>`
pub open spec fn key_equality(base: Seq<char>, table: Seq<char>, column: Seq<char>) -> Seq<char> {
    qualified(base, column) + " = "@ + qualified(table, column)
}

/// `JOIN <table> ON <base>.<k1> = <table>.<k1> AND ...`
pub open spec fn join_clause(base: Seq<char>, table: Seq<char>, keys: Seq<Seq<char>>) -> Seq<char> {
    "JOIN "@ + table + " ON "@ + join(keys.map_values(|k: Seq<char>| key_equality(base, table, k)), " AND "@)
}

/// The fusion query over candidate tables `tables` (the first one is the
/// base), joined on the key columns; it selects the fused score, each
/// table's own score, and the key and additional columns of the base.
pub open spec fn rrf_sql(
    tables: Seq<Seq<char>>,
    keys: Seq<Seq<char>>,
    additional: Seq<Seq<char>>,
    offset: nat,
) -> Seq<char> {
    let base = tables[0];
    "SELECT TRUNC("@ + join(tables.map_values(|t: Seq<char>| rank_term(t, offset)), " + "@)
        + ", 6) as final_rank, "@ + join(tables.map_values(|t: Seq<char>| rank_column(t)), ", "@)
        + ", "@ + join((keys + additional).map_values(|c: Seq<char>| qualified(base, c)), ", "@)
        + " FROM "@ + base + " "@ + join(
        tables.skip(1).map_values(|t: Seq<char>| join_clause(base, t, keys)),
        " "@,
    ) + " ORDER BY final_rank DESC"@
}

fn append_rank_terms(s: &mut String, tables: &[String], offset: usize)
    ensures
        final(s)@ == old(s)@ + join(
            strs_view(tables@).map_values(|t: Seq<char>| rank_term(t, offset as nat)),
            " + "@,
        ),
{
    let ghost parts = strs_view(tables@).map_values(|t: Seq<char>| rank_term(t, offset as nat));
    let ghost start = s@;
    let off = decimal_string(offset);
    let mut i: usize = 0;
    while i < tables.len()
        invariant
            i <= tables.len(),
            parts.len() == tables.len(),
            parts == strs_view(tables@).map_values(|t: Seq<char>| rank_term(t, offset as nat)),
            off@ == decimal(offset as nat),
            s@ == start + join(parts.take(i as int), " + "@),
        decreases tables.len() - i,
    {
        proof {
            lemma_join_push(parts, " + "@, i as int);
        }
        if i > 0 {
            s.append(" + ");
        }
        s.append("(1.0 / (");
        s.append(tables[i].as_str());
        s.append(".score + ");
        s.append(off.as_str());
        s.append("))");
        i += 1;
    }
    assert(parts.take(tables.len() as int) =~= parts);
}

fn append_rank_columns(s: &mut String, tables: &[String])
    ensures
        final(s)@ == old(s)@ + join(
            strs_view(tables@).map_values(|t: Seq<char>| rank_column(t)),
            ", "@,
        ),
{
    let ghost parts = strs_view(tables@).map_values(|t: Seq<char>| rank_column(t));
    let ghost start = s@;
    let mut i: usize = 0;
    while i < tables.len()
        invariant
            i <= tables.len(),
            parts == strs_view(tables@).map_values(|t: Seq<char>| rank_column(t)),
            s@ == start + join(parts.take(i as int), ", "@),
        decreases tables.len() - i,
    {
        proof {
            lemma_join_push(parts, ", "@, i as int);
        }
        if i > 0 {
            s.append(", ");
        }
        s.append(tables[i].as_str());
        s.append(".score as ");
        s.append(tables[i].as_str());
        s.append("_rank");
        i += 1;
    }
    assert(parts.take(tables.len() as int) =~= parts);
}

fn append_qualified(s: &mut String, base: &str, cols: &[String], first: bool)
    ensures
        final(s)@ == old(s)@ + (if first || cols.len() == 0 {
            Seq::empty()
        } else {
            ", "@
        }) + join(strs_view(cols@).map_values(|c: Seq<char>| qualified(base@, c)), ", "@),
{
    let ghost parts = strs_view(cols@).map_values(|c: Seq<char>| qualified(base@, c));
    let ghost start = s@;
    let mut i: usize = 0;
    while i < cols.len()
        invariant
            i <= cols.len(),
            parts == strs_view(cols@).map_values(|c: Seq<char>| qualified(base@, c)),
            i == 0 ==> s@ == start,
            i > 0 ==> s@ == start + (if first {
                Seq::empty()
            } else {
                ", "@
            }) + join(parts.take(i as int), ", "@),
        decreases cols.len() - i,
    {
        proof {
            lemma_join_push(parts, ", "@, i as int);
        }
        if i > 0 || !first {
            s.append(", ");
        }
        s.append(base);
        push_char(s, '.');
        s.append(cols[i].as_str());
        i += 1;
    }
    assert(parts.take(cols.len() as int) =~= parts);
    proof {
        if cols.len() == 0 {
            assert(parts.len() == 0);
            assert(join(parts, ", "@) =~= Seq::empty());
        }
    }
}

fn append_key_equalities(s: &mut String, base: &str, table: &str, keys: &[String])
    ensures
        final(s)@ == old(s)@ + join(
            strs_view(keys@).map_values(|k: Seq<char>| key_equality(base@, table@, k)),
            " AND "@,
        ),
{
    let ghost parts = strs_view(keys@).map_values(|k: Seq<char>| key_equality(base@, table@, k));
    let ghost start = s@;
    let mut i: usize = 0;
    while i < keys.len()
        invariant
            i <= keys.len(),
            parts == strs_view(keys@).map_values(|k: Seq<char>| key_equality(base@, table@, k)),
            s@ == start + join(parts.take(i as int), " AND "@),
        decreases keys.len() - i,
    {
        proof {
            lemma_join_push(parts, " AND "@, i as int);
        }
        if i > 0 {
            s.append(" AND ");
        }
        s.append(base);
        push_char(s, '.');
        s.append(keys[i].as_str());
        s.append(" = ");
        s.append(table);
        push_char(s, '.');
        s.append(keys[i].as_str());
        i += 1;
    }
    assert(parts.take(keys.len() as int) =~= parts);
}

fn append_join_clauses(s: &mut String, tables: &[String], keys: &[String])
    requires
        tables.len() >= 1,
    ensures
        final(s)@ == old(s)@ + join(
            strs_view(tables@).skip(1).map_values(
                |t: Seq<char>| join_clause(tables@[0]@, t, strs_view(keys@)),
            ),
            " "@,
        ),
{
    let base = tables[0].as_str();
    let ghost kv = strs_view(keys@);
    let ghost parts = strs_view(tables@).skip(1).map_values(
        |t: Seq<char>| join_clause(base@, t, kv),
    );
    let ghost start = s@;
    let mut i: usize = 1;
    while i < tables.len()
        invariant
            1 <= i <= tables.len(),
            base@ == tables@[0]@,
            kv == strs_view(keys@),
            parts == strs_view(tables@).skip(1).map_values(
                |t: Seq<char>| join_clause(base@, t, kv),
            ),
            s@ == start + join(parts.take(i - 1), " "@),
        decreases tables.len() - i,
    {
        proof {
            lemma_join_push(parts, " "@, i - 1);
        }
        if i > 1 {
            s.append(" ");
        }
        s.append("JOIN ");
        s.append(tables[i].as_str());
        s.append(" ON ");
        append_key_equalities(s, base, tables[i].as_str(), keys);
        i += 1;
    }
    assert(parts.take(tables.len() - 1) =~= parts);
}

/// The SQL that fuses the candidate tables `tables` on the key columns
/// `primary_key`. The result does not depend on `limit`.
pub fn reciprocal_rank_fusion_sql(
    tables: &[String],
    primary_key: &[String],
    additional_columns: &[String],
    offset: usize,
    limit: usize,
) -> (res: String)
    requires
        tables.len() >= 1,
    ensures
        res@ == rrf_sql(
            strs_view(tables@),
            strs_view(primary_key@),
            strs_view(additional_columns@),
            offset as nat,
        ),
{
    let base = tables[0].as_str();
    let mut s = String::from_str("SELECT TRUNC(");
    append_rank_terms(&mut s, tables, offset);
    s.append(", 6) as final_rank, ");
    append_rank_columns(&mut s, tables);
    s.append(", ");
    let ghost before_keys = s@;
    append_qualified(&mut s, base, primary_key, true);
    append_qualified(&mut s, base, additional_columns, primary_key.len() == 0);
    proof {
        let kv = strs_view(primary_key@);
        let av = strs_view(additional_columns@);
        assert(strs_view((primary_key@ + additional_columns@)) =~= kv + av);
        assert((kv + av).map_values(|c: Seq<char>| qualified(base@, c)) =~= kv.map_values(
            |c: Seq<char>| qualified(base@, c),
        ) + av.map_values(|c: Seq<char>| qualified(base@, c)));
        lemma_join_concat(
            kv.map_values(|c: Seq<char>| qualified(base@, c)),
            av.map_values(|c: Seq<char>| qualified(base@, c)),
            ", "@,
        );
    }
    s.append(" FROM ");
    s.append(base);
    s.append(" ");
    append_join_clauses(&mut s, tables, primary_key);
    s.append(" ORDER BY final_rank DESC");
    s
}


/// `coalesce(<t1>.<col>, <t2>.<col>, ...) as <col>`
pub open spec fn coalesce_column(col: Seq<char>, tables: Seq<Seq<char>>) -> Seq<char> {
    "coalesce("@ + join(tables.map_values(|t: Seq<char>| qualified(t, col)), ", "@) + ") as "@
        + col
}

fn append_qualified_tables(s: &mut String, col: &str, tables: &[String])
    ensures
        final(s)@ == old(s)@ + join(
            strs_view(tables@).map_values(|t: Seq<char>| qualified(t, col@)),
            ", "@,
        ),
{
    let ghost parts = strs_view(tables@).map_values(|t: Seq<char>| qualified(t, col@));
    let ghost start = s@;
    let mut i: usize = 0;
    while i < tables.len()
        invariant
            i <= tables.len(),
            parts == strs_view(tables@).map_values(|t: Seq<char>| qualified(t, col@)),
            s@ == start + join(parts.take(i as int), ", "@),
        decreases tables.len() - i,
    {
        proof {
            lemma_join_push(parts, ", "@, i as int);
        }
        if i > 0 {
            s.append(", ");
        }
        s.append(tables[i].as_str());
        push_char(s, '.');
        s.append(col);
        i += 1;
    }
    assert(parts.take(tables.len() as int) =~= parts);
}

/// Coalesces each column across all tables:
/// `coalesce(bm25.doc_id, vector.doc_id) as doc_id,\n       ...`
pub fn coalesce_columns(cols: &[String], tables: &[String]) -> (res: String)
    ensures
        res@ == join(
            strs_view(cols@).map_values(|c: Seq<char>| coalesce_column(c, strs_view(tables@))),
            ",\n       "@,
        ),
{
    let ghost tv = strs_view(tables@);
    let ghost parts = strs_view(cols@).map_values(|c: Seq<char>| coalesce_column(c, tv));
    let mut s = String::new();
    let mut i: usize = 0;
    while i < cols.len()
        invariant
            i <= cols.len(),
            tv == strs_view(tables@),
            parts == strs_view(cols@).map_values(|c: Seq<char>| coalesce_column(c, tv)),
            s@ == join(parts.take(i as int), ",\n       "@),
        decreases cols.len() - i,
    {
        proof {
            lemma_join_push(parts, ",\n       "@, i as int);
        }
        if i > 0 {
            s.append(",\n       ");
        }
        s.append("coalesce(");
        append_qualified_tables(&mut s, cols[i].as_str(), tables);
        s.append(") as ");
        s.append(cols[i].as_str());
        i += 1;
    }
    assert(parts.take(cols.len() as int) =~= parts);
    s
}

/// Whether a column is one that every candidate set has (score or value).
pub open spec fn is_search_column(name: Seq<char>) -> bool {
    name == SEARCH_SCORE_COLUMN_NAME@ || name == SEARCH_VALUE_COLUMN_NAME@
}

/// The columns of `fields`, in order, that are neither search columns nor key columns.
pub open spec fn additional_columns(fields: Seq<Seq<char>>, keys: Seq<Seq<char>>) -> Seq<Seq<char>>
    decreases fields.len(),
{
    if fields.len() == 0 {
        Seq::empty()
    } else {
        let rest = additional_columns(fields.drop_last(), keys);
        let f = fields.last();
        if is_search_column(f) || keys.contains(f) {
            rest
        } else {
            rest.push(f)
        }
    }
}

fn contains_str(v: &[String], x: &String) -> (r: bool)
    ensures
        r == strs_view(v@).contains(x@),
{
    let mut i: usize = 0;
    while i < v.len()
        invariant
            i <= v.len(),
            forall|j: int| 0 <= j < i ==> v@[j]@ != x@,
        decreases v.len() - i,
    {
        if v[i] == *x {
            assert(strs_view(v@)[i as int] == x@);
            return true;
        }
        i += 1;
    }
    assert forall|j: int| 0 <= j < strs_view(v@).len() implies strs_view(v@)[j] != x@ by {
        assert(strs_view(v@)[j] == v@[j]@);
    }
    false
}

/// The columns of a candidate schema (given by its field names) other than
/// the key columns and the search columns.
pub fn additional_columns_of_schema(field_names: &[String], primary_key: &[String]) -> (res: Vec<
    String,
>)
    ensures
        strs_view(res@) == additional_columns(strs_view(field_names@), strs_view(primary_key@)),
{
    let ghost fv = strs_view(field_names@);
    let ghost kv = strs_view(primary_key@);
    let score = String::from_str(SEARCH_SCORE_COLUMN_NAME);
    let value = String::from_str(SEARCH_VALUE_COLUMN_NAME);
    let mut res: Vec<String> = Vec::new();
    let mut i: usize = 0;
    while i < field_names.len()
        invariant
            i <= field_names.len(),
            fv == strs_view(field_names@),
            kv == strs_view(primary_key@),
            score@ == SEARCH_SCORE_COLUMN_NAME@,
            value@ == SEARCH_VALUE_COLUMN_NAME@,
            strs_view(res@) == additional_columns(fv.take(i as int), kv),
        decreases field_names.len() - i,
    {
        assert(fv.take(i + 1).drop_last() =~= fv.take(i as int));
        assert(fv.take(i + 1).last() == field_names@[i as int]@);
        let name = &field_names[i];
        if !(*name == score || *name == value || contains_str(primary_key, name)) {
            let ghost prev = res@;
            res.push(name.clone());
            assert(strs_view(res@) =~= strs_view(prev).push(name@));
        }
        i += 1;
    }
    assert(fv.take(field_names.len() as int) =~= fv);
    res
}

/// A column of a candidate schema: its name, its data type (as text) and
/// whether it may hold nulls.
#[derive(Debug, Clone, PartialEq, Eq)]
pub struct SchemaField {
    pub name: String,
    pub data_type: String,
    pub nullable: bool,
}

/// The abstract content of a schema field.
pub open spec fn field_view(f: SchemaField) -> (Seq<char>, Seq<char>, bool) {
    (f.name@, f.data_type@, f.nullable)
}

/// The abstract content of a schema.
pub open spec fn schema_view(s: Seq<SchemaField>) -> Seq<(Seq<char>, Seq<char>, bool)> {
    s.map_values(|f: SchemaField| field_view(f))
}

/// Why candidate sets cannot be fused.
#[derive(Debug, Clone, PartialEq, Eq)]
pub enum CandidateError {
    /// No candidate set was generated.
    NoCandidatesGenerated,
    /// A candidate set lacks a required column.
    CandidateMissingRequiredColumn { col: String },
    /// Two candidate sets have different columns.
    InconsistentColumns,
}

/// Whether a schema has a column of that name.
pub open spec fn has_column(s: Seq<(Seq<char>, Seq<char>, bool)>, name: Seq<char>) -> bool {
    exists|i: int| 0 <= i < s.len() && #[trigger] s[i].0 == name
}

/// The outcome of checking candidate schemas, first failure first: each
/// schema in turn must have the value column, then the score column, then
/// the same fields as the first schema.
pub open spec fn schema_check(
    schemas: Seq<Seq<(Seq<char>, Seq<char>, bool)>>,
) -> Result<Seq<(Seq<char>, Seq<char>, bool)>, Seq<char>>
    decreases schemas.len(),
{
    if schemas.len() == 0 {
        Ok(Seq::empty())
    } else if schemas.len() == 1 {
        let s = schemas[0];
        if !has_column(s, SEARCH_VALUE_COLUMN_NAME@) {
            Err(SEARCH_VALUE_COLUMN_NAME@)
        } else if !has_column(s, SEARCH_SCORE_COLUMN_NAME@) {
            Err(SEARCH_SCORE_COLUMN_NAME@)
        } else {
            Ok(s)
        }
    } else {
        match schema_check(schemas.drop_last()) {
            Err(e) => Err(e),
            Ok(first) => {
                let s = schemas.last();
                if !has_column(s, SEARCH_VALUE_COLUMN_NAME@) {
                    Err(SEARCH_VALUE_COLUMN_NAME@)
                } else if !has_column(s, SEARCH_SCORE_COLUMN_NAME@) {
                    Err(SEARCH_SCORE_COLUMN_NAME@)
                } else if s != first {
                    Err(Seq::empty())
                } else {
                    Ok(first)
                }
            },
        }
    }
}

/// The abstract content of a list of schemas.
pub open spec fn schemas_view(v: Seq<Vec<SchemaField>>) -> Seq<Seq<(Seq<char>, Seq<char>, bool)>> {
    v.map_values(|s: Vec<SchemaField>| schema_view(s@))
}

/// The error that stands for a failed check: a missing column by its name,
/// or (empty name) inconsistent columns.
pub open spec fn is_check_error(e: CandidateError, col: Seq<char>) -> bool {
    if col.len() == 0 {
        e is InconsistentColumns
    } else {
        e matches CandidateError::CandidateMissingRequiredColumn { col: c } && c@ == col
    }
}

/// A failing prefix makes the whole check fail the same way.
proof fn lemma_schema_check_prefix(s: Seq<Seq<(Seq<char>, Seq<char>, bool)>>, k: int)
    requires
        1 <= k <= s.len(),
        schema_check(s.take(k)) is Err,
    ensures
        schema_check(s) == schema_check(s.take(k)),
    decreases s.len() - k,
{
    if k == s.len() {
        assert(s.take(k) =~= s);
    } else {
        assert(s.take(k + 1).drop_last() =~= s.take(k));
        lemma_schema_check_prefix(s, k + 1);
    }
}

fn find_column(s: &Vec<SchemaField>, name: &String) -> (r: bool)
    ensures
        r == has_column(schema_view(s@), name@),
{
    let mut i: usize = 0;
    while i < s.len()
        invariant
            i <= s.len(),
            forall|j: int| 0 <= j < i ==> s@[j].name@ != name@,
        decreases s.len() - i,
    {
        if s[i].name == *name {
            assert(schema_view(s@)[i as int].0 == name@);
            return true;
        }
        i += 1;
    }
    assert forall|j: int| 0 <= j < schema_view(s@).len() implies #[trigger] schema_view(s@)[j].0
        != name@ by {
        assert(schema_view(s@)[j].0 == s@[j].name@);
    }
    false
}

fn same_fields(a: &Vec<SchemaField>, b: &Vec<SchemaField>) -> (r: bool)
    ensures
        r == (schema_view(a@) == schema_view(b@)),
{
    if a.len() != b.len() {
        assert(schema_view(a@).len() != schema_view(b@).len());
        return false;
    }
    let mut i: usize = 0;
    while i < a.len()
        invariant
            i <= a.len() == b.len(),
            forall|j: int| 0 <= j < i ==> field_view(a@[j]) == field_view(b@[j]),
        decreases a.len() - i,
    {
        if !(a[i].name == b[i].name && a[i].data_type == b[i].data_type && a[i].nullable
            == b[i].nullable) {
            assert(schema_view(a@)[i as int] != schema_view(b@)[i as int]);
            return false;
        }
        i += 1;
    }
    assert(schema_view(a@) =~= schema_view(b@));
    true
}

/// Checks that every candidate schema has the value and score columns and
/// the same fields as the first; returns the first schema (empty when there
/// are no candidates).
pub fn verify_schema_compatibility(schemas: &Vec<Vec<SchemaField>>) -> (res: Result<
    Vec<SchemaField>,
    CandidateError,
>)
    ensures
        match schema_check(schemas_view(schemas@)) {
            Ok(first) => res matches Ok(f) && schema_view(f@) == first,
            Err(col) => res matches Err(e) && is_check_error(e, col),
        },
{
    let ghost sv = schemas_view(schemas@);
    if schemas.len() == 0 {
        let e: Vec<SchemaField> = Vec::new();
        assert(schema_view(e@) =~= Seq::empty());
        return Ok(e);
    }
    let score = String::from_str(SEARCH_SCORE_COLUMN_NAME);
    let value = String::from_str(SEARCH_VALUE_COLUMN_NAME);
    proof {
        reveal_strlit("score");
        reveal_strlit("value");
    }
    let mut i: usize = 0;
    while i < schemas.len()
        invariant
            i <= schemas.len(),
            schemas.len() >= 1,
            sv == schemas_view(schemas@),
            score@ == SEARCH_SCORE_COLUMN_NAME@,
            value@ == SEARCH_VALUE_COLUMN_NAME@,
            score@.len() > 0,
            value@.len() > 0,
            i >= 1 ==> schema_check(sv.take(i as int)) == Ok::<
                Seq<(Seq<char>, Seq<char>, bool)>,
                Seq<char>,
            >(sv[0]),
        decreases schemas.len() - i,
    {
        assert(sv.take(i + 1).drop_last() =~= sv.take(i as int));
        assert(sv.take(i + 1).last() == schema_view(schemas@[i as int]@));
        assert(sv.take(i + 1)[0] == sv[0]);
        if !find_column(&schemas[i], &value) {
            proof {
                lemma_schema_check_prefix(sv, i + 1);
            }
            return Err(CandidateError::CandidateMissingRequiredColumn { col: value });
        }
        if !find_column(&schemas[i], &score) {
            proof {
                lemma_schema_check_prefix(sv, i + 1);
            }
            return Err(CandidateError::CandidateMissingRequiredColumn { col: score });
        }
        if !same_fields(&schemas[i], &schemas[0]) {
            proof {
                lemma_schema_check_prefix(sv, i + 1);
            }
            return Err(CandidateError::InconsistentColumns);
        }
        i += 1;
    }
    assert(sv.take(schemas.len() as int) =~= sv);
    let mut first: Vec<SchemaField> = Vec::new();
    let mut j: usize = 0;
    while j < schemas[0].len()
        invariant
            schemas.len() >= 1,
            j <= schemas@[0].len(),
            schema_view(first@) == schema_view(schemas@[0]@).take(j as int),
        decreases schemas@[0].len() - j,
    {
        let f = &schemas[0][j];
        let ghost prev = first@;
        first.push(SchemaField { name: f.name.clone(), data_type: f.data_type.clone(), nullable: f.nullable });
        assert(schema_view(first@) =~= schema_view(prev).push(field_view(schemas@[0]@[j as int])));
        assert(schema_view(schemas@[0]@).take(j + 1) =~= schema_view(schemas@[0]@).take(j as int).push(
            schema_view(schemas@[0]@)[j as int],
        ));
        j += 1;
    }
    assert(schema_view(schemas@[0]@).take(schemas@[0].len() as int) =~= schema_view(schemas@[0]@));
    Ok(first)
}

/// The offset added to each rank.
pub const RRF_OFFSET: usize = 60;

/// `search_candidates_<i>`: the table of the `i`-th candidate set.
pub open spec fn candidate_table(i: nat) -> Seq<char> {
    "search_candidates_"@ + decimal(i)
}

/// The tables of `n` candidate sets, in order.
pub open spec fn candidate_tables(n: nat) -> Seq<Seq<char>> {
    Seq::new(n, |i: int| candidate_table(i as nat))
}

/// The names of the fields of a schema.
pub open spec fn field_names(s: Seq<(Seq<char>, Seq<char>, bool)>) -> Seq<Seq<char>> {
    s.map_values(|f: (Seq<char>, Seq<char>, bool)| f.0)
}

/// How candidate sets are fused.
#[derive(Debug, Clone, PartialEq, Eq)]
pub enum FusionPlan {
    /// The one candidate set is the result as it is.
    Single,
    /// Each candidate set is registered as a table under `table_names`, in
    /// order, and `sql` is run over them.
    Fuse { table_names: Vec<String>, sql: String },
}

/// Reciprocal Rank Fusion of candidate sets.
#[derive(Debug, Clone, Copy, PartialEq, Eq, Structural)]
pub struct ReciprocalRankFusion;

impl ReciprocalRankFusion {
    /// Decides how the candidate sets, given by their schemas, are fused on
    /// the key columns `primary_key`: none is an error; one is the result
    /// as it is; more must pass the schema check, and then are fused by the
    /// RRF query over their tables, with offset 60, selecting the
    /// additional columns of the first schema.
    pub fn aggregate(&self, schemas: &Vec<Vec<SchemaField>>, primary_key: &[String], limit: usize) -> (res:
        Result<FusionPlan, CandidateError>)
        ensures
            schemas.len() == 0 ==> res matches Err(CandidateError::NoCandidatesGenerated),
            schemas.len() == 1 ==> res matches Ok(FusionPlan::Single),
            schemas.len() >= 2 ==> match schema_check(schemas_view(schemas@)) {
                Err(col) => res matches Err(e) && is_check_error(e, col),
                Ok(first) => res matches Ok(FusionPlan::Fuse { table_names, sql }) && strs_view(
                    table_names@,
                ) == candidate_tables(schemas.len() as nat) && sql@ == rrf_sql(
                    candidate_tables(schemas.len() as nat),
                    strs_view(primary_key@),
                    additional_columns(field_names(first), strs_view(primary_key@)),
                    RRF_OFFSET as nat,
                ),
            },
    {
        if schemas.len() == 0 {
            return Err(CandidateError::NoCandidatesGenerated);
        }
        if schemas.len() == 1 {
            return Ok(FusionPlan::Single);
        }
        let first = match verify_schema_compatibility(schemas) {
            Ok(f) => f,
            Err(e) => return Err(e),
        };
        let ghost fv = schema_view(first@);
        let mut names: Vec<String> = Vec::new();
        let mut j: usize = 0;
        while j < first.len()
            invariant
                j <= first.len(),
                fv == schema_view(first@),
                strs_view(names@) == field_names(fv).take(j as int),
            decreases first.len() - j,
        {
            let ghost prev = names@;
            names.push(first[j].name.clone());
            assert(strs_view(names@) =~= strs_view(prev).push(first@[j as int].name@));
            assert(field_names(fv).take(j + 1) =~= field_names(fv).take(j as int).push(
                first@[j as int].name@,
            ));
            j += 1;
        }
        assert(field_names(fv).take(first.len() as int) =~= field_names(fv));
        let mut tables: Vec<String> = Vec::new();
        let mut i: usize = 0;
        while i < schemas.len()
            invariant
                i <= schemas.len(),
                strs_view(tables@) == candidate_tables(i as nat),
            decreases schemas.len() - i,
        {
            let mut t = String::from_str("search_candidates_");
            let d = decimal_string(i);
            t.append(d.as_str());
            let ghost prev = tables@;
            tables.push(t);
            assert(strs_view(tables@) =~= candidate_tables((i + 1) as nat)) by {
                assert(strs_view(tables@) =~= strs_view(prev).push(t@));
            }
            i += 1;
        }
        let additional = additional_columns_of_schema(names.as_slice(), primary_key);
        let sql = reciprocal_rank_fusion_sql(
            tables.as_slice(),
            primary_key,
            additional.as_slice(),
            RRF_OFFSET,
            limit,
        );
        Ok(FusionPlan::Fuse { table_names: tables, sql })
    }
}

} // verus!
