//! Column choices of a vector search over a table: which primary keys it
//! reports, and which columns it projects.

use vstd::prelude::*;
use crate::reciprocal_rank::strs_view;
use crate::text::str_eq;

verus! {

/// The elements of `s` in order, each kept at its first occurrence only.
pub open spec fn unique_first(s: Seq<Seq<char>>) -> Seq<Seq<char>>
    decreases s.len(),
{
    if s.len() == 0 {
        Seq::empty()
    } else {
        let r = unique_first(s.drop_last());
        if r.contains(s.last()) {
            r
        } else {
            r.push(s.last())
        }
    }
}

/// Keeping first occurrences leaves no duplicate and loses no element.
pub proof fn lemma_unique_first(s: Seq<Seq<char>>)
    ensures
        unique_first(s).no_duplicates(),
        forall|x: Seq<char>| unique_first(s).contains(x) <==> s.contains(x),
    decreases s.len(),
{
    if s.len() > 0 {
        let d = s.drop_last();
        lemma_unique_first(d);
        let r = unique_first(d);
        assert forall|x: Seq<char>| s.contains(x) <==> (d.contains(x) || x == s.last()) by {
            if s.contains(x) {
                let i = choose|i: int| 0 <= i < s.len() && s[i] == x;
                if i < d.len() {
                    assert(d[i] == x);
                }
            }
            if d.contains(x) {
                let i = choose|i: int| 0 <= i < d.len() && d[i] == x;
                assert(s[i] == x);
            }
            if x == s.last() {
                assert(s[s.len() - 1] == x);
            }
        }
        if !r.contains(s.last()) {
            let n = r.push(s.last());
            assert forall|x: Seq<char>| n.contains(x) <==> (r.contains(x) || x == s.last()) by {
                if n.contains(x) {
                    let i = choose|i: int| 0 <= i < n.len() && n[i] == x;
                    if i < r.len() {
                        assert(r[i] == x);
                    }
                }
                if r.contains(x) {
                    let i = choose|i: int| 0 <= i < r.len() && r[i] == x;
                    assert(n[i] == x);
                }
                if x == s.last() {
                    assert(n[r.len() as int] == x);
                }
            }
            assert forall|i: int, j: int| 0 <= i < n.len() && 0 <= j < n.len() && i != j implies n[i]
                != n[j] by {
                if i == r.len() {
                    assert(n[j] == r[j]);
                } else if j == r.len() {
                    assert(n[i] == r[i]);
                } else {
                    assert(n[i] == r[i] && n[j] == r[j]);
                }
            }
        }
    }
}

fn contains_text(v: &Vec<String>, x: &String) -> (r: bool)
    ensures
        r == strs_view(v@).contains(x@),
{
    let mut i: usize = 0;
    while i < v.len()
        invariant
            i <= v.len(),
            forall|j: int| 0 <= j < i ==> strs_view(v@)[j] != x@,
        decreases v.len() - i,
    {
        assert(strs_view(v@)[i as int] == v@[i as int]@);
        if str_eq(v[i].as_str(), x.as_str()) {
            return true;
        }
        i += 1;
    }
    false
}

/// The columns a vector search over a table projects: its primary keys,
/// its embedding column, then the extra columns asked for, each once, at
/// its first place.
pub fn projection_columns(primary_keys: &[String], embedding_column: &str, additional_columns: &[String]) -> (res:
    Vec<String>)
    ensures
        strs_view(res@) == unique_first(
            strs_view(primary_keys@).push(embedding_column@) + strs_view(additional_columns@),
        ),
{
    let mut all: Vec<String> = Vec::new();
    let mut i: usize = 0;
    while i < primary_keys.len()
        invariant
            i <= primary_keys.len(),
            strs_view(all@) == strs_view(primary_keys@).take(i as int),
        decreases primary_keys.len() - i,
    {
        let ghost prev = all@;
        all.push(primary_keys[i].clone());
        assert(strs_view(all@) =~= strs_view(prev).push(primary_keys@[i as int]@));
        assert(strs_view(all@) =~= strs_view(primary_keys@).take(i + 1));
        i += 1;
    }
    assert(strs_view(primary_keys@).take(primary_keys.len() as int) =~= strs_view(primary_keys@));
    let ghost before_emb = all@;
    all.push(String::from_str(embedding_column));
    let ghost head = strs_view(all@);
    assert(head =~= strs_view(before_emb).push(embedding_column@));
    assert(head =~= strs_view(primary_keys@).push(embedding_column@));
    let mut k: usize = 0;
    while k < additional_columns.len()
        invariant
            k <= additional_columns.len(),
            strs_view(all@) == head + strs_view(additional_columns@).take(k as int),
        decreases additional_columns.len() - k,
    {
        let ghost prev = all@;
        all.push(additional_columns[k].clone());
        assert(strs_view(all@) =~= strs_view(prev).push(additional_columns@[k as int]@));
        assert(strs_view(all@) =~= head + strs_view(additional_columns@).take(k + 1));
        k += 1;
    }
    assert(strs_view(additional_columns@).take(additional_columns.len() as int) =~= strs_view(
        additional_columns@,
    ));
    let ghost src = strs_view(all@);
    let mut res: Vec<String> = Vec::new();
    let mut j: usize = 0;
    while j < all.len()
        invariant
            j <= all.len(),
            src == strs_view(all@),
            strs_view(res@) == unique_first(src.take(j as int)),
        decreases all.len() - j,
    {
        assert(src.take(j + 1).drop_last() =~= src.take(j as int));
        assert(src.take(j + 1).last() == all@[j as int]@);
        if !contains_text(&res, &all[j]) {
            let ghost prev = res@;
            res.push(all[j].clone());
            assert(strs_view(res@) =~= strs_view(prev).push(all@[j as int]@));
        }
        j += 1;
    }
    assert(src.take(all.len() as int) =~= src);
    res
}

/// The primary keys a vector search reports for a table: those its
/// constraints declare, or, when it declares none, those given explicitly
/// in the spicepod; none when neither has any.
pub fn primary_keys_with_override(declared: Vec<String>, explicit: Option<&Vec<String>>) -> (res: Option<
    Vec<String>,
>)
    ensures
        declared@.len() > 0 ==> res == Some(declared),
        declared@.len() == 0 ==> match explicit {
            Some(e) => res matches Some(r) && r@ == e@,
            None => res is None,
        },
{
    if declared.len() > 0 {
        Some(declared)
    } else {
        match explicit {
            Some(e) => {
                let mut out: Vec<String> = Vec::new();
                let mut i: usize = 0;
                while i < e.len()
                    invariant
                        i <= e.len(),
                        out@ == e@.take(i as int),
                    decreases e.len() - i,
                {
                    out.push(e[i].clone());
                    assert(out@ =~= e@.take(i + 1));
                    i += 1;
                }
                assert(e@.take(e.len() as int) =~= e@);
                Some(out)
            },
            None => None,
        }
    }
}

/// Why a vector search cannot run.
#[derive(Debug, Clone, PartialEq, Eq)]
pub enum VectorSearchError {
    /// No dataset was named and no dataset has embeddings.
    NoTablesWithEmbeddingsFound,
    /// The dataset has no embeddings, names no embedding model, or its
    /// model is not loaded.
    CannotVectorSearchDataset { data_source: String },
    /// The dataset's embeddings have no column.
    NoEmbeddingColumns { data_source: String },
}

/// The datasets a search runs over: those the request names, else those
/// with embeddings; none at all is an error.
pub fn search_tables(requested: Option<Vec<String>>, with_embeddings: Vec<String>) -> (res: Result<
    Vec<String>,
    VectorSearchError,
>)
    ensures
        ({
            let chosen = match requested {
                Some(r) => r@,
                None => with_embeddings@,
            };
            if chosen.len() == 0 {
                res == Err::<Vec<String>, VectorSearchError>(VectorSearchError::NoTablesWithEmbeddingsFound)
            } else {
                res matches Ok(t) && t@ == chosen
            }
        }),
{
    let tables = match requested {
        Some(r) => r,
        None => with_embeddings,
    };
    if tables.len() == 0 {
        Err(VectorSearchError::NoTablesWithEmbeddingsFound)
    } else {
        Ok(tables)
    }
}

/// Whether `name` is among `loaded`.
pub open spec fn is_loaded(loaded: Seq<String>, name: Seq<char>) -> bool {
    exists|i: int| 0 <= i < loaded.len() && loaded[i]@ == name
}

/// The embedding column and model a dataset is searched with: its first
/// embedding column and its first embedding model, which must be loaded.
/// A dataset without embeddings, without a model, or whose model is not
/// loaded cannot be searched; one without an embedding column has none to
/// search.
pub fn embedding_for_table(
    table: &str,
    has_embeddings: bool,
    columns: &Vec<String>,
    models: &Vec<String>,
    loaded: &Vec<String>,
) -> (res: Result<(String, String), VectorSearchError>)
    ensures
        !has_embeddings ==> (res matches Err(VectorSearchError::CannotVectorSearchDataset { data_source }) && data_source@ == table@),
        has_embeddings && columns@.len() == 0 ==> (res matches Err(VectorSearchError::NoEmbeddingColumns { data_source }) && data_source@ == table@),
        has_embeddings && columns@.len() > 0 && (models@.len() == 0 || !is_loaded(loaded@, models@[0]@))
            ==> (res matches Err(VectorSearchError::CannotVectorSearchDataset { data_source }) && data_source@ == table@),
        has_embeddings && columns@.len() > 0 && models@.len() > 0 && is_loaded(loaded@, models@[0]@)
            ==> (res matches Ok((c, m)) && c@ == columns@[0]@ && m@ == models@[0]@),
{
    if !has_embeddings {
        return Err(VectorSearchError::CannotVectorSearchDataset { data_source: table.to_string() });
    }
    if columns.len() == 0 {
        return Err(VectorSearchError::NoEmbeddingColumns { data_source: table.to_string() });
    }
    if models.len() == 0 {
        return Err(VectorSearchError::CannotVectorSearchDataset { data_source: table.to_string() });
    }
    let model = &models[0];
    let mut i: usize = 0;
    while i < loaded.len()
        invariant
            i <= loaded@.len(),
            has_embeddings,
            columns@.len() > 0,
            models@.len() > 0,
            *model == models@[0],
            forall|j: int| 0 <= j < i ==> loaded@[j]@ != model@,
        decreases loaded.len() - i,
    {
        if str_eq(loaded[i].as_str(), model.as_str()) {
            return Ok((columns[0].clone(), model.clone()));
        }
        i += 1;
    }
    Err(VectorSearchError::CannotVectorSearchDataset { data_source: table.to_string() })
}

} // verus!
