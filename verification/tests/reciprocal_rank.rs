use spiceai::reciprocal_rank::{
    additional_columns_of_schema, coalesce_columns, reciprocal_rank_fusion_sql,
    verify_schema_compatibility, CandidateError, FusionPlan, ReciprocalRankFusion, SchemaField,
};

#[test]
fn test_single_table_single_key() {
    let tables = vec!["bm25".to_string()];
    let key_cols = ["doc_id".to_string()];
    let sql = reciprocal_rank_fusion_sql(tables.as_slice(), key_cols.as_slice(), &[], 42, 3);
    let expected = "SELECT TRUNC((1.0 / (bm25.score + 42)), 6) as final_rank, bm25.score as bm25_rank, bm25.doc_id \
    FROM bm25  \
    ORDER BY final_rank DESC";
    assert_eq!(sql, expected);
}

#[test]
fn test_two_tables_single_key() {
    let tables = vec!["bm25".to_string(), "vector".to_string()];
    let key_cols = ["doc_id".to_string()];
    let sql = reciprocal_rank_fusion_sql(tables.as_slice(), key_cols.as_slice(), &[], 5, 3);
    let expected = "SELECT TRUNC((1.0 / (bm25.score + 5)) + (1.0 / (vector.score + 5)), 6) as final_rank, bm25.score as bm25_rank, vector.score as vector_rank, bm25.doc_id \
    FROM bm25 JOIN vector ON bm25.doc_id = vector.doc_id \
    ORDER BY final_rank DESC";
    assert_eq!(sql, expected);
}

#[test]
fn test_three_tables_composite_key() {
    let tables = vec!["t1".to_string(), "t2".to_string(), "t3".to_string()];
    let key_cols = ["doc_id".to_string(), "section".to_string()];
    let sql = reciprocal_rank_fusion_sql(tables.as_slice(), key_cols.as_slice(), &[], 100, 4);
    let expected = "SELECT TRUNC((1.0 / (t1.score + 100)) + (1.0 / (t2.score + 100)) + (1.0 / (t3.score + 100)), 6) as final_rank, t1.score as t1_rank, t2.score as t2_rank, t3.score as t3_rank, t1.doc_id, t1.section \
    FROM t1 JOIN t2 ON t1.doc_id = t2.doc_id AND t1.section = t2.section JOIN t3 ON t1.doc_id = t3.doc_id AND t1.section = t3.section \
    ORDER BY final_rank DESC";
    assert_eq!(sql, expected);
}

#[test]
fn test_multiple_keys_and_tables() {
    let tables = vec!["alpha".to_string(), "beta".to_string()];
    let key_cols = ["k1".to_string(), "k2".to_string(), "k3".to_string()];
    let sql = reciprocal_rank_fusion_sql(tables.as_slice(), key_cols.as_slice(), &[], 2, 4);
    let expected = "SELECT TRUNC((1.0 / (alpha.score + 2)) + (1.0 / (beta.score + 2)), 6) as final_rank, alpha.score as alpha_rank, beta.score as beta_rank, alpha.k1, alpha.k2, alpha.k3 \
    FROM alpha JOIN beta ON alpha.k1 = beta.k1 AND alpha.k2 = beta.k2 AND alpha.k3 = beta.k3 \
    ORDER BY final_rank DESC";
    assert_eq!(sql, expected);
}

#[test]
fn rrf_sql_selects_additional_columns_after_keys() {
    let tables = vec!["a".to_string(), "b".to_string()];
    let keys = ["id".to_string()];
    let extra = ["title".to_string(), "body".to_string()];
    let sql = reciprocal_rank_fusion_sql(&tables, &keys, &extra, 60, 10);
    assert_eq!(
        sql,
        "SELECT TRUNC((1.0 / (a.score + 60)) + (1.0 / (b.score + 60)), 6) as final_rank, a.score as a_rank, b.score as b_rank, a.id, a.title, a.body FROM a JOIN b ON a.id = b.id ORDER BY final_rank DESC"
    );
}

#[test]
fn coalesce_columns_over_tables() {
    let cols = ["doc_id".to_string(), "section".to_string()];
    let tables = ["bm25".to_string(), "vector".to_string()];
    assert_eq!(
        coalesce_columns(&cols, &tables),
        "coalesce(bm25.doc_id, vector.doc_id) as doc_id,\n       coalesce(bm25.section, vector.section) as section"
    );
    assert_eq!(coalesce_columns(&[], &tables), "");
}

#[test]
fn additional_columns_skip_keys_and_search_columns() {
    let fields = ["score".to_string(), "doc_id".to_string(), "title".to_string(), "value".to_string(), "body".to_string()];
    let keys = ["doc_id".to_string()];
    assert_eq!(additional_columns_of_schema(&fields, &keys), vec!["title".to_string(), "body".to_string()]);
}

fn field(name: &str, ty: &str) -> SchemaField {
    SchemaField { name: name.to_string(), data_type: ty.to_string(), nullable: true }
}

#[test]
fn schema_checks() {
    let good = vec![field("value", "Utf8"), field("score", "Float64"), field("id", "Int64")];
    assert_eq!(verify_schema_compatibility(&vec![]), Ok(vec![]));
    assert_eq!(verify_schema_compatibility(&vec![good.clone(), good.clone()]), Ok(good.clone()));
    let no_value = vec![field("score", "Float64")];
    assert_eq!(
        verify_schema_compatibility(&vec![good.clone(), no_value]),
        Err(CandidateError::CandidateMissingRequiredColumn { col: "value".to_string() })
    );
    let no_score = vec![field("value", "Utf8")];
    assert_eq!(
        verify_schema_compatibility(&vec![no_score]),
        Err(CandidateError::CandidateMissingRequiredColumn { col: "score".to_string() })
    );
    let other = vec![field("value", "Utf8"), field("score", "Float64"), field("id", "Utf8")];
    assert_eq!(
        verify_schema_compatibility(&vec![good, other]),
        Err(CandidateError::InconsistentColumns)
    );
}

fn text_field(name: &str) -> SchemaField {
    field(name, "Utf8")
}

fn candidate_schema() -> Vec<SchemaField> {
    vec![text_field("doc_id"), text_field("value"), text_field("score"), text_field("title")]
}

#[test]
fn rrf_aggregate_without_candidates_fails() {
    let pk = ["doc_id".to_string()];
    let res = ReciprocalRankFusion.aggregate(&vec![], &pk, 10);
    assert_eq!(res, Err(CandidateError::NoCandidatesGenerated));
}

#[test]
fn rrf_aggregate_single_candidate_passes_through() {
    let pk = ["doc_id".to_string()];
    let res = ReciprocalRankFusion.aggregate(&vec![vec![text_field("anything")]], &pk, 10);
    assert_eq!(res, Ok(FusionPlan::Single));
}

#[test]
fn rrf_aggregate_fuses_two_candidates() {
    let pk = ["doc_id".to_string()];
    let res = ReciprocalRankFusion.aggregate(&vec![candidate_schema(), candidate_schema()], &pk, 10);
    let names = vec!["search_candidates_0".to_string(), "search_candidates_1".to_string()];
    let sql = reciprocal_rank_fusion_sql(names.as_slice(), &pk, &["title".to_string()], 60, 10);
    assert!(sql.starts_with(
        "SELECT TRUNC((1.0 / (search_candidates_0.score + 60)) + (1.0 / (search_candidates_1.score + 60)), 6) as final_rank"
    ));
    assert_eq!(res, Ok(FusionPlan::Fuse { table_names: names, sql }));
}

#[test]
fn rrf_aggregate_reports_schema_errors() {
    let pk = ["doc_id".to_string()];
    let missing_score = vec![text_field("doc_id"), text_field("value")];
    let res = ReciprocalRankFusion.aggregate(&vec![candidate_schema(), missing_score], &pk, 10);
    assert_eq!(
        res,
        Err(CandidateError::CandidateMissingRequiredColumn { col: "score".to_string() })
    );
    let other = vec![text_field("doc_id"), text_field("value"), text_field("score")];
    let res = ReciprocalRankFusion.aggregate(&vec![candidate_schema(), other], &pk, 10);
    assert_eq!(res, Err(CandidateError::InconsistentColumns));
}
