use spiceai::search::{primary_keys_with_override, projection_columns, embedding_for_table, search_tables, VectorSearchError};

fn strs(v: &[&str]) -> Vec<String> {
    v.iter().map(|s| s.to_string()).collect()
}

#[test]
fn projection_keeps_first_occurrences() {
    let cols = projection_columns(&strs(&["id", "part"]), "body", &strs(&["title", "id", "body", "title", "url"]));
    assert_eq!(cols, strs(&["id", "part", "body", "title", "url"]));
    assert_eq!(projection_columns(&[], "body", &[]), strs(&["body"]));
}

#[test]
fn primary_keys_prefer_declared() {
    let explicit = strs(&["doc_id"]);
    assert_eq!(primary_keys_with_override(strs(&["id"]), Some(&explicit)), Some(strs(&["id"])));
    assert_eq!(primary_keys_with_override(vec![], Some(&explicit)), Some(explicit.clone()));
    assert_eq!(primary_keys_with_override(vec![], None), None);
}

fn strings(xs: &[&str]) -> Vec<String> {
    xs.iter().map(|x| x.to_string()).collect()
}

#[test]
fn search_runs_over_named_or_embedded_tables() {
    assert_eq!(search_tables(Some(strings(&["a"])), strings(&["b"])), Ok(strings(&["a"])));
    assert_eq!(search_tables(None, strings(&["b", "c"])), Ok(strings(&["b", "c"])));
    assert_eq!(search_tables(None, vec![]), Err(VectorSearchError::NoTablesWithEmbeddingsFound));
    assert_eq!(search_tables(Some(vec![]), strings(&["b"])), Err(VectorSearchError::NoTablesWithEmbeddingsFound));
}

#[test]
fn embedding_column_and_model_of_a_table() {
    let cols = strings(&["body", "title"]);
    let models = strings(&["m1", "m2"]);
    let loaded = strings(&["m0", "m1"]);
    assert_eq!(
        embedding_for_table("t", true, &cols, &models, &loaded),
        Ok(("body".to_string(), "m1".to_string()))
    );
    let cannot = Err(VectorSearchError::CannotVectorSearchDataset { data_source: "t".to_string() });
    assert_eq!(embedding_for_table("t", false, &cols, &models, &loaded), cannot);
    assert_eq!(embedding_for_table("t", true, &cols, &vec![], &loaded), cannot);
    assert_eq!(embedding_for_table("t", true, &cols, &strings(&["m2"]), &loaded), cannot);
    assert_eq!(
        embedding_for_table("t", true, &vec![], &models, &loaded),
        Err(VectorSearchError::NoEmbeddingColumns { data_source: "t".to_string() })
    );
}
