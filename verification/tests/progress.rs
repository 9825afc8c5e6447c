use spiceai::progress::{advance_stage, current_stage, jsonl_line, Index, Progress, ProgressType, StageName};

#[test]
fn stage_ids_and_progress_type_names() {
    assert_eq!(StageName::Research.id(), "research");
    assert_eq!(StageName::LogicalPlan.id(), "logical_plan");
    assert_eq!(StageName::PhysicalPlan.to_string(), "physical_plan");
    assert_eq!(StageName::Reporting.id(), "reporting");
    assert_eq!(ProgressType::Evaluation.as_str(), "eval");
    assert_eq!(ProgressType::Error.as_str(), "err");
    assert_eq!(ProgressType::Warning.to_string(), "warn");
    assert_eq!(ProgressType::Log.as_str(), "log");
}

#[test]
fn progress_builder_and_tags() {
    let p = Progress::new(ProgressType::Evaluation)
        .id("a".to_string())
        .title("t".to_string())
        .tag("scorer", "m1")
        .tag("score", "0.5")
        .tag("scorer", "m2");
    assert_eq!(p.id.as_deref(), Some("a"));
    assert_eq!(p.title.as_deref(), Some("t"));
    assert_eq!(p.parent_id, None);
    assert_eq!(
        p.tags,
        vec![("scorer".to_string(), "m2".to_string()), ("score".to_string(), "0.5".to_string())]
    );
}

#[test]
fn advance_stage_announces_next_stage() {
    let mut idx = Index::new(StageName::Research);
    let p = advance_stage(&mut idx, StageName::Execution);
    assert_eq!(current_stage(&idx), StageName::Execution);
    assert_eq!(p.id.as_deref(), Some("execution"));
    assert_eq!(p.title.as_deref(), Some("Executing"));
    assert_eq!(p.content.as_deref(), Some("Executing..."));
    let log = idx.log("hello".to_string());
    assert_eq!(log.parent_id.as_deref(), Some("execution"));
    assert_eq!(log.content.as_deref(), Some("hello"));
    assert_eq!(Index::new(StageName::PhysicalPlan).starting_message(), "Creating execution plan...");
    assert_eq!(Index::new(StageName::LogicalPlan).title(), "Logical Planning");
}

#[test]
fn jsonl_framing() {
    assert_eq!(jsonl_line(Some("{\"type\":\"log\"}".to_string())), "!---jsonl{\"type\":\"log\"}");
    assert_eq!(
        jsonl_line(None),
        "!---jsonl{ \"type\": \"err\", \"content\": \"Unexpected error converting progress to JSONL\" }"
    );
}
