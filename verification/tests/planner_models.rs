use spiceai::planner_models::{
    model, planner_model, prompt_planner_model, tool_planner_model, Model, ParamValue,
    PROMPT_PLANNER_PROMPT, TOOL_PLANNER_PROMPT_HEAD,
};

fn format() -> ParamValue {
    ParamValue::Json("{\"type\":\"json_schema\"}".to_string())
}

#[test]
fn agentic_logical_planner_test_planner_model() {
    let orchestrator = Model::new("openai:gpt-4o", "orchestrator");
    let model = planner_model(orchestrator, format());
    assert_eq!(model.name, "agentic_logical_planner");
}

#[test]
fn planner_test_planner_model() {
    let logical_planner = Model::new("openai:gpt-4o", "logical_planner");
    let model = model(logical_planner, format());
    assert_eq!(model.name, "agentic_logical_planner");
}

#[test]
fn test_physical_prompt_planner_model() {
    let physical_planner = Model::new("openai:gpt-4o", "physical_planner");
    let model = prompt_planner_model(physical_planner, format());
    assert_eq!(model.name, "agentic_physical_prompt_planner");
    assert_eq!(model.from, "openai:gpt-4o");
}

#[test]
fn test_physical_tool_planner_model() {
    let physical_planner = Model::new("openai:gpt-4o", "physical_planner");
    let model = tool_planner_model(physical_planner, format(), "[]");
    assert_eq!(model.name, "agentic_physical_tool_planner");
    assert_eq!(model.from, "openai:gpt-4o");
}

#[test]
fn derived_model_keeps_parameters_and_adds_its_own() {
    let mut base = Model::new("openai:gpt-4o", "physical_planner");
    base.params.insert("temperature".to_string(), ParamValue::Json("0.1".to_string()));
    base.params.insert("system_prompt".to_string(), ParamValue::Text("old".to_string()));
    let m = prompt_planner_model(base, format());
    assert_eq!(m.params.get("temperature"), Some(&ParamValue::Json("0.1".to_string())));
    assert_eq!(m.params.get("openai_response_format"), Some(&format()));
    assert_eq!(
        m.params.get("system_prompt"),
        Some(&ParamValue::Text(PROMPT_PLANNER_PROMPT.to_string()))
    );
    let t = tool_planner_model(Model::new("x", "y"), format(), "[\"terminal\"]");
    match t.params.get("system_prompt") {
        Some(ParamValue::Text(p)) => {
            assert!(p.starts_with(TOOL_PLANNER_PROMPT_HEAD));
            assert!(p.ends_with("The following tools are available: [\"terminal\"]"));
            assert!(p.contains("\"body\": \"{\\\"command\\\":\\\"cd /tmp\\\"}\""));
        }
        _ => panic!("no system prompt"),
    }
}
