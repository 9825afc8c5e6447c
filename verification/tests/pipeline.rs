use spiceai::pipeline::{
    missing_model_error, pipeline_next, AdvanceMode, AgentPipeline, PipelineAction, PipelineStart,
};
use spiceai::progress::StageName;

#[test]
fn plain_request_starts_with_research() {
    assert_eq!(
        PipelineStart::from_content("find the slow queries"),
        PipelineStart::Research { prompt: "find the slow queries".to_string() }
    );
    assert_eq!(
        PipelineStart::from_content(""),
        PipelineStart::Research { prompt: String::new() }
    );
}

#[test]
fn stage_files_on_the_last_line() {
    let text = "first line\n.researching is a prefix match";
    assert_eq!(
        PipelineStart::from_content(text),
        PipelineStart::ResearchFile { path: "is".to_string() }
    );
    assert_eq!(
        PipelineStart::from_content("context\n.research artifacts.json"),
        PipelineStart::ResearchFile { path: "artifacts.json".to_string() }
    );
    assert_eq!(
        PipelineStart::from_content(".logical_plan plan.json extra\n"),
        PipelineStart::LogicalPlanFile { path: "plan.json".to_string() }
    );
    assert_eq!(
        PipelineStart::from_content("x\r\n.physical_plan exec.json\r\n"),
        PipelineStart::PhysicalPlanFile { path: "exec.json".to_string() }
    );
    assert_eq!(
        PipelineStart::from_content(".research  spaced"),
        PipelineStart::ResearchFile { path: String::new() }
    );
}

#[test]
fn command_not_on_the_last_line_is_a_prompt() {
    let text = ".research old.json\nnow something else";
    assert_eq!(
        PipelineStart::from_content(text),
        PipelineStart::Research { prompt: text.to_string() }
    );
    let trailing_blank = ".research old.json\n\n";
    assert_eq!(
        PipelineStart::from_content(trailing_blank),
        PipelineStart::Research { prompt: trailing_blank.to_string() }
    );
}

#[test]
fn pipeline_stage_names() {
    assert_eq!(AgentPipeline::Research { prompt: "p".to_string() }.stage_name(), StageName::Research);
    assert_eq!(AgentPipeline::Output("done".to_string()).stage_name(), StageName::Reporting);
}

#[test]
fn stages_follow_in_order_until_the_report() {
    assert_eq!(pipeline_next(StageName::Research, AdvanceMode::Continue), PipelineAction::Run(StageName::LogicalPlan));
    assert_eq!(pipeline_next(StageName::LogicalPlan, AdvanceMode::Continue), PipelineAction::Run(StageName::PhysicalPlan));
    assert_eq!(pipeline_next(StageName::PhysicalPlan, AdvanceMode::Continue), PipelineAction::Run(StageName::Execution));
    assert_eq!(pipeline_next(StageName::Execution, AdvanceMode::Continue), PipelineAction::Run(StageName::Reporting));
    assert_eq!(pipeline_next(StageName::Reporting, AdvanceMode::Continue), PipelineAction::Finish);
    assert_eq!(pipeline_next(StageName::Research, AdvanceMode::Stop), PipelineAction::Stop);
    assert_eq!(pipeline_next(StageName::Reporting, AdvanceMode::Stop), PipelineAction::Finish);
}

#[test]
fn first_missing_model_is_reported() {
    let names = vec!["r".to_string(), "lp".to_string(), "pt".to_string()];
    assert_eq!(missing_model_error(&names, &vec![true, true, true]), None);
    assert_eq!(
        missing_model_error(&names, &vec![true, false, false]),
        Some("Model lp not found.".to_string())
    );
}
