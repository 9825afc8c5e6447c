use spiceai::plan::{
    available_models_note, planned_step, planned_steps_note, step_goal_prompt,
    logical_plan_complete_summary, should_retry_on_error, trace_execution_progress, Action,
    LogicalPlan, LogicalStep, LogicalTask, PromptStep, Step, StepType, ToolStep,
    VerificationResponse, VerificationStatus,
};

fn step(uuid: Option<u128>) -> LogicalStep {
    LogicalStep {
        uuid,
        description: "d".to_string(),
        tags: None,
        action: Action::ReadObject,
        input: "i".to_string(),
        success_criteria: "s".to_string(),
    }
}

#[test]
fn add_uuids_fills_missing_only() {
    let mut plan = LogicalPlan {
        tasks: vec![
            LogicalTask { uuid: Some(7), objective: "one".to_string(), tags: None, steps: vec![step(None), step(Some(9))] },
            LogicalTask { uuid: None, objective: "two".to_string(), tags: Some(vec!["t".to_string()]), steps: vec![] },
        ],
    };
    plan.add_uuids();
    assert_eq!(plan.tasks[0].uuid, Some(7));
    assert!(plan.tasks[0].steps[0].uuid.is_some());
    assert_eq!(plan.tasks[0].steps[1].uuid, Some(9));
    assert!(plan.tasks[1].uuid.is_some());
    assert_ne!(plan.tasks[1].uuid, plan.tasks[0].steps[0].uuid);
    assert_eq!(plan.tasks[1].tags, Some(vec!["t".to_string()]));
    assert_eq!(plan.tasks[0].steps[0].description, "d");
}

#[test]
fn logical_plan_summary() {
    let plan = LogicalPlan {
        tasks: vec![
            LogicalTask { uuid: None, objective: "read".to_string(), tags: None, steps: vec![] },
            LogicalTask { uuid: None, objective: "write".to_string(), tags: None, steps: vec![] },
        ],
    };
    assert_eq!(
        logical_plan_complete_summary(&plan),
        "\nFinished Logical Plan. 2 tasks identified, with the following objectives:\n- read\n- write\n\nCreating physical plan"
    );
}

#[test]
fn step_types_and_task_ids() {
    assert_eq!(StepType::from_action(Action::ExecuteTerminal), StepType::Tool);
    assert_eq!(StepType::from_action(Action::WriteObject), StepType::Tool);
    assert_eq!(StepType::from_action(Action::Validation), StepType::Prompt);
    assert_eq!(StepType::from_action(Action::Response), StepType::Prompt);
    let s = Step::Prompt(PromptStep {
        task_uuid: None,
        prompt: "p".to_string(),
        model: "m".to_string(),
        success_criteria: "c".to_string(),
    });
    assert_eq!(s.task_id(), None);
    let s = s.with_task_id(Some(0x1234));
    assert_eq!(s.task_id(), Some(0x1234));
}

#[test]
fn execution_trace_lines() {
    let tool = Step::Tool(ToolStep {
        task_uuid: Some(0x67e55044_10b1_426f_9247_bb680e5fe0c8),
        tool: "sql".to_string(),
        body: "SELECT 1".to_string(),
        model: "m".to_string(),
        success_criteria: "ok".to_string(),
    });
    let (a, b) = trace_execution_progress(&tool, "1");
    assert_eq!(a, "Task ID: 67e55044-10b1-426f-9247-bb680e5fe0c8, calling tool: sql\nSELECT 1");
    assert_eq!(b, "Task ID: 67e55044-10b1-426f-9247-bb680e5fe0c8, tool response:\n1");
    let prompt = Step::Prompt(PromptStep {
        task_uuid: None,
        prompt: "summarize".to_string(),
        model: "gpt".to_string(),
        success_criteria: "c".to_string(),
    });
    let (a, _) = trace_execution_progress(&prompt, "");
    assert_eq!(a, "Task ID: None, calling model gpt to complete action: summarize");
}

#[test]
fn verification_display_and_retry_codes() {
    let r = VerificationResponse { status: VerificationStatus::Failed, reason: "bad".to_string(), wait: false };
    assert_eq!(r.to_string(), "Tool Call Result: failed\n### Reasoning\nbad");
    assert_eq!(VerificationStatus::Inconclusive.to_string(), "inconclusive");
    assert!(should_retry_on_error(Some("string_above_max_length")));
    assert!(!should_retry_on_error(Some("failed_to_parse_structured_output")));
    assert!(!should_retry_on_error(None));
}

#[test]
fn test_new_logical_plan() {
    let mut plan = LogicalPlan {
        tasks: vec![LogicalTask {
            uuid: None,
            objective: "Task 1".to_string(),
            tags: Some(vec!["setup".to_string()]),
            steps: vec![
                LogicalStep {
                    uuid: None,
                    description: "Change to temporary directory".to_string(),
                    tags: Some(vec!["filesystem".to_string()]),
                    action: Action::ChangeDirectory,
                    input: "/tmp".to_string(),
                    success_criteria: "Directory changed".to_string(),
                },
                LogicalStep {
                    uuid: None,
                    description: "Create test directory".to_string(),
                    tags: None,
                    action: Action::CreateDirectory,
                    input: "/tmp/test".to_string(),
                    success_criteria: "Directory created".to_string(),
                },
            ],
        }],
    };
    plan.add_uuids();

    assert_eq!(plan.tasks.len(), 1);
    assert_eq!(plan.tasks[0].steps.len(), 2);
    assert!(plan.tasks[0].uuid.is_some());
    assert!(plan.tasks[0].steps[0].uuid.is_some());
    assert!(plan.tasks[0].steps[1].uuid.is_some());
}

#[test]
fn test_logical_plan_retains_uuid() {
    let id = uuid::Uuid::parse_str("d1b3b3b4-0b3b-4b3b-8b3b-0b3b3b3b3b3b").expect("Should be a UUID").as_u128();
    let mut plan = LogicalPlan {
        tasks: vec![LogicalTask {
            uuid: Some(id),
            objective: "Stage 1".to_string(),
            tags: None,
            steps: vec![LogicalStep {
                uuid: Some(id),
                description: "Step 1".to_string(),
                tags: None,
                action: Action::ChangeDirectory,
                input: "/tmp".to_string(),
                success_criteria: "Directory changed".to_string(),
            }],
        }],
    };
    plan.add_uuids();

    assert_eq!(plan.tasks.len(), 1);
    assert_eq!(plan.tasks[0].uuid, Some(id));
}

#[test]
fn planner_steps_and_notes() {
    let tool = Step::Tool(ToolStep {
        task_uuid: None,
        tool: "shell".to_string(),
        body: "ls".to_string(),
        model: "whatever".to_string(),
        success_criteria: "listed".to_string(),
    });
    match planned_step(tool, Some(7)) {
        Step::Tool(t) => {
            assert_eq!(t.model, "orchestrator-o3-mini");
            assert_eq!(t.task_uuid, Some(7));
            assert_eq!(t.body, "ls");
        }
        Step::Prompt(_) => panic!("a tool step stays a tool step"),
    }
    assert_eq!(planned_steps_note("[]"), "The following steps have been planned already: [].");
    assert_eq!(available_models_note("gpt"), "The following models are available for selection: gpt");
    let p = step_goal_prompt("ship it", "{\"a\":1}");
    assert!(p.starts_with("# Goal\n\n            Create a physical plan step"));
    assert!(p.ends_with("# Task Objective\n\n            ship it\n\n            # Logical Plan Step\n\n            {\"a\":1}"));
}
