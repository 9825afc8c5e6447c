use spiceai::executor::{execution_next, execution_start, ExecutionPosition as P};
use spiceai::plan::VerificationStatus;
use spiceai::executor::{
    follow_up, FollowUp, MAX_RECHECKS,
    fix_prompt, fix_reply, unfixable_message, FixReply,
    schema_feedback, validator_action, verification_prompt, ReplyCheck, ValidatorAction,
    MAX_PLANNING_RETRIES, MAX_SCHEMA_RETRIES, VERIFY_PROMPT_HEAD, VERIFY_PROMPT_TAIL,
};

#[test]
fn prompt_holds_the_criteria() {
    let p = verification_prompt("the file exists");
    assert!(p.starts_with("# Verify Tool Call Success\n\n                ## Success Criteria\n                the file exists\n\n                ## Guidelines\n"));
    assert!(p.ends_with("- Should we wait and retry later: [true/false]"));
    assert_eq!(p.len(), VERIFY_PROMPT_HEAD.len() + "the file exists".len() + VERIFY_PROMPT_TAIL.len());
}

#[test]
fn validator_retries_schema_violations_a_bounded_number_of_times() {
    assert_eq!(validator_action(0, MAX_SCHEMA_RETRIES, ReplyCheck::Valid), ValidatorAction::Accept);
    assert_eq!(validator_action(0, MAX_SCHEMA_RETRIES, ReplyCheck::NotJson), ValidatorAction::Fail);
    assert_eq!(validator_action(0, MAX_SCHEMA_RETRIES, ReplyCheck::BadFormat), ValidatorAction::Fail);
    let mut retries = 0;
    while validator_action(retries, MAX_SCHEMA_RETRIES, ReplyCheck::SchemaViolation) == ValidatorAction::Retry {
        retries += 1;
    }
    assert_eq!(retries, MAX_SCHEMA_RETRIES + 1);
    assert_eq!(retries, 6);
    let mut retries = 0;
    while validator_action(retries, MAX_PLANNING_RETRIES, ReplyCheck::SchemaViolation) == ValidatorAction::Retry {
        retries += 1;
    }
    assert_eq!(retries, 4);
}

#[test]
fn feedback_text() {
    assert_eq!(
        schema_feedback("missing `wait`"),
        "Your last response did not pass the structured output schema validation: missing `wait`.\nPlease re-generate the response exactly matching the structured output schema, including all required fields (status, reason, wait) and no extra properties."
    );
}

#[test]
fn fix_replies() {
    assert_eq!(
        fix_reply("{\"command\": \"ls -la\"}"),
        FixReply::Fixed { body: "{\"command\": \"ls -la\"}".to_string() }
    );
    assert_eq!(
        fix_reply("ERROR\nthe binary is missing\nmore"),
        FixReply::Unfixable { reason: "the binary is missing".to_string() }
    );
    assert_eq!(fix_reply("ERROR"), FixReply::Unfixable { reason: "Unknown error".to_string() });
    assert_eq!(fix_reply("ERRORS\n"), FixReply::Unfixable { reason: String::new() });
    assert_eq!(unfixable_message("x"), "Unable to fix tool call: x");
}

#[test]
fn fix_prompt_lists_the_command() {
    let p = fix_prompt("terminal", "ls", "no such dir", "exit 2");
    assert!(p.starts_with("You are an expert at understanding why commands failed and how to fix them.\n        The previous messages"));
    assert!(p.ends_with(
        "Command: terminal\n        Command input: ls\n        Command output: no such dir\n        Command failure reason: exit 2\n        "
    ));
}

#[test]
fn verdict_follow_ups() {
    assert_eq!(follow_up(VerificationStatus::Succeeded, true, 0), FollowUp::Accept);
    match follow_up(VerificationStatus::Failed, true, 0) {
        FollowUp::RecheckAfterWait { note } => {
            assert!(note.starts_with("# Verification Check #1 Required\n\n"));
            assert!(note.ends_with("a conclusive determination `succeeded` or `failed` after this waiting period."));
        }
        other => panic!("unexpected {other:?}"),
    }
    match follow_up(VerificationStatus::Inconclusive, false, 2) {
        FollowUp::RecheckDecisively { note } => {
            assert!(note.starts_with("# Verification Attempt #3 - Need Decisive Assessment\n\n"));
        }
        other => panic!("unexpected {other:?}"),
    }
    assert_eq!(follow_up(VerificationStatus::Failed, false, 0), FollowUp::Accept);
    assert_eq!(follow_up(VerificationStatus::Inconclusive, true, MAX_RECHECKS), FollowUp::Accept);
    assert_eq!(follow_up(VerificationStatus::Inconclusive, false, 3), FollowUp::Accept);
}

#[test]
fn summary_prompts() {
    let p = spiceai::executor::summarize_prompt("step one");
    assert!(p.starts_with("# Summarize Execution Steps\n\n                Create a concise summary (100-200 words)"));
    assert!(p.ends_with("## Execution Steps\n                step one"));
    let c = spiceai::executor::summary_context("done");
    assert!(c.starts_with("# Task Execution Summary\n            done\n\n            ## Instructions"));
    assert!(c.ends_with("- Build upon these completed actions rather than repeating work"));
    let r = spiceai::executor::report_prompt("log");
    assert!(r.starts_with("# Generate Software Testing QA Report"));
    assert!(r.ends_with("## Execution Log\n                log"));
}

#[test]
fn execution_goes_through_tasks_steps_and_summaries_in_order() {
    let steps = vec![2usize, 0, 1];
    let mut pos = execution_start(&steps);
    let mut seen = vec![pos];
    while pos != P::Finished {
        pos = execution_next(&steps, pos, true);
        seen.push(pos);
    }
    assert_eq!(
        seen,
        vec![
            P::RunStep { task: 0, step: 0 },
            P::RunStep { task: 0, step: 1 },
            P::SummarizeTask { task: 0 },
            P::SummarizeTask { task: 1 },
            P::RunStep { task: 2, step: 0 },
            P::SummarizeTask { task: 2 },
            P::FinalSummary,
            P::Finished,
        ]
    );
    assert_eq!(execution_start(&vec![]), P::FinalSummary);
    assert_eq!(execution_next(&steps, P::RunStep { task: 0, step: 1 }, false), P::Failed);
    assert_eq!(execution_next(&steps, P::Failed, true), P::Failed);
}
