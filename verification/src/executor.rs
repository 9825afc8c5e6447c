//! The decisions of the physical plan executor and planner around their
//! models: the prompts they send, whether a structured reply is taken,
//! asked again or failed, what follows a verifier's verdict, and how a
//! failed tool call's fix is read.

use vstd::prelude::*;
use crate::pipeline::{begins_with, begins_with_str};
use crate::plan::VerificationStatus;
use crate::text::{chars_of, decimal, decimal_string, string_of, sub_chars, find_char, find_in, lemma_find_char};

verus! {

/// The verification prompt up to the success criteria.
pub const VERIFY_PROMPT_HEAD: &'static str = "# Verify Tool Call Success

                ## Success Criteria
                ";

/// The verification prompt after the success criteria.
pub const VERIFY_PROMPT_TAIL: &'static str = "

                ## Guidelines
                1. Non-zero status codes aren't always failures - examine the actual output
                2. Background processes may run without returning status codes
                3. Terminal commands need output verification beyond status codes
                4. Stderr output doesn't always indicate failure
                5. Use tools to verify success criteria if needed
                6. Make additional tool calls if verification requires more data
                7. Classify after thorough investigation

                ## Expected Classification
                - `succeeded`: Success criteria met with evidence
                - `failed`: Evidence shows criteria not met
                - `inconclusive`: Need more information to determine

                ## Example Successful Classification Process
                1. Inspect the tool output. The tool output talks about a terminal command that completed with status code 4, with a method to access terminal logs based on a terminal ID.
                2. Because the status code is non-zero, we need to inspect the terminal logs to determine if the command actually failed.
                3. Make a tool call to retrieve the relevant terminal logs.
                4. The terminal logs include no error messages, and the command output is as expected.
                5. The tool call is classified as successful.

                ## Example Successful Classification Process
                1. Inspect the tool output. The tool output shows that a background service `postgres` was started with a command that exited with status code 0.
                2. Make a tool call to check if the daemon process is running with `ps -aux | grep postgres`.
                3. The tool output confirms the daemon is running with PID 12345.
                4. Make a tool call to retrieve the relevant terminal logs.
                5. The logs show some error messages about configuration warnings, but the service is still running.
                6. The tool call is classified as successful because the daemon is running as expected, despite the warnings in the logs.
                7. The warning details are included in the reason section of the verification response.

                ## Example Failed Classification Process
                1. Inspect the tool step. The tool step talks about removing some files.
                2. Because the tool step talks about removing files, we need to inspect the filesystem to determine if the files were actually removed.
                3. Make a tool call to retrieve the relevant filesystem information.
                4. The filesystem information includes the list of files, and the files are still present.
                5. The tool call is classified as failed.

                ## Example Inconclusive Classification Process
                1. Inspect the tool step. The tool step talks about a terminal command that is still running.
                2. Make a tool call to retrieve the relevant terminal logs.
                3. The terminal logs include no error messages.
                4. Because the process is still running, the tool call is classified as inconclusive.

                In this situation, we should wait a few minutes and check again.
                On the second check:
                1. Make a tool call to retrieve the terminal logs.
                2. The terminal logs include no error messages, and the terminal is idle.
                3. The tool call is classified as successful.

                ## Response Format
                - Status: [`succeeded`,`failed`,`inconclusive`]
                - Reasoning: Clear explanation of your classification
                - Should we wait and retry later: [true/false]";

/// The prompt that asks the verifier model whether a tool call met
/// `success_criteria`.
pub fn verification_prompt(success_criteria: &str) -> (res: String)
    ensures
        res@ == VERIFY_PROMPT_HEAD@ + success_criteria@ + VERIFY_PROMPT_TAIL@,
{
    let mut s = String::from_str(VERIFY_PROMPT_HEAD);
    s.append(success_criteria);
    s.append(VERIFY_PROMPT_TAIL);
    s
}

/// How a verifier reply fared against the response format.
#[derive(Debug, Clone, Copy, PartialEq, Eq, Structural)]
pub enum ReplyCheck {
    /// The reply is a valid verification response.
    Valid,
    /// The reply is not JSON.
    NotJson,
    /// The response format itself could not be read.
    BadFormat,
    /// The reply is JSON that breaks the response schema.
    SchemaViolation,
}

/// What the validator does with a reply.
#[derive(Debug, Clone, Copy, PartialEq, Eq, Structural)]
pub enum ValidatorAction {
    /// Take the reply.
    Accept,
    /// Give up with an error.
    Fail,
    /// Ask again, with the reply and feedback on it added.
    Retry,
}

/// The retries after which the verifier's replies stop being asked again.
pub const MAX_SCHEMA_RETRIES: usize = 5;

/// The retries after which the step planner's replies stop being asked
/// again.
pub const MAX_PLANNING_RETRIES: usize = 3;

/// The decision on a reply after `retries` earlier retries, when at most
/// `limit` are allowed past the first: a valid reply is taken, an unreadable
/// one fails, one that breaks the schema is asked again until the retries
/// exceed `limit`.
pub open spec fn validator_action_spec(retries: usize, limit: usize, check: ReplyCheck) -> ValidatorAction {
    match check {
        ReplyCheck::Valid => ValidatorAction::Accept,
        ReplyCheck::NotJson | ReplyCheck::BadFormat => ValidatorAction::Fail,
        ReplyCheck::SchemaViolation => if retries > limit {
            ValidatorAction::Fail
        } else {
            ValidatorAction::Retry
        },
    }
}

/// Decides what is done with a structured reply after `retries` retries.
pub fn validator_action(retries: usize, limit: usize, check: ReplyCheck) -> (res: ValidatorAction)
    ensures
        res == validator_action_spec(retries, limit, check),
{
    match check {
        ReplyCheck::Valid => ValidatorAction::Accept,
        ReplyCheck::NotJson | ReplyCheck::BadFormat => ValidatorAction::Fail,
        ReplyCheck::SchemaViolation => {
            if retries > limit {
                ValidatorAction::Fail
            } else {
                ValidatorAction::Retry
            }
        },
    }
}

/// A reply is asked again at most `limit + 1` times: past that many
/// retries, every reply is taken or fails.
pub proof fn lemma_validator_bounded(retries: usize, limit: usize, check: ReplyCheck)
    ensures
        validator_action_spec(retries, limit, check) == ValidatorAction::Retry ==> retries <= limit,
        retries > limit ==> validator_action_spec(retries, limit, check) != ValidatorAction::Retry,
{
}

/// The feedback sent after a reply that broke the response schema.
pub open spec fn schema_feedback_text(error: Seq<char>) -> Seq<char> {
    "Your last response did not pass the structured output schema validation: "@ + error
        + ".\nPlease re-generate the response exactly matching the structured output schema, including all required fields (status, reason, wait) and no extra properties."@
}

/// The feedback on a reply that broke the response schema with `error`.
pub fn schema_feedback(error: &str) -> (res: String)
    ensures
        res@ == schema_feedback_text(error@),
{
    let mut s = String::from_str(
        "Your last response did not pass the structured output schema validation: ",
    );
    s.append(error);
    s.append(
        ".\nPlease re-generate the response exactly matching the structured output schema, including all required fields (status, reason, wait) and no extra properties.",
    );
    s
}

/// The fixing prompt up to the command.
pub const FIX_PROMPT_HEAD: &'static str = "You are an expert at understanding why commands failed and how to fix them.
        The previous messages have the history of the conversation so far.
        You need to figure out why this command failed and how to fix it.
        Your output should be a JSON object with the new command input.
        If you cannot fix the command, return the word ERROR on the first line, and on the second line, return the reason why you cannot fix it.

        Command: ";

/// The prompt that asks a model to fix a failed tool call: the command, its
/// input, its output and why it failed.
pub open spec fn fix_prompt_text(tool: Seq<char>, body: Seq<char>, output: Seq<char>, reason: Seq<char>) -> Seq<char> {
    FIX_PROMPT_HEAD@ + tool + "
        Command input: "@ + body + "
        Command output: "@ + output
        + "
        Command failure reason: "@ + reason + "
        "@
}

/// The prompt that asks a model to fix a failed tool call.
pub fn fix_prompt(tool: &str, body: &str, output: &str, reason: &str) -> (res: String)
    ensures
        res@ == fix_prompt_text(tool@, body@, output@, reason@),
{
    let mut s = String::from_str(FIX_PROMPT_HEAD);
    s.append(tool);
    s.append("
        Command input: ");
    s.append(body);
    s.append("
        Command output: ");
    s.append(output);
    s.append("
        Command failure reason: ");
    s.append(reason);
    s.append("
        ");
    s
}

/// What the fixing model answered.
#[derive(Debug, Clone, PartialEq, Eq)]
pub enum FixReply {
    /// The new input of the command.
    Fixed { body: String },
    /// The model could not fix the command, for this reason.
    Unfixable { reason: String },
}

/// The second of the `\n`-separated lines of a text that holds a `\n`.
pub open spec fn second_line(t: Seq<char>) -> Seq<char> {
    let rest = t.skip(find_char(t, '\n') + 1);
    let j = find_char(rest, '\n');
    if j >= 0 {
        rest.take(j)
    } else {
        rest
    }
}

/// Reads the fixing model's answer: one that begins with `ERROR` gives the
/// reason on its second line (`Unknown error` when it has one line only);
/// any other answer is the command's new input.
pub fn fix_reply(message: &str) -> (res: FixReply)
    ensures
        if begins_with(message@, "ERROR"@) {
            res matches FixReply::Unfixable { reason } && reason@ == if message@.contains('\n') {
                second_line(message@)
            } else {
                "Unknown error"@
            }
        } else {
            res matches FixReply::Fixed { body } && body@ == message@
        },
{
    let cs = chars_of(message);
    if !begins_with_str(cs.as_slice(), "ERROR") {
        return FixReply::Fixed { body: String::from_str(message) };
    }
    proof {
        lemma_find_char(cs@, '\n');
    }
    match find_in(cs.as_slice(), '\n') {
        None => {
            proof {
                if message@.contains('\n') {
                    let k = choose|k: int| 0 <= k < message@.len() && message@[k] == '\n';
                    assert(cs@[k] == '\n');
                }
            }
            FixReply::Unfixable { reason: String::from_str("Unknown error") }
        },
        Some(i) => {
            assert(i < cs.len());
            assert(cs@[i as int] == '\n');
            assert(message@.contains('\n'));
            let rest = sub_chars(cs.as_slice(), i + 1, cs.len());
            assert(rest@ =~= message@.skip(i + 1));
            proof {
                lemma_find_char(rest@, '\n');
            }
            match find_in(rest.as_slice(), '\n') {
                Some(j) => {
                    let line = sub_chars(rest.as_slice(), 0, j);
                    assert(line@ =~= rest@.take(j as int));
                    FixReply::Unfixable { reason: string_of(line.as_slice()) }
                },
                None => FixReply::Unfixable { reason: string_of(rest.as_slice()) },
            }
        },
    }
}

/// `Unable to fix tool call: <reason>`
pub fn unfixable_message(reason: &str) -> (res: String)
    ensures
        res@ == "Unable to fix tool call: "@ + reason@,
{
    let mut s = String::from_str("Unable to fix tool call: ");
    s.append(reason);
    s
}

/// The most times a tool call is verified again after waiting.
pub const MAX_RECHECKS: usize = 3;

/// The text that follows the number in the note added when the verifier
/// asked to wait.
pub const WAITED_NOTE_TAIL: &'static str = " Required\n\n                                        Previous attempts to verify the tool call were inconclusive, and you recommended waiting.\n\n                                        ## Instructions\n                                        1. The system state has likely changed during the waiting period\n                                        2. Use appropriate tools to gather fresh evidence:\n                                        - Check terminal logs\n                                        - Verify process status\n                                        - Examine file contents/permissions\n                                        - Confirm network connectivity\n                                        3. Make a definitive assessment based on the success criteria\n                                        4. Provide clear reasoning for your conclusion\n\n                                        Your goal is to reach a conclusive determination `succeeded` or `failed` after this waiting period.";

/// The text that follows the number in the note added when the verifier
/// was inconclusive without asking to wait.
pub const DECISIVE_NOTE_TAIL: &'static str = " - Need Decisive Assessment\n\n                                    Previous verification attempts were inconclusive. You MUST make a decisive determination now by:\n                                    - Collecting additional evidence through appropriate tool calls\n                                    - Checking updated terminal logs or process status\n                                    - Verifying file system changes or network status\n                                    - Examining any relevant metrics or state changes since last check\n\n                                    Focus on gathering concrete evidence that directly addresses success criteria.\n                                    Be thorough but decisive - a conclusive verdict `succeeded` or `failed` is required.";

/// What the executor does after the verifier's verdict on a tool call.
#[derive(Debug, Clone, PartialEq, Eq)]
pub enum FollowUp {
    /// Take the verdict.
    Accept,
    /// Wait, then verify again on the step history with the verifier's
    /// answer and this note as a user message.
    RecheckAfterWait { note: String },
    /// Wait, then verify again on the whole exchange with the verifier's
    /// answer and this note as a system message.
    RecheckDecisively { note: String },
}

/// The follow-up of a verdict at verification number `iteration` (0 for
/// the first): a failed or inconclusive verdict that asks to wait, or an
/// inconclusive one that does not, is verified again while fewer than
/// three rechecks were made; any other verdict is taken.
pub open spec fn follow_up_spec(status: VerificationStatus, wait: bool, iteration: usize) -> Option<(bool, Seq<char>)> {
    if iteration < MAX_RECHECKS && wait && (status == VerificationStatus::Failed || status
        == VerificationStatus::Inconclusive) {
        Some((true, "# Verification Check #"@ + decimal((iteration + 1) as nat) + WAITED_NOTE_TAIL@))
    } else if iteration < MAX_RECHECKS && !wait && status == VerificationStatus::Inconclusive {
        Some((false, "# Verification Attempt #"@ + decimal((iteration + 1) as nat) + DECISIVE_NOTE_TAIL@))
    } else {
        None
    }
}

/// Decides the follow-up of a verdict at verification number `iteration`.
pub fn follow_up(status: VerificationStatus, wait: bool, iteration: usize) -> (res: FollowUp)
    ensures
        match follow_up_spec(status, wait, iteration) {
            None => res == FollowUp::Accept,
            Some((true, note)) => res matches FollowUp::RecheckAfterWait { note: n } && n@ == note,
            Some((false, note)) => res matches FollowUp::RecheckDecisively { note: n } && n@ == note,
        },
{
    if iteration >= MAX_RECHECKS {
        return FollowUp::Accept;
    }
    let number = decimal_string(iteration + 1);
    let failed_or_unsure = match status {
        VerificationStatus::Failed | VerificationStatus::Inconclusive => true,
        VerificationStatus::Succeeded => false,
    };
    if wait && failed_or_unsure {
        let mut note = String::from_str("# Verification Check #");
        note.append(number.as_str());
        note.append(WAITED_NOTE_TAIL);
        FollowUp::RecheckAfterWait { note }
    } else if !wait && status == VerificationStatus::Inconclusive {
        let mut note = String::from_str("# Verification Attempt #");
        note.append(number.as_str());
        note.append(DECISIVE_NOTE_TAIL);
        FollowUp::RecheckDecisively { note }
    } else {
        FollowUp::Accept
    }
}

/// A tool call is verified at most `MAX_RECHECKS + 1` times: from the
/// third recheck on, every verdict is taken; a successful verdict is always
/// taken.
pub proof fn lemma_rechecks_bounded(status: VerificationStatus, wait: bool, iteration: usize)
    ensures
        iteration >= MAX_RECHECKS ==> follow_up_spec(status, wait, iteration) is None,
        status == VerificationStatus::Succeeded ==> follow_up_spec(status, wait, iteration) is None,
{
}

/// While fewer than three rechecks were made, a verdict that is not a
/// success is verified again: after waiting, when the verifier asked to
/// wait (the note numbers the check); decisively, when an inconclusive
/// verdict did not ask to wait (the note numbers the attempt). A failed
/// verdict that does not ask to wait is taken.
pub proof fn lemma_unsure_verdicts_are_rechecked(status: VerificationStatus, wait: bool, iteration: usize)
    requires
        iteration < 3,
    ensures
        status != VerificationStatus::Succeeded && wait ==> follow_up_spec(status, wait, iteration) == Some(
            (true, "# Verification Check #"@ + decimal((iteration + 1) as nat) + WAITED_NOTE_TAIL@),
        ),
        status == VerificationStatus::Inconclusive && !wait ==> follow_up_spec(status, wait, iteration) == Some(
            (false, "# Verification Attempt #"@ + decimal((iteration + 1) as nat) + DECISIVE_NOTE_TAIL@),
        ),
        status == VerificationStatus::Failed && !wait ==> follow_up_spec(status, wait, iteration) is None,
{
}

/// The request to summarize a task's executed steps, before the steps.
pub const SUMMARIZE_PROMPT_HEAD: &'static str = "# Summarize Execution Steps\n\n                Create a concise summary (100-200 words) of these execution steps focusing on:\n                1. Main results achieved\n                2. Completed steps\n                3. Important discoveries\n                4. Technical details relevant for future tasks\n\n                Omit process descriptions and unnecessary details.\n\n                ## Execution Steps\n                ";

/// The context that a task's summary is passed on in, before the summary.
pub const SUMMARY_CONTEXT_HEAD: &'static str = "# Task Execution Summary\n            ";

/// The context that a task's summary is passed on in, after the summary.
pub const SUMMARY_CONTEXT_TAIL: &'static str = "\n\n            ## Instructions\n            - Use this summary as context for subsequent tasks\n            - Reference key findings and outcomes when relevant\n            - Build upon these completed actions rather than repeating work";

/// The request for the final report, before the execution log.
pub const REPORT_PROMPT_HEAD: &'static str = "# Generate Software Testing QA Report\n\n                Create a professional report (Markdown format) with:\n\n                1. **Executive Summary** (1-2 sentence overview)\n                2. **Test Objectives** (What was tested and why, max 3 points)\n                3. **Test Process** (Approach summary, max 3 points)\n                4. **Results Summary** (~300 words)\n                   - Key tests with success indicators (✅/❌)\n                   - Issues, warnings, and info with indicators (⚠️/ℹ️)\n                5. **Data & Evidence**\n                   - Include relevant data, logs, and evidence\n                   - Use Markdown code blocks for clarity\n                5. **Learnings and Recommendations** (brief, max 3 points)\n                6. **Next Steps** (brief, max 3 points)\n\n                Be concise, highlight success/failure points clearly, and provide actionable insights.\n\n                ## Guidelines\n                - Wrap URLs, code, constants, and filenames in backticks\n\n                ## Execution Log\n                ";

/// The request to summarize a task's executed steps, given as text.
pub fn summarize_prompt(steps: &str) -> (res: String)
    ensures
        res@ == SUMMARIZE_PROMPT_HEAD@ + steps@,
{
    let mut s = String::from_str(SUMMARIZE_PROMPT_HEAD);
    s.append(steps);
    s
}

/// The message that passes a task's summary on to the next tasks.
pub fn summary_context(summary: &str) -> (res: String)
    ensures
        res@ == SUMMARY_CONTEXT_HEAD@ + summary@ + SUMMARY_CONTEXT_TAIL@,
{
    let mut s = String::from_str(SUMMARY_CONTEXT_HEAD);
    s.append(summary);
    s.append(SUMMARY_CONTEXT_TAIL);
    s
}

/// The request for the final report on an execution log.
pub fn report_prompt(log: &str) -> (res: String)
    ensures
        res@ == REPORT_PROMPT_HEAD@ + log@,
{
    let mut s = String::from_str(REPORT_PROMPT_HEAD);
    s.append(log);
    s
}

/// Where the execution of a physical plan stands: tasks run in order,
/// each step of a task in order, then the task's steps are summarized; a
/// final summary closes the plan.
#[derive(Debug, Clone, Copy, PartialEq, Eq, Structural)]
pub enum ExecutionPosition {
    /// Run step `step` of task `task`.
    RunStep { task: usize, step: usize },
    /// Summarize the executed steps of task `task`.
    SummarizeTask { task: usize },
    /// Summarize the whole execution.
    FinalSummary,
    /// The plan has been executed.
    Finished,
    /// A step or summary failed: the execution stops with its error.
    Failed,
}

/// Where task `t` begins, given the number of steps of each task: its first
/// step, or its summary when it has none; the final summary past the last
/// task.
pub open spec fn task_entry(steps: Seq<usize>, t: int) -> ExecutionPosition {
    if t >= steps.len() {
        ExecutionPosition::FinalSummary
    } else if steps[t] == 0 {
        ExecutionPosition::SummarizeTask { task: t as usize }
    } else {
        ExecutionPosition::RunStep { task: t as usize, step: 0 }
    }
}

/// Whether a position names a task and step of the plan.
pub open spec fn valid_position(steps: Seq<usize>, pos: ExecutionPosition) -> bool {
    match pos {
        ExecutionPosition::RunStep { task, step } => task < steps.len() && step < steps[task as int],
        ExecutionPosition::SummarizeTask { task } => task < steps.len(),
        _ => true,
    }
}

/// What follows `pos` when it succeeded (`ok`) or failed.
pub open spec fn execution_next_spec(steps: Seq<usize>, pos: ExecutionPosition, ok: bool) -> ExecutionPosition {
    match pos {
        ExecutionPosition::Finished => ExecutionPosition::Finished,
        ExecutionPosition::Failed => ExecutionPosition::Failed,
        _ => if !ok {
            ExecutionPosition::Failed
        } else {
            match pos {
                ExecutionPosition::RunStep { task, step } => if step + 1 < steps[task as int] {
                    ExecutionPosition::RunStep { task, step: (step + 1) as usize }
                } else {
                    ExecutionPosition::SummarizeTask { task }
                },
                ExecutionPosition::SummarizeTask { task } => task_entry(steps, task + 1),
                _ => ExecutionPosition::Finished,
            }
        },
    }
}

/// Where the execution of a plan whose tasks have `steps` steps begins.
pub fn execution_start(steps: &Vec<usize>) -> (res: ExecutionPosition)
    ensures
        res == task_entry(steps@, 0),
{
    if steps.len() == 0 {
        ExecutionPosition::FinalSummary
    } else if steps[0] == 0 {
        ExecutionPosition::SummarizeTask { task: 0 }
    } else {
        ExecutionPosition::RunStep { task: 0, step: 0 }
    }
}

/// What the executor does after `pos` succeeded or failed.
pub fn execution_next(steps: &Vec<usize>, pos: ExecutionPosition, ok: bool) -> (res: ExecutionPosition)
    requires
        valid_position(steps@, pos),
    ensures
        res == execution_next_spec(steps@, pos, ok),
        valid_position(steps@, res),
{
    match pos {
        ExecutionPosition::Finished => ExecutionPosition::Finished,
        ExecutionPosition::Failed => ExecutionPosition::Failed,
        _ => {
            if !ok {
                return ExecutionPosition::Failed;
            }
            match pos {
                ExecutionPosition::RunStep { task, step } => {
                    if step + 1 < steps[task] {
                        ExecutionPosition::RunStep { task, step: step + 1 }
                    } else {
                        ExecutionPosition::SummarizeTask { task }
                    }
                },
                ExecutionPosition::SummarizeTask { task } => {
                    let n = steps.len();
                    let t = task + 1;
                    if t >= steps.len() {
                        ExecutionPosition::FinalSummary
                    } else if steps[t] == 0 {
                        ExecutionPosition::SummarizeTask { task: t }
                    } else {
                        ExecutionPosition::RunStep { task: t, step: 0 }
                    }
                },
                _ => ExecutionPosition::Finished,
            }
        },
    }
}

/// How many positions come before task `t`: each earlier task's steps and
/// its summary.
pub open spec fn positions_before(steps: Seq<usize>, t: int) -> int
    decreases t,
{
    if t <= 0 {
        0
    } else {
        positions_before(steps, t - 1) + steps[t - 1] + 1
    }
}

/// The place of a position in the order of execution: every step of every
/// task and each task's summary, in order, then the final summary, then the
/// end.
pub open spec fn execution_rank(steps: Seq<usize>, pos: ExecutionPosition) -> int {
    match pos {
        ExecutionPosition::RunStep { task, step } => positions_before(steps, task as int) + step,
        ExecutionPosition::SummarizeTask { task } => positions_before(steps, task as int) + steps[task as int],
        ExecutionPosition::FinalSummary => positions_before(steps, steps.len() as int),
        _ => positions_before(steps, steps.len() as int) + 1,
    }
}

/// The executor goes through a plan in order, one position at a time: the
/// first position has rank 0, and while everything succeeds each position
/// is followed by the one ranked next, so every step of every task runs
/// once, in order, each task's summary follows its steps, and the final
/// summary comes last; a failure ends the execution. (A plan holds at most
/// `usize::MAX` tasks.)
pub proof fn lemma_execution_in_order(steps: Seq<usize>, pos: ExecutionPosition)
    requires
        steps.len() <= usize::MAX,
        valid_position(steps, pos),
    ensures
        execution_rank(steps, task_entry(steps, 0)) == 0,
        pos !is Finished && pos !is Failed ==> execution_rank(steps, execution_next_spec(steps, pos, true))
            == execution_rank(steps, pos) + 1,
        pos !is Finished ==> execution_next_spec(steps, pos, false) is Failed,
{
    match pos {
        ExecutionPosition::SummarizeTask { task } => {
            let t = task + 1;
            assert(positions_before(steps, t) == positions_before(steps, task as int)
                + steps[task as int] + 1);
            if t < steps.len() {
                assert(((t as usize) as int) == t);
            }
        },
        _ => {},
    }
}

} // verus!
