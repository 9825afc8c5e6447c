//! Logical and physical plans of the agent pipeline.

use vstd::prelude::*;
use vstd::string::StringExecFns;
use crate::text::{decimal, decimal_string, push_char, str_eq};
use crate::ids::{new_uuid, uuid_text, uuid_to_string};

verus! {

broadcast use vstd::string::group_string_axioms;

/// What a logical step asks for.
#[derive(Debug, Clone, Copy, PartialEq, Eq, Structural)]
pub enum Action {
    ChangeDirectory,
    CreateDirectory,
    ReadObject,
    WriteObject,
    ExecuteTerminal,
    Other,
    Response,
    RequestForInfo,
    RetrieveMetadata,
    Validation,
    Improvement,
}

/// A step of a logical plan.
#[derive(Debug, Clone)]
pub struct LogicalStep {
    pub uuid: Option<u128>,
    pub description: String,
    pub tags: Option<Vec<String>>,
    pub action: Action,
    pub input: String,
    pub success_criteria: String,
}

/// A task of a logical plan.
#[derive(Debug, Clone)]
pub struct LogicalTask {
    pub uuid: Option<u128>,
    pub objective: String,
    pub tags: Option<Vec<String>>,
    pub steps: Vec<LogicalStep>,
}

/// A logical plan: tasks made of steps.
#[derive(Debug, Clone)]
pub struct LogicalPlan {
    pub tasks: Vec<LogicalTask>,
}

/// The characters of optional tags.
pub open spec fn tags_view(t: Option<Vec<String>>) -> Option<Seq<Seq<char>>> {
    match t {
        Some(v) => Some(v@.map_values(|s: String| s@)),
        None => None,
    }
}

/// `step` with only its identifier possibly changed.
pub open spec fn same_step_but_uuid(a: LogicalStep, b: LogicalStep) -> bool {
    &&& a.description == b.description
    &&& tags_view(a.tags) == tags_view(b.tags)
    &&& a.action == b.action
    &&& a.input == b.input
    &&& a.success_criteria == b.success_criteria
}

/// An identifier kept when present, given when absent.
pub open spec fn uuid_filled(before: Option<u128>, after: Option<u128>) -> bool {
    &&& after is Some
    &&& before is Some ==> after == before
}

fn fill_step_uuids(steps: &mut Vec<LogicalStep>)
    ensures
        final(steps)@.len() == old(steps)@.len(),
        forall|j: int|
            0 <= j < old(steps)@.len() ==> same_step_but_uuid(old(steps)@[j], #[trigger] final(steps)@[j])
                && uuid_filled(old(steps)@[j].uuid, final(steps)@[j].uuid),
{
    let mut j: usize = 0;
    while j < steps.len()
        invariant
            j <= steps.len(),
            steps@.len() == old(steps)@.len(),
            forall|k: int|
                0 <= k < steps@.len() ==> same_step_but_uuid(old(steps)@[k], #[trigger] steps@[k]),
            forall|k: int| 0 <= k < j ==> uuid_filled(old(steps)@[k].uuid, #[trigger] steps@[k].uuid),
            forall|k: int| j <= k < steps@.len() ==> #[trigger] steps@[k].uuid == old(steps)@[k].uuid,
        decreases steps.len() - j,
    {
        if steps[j].uuid.is_none() {
            let id = new_uuid();
            let mut step = steps[j].clone_step();
            step.uuid = Some(id);
            steps.set(j, step);
        }
        j += 1;
    }
}

impl LogicalStep {
    fn clone_step(&self) -> (res: LogicalStep)
        ensures
            same_step_but_uuid(*self, res),
            res.uuid == self.uuid,
    {
        LogicalStep {
            uuid: self.uuid,
            description: self.description.clone(),
            tags: clone_tags(&self.tags),
            action: self.action,
            input: self.input.clone(),
            success_criteria: self.success_criteria.clone(),
        }
    }
}

fn clone_tags(tags: &Option<Vec<String>>) -> (res: Option<Vec<String>>)
    ensures
        tags_view(res) == tags_view(*tags),
{
    match tags {
        None => None,
        Some(v) => {
            let mut out: Vec<String> = Vec::new();
            let mut i: usize = 0;
            while i < v.len()
                invariant
                    i <= v.len(),
                    out@ == v@.take(i as int),
                decreases v.len() - i,
            {
                out.push(v[i].clone());
                assert(out@ =~= v@.take(i + 1));
                i += 1;
            }
            assert(out@ =~= v@);
            assert(out@.map_values(|s: String| s@) =~= v@.map_values(|s: String| s@));
            Some(out)
        },
    }
}

impl LogicalPlan {
    /// Gives an identifier to each task and step that has none.
    pub fn add_uuids(&mut self)
        ensures
            final(self).tasks@.len() == old(self).tasks@.len(),
            forall|i: int|
                0 <= i < old(self).tasks@.len() ==> {
                    let (a, b) = (old(self).tasks@[i], #[trigger] final(self).tasks@[i]);
                    &&& b.objective == a.objective
                    &&& tags_view(b.tags) == tags_view(a.tags)
                    &&& uuid_filled(a.uuid, b.uuid)
                    &&& b.steps@.len() == a.steps@.len()
                    &&& forall|j: int|
                        0 <= j < a.steps@.len() ==> same_step_but_uuid(a.steps@[j], #[trigger] b.steps@[j])
                            && uuid_filled(a.steps@[j].uuid, b.steps@[j].uuid)
                },
    {
        let ghost old_tasks = self.tasks@;
        let mut i: usize = 0;
        while i < self.tasks.len()
            invariant
                i <= self.tasks.len(),
                self.tasks@.len() == old_tasks.len(),
                old_tasks == old(self).tasks@,
                forall|k: int| i <= k < self.tasks@.len() ==> #[trigger] self.tasks@[k] == old_tasks[k],
                forall|k: int|
                    0 <= k < i ==> {
                        let (a, b) = (old_tasks[k], #[trigger] self.tasks@[k]);
                        &&& b.objective == a.objective
                        &&& tags_view(b.tags) == tags_view(a.tags)
                        &&& uuid_filled(a.uuid, b.uuid)
                        &&& b.steps@.len() == a.steps@.len()
                        &&& forall|j: int|
                            0 <= j < a.steps@.len() ==> same_step_but_uuid(
                                a.steps@[j],
                                #[trigger] b.steps@[j],
                            ) && uuid_filled(a.steps@[j].uuid, b.steps@[j].uuid)
                    },
            decreases self.tasks.len() - i,
        {
            let mut steps = clone_steps(&self.tasks[i].steps);
            fill_step_uuids(&mut steps);
            let uuid = match self.tasks[i].uuid {
                Some(u) => u,
                None => new_uuid(),
            };
            let task = LogicalTask {
                uuid: Some(uuid),
                objective: self.tasks[i].objective.clone(),
                tags: clone_tags(&self.tasks[i].tags),
                steps,
            };
            self.tasks.set(i, task);
            i += 1;
        }
    }
}

fn clone_steps(v: &Vec<LogicalStep>) -> (res: Vec<LogicalStep>)
    ensures
        res@.len() == v@.len(),
        forall|j: int|
            0 <= j < v@.len() ==> same_step_but_uuid(v@[j], #[trigger] res@[j]) && res@[j].uuid
                == v@[j].uuid,
{
    let mut out: Vec<LogicalStep> = Vec::new();
    let mut i: usize = 0;
    while i < v.len()
        invariant
            i <= v.len(),
            out@.len() == i,
            forall|j: int|
                0 <= j < i ==> same_step_but_uuid(v@[j], #[trigger] out@[j]) && out@[j].uuid
                    == v@[j].uuid,
        decreases v.len() - i,
    {
        out.push(v[i].clone_step());
        i += 1;
    }
    out
}

/// `- <objective>\n` for each task.
pub open spec fn objective_lines(tasks: Seq<LogicalTask>) -> Seq<char>
    decreases tasks.len(),
{
    if tasks.len() == 0 {
        Seq::empty()
    } else {
        objective_lines(tasks.drop_last()) + "- "@ + tasks.last().objective@ + seq!['\n']
    }
}

/// The message that closes the logical planning stage.
pub open spec fn logical_summary(tasks: Seq<LogicalTask>) -> Seq<char> {
    "\nFinished Logical Plan. "@ + decimal(tasks.len()) + " tasks identified, with the following objectives:\n"@
        + objective_lines(tasks) + "\nCreating physical plan"@
}

/// Summarizes a finished logical plan: the task count and objectives.
pub fn logical_plan_complete_summary(l: &LogicalPlan) -> (res: String)
    ensures
        res@ == logical_summary(l.tasks@),
{
    let mut s = String::from_str("\nFinished Logical Plan. ");
    let n = decimal_string(l.tasks.len());
    s.append(n.as_str());
    s.append(" tasks identified, with the following objectives:\n");
    let ghost base = s@;
    let mut i: usize = 0;
    while i < l.tasks.len()
        invariant
            i <= l.tasks.len(),
            s@ == base + objective_lines(l.tasks@.take(i as int)),
        decreases l.tasks.len() - i,
    {
        assert(l.tasks@.take(i + 1).drop_last() =~= l.tasks@.take(i as int));
        s.append("- ");
        s.append(l.tasks[i].objective.as_str());
        push_char(&mut s, '\n');
        i += 1;
    }
    assert(l.tasks@.take(l.tasks.len() as int) =~= l.tasks@);
    s.append("\nCreating physical plan");
    s
}

/// A physical step that calls a tool.
#[derive(Debug, Clone)]
pub struct ToolStep {
    pub task_uuid: Option<u128>,
    pub tool: String,
    pub body: String,
    pub model: String,
    pub success_criteria: String,
}

/// A physical step that prompts a model.
#[derive(Debug, Clone)]
pub struct PromptStep {
    pub task_uuid: Option<u128>,
    pub prompt: String,
    pub model: String,
    pub success_criteria: String,
}

/// A step of a physical plan.
#[derive(Debug, Clone)]
pub enum Step {
    Tool(ToolStep),
    Prompt(PromptStep),
}

/// A task of a physical plan.
#[derive(Debug, Clone)]
pub struct PhysicalTask {
    pub objective: String,
    pub steps: Vec<Step>,
}

/// A physical plan: tasks made of executable steps.
#[derive(Debug, Clone)]
pub struct PhysicalPlan {
    pub tasks: Vec<PhysicalTask>,
}

/// The task that a physical step belongs to.
pub open spec fn step_task_id(s: Step) -> Option<u128> {
    match s {
        Step::Tool(t) => t.task_uuid,
        Step::Prompt(p) => p.task_uuid,
    }
}

impl Step {
    pub fn task_id(&self) -> (r: Option<u128>)
        ensures
            r == step_task_id(*self),
    {
        match self {
            Step::Tool(t) => t.task_uuid,
            Step::Prompt(p) => p.task_uuid,
        }
    }

    /// The same step, attached to task `task_uuid`.
    pub fn with_task_id(self, task_uuid: Option<u128>) -> (res: Self)
        ensures
            res == match self {
                Step::Tool(t) => Step::Tool(ToolStep { task_uuid, ..t }),
                Step::Prompt(p) => Step::Prompt(PromptStep { task_uuid, ..p }),
            },
    {
        match self {
            Step::Tool(t) => Step::Tool(ToolStep { task_uuid, ..t }),
            Step::Prompt(p) => Step::Prompt(PromptStep { task_uuid, ..p }),
        }
    }
}

/// How a physical step is carried out.
#[derive(Debug, Clone, Copy, PartialEq, Eq, Structural)]
pub enum StepType {
    Tool,
    Prompt,
}

/// File system and terminal actions are tool steps; the others prompt a model.
pub open spec fn step_type_of(action: Action) -> StepType {
    match action {
        Action::ChangeDirectory | Action::CreateDirectory | Action::ReadObject
        | Action::WriteObject | Action::ExecuteTerminal => StepType::Tool,
        _ => StepType::Prompt,
    }
}

impl StepType {
    /// The kind of physical step that carries out a logical action.
    pub fn from_action(action: Action) -> (r: StepType)
        ensures
            r == step_type_of(action),
    {
        match action {
            Action::ChangeDirectory | Action::CreateDirectory | Action::ReadObject
            | Action::WriteObject | Action::ExecuteTerminal => StepType::Tool,
            Action::Other | Action::Response | Action::RequestForInfo | Action::RetrieveMetadata
            | Action::Validation | Action::Improvement => StepType::Prompt,
        }
    }
}

/// The text of a step's task identifier, `None` when it has none.
pub open spec fn task_id_text(id: Option<u128>) -> Seq<char> {
    match id {
        Some(u) => uuid_text(u),
        None => "None"@,
    }
}

/// The execution-log lines for a step and its output: what was called, then
/// what it answered.
pub open spec fn execution_progress_lines(step: Step, output: Seq<char>) -> (Seq<char>, Seq<char>) {
    let id = task_id_text(step_task_id(step));
    (
        match step {
            Step::Prompt(p) => "Task ID: "@ + id + ", calling model "@ + p.model@
                + " to complete action: "@ + p.prompt@,
            Step::Tool(t) => "Task ID: "@ + id + ", calling tool: "@ + t.tool@ + seq!['\n']
                + t.body@,
        },
        "Task ID: "@ + id + ", tool response:\n"@ + output,
    )
}

/// The two execution-log lines for a step and its output.
pub fn trace_execution_progress(step: &Step, output: &str) -> (res: (String, String))
    ensures
        res.0@ == execution_progress_lines(*step, output@).0,
        res.1@ == execution_progress_lines(*step, output@).1,
{
    let id = match step.task_id() {
        Some(u) => uuid_to_string(u),
        None => String::from_str("None"),
    };
    let mut first = String::from_str("Task ID: ");
    first.append(id.as_str());
    match step {
        Step::Prompt(p) => {
            first.append(", calling model ");
            first.append(p.model.as_str());
            first.append(" to complete action: ");
            first.append(p.prompt.as_str());
        },
        Step::Tool(t) => {
            first.append(", calling tool: ");
            first.append(t.tool.as_str());
            push_char(&mut first, '\n');
            first.append(t.body.as_str());
        },
    }
    let mut second = String::from_str("Task ID: ");
    second.append(id.as_str());
    second.append(", tool response:\n");
    second.append(output);
    (first, second)
}

/// The model that runs the steps the physical planner makes.
pub const PLANNED_STEP_MODEL: &'static str = "orchestrator-o3-mini";

/// A step as the physical planner keeps it: run by the orchestrator's model
/// and attached to its task.
pub fn planned_step(step: Step, task_uuid: Option<u128>) -> (res: Step)
    ensures
        match step {
            Step::Tool(t) => res matches Step::Tool(r) && r.task_uuid == task_uuid && r.tool == t.tool
                && r.body == t.body && r.success_criteria == t.success_criteria && r.model@
                == PLANNED_STEP_MODEL@,
            Step::Prompt(p) => res matches Step::Prompt(r) && r.task_uuid == task_uuid && r.prompt
                == p.prompt && r.success_criteria == p.success_criteria && r.model@
                == PLANNED_STEP_MODEL@,
        },
{
    match step {
        Step::Tool(t) => Step::Tool(ToolStep { model: String::from_str(PLANNED_STEP_MODEL), task_uuid, ..t }),
        Step::Prompt(p) => Step::Prompt(PromptStep { model: String::from_str(PLANNED_STEP_MODEL), task_uuid, ..p }),
    }
}

/// The note that lists the steps planned so far, given as their JSON text.
pub fn planned_steps_note(steps_json: &str) -> (res: String)
    ensures
        res@ == "The following steps have been planned already: "@ + steps_json@ + "."@,
{
    let mut s = String::from_str("The following steps have been planned already: ");
    s.append(steps_json);
    s.append(".");
    s
}

/// The note that lists the models a prompt step may use.
pub fn available_models_note(executor: &str) -> (res: String)
    ensures
        res@ == "The following models are available for selection: "@ + executor@,
{
    let mut s = String::from_str("The following models are available for selection: ");
    s.append(executor);
    s
}

/// The step-planning prompt up to the task objective.
pub const STEP_GOAL_HEAD: &'static str = "# Goal\n\n            Create a physical plan step to achieve the logical plan step.\n            Keep in mind the overall task objective while creating the physical plan step.\n\n            # Task Objective\n\n            ";

/// The step-planning prompt between the task objective and the logical step.
pub const STEP_GOAL_MIDDLE: &'static str = "\n\n            # Logical Plan Step\n\n            ";

/// The prompt that asks for the physical step of a logical step (given as
/// its JSON text) under a task objective.
pub fn step_goal_prompt(objective: &str, step_json: &str) -> (res: String)
    ensures
        res@ == STEP_GOAL_HEAD@ + objective@ + STEP_GOAL_MIDDLE@ + step_json@,
{
    let mut s = String::from_str(STEP_GOAL_HEAD);
    s.append(objective);
    s.append(STEP_GOAL_MIDDLE);
    s.append(step_json);
    s
}

/// The outcome that a verifier model reports for a tool call.
#[derive(Debug, Clone, Copy, PartialEq, Eq, Structural)]
pub enum VerificationStatus {
    Succeeded,
    Failed,
    Inconclusive,
}

/// The display name of a verification status.
pub open spec fn status_name(s: VerificationStatus) -> Seq<char> {
    match s {
        VerificationStatus::Succeeded => "succeeded"@,
        VerificationStatus::Failed => "failed"@,
        VerificationStatus::Inconclusive => "inconclusive"@,
    }
}

impl VerificationStatus {
    pub fn to_string(&self) -> (r: String)
        ensures
            r@ == status_name(*self),
    {
        match self {
            VerificationStatus::Succeeded => String::from_str("succeeded"),
            VerificationStatus::Failed => String::from_str("failed"),
            VerificationStatus::Inconclusive => String::from_str("inconclusive"),
        }
    }
}

/// A verifier model's judgement of a tool call.
#[derive(Debug, Clone)]
pub struct VerificationResponse {
    pub status: VerificationStatus,
    pub reason: String,
    pub wait: bool,
}

impl VerificationResponse {
    pub fn to_string(&self) -> (r: String)
        ensures
            r@ == "Tool Call Result: "@ + status_name(self.status) + "\n### Reasoning\n"@
                + self.reason@,
    {
        let mut s = String::from_str("Tool Call Result: ");
        let st = self.status.to_string();
        s.append(st.as_str());
        s.append("\n### Reasoning\n");
        s.append(self.reason.as_str());
        s
    }
}

/// The API error code on which a stage is retried.
pub const STRING_ABOVE_MAX_LENGTH: &'static str = "string_above_max_length";

/// The code of a model's failure to produce its structured output.
pub const FAILED_TO_PARSE_STRUCTURED_OUTPUT: &'static str = "failed_to_parse_structured_output";

/// Whether a failed model call is retried, given its API error code (if the
/// error is an API error that has one).
pub fn should_retry_on_error(code: Option<&str>) -> (r: bool)
    ensures
        r == match code {
            Some(c) => c@ == STRING_ABOVE_MAX_LENGTH@,
            None => false,
        },
{
    match code {
        Some(c) => str_eq(c, STRING_ABOVE_MAX_LENGTH),
        None => false,
    }
}

} // verus!
