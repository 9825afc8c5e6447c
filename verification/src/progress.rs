//! Progress messages of the agent pipeline.

use vstd::prelude::*;
use vstd::string::StringExecFns;
use crate::user_agent::{ext_insert, insert_extension, opt_view, pairs_view};

verus! {

broadcast use vstd::string::group_string_axioms;

/// The stages of the agent pipeline.
#[derive(Clone, Copy, Debug, PartialEq, Eq, Structural)]
pub enum StageName {
    Research,
    LogicalPlan,
    PhysicalPlan,
    Execution,
    Reporting,
}

/// The identifier of a stage.
pub open spec fn stage_id(s: StageName) -> Seq<char> {
    match s {
        StageName::Research => "research"@,
        StageName::LogicalPlan => "logical_plan"@,
        StageName::PhysicalPlan => "physical_plan"@,
        StageName::Execution => "execution"@,
        StageName::Reporting => "reporting"@,
    }
}

impl StageName {
    pub fn id(self) -> (r: &'static str)
        ensures
            r@ == stage_id(self),
    {
        match self {
            StageName::Research => "research",
            StageName::LogicalPlan => "logical_plan",
            StageName::PhysicalPlan => "physical_plan",
            StageName::Execution => "execution",
            StageName::Reporting => "reporting",
        }
    }

    /// The display form: the identifier.
    pub fn to_string(self) -> (r: String)
        ensures
            r@ == stage_id(self),
    {
        String::from_str(self.id())
    }
}

/// The type of progress message to send.
#[derive(Clone, Copy, Debug, PartialEq, Eq, Structural)]
pub enum ProgressType {
    /// The output of a stage, task, or step has been evaluated.
    Evaluation,
    /// An error has occurred.
    Error,
    /// A warning has occurred.
    Warning,
    /// A log message associated with a stage, task, or step.
    Log,
}

/// The serialized name of a progress type.
pub open spec fn progress_type_name(t: ProgressType) -> Seq<char> {
    match t {
        ProgressType::Evaluation => "eval"@,
        ProgressType::Error => "err"@,
        ProgressType::Warning => "warn"@,
        ProgressType::Log => "log"@,
    }
}

impl ProgressType {
    pub fn as_str(self) -> (r: &'static str)
        ensures
            r@ == progress_type_name(self),
    {
        match self {
            ProgressType::Evaluation => "eval",
            ProgressType::Error => "err",
            ProgressType::Warning => "warn",
            ProgressType::Log => "log",
        }
    }

    /// The display form: the serialized name.
    pub fn to_string(self) -> (r: String)
        ensures
            r@ == progress_type_name(self),
    {
        String::from_str(self.as_str())
    }
}

/// The four progress types have the names `eval`, `err`, `warn` and `log`,
/// which are all different, and the display form of each is its name. A
/// name is lowercase ASCII letters only, so its JSON form is the name
/// between double quotes, with nothing escaped.
pub proof fn lemma_progress_type_names(t: ProgressType, u: ProgressType)
    ensures
        progress_type_name(ProgressType::Evaluation) == "eval"@,
        progress_type_name(ProgressType::Error) == "err"@,
        progress_type_name(ProgressType::Warning) == "warn"@,
        progress_type_name(ProgressType::Log) == "log"@,
        t != u ==> progress_type_name(t) != progress_type_name(u),
        forall|i: int|
            0 <= i < progress_type_name(t).len() ==> 'a' <= #[trigger] progress_type_name(t)[i] <= 'z',
{
    reveal_strlit("eval");
    reveal_strlit("err");
    reveal_strlit("warn");
    reveal_strlit("log");
    if t != u {
        match t {
            ProgressType::Evaluation => assert(progress_type_name(t).len() != progress_type_name(u).len() || progress_type_name(t)[0] != progress_type_name(u)[0]),
            ProgressType::Error => assert(progress_type_name(t).len() != progress_type_name(u).len() || progress_type_name(t)[0] != progress_type_name(u)[0]),
            ProgressType::Warning => assert(progress_type_name(t).len() != progress_type_name(u).len() || progress_type_name(t)[0] != progress_type_name(u)[0]),
            ProgressType::Log => assert(progress_type_name(t).len() != progress_type_name(u).len() || progress_type_name(t)[0] != progress_type_name(u)[0]),
        }
    }
}

/// A progress message. Tags keep the order in which their keys were first set.
#[derive(Clone, Debug)]
pub struct Progress {
    pub progress_type: ProgressType,
    pub id: Option<String>,
    pub parent_id: Option<String>,
    pub title: Option<String>,
    pub content: Option<String>,
    pub tags: Vec<(String, String)>,
}

/// The abstract content of a progress message.
pub struct ProgressModel {
    pub progress_type: ProgressType,
    pub id: Option<Seq<char>>,
    pub parent_id: Option<Seq<char>>,
    pub title: Option<Seq<char>>,
    pub content: Option<Seq<char>>,
    pub tags: Seq<(Seq<char>, Seq<char>)>,
}

impl View for Progress {
    type V = ProgressModel;

    open spec fn view(&self) -> ProgressModel {
        ProgressModel {
            progress_type: self.progress_type,
            id: opt_view(self.id),
            parent_id: opt_view(self.parent_id),
            title: opt_view(self.title),
            content: opt_view(self.content),
            tags: pairs_view(self.tags@),
        }
    }
}

impl Progress {
    pub fn new(progress_type: ProgressType) -> (res: Self)
        ensures
            res@ == (ProgressModel {
                progress_type,
                id: None,
                parent_id: None,
                title: None,
                content: None,
                tags: Seq::empty(),
            }),
    {
        let tags: Vec<(String, String)> = Vec::new();
        assert(pairs_view(tags@) =~= Seq::empty());
        Progress { progress_type, id: None, parent_id: None, title: None, content: None, tags }
    }

    pub fn id(self, id: String) -> (res: Self)
        ensures
            res@ == (ProgressModel { id: Some(id@), ..self@ }),
    {
        Progress { id: Some(id), ..self }
    }

    pub fn parent_id(self, parent_id: String) -> (res: Self)
        ensures
            res@ == (ProgressModel { parent_id: Some(parent_id@), ..self@ }),
    {
        Progress { parent_id: Some(parent_id), ..self }
    }

    pub fn title(self, title: String) -> (res: Self)
        ensures
            res@ == (ProgressModel { title: Some(title@), ..self@ }),
    {
        Progress { title: Some(title), ..self }
    }

    pub fn content(self, content: String) -> (res: Self)
        ensures
            res@ == (ProgressModel { content: Some(content@), ..self@ }),
    {
        Progress { content: Some(content), ..self }
    }

    /// Sets a tag; a key already present keeps its place and takes the new value.
    pub fn tag(self, key: &str, value: &str) -> (res: Self)
        ensures
            res@ == (ProgressModel { tags: ext_insert(self@.tags, key@, value@), ..self@ }),
    {
        let mut s = self;
        insert_extension(&mut s.tags, String::from_str(key), String::from_str(value));
        s
    }
}

/// The JSON-lines frame of a serialized progress message; a failed
/// serialization is reported as an error message.
pub open spec fn jsonl_frame(raw: Option<Seq<char>>) -> Seq<char> {
    "!---jsonl"@ + match raw {
        Some(json) => json,
        None => "{ \"type\": \"err\", \"content\": \"Unexpected error converting progress to JSONL\" }"@,
    }
}

/// Frames the JSON of a progress message (or reports its failure) as a
/// JSON-lines record.
pub fn jsonl_line(raw: Option<String>) -> (res: String)
    ensures
        res@ == jsonl_frame(opt_view(raw)),
{
    let mut s = String::from_str("!---jsonl");
    match raw {
        Some(json) => s.append(json.as_str()),
        None => s.append(
            "{ \"type\": \"err\", \"content\": \"Unexpected error converting progress to JSONL\" }",
        ),
    }
    s
}

/// Points to a stage of the pipeline.
#[derive(Clone, Copy, Debug, PartialEq, Eq, Structural)]
pub struct Index {
    pub stage: StageName,
}

/// The title of a stage.
pub open spec fn stage_title(s: StageName) -> Seq<char> {
    match s {
        StageName::Research => "Researching"@,
        StageName::LogicalPlan => "Logical Planning"@,
        StageName::PhysicalPlan => "Execution Planning"@,
        StageName::Execution => "Executing"@,
        StageName::Reporting => "Generating Report"@,
    }
}

/// The message that announces a stage.
pub open spec fn stage_starting_message(s: StageName) -> Seq<char> {
    match s {
        StageName::Research => "Starting research..."@,
        StageName::LogicalPlan => "Creating logical plan..."@,
        StageName::PhysicalPlan => "Creating execution plan..."@,
        StageName::Execution => "Executing..."@,
        StageName::Reporting => "Generating report..."@,
    }
}

impl Index {
    pub fn new(stage: StageName) -> (res: Self)
        ensures
            res.stage == stage,
    {
        Index { stage }
    }

    /// A log message attached to the current stage.
    pub fn log(&self, log: String) -> (res: Progress)
        ensures
            res@ == (ProgressModel {
                progress_type: ProgressType::Log,
                id: None,
                parent_id: Some(stage_id(self.stage)),
                title: None,
                content: Some(log@),
                tags: Seq::empty(),
            }),
    {
        Progress::new(ProgressType::Log).parent_id(String::from_str(self.id())).content(log)
    }

    pub fn title(&self) -> (res: String)
        ensures
            res@ == stage_title(self.stage),
    {
        match self.stage {
            StageName::Research => String::from_str("Researching"),
            StageName::LogicalPlan => String::from_str("Logical Planning"),
            StageName::PhysicalPlan => String::from_str("Execution Planning"),
            StageName::Execution => String::from_str("Executing"),
            StageName::Reporting => String::from_str("Generating Report"),
        }
    }

    pub fn starting_message(&self) -> (res: String)
        ensures
            res@ == stage_starting_message(self.stage),
    {
        match self.stage {
            StageName::Research => String::from_str("Starting research..."),
            StageName::LogicalPlan => String::from_str("Creating logical plan..."),
            StageName::PhysicalPlan => String::from_str("Creating execution plan..."),
            StageName::Execution => String::from_str("Executing..."),
            StageName::Reporting => String::from_str("Generating report..."),
        }
    }

    pub fn id(&self) -> (r: &'static str)
        ensures
            r@ == stage_id(self.stage),
    {
        self.stage.id()
    }
}

/// Moves the index to `next_stage` and returns the message that announces it.
pub fn advance_stage(idx: &mut Index, next_stage: StageName) -> (res: Progress)
    ensures
        final(idx).stage == next_stage,
        res@ == (ProgressModel {
            progress_type: ProgressType::Log,
            id: Some(stage_id(next_stage)),
            parent_id: None,
            title: Some(stage_title(next_stage)),
            content: Some(stage_starting_message(next_stage)),
            tags: Seq::empty(),
        }),
{
    idx.stage = next_stage;
    Progress::new(ProgressType::Log).id(String::from_str(idx.id())).content(
        idx.starting_message(),
    ).title(idx.title())
}

/// The stage that the index points to.
pub fn current_stage(idx: &Index) -> (res: StageName)
    ensures
        res == idx.stage,
{
    idx.stage
}

} // verus!
