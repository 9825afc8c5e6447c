//! The stages an agent request goes through, and the stage a request
//! starts at.
//!
//! A request normally starts with research on its text. Its last line may
//! instead name a file that holds the output of an earlier stage:
//! `.research <file>` (research artifacts), `.logical_plan <file>` or
//! `.physical_plan <file>`; the request then starts at the stage after it.

use vstd::prelude::*;
use vstd::string::StringExecFns;
use crate::plan::{LogicalPlan, PhysicalPlan};
use crate::progress::StageName;
use crate::research::Research;
use crate::text::{chars_of, string_of, sub_chars, find_char, find_in};

verus! {

/// The pipeline stages of an agent request; each holds the input of its stage.
#[derive(Debug, Clone)]
pub enum AgentPipeline {
    /// Gathers the artifacts for the logical plan.
    Research { prompt: String },
    /// Makes a logical plan from the prompt and the research artifacts.
    LogicalPlan(Research),
    /// Makes a physical plan from the logical plan.
    PhysicalPlan(LogicalPlan),
    /// Executes the physical plan.
    Execution(PhysicalPlan),
    /// Outputs the result of the execution.
    Output(String),
}

/// The progress stage that a pipeline stage reports under.
pub open spec fn stage_of(p: AgentPipeline) -> StageName {
    match p {
        AgentPipeline::Research { .. } => StageName::Research,
        AgentPipeline::LogicalPlan(_) => StageName::LogicalPlan,
        AgentPipeline::PhysicalPlan(_) => StageName::PhysicalPlan,
        AgentPipeline::Execution(_) => StageName::Execution,
        AgentPipeline::Output(_) => StageName::Reporting,
    }
}

impl AgentPipeline {
    /// The progress stage of this pipeline stage.
    pub fn stage_name(&self) -> (r: StageName)
        ensures
            r == stage_of(*self),
    {
        match self {
            AgentPipeline::Research { .. } => StageName::Research,
            AgentPipeline::LogicalPlan(_) => StageName::LogicalPlan,
            AgentPipeline::PhysicalPlan(_) => StageName::PhysicalPlan,
            AgentPipeline::Execution(_) => StageName::Execution,
            AgentPipeline::Output(_) => StageName::Reporting,
        }
    }
}

/// Where a request starts: research on a prompt, or the stage after the
/// one whose output the named file holds.
#[derive(Debug, Clone, PartialEq, Eq)]
pub enum PipelineStart {
    /// Research on the whole request text.
    Research { prompt: String },
    /// The file holds research artifacts: start at the logical plan.
    ResearchFile { path: String },
    /// The file holds a logical plan: start at the physical plan.
    LogicalPlanFile { path: String },
    /// The file holds a physical plan: start at the execution.
    PhysicalPlanFile { path: String },
}

/// Index of the last occurrence of `c` in `s`, or -1.
pub open spec fn rfind_char(s: Seq<char>, c: char) -> int
    decreases s.len(),
{
    if s.len() == 0 {
        -1
    } else if s.last() == c {
        s.len() - 1
    } else {
        rfind_char(s.drop_last(), c)
    }
}

/// The last line of a text, as `str::lines` yields it: lines end at `\n`
/// (a `\r` just before it is dropped too), and a final `\n` ends the last
/// line rather than starting an empty one. An empty text has no line.
pub open spec fn last_line(s: Seq<char>) -> Option<Seq<char>> {
    if s.len() == 0 {
        None
    } else if s.last() == '\n' {
        let t = s.drop_last();
        let l = t.skip(rfind_char(t, '\n') + 1);
        Some(
            if l.len() > 0 && l.last() == '\r' {
                l.drop_last()
            } else {
                l
            },
        )
    } else {
        Some(s.skip(rfind_char(s, '\n') + 1))
    }
}

/// Whether `s` begins with `p`.
pub open spec fn begins_with(s: Seq<char>, p: Seq<char>) -> bool {
    p.len() <= s.len() && s.take(p.len() as int) == p
}

/// The second of the `' '`-separated pieces of a line that holds a space.
pub open spec fn second_piece(l: Seq<char>) -> Seq<char> {
    let rest = l.skip(find_char(l, ' ') + 1);
    let j = find_char(rest, ' ');
    if j >= 0 {
        rest.take(j)
    } else {
        rest
    }
}

/// Whether a line names a stage file.
pub open spec fn is_command(l: Seq<char>) -> bool {
    begins_with(l, ".research"@) || begins_with(l, ".logical_plan"@) || begins_with(
        l,
        ".physical_plan"@,
    )
}

/// Whether a request text can be read: a last line that names a stage file
/// holds a space before the file name.
pub open spec fn start_readable(content: Seq<char>) -> bool {
    match last_line(content) {
        Some(l) => is_command(l) ==> l.contains(' '),
        None => true,
    }
}

proof fn lemma_rfind_char(s: Seq<char>, c: char)
    ensures
        -1 <= rfind_char(s, c) < s.len(),
    decreases s.len(),
{
    if s.len() > 0 {
        lemma_rfind_char(s.drop_last(), c);
    }
}

fn rfind_in(s: &[char], c: char) -> (r: Option<usize>)
    ensures
        match r {
            Some(i) => rfind_char(s@, c) == i && i < s.len(),
            None => rfind_char(s@, c) == -1,
        },
{
    let mut i: usize = s.len();
    assert(s@.take(i as int) =~= s@);
    while i > 0
        invariant
            i <= s.len(),
            rfind_char(s@, c) == rfind_char(s@.take(i as int), c),
        decreases i,
    {
        assert(s@.take(i as int).last() == s@[i - 1]);
        if s[i - 1] == c {
            return Some(i - 1);
        }
        assert(s@.take(i as int).drop_last() =~= s@.take(i - 1));
        i -= 1;
    }
    None
}

pub(crate) fn begins_with_str(l: &[char], p: &str) -> (r: bool)
    ensures
        r == begins_with(l@, p@),
{
    let pc = chars_of(p);
    if pc.len() > l.len() {
        return false;
    }
    let mut i: usize = 0;
    while i < pc.len()
        invariant
            i <= pc.len() <= l.len(),
            pc@ == p@,
            forall|j: int| 0 <= j < i ==> l@[j] == pc@[j],
        decreases pc.len() - i,
    {
        if l[i] != pc[i] {
            assert(l@.take(pc.len() as int)[i as int] != pc@[i as int]);
            return false;
        }
        i += 1;
    }
    assert(l@.take(pc.len() as int) =~= pc@);
    true
}

fn last_line_of(s: &[char]) -> (r: Option<Vec<char>>)
    ensures
        match r {
            Some(l) => last_line(s@) == Some(l@),
            None => last_line(s@) is None,
        },
{
    if s.len() == 0 {
        return None;
    }
    let n = s.len();
    if s[n - 1] == '\n' {
        let t = sub_chars(s, 0, n - 1);
        assert(t@ =~= s@.drop_last());
        let start = match rfind_in(t.as_slice(), '\n') {
            Some(i) => i + 1,
            None => 0,
        };
        let l = sub_chars(t.as_slice(), start, t.len());
        assert(l@ =~= t@.skip(rfind_char(t@, '\n') + 1));
        if l.len() > 0 && l[l.len() - 1] == '\r' {
            let k = sub_chars(l.as_slice(), 0, l.len() - 1);
            assert(k@ =~= l@.drop_last());
            Some(k)
        } else {
            Some(l)
        }
    } else {
        let start = match rfind_in(s, '\n') {
            Some(i) => i + 1,
            None => 0,
        };
        let l = sub_chars(s, start, n);
        assert(l@ =~= s@.skip(rfind_char(s@, '\n') + 1));
        Some(l)
    }
}

fn second_piece_of(l: &[char]) -> (r: String)
    requires
        l@.contains(' '),
    ensures
        r@ == second_piece(l@),
{
    proof {
        crate::text::lemma_find_char(l@, ' ');
    }
    let i = match find_in(l, ' ') {
        Some(i) => i,
        None => {
            proof {
                let k = choose|k: int| 0 <= k < l@.len() && l@[k] == ' ';
                assert(l@[k] == ' ');
            }
            return String::new();
        },
    };
    assert(i < l.len());
    let rest = sub_chars(l, i + 1, l.len());
    assert(rest@ =~= l@.skip(i + 1));
    proof {
        crate::text::lemma_find_char(rest@, ' ');
    }
    match find_in(rest.as_slice(), ' ') {
        Some(j) => {
            let p = sub_chars(rest.as_slice(), 0, j);
            assert(p@ =~= rest@.take(j as int));
            string_of(p.as_slice())
        },
        None => string_of(rest.as_slice()),
    }
}

impl PipelineStart {
    /// Where a request with text `content` starts: a last line that begins
    /// with `.research`, `.logical_plan` or `.physical_plan` (tested in
    /// that order) names a file by the second of its space-separated
    /// pieces; any other text is the research prompt.
    pub fn from_content(content: &str) -> (res: PipelineStart)
        requires
            start_readable(content@),
        ensures
            match last_line(content@) {
                Some(l) => if begins_with(l, ".research"@) {
                    res matches PipelineStart::ResearchFile { path } && path@ == second_piece(l)
                } else if begins_with(l, ".logical_plan"@) {
                    res matches PipelineStart::LogicalPlanFile { path } && path@ == second_piece(l)
                } else if begins_with(l, ".physical_plan"@) {
                    res matches PipelineStart::PhysicalPlanFile { path } && path@ == second_piece(l)
                } else {
                    res matches PipelineStart::Research { prompt } && prompt@ == content@
                },
                None => res matches PipelineStart::Research { prompt } && prompt@ == content@,
            },
    {
        let cs = chars_of(content);
        let line = match last_line_of(cs.as_slice()) {
            Some(l) => l,
            None => return PipelineStart::Research { prompt: string_of(cs.as_slice()) },
        };
        if begins_with_str(line.as_slice(), ".research") {
            PipelineStart::ResearchFile { path: second_piece_of(line.as_slice()) }
        } else if begins_with_str(line.as_slice(), ".logical_plan") {
            PipelineStart::LogicalPlanFile { path: second_piece_of(line.as_slice()) }
        } else if begins_with_str(line.as_slice(), ".physical_plan") {
            PipelineStart::PhysicalPlanFile { path: second_piece_of(line.as_slice()) }
        } else {
            PipelineStart::Research { prompt: string_of(cs.as_slice()) }
        }
    }
}

/// Whether a request runs through every stage or stops after the first.
#[derive(Debug, Clone, Copy, PartialEq, Eq, Structural)]
pub enum AdvanceMode {
    /// Go on to the next stage until the report is out.
    Continue,
    /// Stop after the stage that was run.
    Stop,
}

/// What the pipeline does after a stage has run.
#[derive(Debug, Clone, Copy, PartialEq, Eq, Structural)]
pub enum PipelineAction {
    /// Run this stage next.
    Run(StageName),
    /// The report is out: the request is done.
    Finish,
    /// Stop here, as the request asked.
    Stop,
}

/// The stage that follows a stage; none after the report.
pub open spec fn following_stage(stage: StageName) -> Option<StageName> {
    match stage {
        StageName::Research => Some(StageName::LogicalPlan),
        StageName::LogicalPlan => Some(StageName::PhysicalPlan),
        StageName::PhysicalPlan => Some(StageName::Execution),
        StageName::Execution => Some(StageName::Reporting),
        StageName::Reporting => None,
    }
}

/// After the report the request is done; after any other stage it stops
/// when asked to, and otherwise runs the following stage.
pub open spec fn pipeline_next_spec(stage: StageName, mode: AdvanceMode) -> PipelineAction {
    match following_stage(stage) {
        None => PipelineAction::Finish,
        Some(next) => if mode == AdvanceMode::Stop {
            PipelineAction::Stop
        } else {
            PipelineAction::Run(next)
        },
    }
}

/// Decides what follows the stage that has just run.
pub fn pipeline_next(stage: StageName, mode: AdvanceMode) -> (res: PipelineAction)
    ensures
        res == pipeline_next_spec(stage, mode),
{
    if let StageName::Reporting = stage {
        return PipelineAction::Finish;
    }
    if let AdvanceMode::Stop = mode {
        return PipelineAction::Stop;
    }
    match stage {
        StageName::Research => PipelineAction::Run(StageName::LogicalPlan),
        StageName::LogicalPlan => PipelineAction::Run(StageName::PhysicalPlan),
        StageName::PhysicalPlan => PipelineAction::Run(StageName::Execution),
        _ => PipelineAction::Run(StageName::Reporting),
    }
}

/// In stop mode the pipeline never runs another stage: after any stage
/// but the report it stops, and after the report it is done. In continue
/// mode it never stops early: the stages run in the order research,
/// logical plan, physical plan, execution, report, and the request is done
/// after the report.
pub proof fn lemma_pipeline_order(stage: StageName)
    ensures
        stage != StageName::Reporting ==> pipeline_next_spec(stage, AdvanceMode::Stop) == PipelineAction::Stop,
        pipeline_next_spec(StageName::Reporting, AdvanceMode::Stop) == PipelineAction::Finish,
        pipeline_next_spec(stage, AdvanceMode::Continue) != PipelineAction::Stop,
        pipeline_next_spec(StageName::Research, AdvanceMode::Continue) == PipelineAction::Run(StageName::LogicalPlan),
        pipeline_next_spec(StageName::LogicalPlan, AdvanceMode::Continue) == PipelineAction::Run(StageName::PhysicalPlan),
        pipeline_next_spec(StageName::PhysicalPlan, AdvanceMode::Continue) == PipelineAction::Run(StageName::Execution),
        pipeline_next_spec(StageName::Execution, AdvanceMode::Continue) == PipelineAction::Run(StageName::Reporting),
        pipeline_next_spec(StageName::Reporting, AdvanceMode::Continue) == PipelineAction::Finish,
{
}

/// The error for a model that is not loaded: `Model <name> not found.`.
pub open spec fn model_not_found_text(name: Seq<char>) -> Seq<char> {
    "Model "@ + name + " not found."@
}

/// Index of the first model that is not loaded, among models whose
/// presence is given in order.
pub open spec fn first_absent(present: Seq<bool>) -> Option<int>
    decreases present.len(),
{
    if present.len() == 0 {
        None
    } else {
        match first_absent(present.drop_last()) {
            Some(i) => Some(i),
            None => if !present.last() {
                Some(present.len() - 1)
            } else {
                None
            },
        }
    }
}

/// The models are checked in order: none is reported exactly when all are
/// loaded, and the one reported is not loaded while every model before it
/// is.
pub proof fn lemma_first_absent(present: Seq<bool>)
    ensures
        first_absent(present) is None <==> forall|k: int| 0 <= k < present.len() ==> #[trigger] present[k],
        first_absent(present) matches Some(i) ==> 0 <= i < present.len() && !present[i] && forall|k: int|
            0 <= k < i ==> #[trigger] present[k],
    decreases present.len(),
{
    if present.len() > 0 {
        let prev = present.drop_last();
        lemma_first_absent(prev);
        assert forall|k: int| 0 <= k < prev.len() implies prev[k] == present[k] by {}
    }
}

/// Before a request runs, the models its stages use are looked up in
/// order; the error for the first one that is not loaded, if any. The
/// pipeline runs only when this is `None`.
pub fn missing_model_error(names: &Vec<String>, present: &Vec<bool>) -> (res: Option<String>)
    requires
        names@.len() == present@.len(),
    ensures
        match first_absent(present@) {
            Some(i) => res matches Some(m) && m@ == model_not_found_text(names@[i]@),
            None => res is None,
        },
{
    let mut i: usize = 0;
    while i < present.len()
        invariant
            names@.len() == present@.len(),
            i <= present@.len(),
            first_absent(present@.take(i as int)) is None,
        decreases present.len() - i,
    {
        assert(present@.take(i + 1).drop_last() =~= present@.take(i as int));
        if !present[i] {
            proof {
                lemma_first_absent_prefix(present@, i as int + 1);
            }
            let mut m = String::from_str("Model ");
            m.append(names[i].as_str());
            m.append(" not found.");
            return Some(m);
        }
        i += 1;
    }
    assert(present@.take(present@.len() as int) =~= present@);
    None
}

/// A first absent entry found in a prefix is the first absent entry of the
/// whole sequence.
proof fn lemma_first_absent_prefix(p: Seq<bool>, k: int)
    requires
        0 <= k <= p.len(),
        first_absent(p.take(k)) is Some,
    ensures
        first_absent(p) == first_absent(p.take(k)),
    decreases p.len() - k,
{
    if k == p.len() {
        assert(p.take(k) =~= p);
    } else {
        assert(p.take(k + 1).drop_last() =~= p.take(k));
        lemma_first_absent_prefix(p, k + 1);
    }
}

} // verus!
