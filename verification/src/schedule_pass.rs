//! One evaluation of a schedule as the actions the scheduler performs on
//! it, and the law that a schedule never has two tasks in progress.

use vstd::prelude::*;
use crate::scheduler::{
    due, find_now_task, handle_new_task, immediate_choice, immediate_step, insert_new_request, inserted,
    keep, last_of, new_task_action, not_due, not_immediate_due, ImmediateStep, NewTaskAction,
    TaskDelivery, TaskRequest,
};

verus! {

/// What the scheduler does to a schedule, in the order it is done.
#[derive(Debug, Clone, Copy, PartialEq, Eq, Structural)]
pub enum ScheduleAction {
    /// Reset the schedule's timed evaluators.
    ResetTimed,
    /// Stop the schedule's running task.
    AbortRunning,
    /// Start the schedule's task for a request.
    StartTask(TaskRequest),
}

/// What the immediate phase decides for pending requests `p`, given whether
/// a task of the schedule was seen running.
pub open spec fn immediate_outcome(p: Seq<TaskRequest>, now: u128, window: u128, running: bool) -> ImmediateStep {
    let task = immediate_choice(p, now, window);
    ImmediateStep {
        task,
        reset_timed: task matches Some(t) && t.delivery == TaskDelivery::ImmediateAndClear,
        abort_running: task is Some && running,
    }
}

/// The actions of an immediate phase: for a request that clears, the timed
/// evaluators are reset first; a running task is stopped; then the task
/// starts.
pub open spec fn immediate_actions(s: ImmediateStep) -> Seq<ScheduleAction> {
    match s.task {
        Some(t) => (if s.reset_timed {
            seq![ScheduleAction::ResetTimed]
        } else {
            Seq::empty()
        }) + (if s.abort_running {
            seq![ScheduleAction::AbortRunning]
        } else {
            Seq::empty()
        }) + seq![ScheduleAction::StartTask(t)],
        None => Seq::empty(),
    }
}

/// The actions of a queued phase that found `found` due.
pub open spec fn queued_actions(found: Option<TaskRequest>) -> Seq<ScheduleAction> {
    match found {
        Some(t) => seq![ScheduleAction::StartTask(t)],
        None => Seq::empty(),
    }
}

/// How many tasks of the schedule are in progress after `acts`, from
/// `count` before them: a start adds one, a stop ends the one in progress.
pub open spec fn in_progress_after(count: nat, acts: Seq<ScheduleAction>) -> nat
    decreases acts.len(),
{
    if acts.len() == 0 {
        count
    } else {
        let c = in_progress_after(count, acts.drop_last());
        match acts.last() {
            ScheduleAction::AbortRunning => if c > 0 {
                (c - 1) as nat
            } else {
                0
            },
            ScheduleAction::StartTask(_) => c + 1,
            ScheduleAction::ResetTimed => c,
        }
    }
}

/// At most one task is in progress before, between and after the actions.
pub open spec fn at_most_one_throughout(count: nat, acts: Seq<ScheduleAction>) -> bool {
    forall|k: int| 0 <= k <= acts.len() ==> #[trigger] in_progress_after(count, acts.take(k)) <= 1
}

/// The immediate phase of an evaluation: takes the immediate requests due
/// now out of `pending` (all requests, when the one taken clears them) and
/// returns the actions to perform, given whether a task was seen running.
pub fn immediate_phase(now: u128, acceptable_window: u128, pending: &mut Vec<TaskRequest>, running: bool) -> (res: Vec<
    ScheduleAction,
>)
    ensures
        res@ == immediate_actions(immediate_outcome(old(pending)@, now, acceptable_window, running)),
        immediate_outcome(old(pending)@, now, acceptable_window, running).reset_timed ==> final(pending)@.len() == 0,
        !immediate_outcome(old(pending)@, now, acceptable_window, running).reset_timed ==> final(pending)@ == keep(old(pending)@, not_immediate_due(now, acceptable_window)),
{
    let step = immediate_step(now, acceptable_window, pending, running);
    let mut acts: Vec<ScheduleAction> = Vec::new();
    match step.task {
        Some(t) => {
            if step.reset_timed {
                acts.push(ScheduleAction::ResetTimed);
            }
            if step.abort_running {
                acts.push(ScheduleAction::AbortRunning);
            }
            acts.push(ScheduleAction::StartTask(t));
        },
        None => {},
    }
    proof {
        let s = immediate_outcome(old(pending)@, now, acceptable_window, running);
        assert(step == s);
        assert(acts@ =~= immediate_actions(s));
    }
    acts
}

/// The queued phase of an evaluation: when no task was seen running, takes
/// the requests due now out of `pending` and starts the last of them;
/// when one runs, nothing is done.
pub fn queued_phase(now: u128, acceptable_window: u128, pending: &mut Vec<TaskRequest>, running: bool) -> (res: Vec<
    ScheduleAction,
>)
    ensures
        running ==> res@.len() == 0 && final(pending)@ == old(pending)@,
        !running ==> res@ == queued_actions(last_of(keep(old(pending)@, due(now, acceptable_window)))),
        !running ==> final(pending)@ == keep(old(pending)@, not_due(now, acceptable_window)),
{
    let mut acts: Vec<ScheduleAction> = Vec::new();
    if !running {
        match find_now_task(now, acceptable_window, pending) {
            Some(t) => acts.push(ScheduleAction::StartTask(t)),
            None => {},
        }
        proof {
            assert(acts@ =~= queued_actions(last_of(keep(old(pending)@, due(now, acceptable_window)))));
        }
    }
    acts
}


/// A schedule never has two tasks in progress. Let `count` (at most one)
/// be the number of its tasks in progress, and `running` what the
/// scheduler saw: a task can have finished since it was seen, but none can
/// have started, so nothing runs when none was seen. Then throughout the
/// actions of the immediate phase, and throughout those of the queued phase
/// (which acts only when nothing was seen running, whatever request it
/// finds due), at most one task is in progress; after an immediate phase
/// that starts a task exactly one is. When the immediate phase takes a
/// request that clears the pending ones, the timed evaluators are reset
/// before any other action and the task starts last.
pub proof fn lemma_one_task_in_progress(
    count: nat,
    running: bool,
    p: Seq<TaskRequest>,
    now: u128,
    window: u128,
    found: Option<TaskRequest>,
)
    requires
        count <= 1,
        !running ==> count == 0,
    ensures
        at_most_one_throughout(count, immediate_actions(immediate_outcome(p, now, window, running))),
        immediate_outcome(p, now, window, running).task is Some ==> in_progress_after(
            count,
            immediate_actions(immediate_outcome(p, now, window, running)),
        ) == 1,
        !running ==> at_most_one_throughout(count, queued_actions(found)),
        immediate_outcome(p, now, window, running).reset_timed ==> {
            let acts = immediate_actions(immediate_outcome(p, now, window, running));
            &&& acts[0] == ScheduleAction::ResetTimed
            &&& acts.last() == ScheduleAction::StartTask(
                immediate_outcome(p, now, window, running).task.unwrap(),
            )
        },
{
    reveal_with_fuel(in_progress_after, 4);
    let s = immediate_outcome(p, now, window, running);
    let acts = immediate_actions(s);
    match s.task {
        Some(t) => {
            let r = ScheduleAction::ResetTimed;
            let a = ScheduleAction::AbortRunning;
            let st = ScheduleAction::StartTask(t);
            if s.reset_timed {
                if s.abort_running {
                    assert(acts =~= seq![r, a, st]);
                } else {
                    assert(acts =~= seq![r, st]);
                }
            } else {
                if s.abort_running {
                    assert(acts =~= seq![a, st]);
                } else {
                    assert(acts =~= seq![st]);
                }
            }
            assert forall|k: int| 0 <= k <= acts.len() implies #[trigger] in_progress_after(
                count,
                acts.take(k),
            ) <= 1 by {
                if k == 0 {
                    assert(acts.take(k) =~= Seq::<ScheduleAction>::empty());
                } else if k == 1 {
                    assert(acts.take(k) =~= seq![acts[0]]);
                    assert(acts.take(k).drop_last() =~= Seq::<ScheduleAction>::empty());
                } else if k == 2 {
                    assert(acts.take(k) =~= seq![acts[0], acts[1]]);
                    assert(acts.take(k).drop_last() =~= seq![acts[0]]);
                    assert(seq![acts[0]].drop_last() =~= Seq::<ScheduleAction>::empty());
                } else {
                    assert(acts.take(k) =~= acts);
                    assert(acts.drop_last() =~= seq![acts[0], acts[1]]);
                    assert(seq![acts[0], acts[1]].drop_last() =~= seq![acts[0]]);
                    assert(seq![acts[0]].drop_last() =~= Seq::<ScheduleAction>::empty());
                }
            }
            assert(acts.take(acts.len() as int) =~= acts);
        },
        None => {
            assert forall|k: int| 0 <= k <= acts.len() implies #[trigger] in_progress_after(
                count,
                acts.take(k),
            ) <= 1 by {
                assert(acts.take(k) =~= Seq::<ScheduleAction>::empty());
            }
        },
    }
    let q = queued_actions(found);
    if !running {
        assert forall|k: int| 0 <= k <= q.len() implies #[trigger] in_progress_after(count, q.take(k)) <= 1 by {
            if k == 0 {
                assert(q.take(k) =~= Seq::<ScheduleAction>::empty());
            } else {
                assert(q.take(k) =~= q);
                assert(q.drop_last() =~= Seq::<ScheduleAction>::empty());
            }
        }
    }
}

/// The actions for a new request given the decision on it: it starts when
/// executed; when it preempts, a running task is stopped first; when it is
/// deferred, nothing is done now.
pub open spec fn new_task_actions(action: NewTaskAction, task: TaskRequest, running: bool) -> Seq<ScheduleAction> {
    match action {
        NewTaskAction::Execute => seq![ScheduleAction::StartTask(task)],
        NewTaskAction::Preempt { .. } => (if running {
            seq![ScheduleAction::AbortRunning]
        } else {
            Seq::empty()
        }) + seq![ScheduleAction::StartTask(task)],
        NewTaskAction::Defer => Seq::empty(),
    }
}

/// A new request for a schedule: decides on it and returns the actions to
/// perform now. A deferred request is added to the pending requests unless
/// it is already there; a request that executes or preempts leaves them as
/// they are (see `settle_started` for what follows its start).
pub fn new_task_phase(
    now: u128,
    acceptable_window: u128,
    pending: &mut Vec<TaskRequest>,
    task: &TaskRequest,
    running: bool,
) -> (res: Vec<ScheduleAction>)
    ensures
        res@ == new_task_actions(new_task_action(now, acceptable_window, *task, running), *task, running),
        final(pending)@ == (if new_task_action(now, acceptable_window, *task, running) is Defer {
            inserted(old(pending)@, *task)
        } else {
            old(pending)@
        }),
{
    let action = handle_new_task(now, acceptable_window, task, running);
    let mut acts: Vec<ScheduleAction> = Vec::new();
    match action {
        NewTaskAction::Execute => acts.push(ScheduleAction::StartTask(*task)),
        NewTaskAction::Preempt { .. } => {
            if running {
                acts.push(ScheduleAction::AbortRunning);
            }
            acts.push(ScheduleAction::StartTask(*task));
        },
        NewTaskAction::Defer => {
            insert_new_request(pending, *task);
        },
    }
    proof {
        assert(acts@ =~= new_task_actions(new_task_action(now, acceptable_window, *task, running), *task, running));
    }
    acts
}

/// After a new request's task was asked to start: when it did start and
/// the request clears the pending ones, they are all dropped; otherwise
/// they stay. Returns whether the task started.
pub fn settle_started(pending: &mut Vec<TaskRequest>, task: &TaskRequest, started: bool) -> (res: bool)
    ensures
        res == started,
        started && task.delivery == TaskDelivery::ImmediateAndClear ==> final(pending)@.len() == 0,
        !(started && task.delivery == TaskDelivery::ImmediateAndClear) ==> final(pending)@ == old(pending)@,
{
    if started && task.delivery == TaskDelivery::ImmediateAndClear {
        pending.clear();
    }
    started
}

/// A new request never makes a schedule run two tasks: with `count` and
/// `running` as in `lemma_one_task_in_progress`, at most one task is in
/// progress throughout the actions taken for it.
pub proof fn lemma_new_task_one_in_progress(count: nat, running: bool, now: u128, window: u128, task: TaskRequest)
    requires
        count <= 1,
        !running ==> count == 0,
    ensures
        at_most_one_throughout(count, new_task_actions(new_task_action(now, window, task, running), task, running)),
{
    reveal_with_fuel(in_progress_after, 3);
    let acts = new_task_actions(new_task_action(now, window, task, running), task, running);
    assert forall|k: int| 0 <= k <= acts.len() implies #[trigger] in_progress_after(count, acts.take(k)) <= 1 by {
        if k == 0 {
            assert(acts.take(k) =~= Seq::<ScheduleAction>::empty());
        } else if k == 1 {
            assert(acts.take(k) =~= seq![acts[0]]);
            assert(acts.take(k).drop_last() =~= Seq::<ScheduleAction>::empty());
        } else {
            assert(acts.take(k) =~= acts);
            assert(acts.drop_last() =~= seq![acts[0]]);
            assert(seq![acts[0]].drop_last() =~= Seq::<ScheduleAction>::empty());
        }
    }
}

/// Something that happens to a schedule while the scheduler runs. In every
/// phase the scheduler sees whether one of the schedule's tasks is in
/// progress.
#[derive(Debug, Clone, Copy, PartialEq, Eq, Structural)]
pub enum ScheduleEvent {
    /// An immediate phase that takes `chosen` (the immediate choice among
    /// the pending requests, if any).
    Immediate { chosen: Option<TaskRequest> },
    /// A queued phase that finds `found` due.
    Queued { found: Option<TaskRequest> },
    /// A new request arrives.
    NewTask { now: u128, window: u128, task: TaskRequest },
    /// The task in progress finishes.
    Finished,
}

/// What the immediate phase decides for a chosen request.
pub open spec fn immediate_step_for(chosen: Option<TaskRequest>, running: bool) -> ImmediateStep {
    ImmediateStep {
        task: chosen,
        reset_timed: chosen matches Some(t) && t.delivery == TaskDelivery::ImmediateAndClear,
        abort_running: chosen is Some && running,
    }
}

/// The actions an event brings when `count` tasks are in progress.
pub open spec fn event_actions(count: nat, e: ScheduleEvent) -> Seq<ScheduleAction> {
    let running = count > 0;
    match e {
        ScheduleEvent::Immediate { chosen } => immediate_actions(immediate_step_for(chosen, running)),
        ScheduleEvent::Queued { found } => if running {
            Seq::empty()
        } else {
            queued_actions(found)
        },
        ScheduleEvent::NewTask { now, window, task } => new_task_actions(
            new_task_action(now, window, task, running),
            task,
            running,
        ),
        ScheduleEvent::Finished => Seq::empty(),
    }
}

/// The tasks in progress after an event.
pub open spec fn count_after_event(count: nat, e: ScheduleEvent) -> nat {
    match e {
        ScheduleEvent::Finished => if count > 0 {
            (count - 1) as nat
        } else {
            0
        },
        _ => in_progress_after(count, event_actions(count, e)),
    }
}

/// The tasks in progress after a run of events, from none.
pub open spec fn count_after_run(events: Seq<ScheduleEvent>) -> nat
    decreases events.len(),
{
    if events.len() == 0 {
        0
    } else {
        count_after_event(count_after_run(events.drop_last()), events.last())
    }
}

/// A schedule never has two tasks in progress, over any run of the
/// scheduler from its start: whatever the immediate and queued phases take,
/// whatever new requests arrive and whenever tasks finish, at most one of
/// the schedule's tasks is in progress after every event and throughout the
/// actions of each. (What `immediate_phase` decides for pending requests
/// `p` is `immediate_step_for(immediate_choice(p, now, window), running)`,
/// so every immediate phase is such an event.)
pub proof fn lemma_run_one_task_in_progress(events: Seq<ScheduleEvent>)
    ensures
        forall|i: int| 0 <= i <= events.len() ==> #[trigger] count_after_run(events.take(i)) <= 1,
        forall|i: int|
            0 <= i < events.len() ==> at_most_one_throughout(
                count_after_run(events.take(i)),
                #[trigger] event_actions(count_after_run(events.take(i)), events[i]),
            ),
    decreases events.len(),
{
    if events.len() > 0 {
        let prefix = events.drop_last();
        lemma_run_one_task_in_progress(prefix);
        let n = events.len() - 1;
        assert forall|i: int| 0 <= i <= n implies events.take(i) == prefix.take(i) by {
            assert(events.take(i) =~= prefix.take(i));
        }
        assert(events.take(n) =~= prefix);
        assert(events.take(n + 1) =~= events);
        let c = count_after_run(prefix);
        assert(prefix.take(n) =~= prefix);
        lemma_event_one_in_progress(c, events[n]);
        assert(events.take(n + 1).drop_last() =~= prefix);
        assert(events.last() == events[n]);
        assert forall|i: int| 0 <= i <= events.len() implies #[trigger] count_after_run(events.take(i)) <= 1 by {
            if i <= n {
                assert(events.take(i) == prefix.take(i));
            }
        }
        assert forall|i: int|
            0 <= i < events.len() implies at_most_one_throughout(
            count_after_run(events.take(i)),
            #[trigger] event_actions(count_after_run(events.take(i)), events[i]),
        ) by {
            if i < n {
                assert(events.take(i) == prefix.take(i));
                assert(events[i] == prefix[i]);
            }
        }
    }
}

/// One event keeps at most one task in progress.
proof fn lemma_event_one_in_progress(count: nat, e: ScheduleEvent)
    requires
        count <= 1,
    ensures
        at_most_one_throughout(count, event_actions(count, e)),
        count_after_event(count, e) <= 1,
{
    let running = count > 0;
    let acts = event_actions(count, e);
    match e {
        ScheduleEvent::Immediate { chosen } => {
            lemma_immediate_actions_bounded(count, chosen, running);
        },
        ScheduleEvent::Queued { found } => {
            if !running {
                lemma_one_task_in_progress(count, running, Seq::empty(), 0, 0, found);
            } else {
                assert forall|k: int| 0 <= k <= acts.len() implies #[trigger] in_progress_after(count, acts.take(k)) <= 1 by {
                    assert(acts.take(k) =~= Seq::<ScheduleAction>::empty());
                }
            }
        },
        ScheduleEvent::NewTask { now, window, task } => {
            lemma_new_task_one_in_progress(count, running, now, window, task);
        },
        ScheduleEvent::Finished => {
            assert forall|k: int| 0 <= k <= acts.len() implies #[trigger] in_progress_after(count, acts.take(k)) <= 1 by {
                assert(acts.take(k) =~= Seq::<ScheduleAction>::empty());
            }
        },
    }
    match e {
        ScheduleEvent::Finished => {},
        _ => {
            assert(acts.take(acts.len() as int) =~= acts);
        },
    }
}

proof fn lemma_immediate_actions_bounded(count: nat, chosen: Option<TaskRequest>, running: bool)
    requires
        count <= 1,
        running == (count > 0),
    ensures
        at_most_one_throughout(count, immediate_actions(immediate_step_for(chosen, running))),
{
    reveal_with_fuel(in_progress_after, 4);
    let acts = immediate_actions(immediate_step_for(chosen, running));
    assert forall|k: int| 0 <= k <= acts.len() implies #[trigger] in_progress_after(count, acts.take(k)) <= 1 by {
        if k == 0 {
            assert(acts.take(k) =~= Seq::<ScheduleAction>::empty());
        } else if k == 1 {
            assert(acts.take(k) =~= seq![acts[0]]);
            assert(acts.take(k).drop_last() =~= Seq::<ScheduleAction>::empty());
        } else if k == 2 {
            assert(acts.take(k) =~= seq![acts[0], acts[1]]);
            assert(acts.take(k).drop_last() =~= seq![acts[0]]);
            assert(seq![acts[0]].drop_last() =~= Seq::<ScheduleAction>::empty());
        } else {
            assert(acts.take(k) =~= acts);
            assert(acts.drop_last() =~= seq![acts[0], acts[1]]);
            assert(seq![acts[0], acts[1]].drop_last() =~= seq![acts[0]]);
            assert(seq![acts[0]].drop_last() =~= Seq::<ScheduleAction>::empty());
        }
    }
}

} // verus!
