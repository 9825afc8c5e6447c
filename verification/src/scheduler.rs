//! Scheduling decisions: task requests, evaluators that produce them, and
//! the choice of which pending request runs now.
//!
//! Times are nanoseconds since the Unix epoch; durations are nanoseconds.

use vstd::prelude::*;
use crate::ids::{clock_nanos, new_uuid};

verus! {

/// Nanoseconds in a second.
pub const NANOS_PER_SEC: u128 = 1_000_000_000;

/// How a requested task is delivered.
#[derive(Debug, Clone, Copy, PartialEq, Eq, Structural)]
pub enum TaskDelivery {
    /// Run now, stopping a running task, and drop the pending requests.
    ImmediateAndClear,
    /// Run now, stopping a running task.
    Immediate,
    /// Run when due and nothing else runs.
    Queued,
}

/// A request to run a schedule's task at a time.
#[derive(Debug, Clone, Copy, PartialEq, Eq, Structural)]
pub struct TaskRequest {
    pub at: u128,
    pub delivery: TaskDelivery,
    pub created_at: u128,
    /// The evaluator that created this request.
    pub evaluator_id: u128,
}

impl TaskRequest {
    /// A queued request due at `now`.
    pub fn queued_at(evaluator_id: u128, now: u128) -> (res: Self)
        ensures
            res == (TaskRequest {
                at: now,
                delivery: TaskDelivery::Queued,
                created_at: now,
                evaluator_id,
            }),
    {
        TaskRequest { at: now, delivery: TaskDelivery::Queued, created_at: now, evaluator_id }
    }

    /// A queued request, created at `now`, due `secs` seconds later.
    pub fn queued_after(evaluator_id: u128, now: u64, secs: u64) -> (res: Self)
        ensures
            res == (TaskRequest {
                at: (now + secs * NANOS_PER_SEC) as u128,
                delivery: TaskDelivery::Queued,
                created_at: now as u128,
                evaluator_id,
            }),
    {
        let n = now as u128;
        let d = secs as u128 * NANOS_PER_SEC;
        TaskRequest { at: n + d, delivery: TaskDelivery::Queued, created_at: n, evaluator_id }
    }

    /// A queued request due now, by the clock.
    pub fn now(evaluator_id: u128) -> (res: Self)
        ensures
            res.at == res.created_at,
            res.delivery == TaskDelivery::Queued,
            res.evaluator_id == evaluator_id,
    {
        let t = clock_nanos();
        Self::queued_at(evaluator_id, t as u128)
    }

    /// A queued request due `secs` seconds from now, by the clock.
    pub fn from_secs(evaluator_id: u128, secs: u64) -> (res: Self)
        ensures
            res.at == res.created_at + secs * NANOS_PER_SEC,
            res.delivery == TaskDelivery::Queued,
            res.evaluator_id == evaluator_id,
    {
        let t = clock_nanos();
        Self::queued_after(evaluator_id, t, secs)
    }

    pub fn immediate(self) -> (res: Self)
        ensures
            res == (TaskRequest { delivery: TaskDelivery::Immediate, ..self }),
    {
        TaskRequest { delivery: TaskDelivery::Immediate, ..self }
    }

    pub fn immediate_clear(self) -> (res: Self)
        ensures
            res == (TaskRequest { delivery: TaskDelivery::ImmediateAndClear, ..self }),
    {
        TaskRequest { delivery: TaskDelivery::ImmediateAndClear, ..self }
    }

    pub fn is_immediate(&self) -> (r: bool)
        ensures
            r == is_immediate_request(*self),
    {
        match self.delivery {
            TaskDelivery::Immediate | TaskDelivery::ImmediateAndClear => true,
            TaskDelivery::Queued => false,
        }
    }
}

/// Whether a request preempts running tasks.
pub open spec fn is_immediate_request(r: TaskRequest) -> bool {
    r.delivery == TaskDelivery::Immediate || r.delivery == TaskDelivery::ImmediateAndClear
}

/// A request for a new task, not tied to an evaluator.
#[derive(Debug, Clone, Copy, PartialEq, Eq, Structural)]
pub struct NewTaskRequest {
    pub at: u128,
    pub delivery: TaskDelivery,
    pub created_at: u128,
}

impl NewTaskRequest {
    /// A queued request due at the clock reading `now`.
    pub fn queued_at(now: u128) -> (res: Self)
        ensures
            res == (NewTaskRequest { at: now, delivery: TaskDelivery::Queued, created_at: now }),
    {
        NewTaskRequest { at: now, delivery: TaskDelivery::Queued, created_at: now }
    }

    /// A queued request due now, by the clock.
    pub fn now() -> (res: Self)
        ensures
            res.at == res.created_at,
            res.delivery == TaskDelivery::Queued,
    {
        let t = clock_nanos() as u128;
        Self::queued_at(t)
    }
}

/// How far `compare` lies after `now`: zero when it is not later.
pub open spec fn time_until(now: u128, compare: u128) -> u128 {
    if compare > now {
        (compare - now) as u128
    } else {
        0
    }
}

/// Whether `compare` counts as now: it is past, or within the window.
pub open spec fn is_now(now: u128, acceptable_window: u128, compare: u128) -> bool {
    time_until(now, compare) <= acceptable_window
}

/// Whether `compare` counts as now.
pub fn time_difference_is_now(now: u128, acceptable_window: u128, compare_time: u128) -> (r: bool)
    ensures
        r == is_now(now, acceptable_window, compare_time),
{
    let diff = if compare_time > now {
        compare_time - now
    } else {
        0
    };
    diff <= acceptable_window
}

/// The elements of `s` that satisfy `f`, in order.
pub open spec fn keep(s: Seq<TaskRequest>, f: spec_fn(TaskRequest) -> bool) -> Seq<TaskRequest>
    decreases s.len(),
{
    if s.len() == 0 {
        Seq::empty()
    } else if f(s.last()) {
        keep(s.drop_last(), f).push(s.last())
    } else {
        keep(s.drop_last(), f)
    }
}

/// What `keep` keeps is in the sequence and satisfies the predicate.
pub proof fn lemma_keep(s: Seq<TaskRequest>, f: spec_fn(TaskRequest) -> bool)
    ensures
        keep(s, f).len() <= s.len(),
        forall|i: int| 0 <= i < keep(s, f).len() ==> f(#[trigger] keep(s, f)[i]) && s.contains(
            keep(s, f)[i],
        ),
        forall|x: TaskRequest| s.contains(x) && f(x) ==> #[trigger] keep(s, f).contains(x),
    decreases s.len(),
{
    if s.len() > 0 {
        lemma_keep(s.drop_last(), f);
        let k = keep(s, f);
        let kp = keep(s.drop_last(), f);
        assert forall|i: int| 0 <= i < k.len() implies f(#[trigger] k[i]) && s.contains(k[i]) by {
            if i < kp.len() {
                assert(k[i] == kp[i]);
                let j = choose|j: int| 0 <= j < s.drop_last().len() && s.drop_last()[j] == kp[i];
                assert(s[j] == kp[i]);
            } else {
                assert(k[i] == s.last());
                assert(s[s.len() - 1] == s.last());
            }
        }
        assert forall|x: TaskRequest| s.contains(x) && f(x) implies #[trigger] k.contains(x) by {
            let j = choose|j: int| 0 <= j < s.len() && s[j] == x;
            if j < s.len() - 1 {
                assert(s.drop_last()[j] == x);
                assert(kp.contains(x));
                let m = choose|m: int| 0 <= m < kp.len() && kp[m] == x;
                assert(k[m] == x);
            } else {
                assert(k[k.len() - 1] == x);
            }
        }
    }
}

/// Whether a pending request is due now.
pub open spec fn due(now: u128, window: u128) -> spec_fn(TaskRequest) -> bool {
    |r: TaskRequest| is_now(now, window, r.at)
}

/// Whether a pending request is not due now.
pub open spec fn not_due(now: u128, window: u128) -> spec_fn(TaskRequest) -> bool {
    |r: TaskRequest| !is_now(now, window, r.at)
}

/// Whether a pending request is immediate and due now.
pub open spec fn immediate_due(now: u128, window: u128) -> spec_fn(TaskRequest) -> bool {
    |r: TaskRequest| is_immediate_request(r) && is_now(now, window, r.at)
}

/// Whether a pending request is not both immediate and due now.
pub open spec fn not_immediate_due(now: u128, window: u128) -> spec_fn(TaskRequest) -> bool {
    |r: TaskRequest| !(is_immediate_request(r) && is_now(now, window, r.at))
}

/// Whether a request clears the pending ones.
pub open spec fn clears() -> spec_fn(TaskRequest) -> bool {
    |r: TaskRequest| r.delivery == TaskDelivery::ImmediateAndClear
}

/// The last element of a sequence, if any.
pub open spec fn last_of(s: Seq<TaskRequest>) -> Option<TaskRequest> {
    if s.len() == 0 {
        None
    } else {
        Some(s.last())
    }
}

/// The immediate request that runs now: among the immediate requests due
/// now, the last that clears the pending ones if any, else the last one.
pub open spec fn immediate_choice(p: Seq<TaskRequest>, now: u128, window: u128) -> Option<TaskRequest> {
    let taken = keep(p, immediate_due(now, window));
    if keep(taken, clears()).len() > 0 {
        last_of(keep(taken, clears()))
    } else {
        last_of(taken)
    }
}

/// Splits `pending` by `f`: returns the kept elements and leaves the others.
fn take_where_due(pending: &mut Vec<TaskRequest>, now: u128, window: u128, immediate_only: bool) -> (res: Vec<TaskRequest>)
    ensures
        immediate_only ==> res@ == keep(old(pending)@, immediate_due(now, window)),
        immediate_only ==> final(pending)@ == keep(old(pending)@, not_immediate_due(now, window)),
        !immediate_only ==> res@ == keep(old(pending)@, due(now, window)),
        !immediate_only ==> final(pending)@ == keep(old(pending)@, not_due(now, window)),
{
    let ghost p = pending@;
    let ghost f = if immediate_only { immediate_due(now, window) } else { due(now, window) };
    let ghost g = if immediate_only { not_immediate_due(now, window) } else { not_due(now, window) };
    let mut taken: Vec<TaskRequest> = Vec::new();
    let mut rest: Vec<TaskRequest> = Vec::new();
    let mut i: usize = 0;
    while i < pending.len()
        invariant
            i <= pending.len(),
            pending@ == p,
            p == old(pending)@,
            f == (if immediate_only { immediate_due(now, window) } else { due(now, window) }),
            g == (if immediate_only { not_immediate_due(now, window) } else { not_due(now, window) }),
            taken@ == keep(p.take(i as int), f),
            rest@ == keep(p.take(i as int), g),
        decreases pending.len() - i,
    {
        assert(p.take(i + 1).drop_last() =~= p.take(i as int));
        let r = pending[i];
        let is_due = time_difference_is_now(now, window, r.at);
        let hit = if immediate_only {
            r.is_immediate() && is_due
        } else {
            is_due
        };
        assert(hit == f(r));
        assert(!hit == g(r));
        if hit {
            taken.push(r);
        } else {
            rest.push(r);
        }
        i += 1;
    }
    assert(p.take(pending.len() as int) =~= p);
    *pending = rest;
    taken
}

/// Takes out the requests that are due now and returns the last of them
/// (one task per evaluation); the requests not due stay, in order.
pub fn find_now_task(now: u128, acceptable_window: u128, pending: &mut Vec<TaskRequest>) -> (res:
    Option<TaskRequest>)
    ensures
        res == last_of(keep(old(pending)@, due(now, acceptable_window))),
        final(pending)@ == keep(old(pending)@, not_due(now, acceptable_window)),
{
    let mut tasks = take_where_due(pending, now, acceptable_window, false);
    tasks.pop()
}

/// Takes out the immediate requests that are due now and returns one: the
/// last that clears the pending requests if any, else the last one.
pub fn find_now_immediate_task(
    now: u128,
    acceptable_window: u128,
    pending: &mut Vec<TaskRequest>,
) -> (res: Option<TaskRequest>)
    ensures
        res == immediate_choice(old(pending)@, now, acceptable_window),
        final(pending)@ == keep(old(pending)@, not_immediate_due(now, acceptable_window)),
{
    let mut immediate_tasks = take_where_due(pending, now, acceptable_window, true);
    if immediate_tasks.len() == 0 {
        return None;
    }
    let ghost t = immediate_tasks@;
    let mut clear_tasks: Vec<TaskRequest> = Vec::new();
    let mut i: usize = 0;
    while i < immediate_tasks.len()
        invariant
            i <= immediate_tasks.len(),
            immediate_tasks@ == t,
            clear_tasks@ == keep(t.take(i as int), clears()),
        decreases immediate_tasks.len() - i,
    {
        assert(t.take(i + 1).drop_last() =~= t.take(i as int));
        let r = immediate_tasks[i];
        if r.delivery == TaskDelivery::ImmediateAndClear {
            clear_tasks.push(r);
        }
        i += 1;
    }
    assert(t.take(immediate_tasks.len() as int) =~= t);
    if clear_tasks.len() == 0 {
        immediate_tasks.pop()
    } else {
        clear_tasks.pop()
    }
}

/// Adds a request to the pending ones unless an equal one is there.
pub fn insert_new_request(pending: &mut Vec<TaskRequest>, request: TaskRequest)
    ensures
        final(pending)@ == inserted(old(pending)@, request),
{
    let mut i: usize = 0;
    while i < pending.len()
        invariant
            i <= pending.len(),
            pending@ == old(pending)@,
            forall|j: int| 0 <= j < i ==> pending@[j] != request,
        decreases pending.len() - i,
    {
        if pending[i] == request {
            return;
        }
        i += 1;
    }
    pending.push(request);
}

/// Whether no pending request comes from the evaluator `evaluator_id`.
pub fn no_task_pending_for_evaluator(pending: &Vec<TaskRequest>, evaluator_id: u128) -> (r: bool)
    ensures
        r == forall|j: int| 0 <= j < pending@.len() ==> #[trigger] pending@[j].evaluator_id != evaluator_id,
{
    let mut i: usize = 0;
    while i < pending.len()
        invariant
            i <= pending.len(),
            forall|j: int| 0 <= j < i ==> #[trigger] pending@[j].evaluator_id != evaluator_id,
        decreases pending.len() - i,
    {
        if pending[i].evaluator_id == evaluator_id {
            return false;
        }
        i += 1;
    }
    true
}

/// What to do with a new request.
#[derive(Debug, Clone, Copy, PartialEq, Eq, Structural)]
pub enum NewTaskAction {
    /// Start the task now.
    Execute,
    /// Keep the request pending (unless an equal one is already pending).
    Defer,
    /// Stop the running task, if any, and start the task now; drop the
    /// pending requests when `clear_pending` holds.
    Preempt { clear_pending: bool },
}

/// The decision for a new request: a queued request due now with nothing
/// running starts; an immediate request due now preempts; anything else
/// waits. Due here means strictly inside the window.
pub open spec fn new_task_action(now: u128, window: u128, task: TaskRequest, running: bool) -> NewTaskAction {
    let due_now = time_until(now, task.at) < window;
    match task.delivery {
        TaskDelivery::Queued => if due_now && !running {
            NewTaskAction::Execute
        } else {
            NewTaskAction::Defer
        },
        _ => if due_now {
            NewTaskAction::Preempt {
                clear_pending: task.delivery == TaskDelivery::ImmediateAndClear,
            }
        } else {
            NewTaskAction::Defer
        },
    }
}

/// Decides what happens to a new request, given whether the schedule has a running task.
pub fn handle_new_task(now: u128, acceptable_window: u128, task: &TaskRequest, running: bool) -> (res: NewTaskAction)
    ensures
        res == new_task_action(now, acceptable_window, *task, running),
{
    let until = if task.at > now {
        task.at - now
    } else {
        0
    };
    let due_now = until < acceptable_window;
    match task.delivery {
        TaskDelivery::Queued => {
            if due_now && !running {
                NewTaskAction::Execute
            } else {
                NewTaskAction::Defer
            }
        },
        TaskDelivery::Immediate => {
            if due_now {
                NewTaskAction::Preempt { clear_pending: false }
            } else {
                NewTaskAction::Defer
            }
        },
        TaskDelivery::ImmediateAndClear => {
            if due_now {
                NewTaskAction::Preempt { clear_pending: true }
            } else {
                NewTaskAction::Defer
            }
        },
    }
}

/// Where a request goes among requests sorted by time: after every request
/// due no later than it.
pub open spec fn insert_pos(s: Seq<TaskRequest>, x: TaskRequest) -> int
    decreases s.len(),
{
    if s.len() == 0 {
        0
    } else if s.last().at <= x.at {
        s.len() as int
    } else {
        insert_pos(s.drop_last(), x)
    }
}

/// Requests sorted by time, equal times keeping their order (a stable sort).
pub open spec fn sort_by_time(s: Seq<TaskRequest>) -> Seq<TaskRequest>
    decreases s.len(),
{
    if s.len() == 0 {
        s
    } else {
        let r = sort_by_time(s.drop_last());
        r.insert(insert_pos(r, s.last()), s.last())
    }
}

/// Whether requests are in order of time.
pub open spec fn sorted_by_time(s: Seq<TaskRequest>) -> bool {
    forall|i: int, j: int| 0 <= i <= j < s.len() ==> s[i].at <= s[j].at
}

proof fn lemma_insert_pos(s: Seq<TaskRequest>, x: TaskRequest)
    requires
        sorted_by_time(s),
    ensures
        0 <= insert_pos(s, x) <= s.len(),
        forall|i: int| 0 <= i < insert_pos(s, x) ==> s[i].at <= x.at,
        forall|i: int| insert_pos(s, x) <= i < s.len() ==> s[i].at > x.at,
    decreases s.len(),
{
    if s.len() > 0 {
        assert(s.last() == s[s.len() - 1]);
        if s.last().at > x.at {
            assert(sorted_by_time(s.drop_last())) by {
                assert forall|i: int, j: int| 0 <= i <= j < s.drop_last().len() implies s.drop_last()[i].at
                    <= s.drop_last()[j].at by {
                    assert(s.drop_last()[i] == s[i] && s.drop_last()[j] == s[j]);
                }
            }
            lemma_insert_pos(s.drop_last(), x);
            assert forall|i: int| 0 <= i < insert_pos(s, x) implies s[i].at <= x.at by {
                assert(s.drop_last()[i] == s[i]);
            }
            assert forall|i: int| insert_pos(s, x) <= i < s.len() implies s[i].at > x.at by {
                if i < s.len() - 1 {
                    assert(s.drop_last()[i] == s[i]);
                }
            }
        }
    }
}

/// Sorting by time gives requests in order of time, and the same requests.
pub proof fn lemma_sort_by_time(s: Seq<TaskRequest>)
    ensures
        sorted_by_time(sort_by_time(s)),
        sort_by_time(s).to_multiset() == s.to_multiset(),
    decreases s.len(),
{
    if s.len() > 0 {
        let d = s.drop_last();
        let r = sort_by_time(d);
        lemma_sort_by_time(d);
        lemma_insert_pos(r, s.last());
        let k = insert_pos(r, s.last());
        let n = r.insert(k, s.last());
        assert forall|i: int, j: int| 0 <= i <= j < n.len() implies n[i].at <= n[j].at by {
            if j < k {
            } else if j == k {
            } else if i < k {
                assert(n[j] == r[j - 1]);
            } else if i == k {
                assert(n[j] == r[j - 1]);
            } else {
                assert(n[i] == r[i - 1] && n[j] == r[j - 1]);
            }
        }
        vstd::seq_lib::to_multiset_insert(r, k, s.last());
        assert(s =~= d.push(s.last()));
        vstd::seq_lib::to_multiset_build(d, s.last());
    }
}

/// Sorts pending requests by time, soonest first; requests due at the same
/// time keep their order.
pub fn sort_pending_by_time(pending: &mut Vec<TaskRequest>)
    ensures
        final(pending)@ == sort_by_time(old(pending)@),
{
    let mut src: Vec<TaskRequest> = Vec::new();
    std::mem::swap(&mut src, pending);
    let mut out: Vec<TaskRequest> = Vec::new();
    let mut i: usize = 0;
    while i < src.len()
        invariant
            i <= src.len(),
            out@ == sort_by_time(src@.take(i as int)),
        decreases src.len() - i,
    {
        assert(src@.take(i + 1).drop_last() =~= src@.take(i as int));
        assert(src@.take(i + 1).last() == src@[i as int]);
        let x = src[i];
        let mut k: usize = out.len();
        assert(out@.take(k as int) =~= out@);
        while k > 0 && out[k - 1].at > x.at
            invariant
                k <= out.len(),
                insert_pos(out@, x) == insert_pos(out@.take(k as int), x),
            decreases k,
        {
            assert(out@.take(k - 1) =~= out@.take(k as int).drop_last());
            k -= 1;
        }
        proof {
            if k > 0 {
                assert(out@.take(k as int).last() == out@[k - 1]);
            }
        }
        assert(insert_pos(out@, x) == k);
        out.insert(k, x);
        i += 1;
    }
    assert(src@.take(src.len() as int) =~= src@);
    *pending = out;
}

/// The first pending request that is immediate and due strictly inside the
/// window.
pub open spec fn first_immediate_due(p: Seq<TaskRequest>, now: u128, window: u128) -> Option<TaskRequest>
    decreases p.len(),
{
    if p.len() == 0 {
        None
    } else {
        match first_immediate_due(p.drop_last(), now, window) {
            Some(r) => Some(r),
            None => if is_immediate_request(p.last()) && time_until(now, p.last().at) < window {
                Some(p.last())
            } else {
                None
            },
        }
    }
}

/// Finds the first pending immediate request due strictly inside the window.
pub fn find_immediate_due(pending: &Vec<TaskRequest>, now: u128, acceptable_window: u128) -> (res: Option<
    TaskRequest,
>)
    ensures
        res == first_immediate_due(pending@, now, acceptable_window),
{
    let mut i: usize = 0;
    while i < pending.len()
        invariant
            i <= pending.len(),
            first_immediate_due(pending@.take(i as int), now, acceptable_window) is None,
        decreases pending.len() - i,
    {
        assert(pending@.take(i + 1).drop_last() =~= pending@.take(i as int));
        assert(pending@.take(i + 1).last() == pending@[i as int]);
        let r = pending[i];
        let until = if r.at > now {
            r.at - now
        } else {
            0
        };
        if r.is_immediate() && until < acceptable_window {
            proof {
                lemma_first_stays(pending@, now, acceptable_window, i + 1);
            }
            return Some(r);
        }
        i += 1;
    }
    assert(pending@.take(pending.len() as int) =~= pending@);
    None
}

/// A request found in a prefix stays the first one.
proof fn lemma_first_stays(p: Seq<TaskRequest>, now: u128, window: u128, k: int)
    requires
        1 <= k <= p.len(),
        first_immediate_due(p.take(k), now, window) is Some,
    ensures
        first_immediate_due(p, now, window) == first_immediate_due(p.take(k), now, window),
    decreases p.len() - k,
{
    if k == p.len() {
        assert(p.take(k) =~= p);
    } else {
        assert(p.take(k + 1).drop_last() =~= p.take(k));
        lemma_first_stays(p, now, window, k + 1);
    }
}

/// What the immediate phase of an evaluation does for one schedule.
#[derive(Debug, Clone, Copy, PartialEq, Eq, Structural)]
pub struct ImmediateStep {
    /// The immediate task to start now, if any.
    pub task: Option<TaskRequest>,
    /// Whether the timed evaluators are reset: the task clears the pending
    /// requests.
    pub reset_timed: bool,
    /// Whether the running task is stopped before the task starts.
    pub abort_running: bool,
}

/// The immediate phase for one schedule: takes out the immediate requests
/// due now and picks the one to start; one that clears drops the other
/// pending requests too, and a running task is stopped for it.
pub fn immediate_step(now: u128, acceptable_window: u128, pending: &mut Vec<TaskRequest>, running: bool) -> (res:
    ImmediateStep)
    ensures
        res.task == immediate_choice(old(pending)@, now, acceptable_window),
        res.reset_timed == (res.task matches Some(t) && t.delivery == TaskDelivery::ImmediateAndClear),
        res.abort_running == (res.task is Some && running),
        res.reset_timed ==> final(pending)@.len() == 0,
        !res.reset_timed ==> final(pending)@ == keep(old(pending)@, not_immediate_due(now, acceptable_window)),
{
    let task = find_now_immediate_task(now, acceptable_window, pending);
    let reset_timed = match task {
        Some(t) => t.delivery == TaskDelivery::ImmediateAndClear,
        None => false,
    };
    if reset_timed {
        pending.clear();
    }
    ImmediateStep { task, reset_timed, abort_running: task.is_some() && running }
}

/// Whether an evaluator is asked for a request in an evaluation: it is
/// timed or sequential, and no request of it is pending.
pub fn should_evaluate(evaluator_type: EvaluatorType, pending: &Vec<TaskRequest>, evaluator_id: u128) -> (r: bool)
    ensures
        r == ((evaluator_type == EvaluatorType::Timed || evaluator_type == EvaluatorType::Sequential)
            && forall|j: int| 0 <= j < pending@.len() ==> #[trigger] pending@[j].evaluator_id != evaluator_id),
{
    match evaluator_type {
        EvaluatorType::Timed | EvaluatorType::Sequential => no_task_pending_for_evaluator(pending, evaluator_id),
        EvaluatorType::Interrupt => false,
    }
}

/// No request occurs twice.
pub open spec fn no_dups(s: Seq<TaskRequest>) -> bool {
    forall|i: int, j: int| 0 <= i < j < s.len() ==> s[i] != s[j]
}

/// The pending requests after `insert_new_request`.
pub open spec fn inserted(p: Seq<TaskRequest>, r: TaskRequest) -> Seq<TaskRequest> {
    if p.contains(r) {
        p
    } else {
        p.push(r)
    }
}

proof fn lemma_keep_no_dups(s: Seq<TaskRequest>, f: spec_fn(TaskRequest) -> bool)
    requires
        no_dups(s),
    ensures
        no_dups(keep(s, f)),
    decreases s.len(),
{
    if s.len() > 0 {
        let d = s.drop_last();
        assert(no_dups(d)) by {
            assert forall|i: int, j: int| 0 <= i < j < d.len() implies d[i] != d[j] by {
                assert(d[i] == s[i] && d[j] == s[j]);
            }
        }
        lemma_keep_no_dups(d, f);
        lemma_keep(d, f);
        if f(s.last()) {
            let k = keep(d, f);
            assert forall|i: int, j: int| 0 <= i < j < k.push(s.last()).len() implies k.push(
                s.last(),
            )[i] != k.push(s.last())[j] by {
                if j == k.len() {
                    assert(d.contains(k[i]));
                    let m = choose|m: int| 0 <= m < d.len() && d[m] == k[i];
                    assert(s[m] == d[m]);
                    assert(s[s.len() - 1] == s.last());
                }
            }
        }
    }
}

/// Splitting a sequence by a predicate and its negation loses nothing.
proof fn lemma_keep_split(
    s: Seq<TaskRequest>,
    f: spec_fn(TaskRequest) -> bool,
    g: spec_fn(TaskRequest) -> bool,
)
    requires
        forall|x: TaskRequest| #[trigger] g(x) == !f(x),
    ensures
        keep(s, f).len() + keep(s, g).len() == s.len(),
    decreases s.len(),
{
    if s.len() > 0 {
        lemma_keep_split(s.drop_last(), f, g);
        assert(g(s.last()) == !f(s.last()));
    }
}

/// The pending requests of a schedule never hold a request twice: adding
/// one, and taking out the due or the immediate due ones, keep them apart.
pub proof fn lemma_pending_stays_unique(p: Seq<TaskRequest>, r: TaskRequest, now: u128, window: u128)
    requires
        no_dups(p),
    ensures
        no_dups(inserted(p, r)),
        no_dups(keep(p, not_due(now, window))),
        no_dups(keep(p, not_immediate_due(now, window))),
{
    if !p.contains(r) {
        assert forall|i: int, j: int| 0 <= i < j < p.push(r).len() implies p.push(r)[i] != p.push(
            r,
        )[j] by {
            if j == p.len() {
                assert(p[i] == p.push(r)[i]);
            }
        }
    }
    lemma_keep_no_dups(p, not_due(now, window));
    lemma_keep_no_dups(p, not_immediate_due(now, window));
}

/// Taking the task to run now: no request left pending is due; a task is
/// returned exactly when some pending request is due, and it is one of
/// them; every pending request is either taken or left.
pub proof fn lemma_find_now_task(p: Seq<TaskRequest>, now: u128, window: u128)
    ensures
        forall|i: int|
            0 <= i < keep(p, not_due(now, window)).len() ==> !is_now(
                now,
                window,
                (#[trigger] keep(p, not_due(now, window))[i]).at,
            ),
        last_of(keep(p, due(now, window))) is None <==> forall|i: int|
            0 <= i < p.len() ==> !is_now(now, window, (#[trigger] p[i]).at),
        last_of(keep(p, due(now, window))) matches Some(r) ==> p.contains(r) && is_now(
            now,
            window,
            r.at,
        ),
        keep(p, due(now, window)).len() + keep(p, not_due(now, window)).len() == p.len(),
{
    let f = due(now, window);
    let g = not_due(now, window);
    lemma_keep(p, f);
    lemma_keep(p, g);
    lemma_keep_split(p, f, g);
    let k = keep(p, f);
    assert forall|i: int| 0 <= i < keep(p, g).len() implies !is_now(
        now,
        window,
        (#[trigger] keep(p, g)[i]).at,
    ) by {
        assert(g(keep(p, g)[i]));
    }
    if k.len() > 0 {
        assert(f(k[k.len() - 1]));
        let x = k[k.len() - 1];
        let m = choose|m: int| 0 <= m < p.len() && p[m] == x;
        assert(is_now(now, window, p[m].at));
    } else {
        assert forall|i: int| 0 <= i < p.len() implies !is_now(now, window, (#[trigger] p[i]).at) by {
            if is_now(now, window, p[i].at) {
                assert(f(p[i]));
                assert(p.contains(p[i]));
                assert(k.contains(p[i]));
            }
        }
    }
}

/// Taking the immediate task to run now: one that clears the pending
/// requests is preferred; what is returned is a pending immediate request
/// that is due; nothing is returned exactly when no such request is pending;
/// no immediate request that is due stays pending.
pub proof fn lemma_find_now_immediate_task(p: Seq<TaskRequest>, now: u128, window: u128)
    ensures
        forall|i: int|
            0 <= i < keep(p, not_immediate_due(now, window)).len() ==> !(is_immediate_request(
                #[trigger] keep(p, not_immediate_due(now, window))[i],
            ) && is_now(now, window, keep(p, not_immediate_due(now, window))[i].at)),
        (exists|i: int|
            0 <= i < p.len() && is_immediate_request(#[trigger] p[i]) && is_now(now, window, p[i].at)
                && p[i].delivery == TaskDelivery::ImmediateAndClear) ==> (immediate_choice(
            p,
            now,
            window,
        ) matches Some(r) && r.delivery == TaskDelivery::ImmediateAndClear),
        immediate_choice(p, now, window) matches Some(r) ==> p.contains(r) && is_immediate_request(r)
            && is_now(now, window, r.at),
        immediate_choice(p, now, window) is None <==> forall|i: int|
            0 <= i < p.len() ==> !(is_immediate_request(#[trigger] p[i]) && is_now(now, window, p[i].at)),
{
    let f = immediate_due(now, window);
    let t = keep(p, f);
    let c = keep(t, clears());
    let g = not_immediate_due(now, window);
    lemma_keep(p, g);
    assert forall|i: int| 0 <= i < keep(p, g).len() implies !(is_immediate_request(
        #[trigger] keep(p, g)[i],
    ) && is_now(now, window, keep(p, g)[i].at)) by {
        assert(g(keep(p, g)[i]));
    }
    lemma_keep(p, f);
    lemma_keep(t, clears());
    if exists|i: int|
        0 <= i < p.len() && is_immediate_request(#[trigger] p[i]) && is_now(now, window, p[i].at)
            && p[i].delivery == TaskDelivery::ImmediateAndClear {
        let i = choose|i: int|
            0 <= i < p.len() && is_immediate_request(#[trigger] p[i]) && is_now(now, window, p[i].at)
                && p[i].delivery == TaskDelivery::ImmediateAndClear;
        assert(p.contains(p[i]) && f(p[i]));
        assert(t.contains(p[i]));
        assert(clears()(p[i]));
        assert(c.contains(p[i]));
        assert(clears()(c[c.len() - 1]));
    }
    if c.len() > 0 {
        let x = c[c.len() - 1];
        assert(t.contains(x));
        let m = choose|m: int| 0 <= m < t.len() && t[m] == x;
        assert(f(t[m]));
    } else if t.len() > 0 {
        assert(f(t[t.len() - 1]));
    }
    if t.len() == 0 {
        assert forall|i: int| 0 <= i < p.len() implies !(is_immediate_request(#[trigger] p[i])
            && is_now(now, window, p[i].at)) by {
            if is_immediate_request(p[i]) && is_now(now, window, p[i].at) {
                assert(f(p[i]));
                assert(p.contains(p[i]));
                assert(t.contains(p[i]));
            }
        }
    } else {
        assert(f(t[0]));
        assert(p.contains(t[0]));
        let m = choose|m: int| 0 <= m < p.len() && p[m] == t[0];
        assert(is_immediate_request(p[m]) && is_now(now, window, p[m].at));
        if c.len() > 0 {
            assert(clears()(c[c.len() - 1]));
        }
    }
}

/// The kinds of evaluator.
#[derive(Debug, Clone, Copy, PartialEq, Eq, Structural)]
pub enum EvaluatorType {
    Sequential,
    Timed,
    Interrupt,
}

/// Something that produces task requests for a schedule.
pub trait Evaluator {
    fn id(&self) -> u128;

    fn evaluator_type(&self) -> EvaluatorType;

    fn evaluate(&mut self) -> Option<TaskRequest>;

    fn reset(&mut self);
}

/// Requests a task every `interval` seconds.
pub struct IntervalEvaluator {
    pub id: u128,
    pub interval: u64,
    pub last_evaluated: Option<u64>,
}

/// Whole seconds from `last` to `now` (zero when `now` is earlier).
pub open spec fn elapsed_secs(last: u64, now: u64) -> int {
    if now > last {
        (now - last) / (NANOS_PER_SEC as int)
    } else {
        0
    }
}

impl IntervalEvaluator {
    /// A new evaluator with a fresh identifier that has never evaluated.
    pub fn new(interval: u64) -> (res: Self)
        ensures
            res.interval == interval,
            res.last_evaluated is None,
    {
        IntervalEvaluator { id: new_uuid(), interval, last_evaluated: None }
    }

    /// At time `now`: no request while less than the interval has passed
    /// since the last request; otherwise a request due one interval from now.
    pub fn evaluate_at(&mut self, now: u64) -> (res: Option<TaskRequest>)
        ensures
            final(self).id == old(self).id,
            final(self).interval == old(self).interval,
            match old(self).last_evaluated {
                Some(last) if elapsed_secs(last, now) < old(self).interval => {
                    &&& res is None
                    &&& final(self).last_evaluated == old(self).last_evaluated
                },
                _ => {
                    &&& res == Some(TaskRequest {
                        at: (now + old(self).interval * NANOS_PER_SEC) as u128,
                        delivery: TaskDelivery::Queued,
                        created_at: now as u128,
                        evaluator_id: old(self).id,
                    })
                    &&& final(self).last_evaluated == Some(now)
                },
            },
    {
        match self.last_evaluated {
            Some(last) => {
                let secs = if now > last {
                    (now - last) / 1_000_000_000
                } else {
                    0
                };
                if secs < self.interval {
                    return None;
                }
            },
            None => {},
        }
        self.last_evaluated = Some(now);
        Some(TaskRequest::queued_after(self.id, now, self.interval))
    }
}

impl Evaluator for IntervalEvaluator {
    fn id(&self) -> (r: u128)
        ensures
            r == self.id,
    {
        self.id
    }

    fn evaluator_type(&self) -> (r: EvaluatorType)
        ensures
            r == EvaluatorType::Timed,
    {
        EvaluatorType::Timed
    }

    fn evaluate(&mut self) -> (res: Option<TaskRequest>)
        ensures
            final(self).id == old(self).id,
            final(self).interval == old(self).interval,
            res matches Some(r) ==> r.evaluator_id == old(self).id && r.delivery
                == TaskDelivery::Queued && r.at == r.created_at + old(self).interval * NANOS_PER_SEC,
            old(self).last_evaluated is None ==> res is Some,
    {
        let now = clock_nanos();
        self.evaluate_at(now)
    }

    fn reset(&mut self)
        ensures
            final(self).id == old(self).id,
            final(self).interval == old(self).interval,
            final(self).last_evaluated is None,
    {
        self.last_evaluated = None;
    }
}

/// What a manual interrupt produces from what its channel held: a sent
/// request as it is; a bare signal as a request due at `now`; nothing
/// when the channel was empty or closed.
pub fn interrupt_request(received: Option<Option<TaskRequest>>, evaluator_id: u128, now: u64) -> (res: Option<TaskRequest>)
    ensures
        res == match received {
            Some(Some(r)) => Some(r),
            Some(None) => Some(TaskRequest {
                at: now as u128,
                delivery: TaskDelivery::Queued,
                created_at: now as u128,
                evaluator_id,
            }),
            None => None,
        },
{
    match received {
        Some(Some(r)) => Some(r),
        Some(None) => Some(TaskRequest::queued_at(evaluator_id, now as u128)),
        None => None,
    }
}


#[verifier::external_type_specification]
#[verifier::external_body]
#[verifier::reject_recursive_types(T)]
pub struct ExReceiver<T>(tokio::sync::mpsc::Receiver<T>);

/// Takes a waiting message from a channel without blocking
/// (`tokio::sync::mpsc::Receiver::try_recv`): `None` when it is empty or
/// closed. Nothing is stated of the outcome: it depends on the senders.
#[verifier::external_body]
fn try_receive(rx: &mut tokio::sync::mpsc::Receiver<Option<TaskRequest>>) -> Option<Option<TaskRequest>> {
    match rx.try_recv() {
        Ok(m) => Some(m),
        Err(_) => None,
    }
}

/// Produces requests sent through a channel: a sent request as it is, a
/// bare signal (`None`) as a request due now.
pub struct ManualInterrupt {
    pub id: u128,
    pub rx: tokio::sync::mpsc::Receiver<Option<TaskRequest>>,
}

impl ManualInterrupt {
    /// An interrupt evaluator with a fresh identifier, reading `rx`.
    pub fn new(rx: tokio::sync::mpsc::Receiver<Option<TaskRequest>>) -> (res: Self)
        ensures
            res.rx == rx,
    {
        ManualInterrupt { id: new_uuid(), rx }
    }
}

impl Evaluator for ManualInterrupt {
    fn id(&self) -> (r: u128)
        ensures
            r == self.id,
    {
        self.id
    }

    fn evaluator_type(&self) -> (r: EvaluatorType)
        ensures
            r == EvaluatorType::Interrupt,
    {
        EvaluatorType::Interrupt
    }

    fn evaluate(&mut self) -> (res: Option<TaskRequest>)
        ensures
            final(self).id == old(self).id,
    {
        let received = try_receive(&mut self.rx);
        let now = clock_nanos();
        interrupt_request(received, self.id, now)
    }

    fn reset(&mut self) {
    }
}

} // verus!
