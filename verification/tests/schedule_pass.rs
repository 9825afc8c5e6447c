use spiceai::schedule_pass::{
    immediate_phase, new_task_phase, queued_phase, settle_started, ScheduleAction,
};
use spiceai::scheduler::{NewTaskRequest, TaskDelivery, TaskRequest};

fn req(at: u128, delivery: TaskDelivery, id: u128) -> TaskRequest {
    TaskRequest { at, delivery, created_at: 0, evaluator_id: id }
}

#[test]
fn new_task_request_from_reading() {
    let n = NewTaskRequest::queued_at(42);
    assert_eq!(n.at, 42);
    assert_eq!(n.created_at, 42);
    assert_eq!(n.delivery, TaskDelivery::Queued);
}

#[test]
fn clearing_request_resets_then_stops_then_starts() {
    let clear = req(100, TaskDelivery::ImmediateAndClear, 2);
    let mut pending = vec![req(500, TaskDelivery::Queued, 1), clear];
    let acts = immediate_phase(100, 10, &mut pending, true);
    assert_eq!(
        acts,
        vec![ScheduleAction::ResetTimed, ScheduleAction::AbortRunning, ScheduleAction::StartTask(clear)]
    );
    assert!(pending.is_empty());
}

#[test]
fn immediate_request_with_nothing_running_only_starts() {
    let imm = req(100, TaskDelivery::Immediate, 2);
    let later = req(500, TaskDelivery::Queued, 1);
    let mut pending = vec![later, imm];
    let acts = immediate_phase(100, 10, &mut pending, false);
    assert_eq!(acts, vec![ScheduleAction::StartTask(imm)]);
    assert_eq!(pending, vec![later]);
}

#[test]
fn no_immediate_request_does_nothing() {
    let mut pending = vec![req(100, TaskDelivery::Queued, 1)];
    let acts = immediate_phase(100, 10, &mut pending, true);
    assert!(acts.is_empty());
    assert_eq!(pending.len(), 1);
}

#[test]
fn queued_phase_waits_for_running_task() {
    let due = req(100, TaskDelivery::Queued, 1);
    let mut pending = vec![due];
    assert!(queued_phase(100, 10, &mut pending, true).is_empty());
    assert_eq!(pending, vec![due]);
    assert_eq!(queued_phase(100, 10, &mut pending, false), vec![ScheduleAction::StartTask(due)]);
    assert!(pending.is_empty());
}

#[test]
fn new_request_actions() {
    let mut pending: Vec<TaskRequest> = vec![];
    let q = req(100, TaskDelivery::Queued, 1);
    assert_eq!(new_task_phase(100, 10, &mut pending, &q, false), vec![ScheduleAction::StartTask(q)]);
    assert!(pending.is_empty());
    assert!(new_task_phase(100, 10, &mut pending, &q, true).is_empty());
    assert_eq!(pending, vec![q]);
    assert!(new_task_phase(100, 10, &mut pending, &q, true).is_empty());
    assert_eq!(pending, vec![q]);
    let i = req(100, TaskDelivery::Immediate, 1);
    assert_eq!(
        new_task_phase(100, 10, &mut pending, &i, true),
        vec![ScheduleAction::AbortRunning, ScheduleAction::StartTask(i)]
    );
    assert_eq!(new_task_phase(100, 10, &mut pending, &i, false), vec![ScheduleAction::StartTask(i)]);
    assert_eq!(pending, vec![q]);
    let later = req(500, TaskDelivery::Immediate, 1);
    assert!(new_task_phase(100, 10, &mut pending, &later, true).is_empty());
    assert_eq!(pending, vec![q, later]);
}

#[test]
fn started_clearing_request_empties_pending() {
    let q = req(500, TaskDelivery::Queued, 1);
    let clear = req(100, TaskDelivery::ImmediateAndClear, 2);
    let mut pending = vec![q];
    assert!(!settle_started(&mut pending, &clear, false));
    assert_eq!(pending, vec![q]);
    assert!(settle_started(&mut pending, &req(100, TaskDelivery::Immediate, 2), true));
    assert_eq!(pending, vec![q]);
    assert!(settle_started(&mut pending, &clear, true));
    assert!(pending.is_empty());
}

/// Performs actions on a count of tasks in progress, checking it never passes one.
fn apply(count: &mut u32, actions: &[ScheduleAction]) {
    for a in actions {
        match a {
            ScheduleAction::AbortRunning => *count = count.saturating_sub(1),
            ScheduleAction::StartTask(_) => *count += 1,
            ScheduleAction::ResetTimed => {}
        }
        assert!(*count <= 1);
    }
}

#[test]
fn a_run_never_has_two_tasks_in_progress() {
    let mut count = 0u32;
    let mut pending = vec![req(100, TaskDelivery::Queued, 1), req(100, TaskDelivery::Immediate, 2)];
    let acts = immediate_phase(100, 10, &mut pending, count > 0);
    apply(&mut count, &acts);
    assert_eq!(count, 1);
    let acts = queued_phase(100, 10, &mut pending, count > 0);
    apply(&mut count, &acts);
    let clear = req(100, TaskDelivery::ImmediateAndClear, 3);
    let acts = new_task_phase(100, 10, &mut pending, &clear, count > 0);
    apply(&mut count, &acts);
    settle_started(&mut pending, &clear, true);
    assert!(pending.is_empty());
    count = 0; // the task finishes
    let q = req(100, TaskDelivery::Queued, 1);
    pending.push(q);
    let acts = queued_phase(100, 10, &mut pending, count > 0);
    apply(&mut count, &acts);
    assert_eq!(count, 1);
}
