use spiceai::scheduler::{
    find_immediate_due, immediate_step, should_evaluate, sort_pending_by_time, ImmediateStep,
    find_now_immediate_task, find_now_task, handle_new_task, insert_new_request,
    interrupt_request, no_task_pending_for_evaluator, time_difference_is_now, Evaluator,
    EvaluatorType, IntervalEvaluator, NewTaskAction, NewTaskRequest, TaskDelivery, TaskRequest,
    NANOS_PER_SEC,
};

fn req(at: u128, delivery: TaskDelivery, id: u128) -> TaskRequest {
    TaskRequest { at, delivery, created_at: 0, evaluator_id: id }
}

#[test]
fn task_request_builders() {
    let r = TaskRequest::queued_after(5, 1_000, 2);
    assert_eq!(r.at, 1_000 + 2 * NANOS_PER_SEC);
    assert_eq!(r.created_at, 1_000);
    assert_eq!(r.delivery, TaskDelivery::Queued);
    assert!(!r.is_immediate());
    assert!(r.immediate().is_immediate());
    assert_eq!(r.immediate_clear().delivery, TaskDelivery::ImmediateAndClear);
    let now = TaskRequest::now(1);
    assert_eq!(now.at, now.created_at);
    let later = TaskRequest::from_secs(1, 3);
    assert_eq!(later.at, later.created_at + 3 * NANOS_PER_SEC);
    let n = NewTaskRequest::now();
    assert_eq!(n.delivery, TaskDelivery::Queued);
}

#[test]
fn now_window() {
    assert!(time_difference_is_now(100, 0, 50));
    assert!(time_difference_is_now(100, 10, 110));
    assert!(!time_difference_is_now(100, 10, 111));
}

#[test]
fn find_now_task_takes_due_requests() {
    let mut pending = vec![
        req(10, TaskDelivery::Queued, 1),
        req(500, TaskDelivery::Queued, 2),
        req(20, TaskDelivery::Queued, 3),
    ];
    let t = find_now_task(100, 0, &mut pending);
    assert_eq!(t, Some(req(20, TaskDelivery::Queued, 3)));
    assert_eq!(pending, vec![req(500, TaskDelivery::Queued, 2)]);
    assert_eq!(find_now_task(100, 0, &mut pending), None);
}

#[test]
fn immediate_and_clear_is_preferred() {
    let mut pending = vec![
        req(10, TaskDelivery::ImmediateAndClear, 1),
        req(20, TaskDelivery::Immediate, 2),
        req(30, TaskDelivery::Queued, 3),
        req(900, TaskDelivery::Immediate, 4),
    ];
    let t = find_now_immediate_task(100, 0, &mut pending);
    assert_eq!(t, Some(req(10, TaskDelivery::ImmediateAndClear, 1)));
    assert_eq!(pending, vec![req(30, TaskDelivery::Queued, 3), req(900, TaskDelivery::Immediate, 4)]);
    let mut only_immediate = vec![req(1, TaskDelivery::Immediate, 1), req(2, TaskDelivery::Immediate, 2)];
    assert_eq!(find_now_immediate_task(5, 0, &mut only_immediate), Some(req(2, TaskDelivery::Immediate, 2)));
    assert!(only_immediate.is_empty());
}

#[test]
fn pending_requests_are_unique() {
    let mut pending = vec![];
    insert_new_request(&mut pending, req(1, TaskDelivery::Queued, 1));
    insert_new_request(&mut pending, req(1, TaskDelivery::Queued, 1));
    insert_new_request(&mut pending, req(2, TaskDelivery::Queued, 1));
    assert_eq!(pending.len(), 2);
    assert!(!no_task_pending_for_evaluator(&pending, 1));
    assert!(no_task_pending_for_evaluator(&pending, 2));
}

#[test]
fn new_task_decisions() {
    let queued = req(100, TaskDelivery::Queued, 1);
    assert_eq!(handle_new_task(100, 1, &queued, false), NewTaskAction::Execute);
    assert_eq!(handle_new_task(100, 1, &queued, true), NewTaskAction::Defer);
    assert_eq!(handle_new_task(0, 1, &queued, false), NewTaskAction::Defer);
    let clear = req(100, TaskDelivery::ImmediateAndClear, 1);
    assert_eq!(handle_new_task(100, 1, &clear, true), NewTaskAction::Preempt { clear_pending: true });
    let imm = req(100, TaskDelivery::Immediate, 1);
    assert_eq!(handle_new_task(100, 1, &imm, false), NewTaskAction::Preempt { clear_pending: false });
    assert_eq!(handle_new_task(50, 1, &imm, false), NewTaskAction::Defer);
    // the window is strict here
    assert_eq!(handle_new_task(100, 0, &queued, false), NewTaskAction::Defer);
}

#[test]
fn interval_evaluator() {
    let mut e = IntervalEvaluator::new(2);
    assert_eq!(e.evaluator_type(), EvaluatorType::Timed);
    let first = e.evaluate_at(10 * 1_000_000_000).unwrap();
    assert_eq!(first.at, 12 * NANOS_PER_SEC);
    assert_eq!(first.evaluator_id, e.id());
    assert_eq!(e.evaluate_at(11 * 1_000_000_000), None);
    assert!(e.evaluate_at(12 * 1_000_000_000).is_some());
    e.reset();
    assert!(e.evaluate_at(12 * 1_000_000_000).is_some());
    assert!(e.evaluate().is_none() || e.last_evaluated.is_some());
}

#[test]
fn interrupts() {
    let sent = req(5, TaskDelivery::Immediate, 3);
    assert_eq!(interrupt_request(Some(Some(sent)), 9, 77), Some(sent));
    assert_eq!(interrupt_request(Some(None), 9, 77), Some(req(77, TaskDelivery::Queued, 9)).map(|r| TaskRequest { created_at: 77, ..r }));
    assert_eq!(interrupt_request(None, 9, 77), None);
}

#[test]
fn pending_requests_stay_unique() {
    let a = req(10, TaskDelivery::Queued, 1);
    let b = req(20, TaskDelivery::Queued, 2);
    let mut pending = vec![a];
    insert_new_request(&mut pending, b);
    insert_new_request(&mut pending, a);
    insert_new_request(&mut pending, b);
    assert_eq!(pending, vec![a, b]);
}

#[test]
fn find_now_task_leaves_no_due_request() {
    let mut pending = vec![
        req(10, TaskDelivery::Queued, 1),
        req(1_000, TaskDelivery::Queued, 2),
        req(95, TaskDelivery::Queued, 3),
        req(20, TaskDelivery::Immediate, 4),
    ];
    let before = pending.len();
    let taken = find_now_task(100, 0, &mut pending);
    assert_eq!(taken, Some(req(20, TaskDelivery::Immediate, 4)));
    assert!(pending.iter().all(|r| !time_difference_is_now(100, 0, r.at)));
    assert_eq!(pending, vec![req(1_000, TaskDelivery::Queued, 2)]);
    assert_eq!(before, pending.len() + 3);
    assert_eq!(find_now_task(100, 0, &mut pending), None);
}

#[test]
fn immediate_step_clears_and_aborts() {
    let mut pending = vec![
        req(10, TaskDelivery::ImmediateAndClear, 1),
        req(20, TaskDelivery::Immediate, 2),
        req(900, TaskDelivery::Queued, 3),
    ];
    let step = immediate_step(100, 0, &mut pending, true);
    assert_eq!(
        step,
        ImmediateStep {
            task: Some(req(10, TaskDelivery::ImmediateAndClear, 1)),
            reset_timed: true,
            abort_running: true,
        }
    );
    assert!(pending.is_empty());

    let mut pending = vec![req(20, TaskDelivery::Immediate, 2), req(900, TaskDelivery::Queued, 3)];
    let step = immediate_step(100, 0, &mut pending, false);
    assert_eq!(
        step,
        ImmediateStep { task: Some(req(20, TaskDelivery::Immediate, 2)), reset_timed: false, abort_running: false }
    );
    assert_eq!(pending, vec![req(900, TaskDelivery::Queued, 3)]);

    let step = immediate_step(100, 0, &mut pending, true);
    assert_eq!(step, ImmediateStep { task: None, reset_timed: false, abort_running: false });
}

#[test]
fn evaluators_asked_only_without_pending_request() {
    let pending = vec![req(20, TaskDelivery::Queued, 2)];
    assert!(should_evaluate(EvaluatorType::Timed, &pending, 1));
    assert!(should_evaluate(EvaluatorType::Sequential, &pending, 1));
    assert!(!should_evaluate(EvaluatorType::Timed, &pending, 2));
    assert!(!should_evaluate(EvaluatorType::Interrupt, &pending, 1));
}

#[test]
fn pending_sorted_by_time_stably() {
    let mut pending = vec![
        req(30, TaskDelivery::Queued, 1),
        req(10, TaskDelivery::Queued, 2),
        req(30, TaskDelivery::Immediate, 3),
        req(20, TaskDelivery::Queued, 4),
        req(10, TaskDelivery::Immediate, 5),
    ];
    sort_pending_by_time(&mut pending);
    assert_eq!(
        pending,
        vec![
            req(10, TaskDelivery::Queued, 2),
            req(10, TaskDelivery::Immediate, 5),
            req(20, TaskDelivery::Queued, 4),
            req(30, TaskDelivery::Queued, 1),
            req(30, TaskDelivery::Immediate, 3),
        ]
    );
}

#[test]
fn first_immediate_due_uses_strict_window() {
    let pending = vec![
        req(10, TaskDelivery::Queued, 1),
        req(150, TaskDelivery::Immediate, 2),
        req(120, TaskDelivery::ImmediateAndClear, 3),
    ];
    assert_eq!(find_immediate_due(&pending, 100, 50), Some(req(120, TaskDelivery::ImmediateAndClear, 3)));
    assert_eq!(find_immediate_due(&pending, 100, 51), Some(req(150, TaskDelivery::Immediate, 2)));
    assert_eq!(find_immediate_due(&pending, 100, 20), None);
}
