use kapot::executor::TaskOutcome;
use kapot::poll_loop::{ExecutorAction, PollLoop, SchedulerEvent, TaskId};
use kapot::shuffle::PartitionStats;

fn task(stage_id: usize, partition_id: usize) -> TaskId {
    TaskId { stage_id, partition_id }
}

#[test]
fn registration_precedes_requesting() {
    let mut pl = PollLoop::new(2);
    assert!(matches!(pl.next_request(), Some(ExecutorAction::Register)));
    let actions = pl.step(SchedulerEvent::Registered);
    assert!(actions.is_empty());
    match pl.next_request() {
        Some(ExecutorAction::RequestWork { free_slots }) => assert_eq!(2, free_slots),
        other => panic!("expected a work request, got {other:?}"),
    }
}

#[test]
fn concurrency_never_exceeds_slots() {
    // two slots, three ready tasks arriving at once: only two run
    let mut pl = PollLoop::new(2);
    pl.step(SchedulerEvent::Registered);
    let actions = pl.step(SchedulerEvent::Assigned {
        tasks: vec![task(1, 0), task(1, 1), task(1, 2)],
    });
    assert_eq!(2, actions.len());
    assert!(pl.running.len() <= 2);
    assert!(pl.is_running(task(1, 0)));
    assert!(pl.is_running(task(1, 1)));
    assert!(!pl.is_running(task(1, 2)));
    // with every slot taken the loop does not request more work
    assert!(pl.next_request().is_none());
    // a second wave cannot push it over the bound either
    let actions = pl.step(SchedulerEvent::Assigned { tasks: vec![task(2, 0)] });
    assert!(actions.is_empty());
    assert_eq!(2, pl.running.len());
}

#[test]
fn finishing_a_task_frees_its_slot() {
    let mut pl = PollLoop::new(1);
    pl.step(SchedulerEvent::Registered);
    pl.step(SchedulerEvent::Assigned { tasks: vec![task(3, 0)] });
    assert!(pl.next_request().is_none());
    let stats = PartitionStats::new(Some(10), Some(1), Some(80));
    let actions = pl.step(SchedulerEvent::TaskFinished {
        task: task(3, 0),
        outcome: TaskOutcome::Completed(vec![stats]),
    });
    assert_eq!(1, actions.len());
    assert!(matches!(
        actions[0],
        ExecutorAction::Report { task: TaskId { stage_id: 3, partition_id: 0 }, outcome: TaskOutcome::Completed(_) }
    ));
    assert_eq!(0, pl.running.len());
    match pl.next_request() {
        Some(ExecutorAction::RequestWork { free_slots }) => assert_eq!(1, free_slots),
        other => panic!("expected a work request, got {other:?}"),
    }
}

#[test]
fn cancelling_reports_cancelled_and_frees_the_slot() {
    // cancelling a running task mid-stream: reported as Cancelled, not
    // Failed; its slot is free within the same step; and nothing was ever
    // finalized for it, so a fresh store holds no file for the task
    let store = kapot::store::PartitionStore::new();
    let mut pl = PollLoop::new(2);
    pl.step(SchedulerEvent::Registered);
    pl.step(SchedulerEvent::Assigned { tasks: vec![task(4, 1), task(4, 2)] });
    assert_eq!(2, pl.running.len());
    let actions = pl.step(SchedulerEvent::CancelRequested { task: task(4, 1) });
    assert_eq!(1, actions.len());
    assert!(matches!(
        actions[0],
        ExecutorAction::Report {
            task: TaskId { stage_id: 4, partition_id: 1 },
            outcome: TaskOutcome::Cancelled,
        }
    ));
    assert_eq!(1, pl.running.len());
    assert!(!pl.is_running(task(4, 1)));
    assert!(pl.is_running(task(4, 2)));
    assert!(store.fetch(4, 1).is_none());
}

#[test]
fn cancelling_an_unknown_task_changes_nothing() {
    let mut pl = PollLoop::new(2);
    pl.step(SchedulerEvent::Registered);
    pl.step(SchedulerEvent::Assigned { tasks: vec![task(5, 0)] });
    let actions = pl.step(SchedulerEvent::CancelRequested { task: task(9, 9) });
    assert!(actions.is_empty());
    assert_eq!(1, pl.running.len());
}

#[test]
fn network_failure_backs_off_and_keeps_state() {
    let mut pl = PollLoop::new(2);
    pl.step(SchedulerEvent::Registered);
    pl.step(SchedulerEvent::Assigned { tasks: vec![task(6, 0)] });
    let actions = pl.step(SchedulerEvent::NetworkFailure);
    assert_eq!(1, actions.len());
    assert!(matches!(actions[0], ExecutorAction::Backoff));
    assert_eq!(1, pl.running.len());
    // the loop keeps retrying: it still wants to request work
    assert!(matches!(
        pl.next_request(),
        Some(ExecutorAction::RequestWork { free_slots: 1 })
    ));
}

#[test]
fn duplicate_assignment_is_dispatched_once() {
    let mut pl = PollLoop::new(4);
    pl.step(SchedulerEvent::Registered);
    let actions = pl.step(SchedulerEvent::Assigned {
        tasks: vec![task(7, 0), task(7, 0)],
    });
    assert_eq!(1, actions.len());
    assert_eq!(1, pl.running.len());
}
