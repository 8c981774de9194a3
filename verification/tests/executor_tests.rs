use std::collections::HashMap;

use kapot::error::KapotError;
use kapot::executor::{new_registration, run_task, TaskOutcome};
use kapot::get_time_before;
use kapot::plan::{PartitionLocation, PlanNode};
use kapot::shuffle::{Batch, Partitioning};
use kapot::store::PartitionStore;

fn ok_batch(rows: Vec<Vec<u64>>) -> Result<Batch, String> {
    Ok(Batch { num_columns: 1, rows })
}

#[test]
fn run_task_completes_and_publishes() {
    let plan = PlanNode::UnresolvedShuffle { stage_id: 1, partition_count: 1 };
    let mut completed = HashMap::new();
    completed.insert(1, vec![PartitionLocation { stage_id: 1, partition_id: 0, executor_id: 3 }]);
    let mut store = PartitionStore::new();
    let stream = vec![ok_batch(vec![vec![1], vec![2]]), ok_batch(vec![vec![3]])];
    let outcome = run_task(5, &plan, &completed, Partitioning::Single, 1, stream, &mut store);
    match outcome {
        TaskOutcome::Completed(stats) => {
            assert_eq!(1, stats.len());
            assert_eq!(Some(3), stats[0].num_rows);
        },
        other => panic!("expected Completed, got {other:?}"),
    }
    let f = store.fetch(5, 0).expect("completed partition must be fetchable");
    assert_eq!(3, f.rows.len());
}

#[test]
fn run_task_fails_on_unresolved_dependency() {
    let plan = PlanNode::UnresolvedShuffle { stage_id: 8, partition_count: 1 };
    let completed = HashMap::new();
    let mut store = PartitionStore::new();
    let outcome = run_task(5, &plan, &completed, Partitioning::Single, 1, vec![], &mut store);
    match outcome {
        TaskOutcome::Failed(KapotError::UnresolvedDependency(8)) => {},
        other => panic!("expected UnresolvedDependency(8), got {other:?}"),
    }
    assert!(store.fetch(5, 0).is_none());
}

#[test]
fn run_task_aborts_on_stream_fault_without_publishing() {
    let plan = PlanNode::Operator {
        kind: kapot::plan::OperatorKind::Empty,
        children: vec![],
    };
    let completed = HashMap::new();
    let mut store = PartitionStore::new();
    let stream = vec![
        ok_batch(vec![vec![1]]),
        Err(String::from("disk quota exceeded")),
        ok_batch(vec![vec![2]]),
    ];
    let outcome = run_task(5, &plan, &completed, Partitioning::Single, 1, stream, &mut store);
    match outcome {
        TaskOutcome::Failed(KapotError::ExecutionError(m)) => {
            assert_eq!("disk quota exceeded", m);
        },
        other => panic!("expected ExecutionError, got {other:?}"),
    }
    // the aborted run exposed nothing
    assert!(store.fetch(5, 0).is_none());
}

#[test]
fn registration_identity() {
    let a = new_registration(40123, 50020, 4);
    let b = new_registration(40123, 50020, 4);
    assert_eq!(36, a.id.len());
    assert_eq!(36, b.id.len());
    // ids are drawn at random: two registrations must not collide
    assert_ne!(a.id, b.id);
    assert_eq!(Some(String::from("0.0.0.0")), a.host);
    assert_eq!(40123, a.port);
    assert_eq!(50020, a.grpc_port);
    assert_eq!(4, a.task_slots);
}

#[test]
fn time_before_now() {
    // the clock reads well past the epoch, so an interval of zero gives a
    // recent time and a huge interval saturates at zero
    let now_ish = get_time_before(0);
    assert!(now_ish > 1_600_000_000);
    assert_eq!(0, get_time_before(u64::MAX));
    let earlier = get_time_before(3600);
    let gap = now_ish.abs_diff(earlier);
    assert!((3598..=3602).contains(&gap));
}

#[test]
fn collect_stream_gathers_or_fails() {
    let batches = kapot::executor::collect_stream(vec![
        ok_batch(vec![vec![1]]),
        ok_batch(vec![vec![2], vec![3]]),
    ])
    .unwrap();
    assert_eq!(2, batches.len());
    assert_eq!(vec![vec![2], vec![3]], batches[1].rows);

    let err = kapot::executor::collect_stream(vec![
        ok_batch(vec![vec![1]]),
        Err(String::from("socket closed")),
    ])
    .unwrap_err();
    match err {
        KapotError::ExecutionError(m) => assert_eq!("socket closed", m),
        other => panic!("expected ExecutionError, got {other:?}"),
    }
}
