use std::collections::HashMap;

use kapot::error::KapotError;
use kapot::plan::{OperatorKind, PartitionLocation, PlanNode};

fn loc(stage_id: usize, partition_id: usize) -> PartitionLocation {
    PartitionLocation { stage_id, partition_id, executor_id: 7 }
}

fn sample_plan() -> PlanNode {
    // Aggregate over a join of two upstream shuffles, one side filtered.
    PlanNode::Operator {
        kind: OperatorKind::Aggregate,
        children: vec![PlanNode::Operator {
            kind: OperatorKind::HashJoin,
            children: vec![
                PlanNode::UnresolvedShuffle { stage_id: 1, partition_count: 2 },
                PlanNode::Operator {
                    kind: OperatorKind::Filter,
                    children: vec![PlanNode::UnresolvedShuffle {
                        stage_id: 2,
                        partition_count: 1,
                    }],
                },
            ],
        }],
    }
}

fn count_nodes(plan: &PlanNode) -> (usize, usize) {
    // (unresolved, readers)
    match plan {
        PlanNode::UnresolvedShuffle { .. } => (1, 0),
        PlanNode::ShuffleReader { .. } => (0, 1),
        PlanNode::Operator { children, .. } => children
            .iter()
            .map(count_nodes)
            .fold((0, 0), |(a, b), (c, d)| (a + c, b + d)),
    }
}

#[test]
fn resolve_replaces_every_placeholder() {
    let plan = sample_plan();
    let mut completed = HashMap::new();
    completed.insert(1, vec![loc(1, 0), loc(1, 1)]);
    completed.insert(2, vec![loc(2, 0)]);
    let resolved = plan.resolve(&completed).unwrap();
    let (unresolved, readers) = count_nodes(&resolved);
    assert_eq!(0, unresolved);
    assert_eq!(2, readers);
    // shape and child order preserved
    match &resolved {
        PlanNode::Operator { kind: OperatorKind::Aggregate, children } => match &children[0] {
            PlanNode::Operator { kind: OperatorKind::HashJoin, children } => {
                assert!(matches!(
                    children[0],
                    PlanNode::ShuffleReader { stage_id: 1, .. }
                ));
                assert!(matches!(
                    children[1],
                    PlanNode::Operator { kind: OperatorKind::Filter, .. }
                ));
            },
            other => panic!("join not preserved: {other:?}"),
        },
        other => panic!("root not preserved: {other:?}"),
    }
}

#[test]
fn resolve_reader_carries_locations() {
    let plan = PlanNode::UnresolvedShuffle { stage_id: 4, partition_count: 2 };
    let mut completed = HashMap::new();
    completed.insert(4, vec![loc(4, 0), loc(4, 1)]);
    match plan.resolve(&completed).unwrap() {
        PlanNode::ShuffleReader { stage_id, locations } => {
            assert_eq!(4, stage_id);
            assert_eq!(vec![loc(4, 0), loc(4, 1)], locations);
        },
        other => panic!("expected a reader, got {other:?}"),
    }
}

#[test]
fn resolve_missing_stage_fails_with_its_id() {
    // a stage plan referencing upstream stage 2, resolved against a map
    // lacking entry 2
    let plan = sample_plan();
    let mut completed = HashMap::new();
    completed.insert(1, vec![loc(1, 0), loc(1, 1)]);
    match plan.resolve(&completed) {
        Err(KapotError::UnresolvedDependency(2)) => {},
        other => panic!("expected UnresolvedDependency(2), got {other:?}"),
    }
}

#[test]
fn resolve_incomplete_stage_fails() {
    // stage 1 is present but has a location for only one of two partitions
    let plan = sample_plan();
    let mut completed = HashMap::new();
    completed.insert(1, vec![loc(1, 0)]);
    completed.insert(2, vec![loc(2, 0)]);
    match plan.resolve(&completed) {
        Err(KapotError::UnresolvedDependency(1)) => {},
        other => panic!("expected UnresolvedDependency(1), got {other:?}"),
    }
}

#[test]
fn resolve_failure_leaves_input_usable_for_retry() {
    let plan = sample_plan();
    let empty = HashMap::new();
    assert!(plan.resolve(&empty).is_err());
    // retried with the same map, the same input fails the same way
    match plan.resolve(&empty) {
        Err(KapotError::UnresolvedDependency(1)) => {},
        other => panic!("expected UnresolvedDependency(1), got {other:?}"),
    }
    let (unresolved, readers) = count_nodes(&plan);
    assert_eq!(2, unresolved);
    assert_eq!(0, readers);
}
