//! Stage plan model and shuffle resolver. A stage's physical plan is an
//! immutable operator tree whose leaves may be placeholders for
//! not-yet-computed upstream shuffle output. Resolution rewrites the tree,
//! replacing each placeholder by a concrete reader over the locations of
//! the completed upstream stage, and fails atomically when any referenced
//! stage is absent or incomplete.

use vstd::prelude::*;

use std::collections::HashMap;

use crate::error::KapotError;

verus! {

broadcast use vstd::std_specs::hash::group_hash_axioms;

/// Where one finalized partition of an upstream stage can be fetched.
#[derive(Debug, Clone, Copy, PartialEq, Eq, Structural)]
pub struct PartitionLocation {
    /// The stage that produced the partition.
    pub stage_id: usize,
    /// The index of the partition within that stage's output.
    pub partition_id: usize,
    /// The executor serving the partition over the shuffle fetch interface.
    pub executor_id: u64,
}

/// The operator kinds a stage plan distinguishes besides the two shuffle
/// leaves: a closed set, so that resolution and execution dispatch
/// exhaustively over known variants.
#[derive(Debug, Clone, Copy, PartialEq, Eq, Structural)]
pub enum OperatorKind {
    Projection,
    Filter,
    Aggregate,
    Sort,
    HashJoin,
    CoalesceBatches,
    CoalescePartitions,
    ParquetScan,
    CsvScan,
    Empty,
}

/// One node of a stage's operator tree.
#[derive(Debug)]
pub enum PlanNode {
    /// Leaf placeholder for the output of an upstream stage that has not
    /// completed yet. It must never appear in a plan handed to execution.
    UnresolvedShuffle { stage_id: usize, partition_count: usize },
    /// Concrete reader over the locations of a completed upstream stage's
    /// partitions; replaces a placeholder during resolution.
    ShuffleReader { stage_id: usize, locations: Vec<PartitionLocation> },
    /// Any other operator: its kind and its ordered children.
    Operator { kind: OperatorKind, children: Vec<PlanNode> },
}

/// How many unresolved shuffle placeholders a tree contains.
pub open spec fn unresolved_count(p: PlanNode) -> nat
    decreases p,
{
    match p {
        PlanNode::UnresolvedShuffle { .. } => 1,
        PlanNode::ShuffleReader { .. } => 0,
        PlanNode::Operator { children, .. } => unresolved_count_seq(
            children@,
            children@.len() as int,
        ),
    }
}

/// How many unresolved shuffle placeholders the first `i` trees of a
/// list contain together.
pub open spec fn unresolved_count_seq(s: Seq<PlanNode>, i: int) -> nat
    decreases s, i,
{
    if i <= 0 || i > s.len() {
        0
    } else {
        unresolved_count_seq(s, i - 1) + unresolved_count(s[i - 1])
    }
}

/// How many shuffle readers a tree contains.
pub open spec fn reader_count(p: PlanNode) -> nat
    decreases p,
{
    match p {
        PlanNode::UnresolvedShuffle { .. } => 0,
        PlanNode::ShuffleReader { .. } => 1,
        PlanNode::Operator { children, .. } => reader_count_seq(children@, children@.len() as int),
    }
}

/// How many shuffle readers the first `i` trees of a list contain together.
pub open spec fn reader_count_seq(s: Seq<PlanNode>, i: int) -> nat
    decreases s, i,
{
    if i <= 0 || i > s.len() {
        0
    } else {
        reader_count_seq(s, i - 1) + reader_count(s[i - 1])
    }
}

/// Every unresolved reference in the tree points at a stage that the
/// completion map records with a location for each declared partition.
pub open spec fn resolvable(p: PlanNode, cm: Map<usize, Vec<PartitionLocation>>) -> bool
    decreases p,
{
    match p {
        PlanNode::UnresolvedShuffle { stage_id, partition_count } => cm.contains_key(stage_id)
            && cm[stage_id]@.len() == partition_count,
        PlanNode::ShuffleReader { .. } => true,
        PlanNode::Operator { children, .. } => resolvable_seq(children@, cm, children@.len() as int),
    }
}

/// The first `i` trees of a list are all resolvable against `cm`.
pub open spec fn resolvable_seq(
    s: Seq<PlanNode>,
    cm: Map<usize, Vec<PartitionLocation>>,
    i: int,
) -> bool
    decreases s, i,
{
    if i <= 0 || i > s.len() {
        true
    } else {
        resolvable_seq(s, cm, i - 1) && resolvable(s[i - 1], cm)
    }
}

/// The stage id of the first unresolved reference, in depth-first
/// left-to-right order, whose upstream stage is absent from the completion
/// map or incomplete in it; `None` when the whole tree is resolvable.
pub open spec fn missing_dep(p: PlanNode, cm: Map<usize, Vec<PartitionLocation>>) -> Option<usize>
    decreases p,
{
    match p {
        PlanNode::UnresolvedShuffle { stage_id, partition_count } => if cm.contains_key(stage_id)
            && cm[stage_id]@.len() == partition_count {
            None
        } else {
            Some(stage_id)
        },
        PlanNode::ShuffleReader { .. } => None,
        PlanNode::Operator { children, .. } => missing_dep_seq(children@, cm, 0),
    }
}

/// The first missing dependency among the trees of a list, from index `i` on.
pub open spec fn missing_dep_seq(
    s: Seq<PlanNode>,
    cm: Map<usize, Vec<PartitionLocation>>,
    i: int,
) -> Option<usize>
    decreases s, s.len() - i,
{
    if i < 0 || i >= s.len() {
        None
    } else {
        match missing_dep(s[i], cm) {
            Some(sid) => Some(sid),
            None => missing_dep_seq(s, cm, i + 1),
        }
    }
}

/// `q` is `p` resolved against `cm`: every unresolved reference is replaced
/// by a shuffle reader over the completed stage's locations, every other
/// node keeps its identity, and child order is preserved.
pub open spec fn resolved_form(
    p: PlanNode,
    q: PlanNode,
    cm: Map<usize, Vec<PartitionLocation>>,
) -> bool
    decreases p,
{
    match p {
        PlanNode::UnresolvedShuffle { stage_id, partition_count } => q matches PlanNode::ShuffleReader {
            stage_id: s2,
            locations,
        } && s2 == stage_id && locations@ == cm[stage_id]@,
        PlanNode::ShuffleReader { stage_id, locations } => q matches PlanNode::ShuffleReader {
            stage_id: s2,
            locations: l2,
        } && s2 == stage_id && l2@ == locations@,
        PlanNode::Operator { kind, children } => q matches PlanNode::Operator {
            kind: k2,
            children: c2,
        } && k2 == kind && resolved_form_seq(children@, c2@, cm),
    }
}

/// Each tree of `s2` is the corresponding tree of `s` resolved against `cm`.
pub open spec fn resolved_form_seq(
    s: Seq<PlanNode>,
    s2: Seq<PlanNode>,
    cm: Map<usize, Vec<PartitionLocation>>,
) -> bool
    decreases s,
{
    s2.len() == s.len() && (forall|i: int|
        #![trigger s[i], s2[i]]
        0 <= i < s.len() ==> resolved_form(s[i], s2[i], cm))
}

proof fn lemma_missing_dep_seq_none(
    s: Seq<PlanNode>,
    cm: Map<usize, Vec<PartitionLocation>>,
    i: int,
)
    requires
        0 <= i <= s.len(),
        forall|j: int| i <= j < s.len() ==> missing_dep(#[trigger] s[j], cm) is None,
    ensures
        missing_dep_seq(s, cm, i) is None,
    decreases s.len() - i,
{
    if i < s.len() {
        lemma_missing_dep_seq_none(s, cm, i + 1);
    }
}

proof fn lemma_missing_dep_seq_some(
    s: Seq<PlanNode>,
    cm: Map<usize, Vec<PartitionLocation>>,
    i: int,
    k: int,
)
    requires
        0 <= i <= k < s.len(),
        missing_dep(s[k], cm) is Some,
        forall|j: int| i <= j < k ==> missing_dep(#[trigger] s[j], cm) is None,
    ensures
        missing_dep_seq(s, cm, i) == missing_dep(s[k], cm),
    decreases k - i,
{
    if i < k {
        lemma_missing_dep_seq_some(s, cm, i + 1, k);
    }
}

impl PlanNode {
    /// Rewrite this tree against a completion map: every unresolved
    /// reference whose upstream stage is complete becomes a shuffle reader
    /// over that stage's recorded locations; all other nodes pass through
    /// unchanged, preserving tree shape and child order. If any reference's
    /// upstream stage is absent or incomplete, resolution fails atomically
    /// with that stage's id and no partial rewrite is returned; the input
    /// tree is untouched. Resolution is pure: it only consults the
    /// supplied map.
    pub fn resolve(&self, completed: &HashMap<usize, Vec<PartitionLocation>>) -> (r: Result<
        PlanNode,
        KapotError,
    >)
        ensures
            match missing_dep(*self, completed@) {
                None => r matches Ok(t) && resolved_form(*self, t, completed@),
                Some(sid) => r matches Err(e) && e == KapotError::UnresolvedDependency(sid),
            },
        decreases *self,
    {
        match self {
            PlanNode::UnresolvedShuffle { stage_id, partition_count } => {
                match completed.get(stage_id) {
                    Some(locations) if locations.len() == *partition_count => {
                        Ok(
                            PlanNode::ShuffleReader {
                                stage_id: *stage_id,
                                locations: copy_locations(locations),
                            },
                        )
                    },
                    _ => Err(KapotError::UnresolvedDependency(*stage_id)),
                }
            },
            PlanNode::ShuffleReader { stage_id, locations } => {
                Ok(
                    PlanNode::ShuffleReader {
                        stage_id: *stage_id,
                        locations: copy_locations(locations),
                    },
                )
            },
            PlanNode::Operator { kind, children } => {
                let ghost cm = completed@;
                let mut resolved: Vec<PlanNode> = Vec::new();
                let mut i: usize = 0;
                while i < children.len()
                    invariant
                        i <= children@.len(),
                        cm == completed@,
                        *self == (PlanNode::Operator { kind: *kind, children: *children }),
                        resolved@.len() == i,
                        forall|j: int|
                            0 <= j < i ==> missing_dep(#[trigger] children@[j], cm) is None,
                        forall|j: int|
                            0 <= j < i ==> #[trigger] resolved_form(children@[j], resolved@[j], cm),
                    decreases children@.len() - i,
                {
                    match children[i].resolve(completed) {
                        Ok(t) => {
                            resolved.push(t);
                        },
                        Err(e) => {
                            proof {
                                lemma_missing_dep_seq_some(children@, cm, 0, i as int);
                            }
                            return Err(e);
                        },
                    }
                    i += 1;
                }
                proof {
                    lemma_missing_dep_seq_none(children@, cm, 0);
                }
                proof {
                    assert forall|j: int|
                        #![trigger children@[j], resolved@[j]]
                        0 <= j < children@.len() implies resolved_form(
                        children@[j],
                        resolved@[j],
                        cm,
                    ) by {
                        assert(resolved_form(children@[j], resolved@[j], cm));
                    }
                    assert(resolved_form_seq(children@, resolved@, cm));
                }
                Ok(PlanNode::Operator { kind: *kind, children: resolved })
            },
        }
    }
}

/// Copy a list of partition locations.
fn copy_locations(locations: &Vec<PartitionLocation>) -> (r: Vec<PartitionLocation>)
    ensures
        r@ == locations@,
{
    let mut out: Vec<PartitionLocation> = Vec::new();
    let mut i: usize = 0;
    while i < locations.len()
        invariant
            i <= locations@.len(),
            out@ == locations@.take(i as int),
        decreases locations@.len() - i,
    {
        out.push(locations[i]);
        proof {
            assert(out@ =~= locations@.take(i + 1));
        }
        i += 1;
    }
    proof {
        assert(locations@.take(locations@.len() as int) =~= locations@);
    }
    out
}

/// A tree is resolvable exactly when no dependency is reported missing:
/// resolution fails if and only if some unresolved reference's upstream
/// stage is absent from the completion map or incomplete in it.
pub proof fn lemma_missing_dep_none_iff_resolvable(
    p: PlanNode,
    cm: Map<usize, Vec<PartitionLocation>>,
)
    ensures
        missing_dep(p, cm) is None <==> resolvable(p, cm),
    decreases p,
{
    match p {
        PlanNode::UnresolvedShuffle { .. } => {},
        PlanNode::ShuffleReader { .. } => {},
        PlanNode::Operator { children, .. } => {
            lemma_missing_iff_resolvable_seq(children@, cm, 0);
        },
    }
}

proof fn lemma_missing_iff_resolvable_seq(
    s: Seq<PlanNode>,
    cm: Map<usize, Vec<PartitionLocation>>,
    i: int,
)
    requires
        0 <= i <= s.len(),
    ensures
        missing_dep_seq(s, cm, i) is None <==> (forall|j: int|
            i <= j < s.len() ==> resolvable(#[trigger] s[j], cm)),
        resolvable_seq(s, cm, s.len() as int) <==> (forall|j: int|
            0 <= j < s.len() ==> resolvable(#[trigger] s[j], cm)),
    decreases s, s.len() - i,
{
    lemma_resolvable_seq_pointwise(s, cm, s.len() as int);
    if i < s.len() {
        lemma_missing_dep_none_iff_resolvable(s[i], cm);
        lemma_missing_iff_resolvable_seq(s, cm, i + 1);
    }
}

proof fn lemma_resolvable_seq_pointwise(
    s: Seq<PlanNode>,
    cm: Map<usize, Vec<PartitionLocation>>,
    i: int,
)
    requires
        0 <= i <= s.len(),
    ensures
        resolvable_seq(s, cm, i) <==> (forall|j: int|
            0 <= j < i ==> resolvable(#[trigger] s[j], cm)),
    decreases i,
{
    if i > 0 {
        lemma_resolvable_seq_pointwise(s, cm, i - 1);
    }
}

/// A resolved tree has no placeholder left, and exactly one reader stands
/// where a placeholder or a reader stood: readers grow by the number of
/// placeholders replaced, and nothing else changes shape.
pub proof fn lemma_resolution_completes(
    p: PlanNode,
    q: PlanNode,
    cm: Map<usize, Vec<PartitionLocation>>,
)
    requires
        resolved_form(p, q, cm),
    ensures
        unresolved_count(q) == 0,
        reader_count(q) == reader_count(p) + unresolved_count(p),
    decreases p,
{
    match p {
        PlanNode::UnresolvedShuffle { .. } => {},
        PlanNode::ShuffleReader { .. } => {},
        PlanNode::Operator { children, .. } => {
            match q {
                PlanNode::Operator { children: c2, .. } => {
                    lemma_resolution_completes_seq(children@, c2@, cm, children@.len() as int);
                },
                _ => {},
            }
        },
    }
}

proof fn lemma_resolution_completes_seq(
    s: Seq<PlanNode>,
    s2: Seq<PlanNode>,
    cm: Map<usize, Vec<PartitionLocation>>,
    i: int,
)
    requires
        resolved_form_seq(s, s2, cm),
        0 <= i <= s.len(),
    ensures
        unresolved_count_seq(s2, i) == 0,
        reader_count_seq(s2, i) == reader_count_seq(s, i) + unresolved_count_seq(s, i),
    decreases s, i,
{
    if i > 0 {
        lemma_resolution_completes_seq(s, s2, cm, i - 1);
        lemma_resolution_completes(s[i - 1], s2[i - 1], cm);
    }
}

} // verus!
