//! Task executor and executor identity. A task executor runs one
//! `(stage, partition)` unit end to end: resolve the stage plan, feed the
//! plan's output stream into a shuffle writer, publish the finalized
//! partitions, and report the outcome. Any fault is converted into a
//! reported outcome; it never escapes.

use vstd::prelude::*;

use std::collections::HashMap;

use crate::error::KapotError;
use crate::plan::{missing_dep, PartitionLocation, PlanNode};
use crate::shuffle::{
    route, stats_rows_sum, Batch, Partitioning, PartitionStats, ShuffleWriter,
};
use crate::store::PartitionStore;

verus! {

/// The identity an executor publishes once at process start. The id must
/// be globally unique; it is drawn at random.
#[derive(Debug, Clone)]
pub struct ExecutorRegistration {
    pub id: String,
    pub host: Option<String>,
    pub port: u32,
    pub grpc_port: u32,
    pub task_slots: u32,
}

/// Relies on `uuid::Uuid::new_v4` and its `Display` form: a fresh random
/// version-4 UUID, rendered hyphenated, which is always 36 characters.
/// The value itself is random; nothing more is assumed of it.
#[verifier::external_body]
fn new_uuid_string() -> (r: String)
    ensures
        r@.len() == 36,
{
    uuid::Uuid::new_v4().to_string()
}

/// Build the identity an executor publishes at startup: a fresh random id,
/// the wildcard host, and the given ports and concurrency capacity.
pub fn new_registration(port: u32, grpc_port: u32, task_slots: u32) -> (r: ExecutorRegistration)
    ensures
        r.id@.len() == 36,
        r.host matches Some(h) && h@ == "0.0.0.0"@,
        r.port == port,
        r.grpc_port == grpc_port,
        r.task_slots == task_slots,
{
    ExecutorRegistration {
        id: new_uuid_string(),
        host: Some(String::from_str("0.0.0.0")),
        port,
        grpc_port,
        task_slots,
    }
}

/// The outcome a task executor reports for one task.
#[derive(Debug)]
pub enum TaskOutcome {
    /// The stage partition ran to completion; one stats record per output
    /// bucket.
    Completed(Vec<PartitionStats>),
    /// Something failed; the task is reported failed, the process lives on.
    Failed(KapotError),
    /// The task was aborted on request; distinct from failure.
    Cancelled,
}

/// The number of rows in the leading all-`Ok` prefix of a stream, up to
/// entry `i`.
pub open spec fn stream_rows(stream: Seq<Result<Batch, String>>, i: int) -> int
    decreases i,
{
    if i <= 0 || i > stream.len() {
        0
    } else {
        stream_rows(stream, i - 1) + (match stream[i - 1] {
            Ok(b) => b.rows@.len() as int,
            Err(_) => 0,
        })
    }
}

/// The rows of the leading all-`Ok` prefix of a stream, up to entry `i`,
/// in stream order.
pub open spec fn stream_row_seq(stream: Seq<Result<Batch, String>>, i: int) -> Seq<Seq<u64>>
    decreases i,
{
    if i <= 0 || i > stream.len() {
        Seq::empty()
    } else {
        stream_row_seq(stream, i - 1) + (match stream[i - 1] {
            Ok(b) => b.rows.deep_view(),
            Err(_) => Seq::empty(),
        })
    }
}

/// The index of the first `Err` entry of the stream, if any.
pub open spec fn first_stream_err(stream: Seq<Result<Batch, String>>, i: int) -> Option<int>
    decreases stream.len() - i,
{
    if i < 0 || i >= stream.len() {
        None
    } else if stream[i] is Err {
        Some(i)
    } else {
        first_stream_err(stream, i + 1)
    }
}

/// Every batch of the stream is well-formed at the given width.
pub open spec fn stream_wf(stream: Seq<Result<Batch, String>>, num_columns: int) -> bool {
    forall|i: int|
        0 <= i < stream.len() ==> (match #[trigger] stream[i] {
            Ok(b) => b.wf() && b.num_columns == num_columns,
            Err(_) => true,
        })
}

proof fn lemma_stream_rows_mono(stream: Seq<Result<Batch, String>>, i: int, j: int)
    requires
        0 <= i <= j <= stream.len(),
    ensures
        stream_rows(stream, i) <= stream_rows(stream, j),
        stream_row_seq(stream, i).len() == stream_rows(stream, i),
    decreases j - i,
{
    lemma_stream_row_seq_len(stream, i);
    if i < j {
        lemma_stream_rows_mono(stream, i + 1, j);
    }
}

proof fn lemma_stream_row_seq_len(stream: Seq<Result<Batch, String>>, i: int)
    ensures
        stream_row_seq(stream, i).len() == stream_rows(stream, i),
    decreases i,
{
    if i > 0 && i <= stream.len() {
        lemma_stream_row_seq_len(stream, i - 1);
    }
}

/// Run one `(stage, partition)` unit end to end: resolve the stage plan
/// against the completion map, execute it — modeled as consuming the
/// stream of row batches the resolved plan produces — feed every batch
/// into a shuffle writer, and on success finalize and publish one
/// partition artifact per output bucket and report `Completed` with the
/// stats. A missing dependency or a stream fault is converted into a
/// `Failed` outcome, and an aborted run publishes nothing: no partially
/// written partition is ever visible through the store.
pub fn run_task(
    stage_id: usize,
    plan: &PlanNode,
    completed: &HashMap<usize, Vec<PartitionLocation>>,
    partitioning: Partitioning,
    num_columns: usize,
    stream: Vec<Result<Batch, String>>,
    store: &mut PartitionStore,
) -> (r: TaskOutcome)
    requires
        partitioning.wf(),
        stream_wf(stream@, num_columns as int),
        stream@.len() < u64::MAX,
        stream_rows(stream@, stream@.len() as int) <= u64::MAX,
        8 * num_columns * stream_rows(stream@, stream@.len() as int) <= u64::MAX,
    ensures
        match missing_dep(*plan, completed@) {
            Some(sid) => r matches TaskOutcome::Failed(e) && e
                == KapotError::UnresolvedDependency(sid) && final(store).files@
                == old(store).files@,
            None => match first_stream_err(stream@, 0) {
                Some(j) => r matches TaskOutcome::Failed(e) && (e
                    matches KapotError::ExecutionError(m) && (stream@[j] matches Err(em) && m@
                    == em@)) && final(store).files@ == old(store).files@,
                None => r matches TaskOutcome::Completed(stats) && {
                    let consumed = stream_row_seq(stream@, stream@.len() as int);
                    &&& stats_rows_sum(stats@) == consumed.len()
                    &&& stats@.len() == partitioning.spec_count()
                    &&& final(store).files@.len() == old(store).files@.len()
                        + partitioning.spec_count()
                    &&& forall|k: int|
                        0 <= k < old(store).files@.len() ==> #[trigger] final(store).files@[k]
                            == old(store).files@[k]
                    &&& forall|k: int|
                        0 <= k < partitioning.spec_count() ==> {
                            let f = #[trigger] final(store).files@[old(store).files@.len() + k];
                            &&& f.stage_id == stage_id
                            &&& f.partition_id == k
                            &&& f.num_columns == num_columns
                            &&& f.rows.deep_view() == route(consumed, partitioning, 0, k)
                            &&& f.stats == stats@[k]
                            &&& (f.stats.num_rows matches Some(n) && n == route(
                                consumed,
                                partitioning,
                                0,
                                k,
                            ).len())
                        }
                },
            },
        },
{
    match plan.resolve(completed) {
        Err(e) => {
            return TaskOutcome::Failed(e);
        },
        Ok(_) => {},
    }
    let ghost p = partitioning;
    let mut writer = ShuffleWriter::new(partitioning, num_columns);
    let mut i: usize = 0;
    while i < stream.len()
        invariant
            missing_dep(*plan, completed@) is None,
            i <= stream@.len(),
            stream_wf(stream@, num_columns as int),
            stream@.len() < u64::MAX,
            stream_rows(stream@, stream@.len() as int) <= u64::MAX,
            8 * num_columns * stream_rows(stream@, stream@.len() as int) <= u64::MAX,
            first_stream_err(stream@, i as int) == first_stream_err(stream@, 0),
            writer.wf(),
            writer.spec_partitioning() == p,
            writer.spec_num_columns() == num_columns,
            writer.consumed_rows() == stream_row_seq(stream@, i as int),
            writer.batch_count <= i,
            forall|b: int|
                0 <= b < writer.buckets@.len() ==> (#[trigger] writer.buckets@[b]).num_batches
                    <= writer.batch_count,
        decreases stream@.len() - i,
    {
        match &stream[i] {
            Err(msg) => {
                proof {
                    assert(first_stream_err(stream@, i as int) == Some(i as int));
                }
                return TaskOutcome::Failed(
                    KapotError::ExecutionError(msg.clone()),
                );
            },
            Ok(batch) => {
                proof {
                    lemma_stream_row_seq_len(stream@, i as int);
                    lemma_stream_rows_step(stream@, i as int);
                    lemma_stream_rows_mono(stream@, i + 1, stream@.len() as int);
                    assert(8 * (num_columns as int) * (writer.consumed_rows().len()
                        + batch.rows@.len()) <= 8 * (num_columns as int) * stream_rows(
                        stream@,
                        stream@.len() as int,
                    )) by (nonlinear_arith)
                        requires
                            writer.consumed_rows().len() + batch.rows@.len() <= stream_rows(
                                stream@,
                                stream@.len() as int,
                            ),
                            num_columns >= 0,
                    ;
                }
                writer.write_batch(batch);
                proof {
                    assert(writer.consumed_rows() =~= stream_row_seq(stream@, i + 1));
                }
            },
        }
        i += 1;
    }
    proof {
        assert(first_stream_err(stream@, stream@.len() as int) is None);
        lemma_stream_row_seq_len(stream@, stream@.len() as int);
    }
    let (files, stats) = writer.finish(stage_id);
    let ghost old_files = store.files@;
    let mut files = files;
    let total = files.len();
    let ghost all_files = files@;
    let mut k: usize = 0;
    while k < total
        invariant
            k <= total,
            total == all_files.len(),
            files@.len() == all_files.len() - k,
            forall|j: int| 0 <= j < all_files.len() - k ==> #[trigger] files@[j] == all_files[j + k],
            store.files@.len() == old_files.len() + k,
            forall|j: int| 0 <= j < old_files.len() ==> #[trigger] store.files@[j] == old_files[j],
            forall|j: int|
                0 <= j < k ==> #[trigger] store.files@[old_files.len() + j] == all_files[j],
        decreases total - k,
    {
        let f = files.remove(0);
        proof {
            assert(f == all_files[k as int]);
        }
        store.publish(f);
        k += 1;
    }
    TaskOutcome::Completed(stats)
}

/// Collect a stream of row batches into memory: every batch in stream
/// order, or the first fault, converted into the library's execution
/// error, the way the task boundary reports it.
pub fn collect_stream(stream: Vec<Result<Batch, String>>) -> (r: Result<Vec<Batch>, KapotError>)
    ensures
        match first_stream_err(stream@, 0) {
            None => r matches Ok(batches) && batches@.len() == stream@.len() && (forall|i: int|
                0 <= i < stream@.len() ==> (match #[trigger] stream@[i] {
                    Ok(b) => batches@[i] == b,
                    Err(_) => false,
                })),
            Some(j) => r matches Err(e) && (e matches KapotError::ExecutionError(m) && (stream@[j]
                matches Err(em) && m@ == em@)),
        },
{
    let ghost all = stream@;
    let mut rest = stream;
    let mut batches: Vec<Batch> = Vec::new();
    let mut k: usize = 0;
    let total = rest.len();
    while k < total
        invariant
            k <= total,
            all == stream@,
            total == all.len(),
            rest@.len() == all.len() - k,
            forall|j: int| 0 <= j < all.len() - k ==> #[trigger] rest@[j] == all[j + k],
            batches@.len() == k,
            forall|j: int|
                0 <= j < k ==> (match #[trigger] all[j] {
                    Ok(b) => batches@[j] == b,
                    Err(_) => false,
                }),
            first_stream_err(all, k as int) == first_stream_err(all, 0),
        decreases total - k,
    {
        let entry = rest.remove(0);
        proof {
            assert(entry == all[k as int]);
        }
        match entry {
            Ok(b) => {
                batches.push(b);
            },
            Err(m) => {
                proof {
                    assert(first_stream_err(all, k as int) == Some(k as int));
                }
                return Err(KapotError::ExecutionError(m));
            },
        }
        k += 1;
    }
    Ok(batches)
}

proof fn lemma_stream_rows_step(stream: Seq<Result<Batch, String>>, i: int)
    requires
        0 <= i < stream.len(),
    ensures
        stream_rows(stream, i + 1) == stream_rows(stream, i) + (match stream[i] {
            Ok(b) => b.rows@.len() as int,
            Err(_) => 0,
        }),
        stream_row_seq(stream, i + 1) == stream_row_seq(stream, i) + (match stream[i] {
            Ok(b) => b.rows.deep_view(),
            Err(_) => Seq::empty(),
        }),
{
}

} // verus!
