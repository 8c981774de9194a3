//! Shuffle writer: consumes a stream of row batches, partitions the rows
//! into buckets per a target partitioning scheme, and finalizes one
//! partition artifact per bucket with exact row, batch and byte accounting.
//! Byte counts reflect the in-memory size of the rows as consumed, eight
//! bytes per cell, not any on-disk or compressed size: they must not be
//! used for disk capacity planning.

use vstd::prelude::*;
use vstd::multiset::Multiset;

verus! {

broadcast use vstd::seq_lib::group_to_multiset_ensures;

/// One batch of rows; every row holds one value per column.
#[derive(Debug)]
pub struct Batch {
    pub num_columns: usize,
    pub rows: Vec<Vec<u64>>,
}

impl Batch {
    /// Every row has exactly one value per column.
    pub open spec fn wf(&self) -> bool {
        forall|i: int| 0 <= i < self.rows@.len() ==> (#[trigger] self.rows@[i])@.len()
            == self.num_columns
    }
}

/// How a stage's output rows are distributed over output partitions.
#[derive(Debug)]
pub enum Partitioning {
    /// One output partition, no redistribution.
    Single,
    /// Rows dealt to `count` buckets in turn, by global row index.
    RoundRobin { count: usize },
    /// Rows hashed on the values of the named columns into `count` buckets;
    /// a pure function of the column values and the partition count.
    Hash { columns: Vec<usize>, count: usize },
}

impl Partitioning {
    /// The number of output partitions the scheme declares.
    pub open spec fn spec_count(&self) -> int {
        match self {
            Partitioning::Single => 1,
            Partitioning::RoundRobin { count } => *count as int,
            Partitioning::Hash { columns: _, count } => *count as int,
        }
    }

    /// A scheme must declare at least one partition.
    pub open spec fn wf(&self) -> bool {
        self.spec_count() >= 1
    }

    /// The number of output partitions the scheme declares.
    pub fn count(&self) -> (r: usize)
        ensures
            r == self.spec_count(),
    {
        match self {
            Partitioning::Single => 1,
            Partitioning::RoundRobin { count } => *count,
            Partitioning::Hash { columns: _, count } => *count,
        }
    }
}

/// Deterministic hash of the selected column values of a row: a modular
/// polynomial over the values, depending on nothing but them.
pub open spec fn spec_hash_row(row: Seq<u64>, cols: Seq<usize>) -> u64
    decreases cols.len(),
{
    if cols.len() == 0 {
        0
    } else {
        let h = spec_hash_row(row, cols.drop_last());
        let c = cols.last();
        let v: u64 = if c < row.len() {
            row[c as int]
        } else {
            0
        };
        ((h * 31 + v % 1099511628211) % 1099511628211) as u64
    }
}

/// Hash the selected column values of a row; columns beyond the row's
/// width contribute a zero.
pub fn hash_row(row: &Vec<u64>, cols: &Vec<usize>) -> (r: u64)
    ensures
        r == spec_hash_row(row@, cols@),
        r < 1099511628211,
{
    let mut h: u64 = 0;
    let mut i: usize = 0;
    proof {
        assert(cols@.take(0) =~= Seq::<usize>::empty());
    }
    while i < cols.len()
        invariant
            i <= cols@.len(),
            h == spec_hash_row(row@, cols@.take(i as int)),
            h < 1099511628211,
        decreases cols@.len() - i,
    {
        let c = cols[i];
        let v: u64 = if c < row.len() {
            row[c]
        } else {
            0
        };
        proof {
            assert(cols@.take(i + 1).drop_last() =~= cols@.take(i as int));
            assert(cols@.take(i + 1).last() == cols@[i as int]);
        }
        h = (h * 31 + v % 1099511628211) % 1099511628211;
        i += 1;
    }
    proof {
        assert(cols@.take(cols@.len() as int) =~= cols@);
    }
    h
}

/// The bucket a row goes to: by the scheme, the row's column values, and
/// the row's global index in the stream.
pub open spec fn bucket_of(row: Seq<u64>, p: Partitioning, idx: int) -> int {
    match p {
        Partitioning::Single => 0,
        Partitioning::RoundRobin { count } => idx % (count as int),
        Partitioning::Hash { columns, count } => (spec_hash_row(row, columns@) as int) % (
        count as int),
    }
}

/// The bucket index is always within the declared partition count.
pub proof fn lemma_bucket_of_in_range(row: Seq<u64>, p: Partitioning, idx: int)
    requires
        p.wf(),
        idx >= 0,
    ensures
        0 <= bucket_of(row, p, idx) < p.spec_count(),
{
}

/// The subsequence of `rows` that the scheme sends to bucket `b`, order
/// kept, when the first row of `rows` has global index `start`.
pub open spec fn route(rows: Seq<Seq<u64>>, p: Partitioning, start: int, b: int) -> Seq<Seq<u64>>
    decreases rows.len(),
{
    if rows.len() == 0 {
        Seq::empty()
    } else {
        let pre = route(rows.drop_last(), p, start, b);
        if bucket_of(rows.last(), p, start + rows.len() - 1) == b {
            pre.push(rows.last())
        } else {
            pre
        }
    }
}

/// Routing a concatenation routes each part, the second shifted by the
/// first's length.
pub proof fn lemma_route_append(
    rows1: Seq<Seq<u64>>,
    rows2: Seq<Seq<u64>>,
    p: Partitioning,
    start: int,
    b: int,
)
    ensures
        route(rows1 + rows2, p, start, b) == route(rows1, p, start, b) + route(
            rows2,
            p,
            start + rows1.len(),
            b,
        ),
    decreases rows2.len(),
{
    if rows2.len() == 0 {
        assert(rows1 + rows2 =~= rows1);
        assert(route(rows1, p, start, b) + route(rows2, p, start + rows1.len(), b) =~= route(
            rows1,
            p,
            start,
            b,
        ));
    } else {
        lemma_route_append(rows1, rows2.drop_last(), p, start, b);
        assert((rows1 + rows2).drop_last() =~= rows1 + rows2.drop_last());
        assert((rows1 + rows2).last() == rows2.last());
        if bucket_of(rows2.last(), p, start + rows1.len() + rows2.len() - 1) == b {
            assert(route(rows1 + rows2, p, start, b) =~= route(rows1, p, start, b) + route(
                rows2,
                p,
                start + rows1.len(),
                b,
            ));
        } else {
            assert(route(rows1 + rows2, p, start, b) =~= route(rows1, p, start, b) + route(
                rows2,
                p,
                start + rows1.len(),
                b,
            ));
        }
    }
}

/// No bucket receives more rows than the stream held.
pub proof fn lemma_route_len_bound(rows: Seq<Seq<u64>>, p: Partitioning, start: int, b: int)
    ensures
        route(rows, p, start, b).len() <= rows.len(),
    decreases rows.len(),
{
    if rows.len() > 0 {
        lemma_route_len_bound(rows.drop_last(), p, start, b);
    }
}

/// The rows of the first `b` buckets, as one multiset.
pub open spec fn route_union(rows: Seq<Seq<u64>>, p: Partitioning, start: int, b: int) -> Multiset<
    Seq<u64>,
>
    decreases b,
{
    if b <= 0 {
        Multiset::empty()
    } else {
        route_union(rows, p, start, b - 1).add(route(rows, p, start, b - 1).to_multiset())
    }
}

/// The number of rows the first `b` buckets receive together.
pub open spec fn route_len_sum(rows: Seq<Seq<u64>>, p: Partitioning, start: int, b: int) -> int
    decreases b,
{
    if b <= 0 {
        0
    } else {
        route_len_sum(rows, p, start, b - 1) + route(rows, p, start, b - 1).len()
    }
}

proof fn lemma_route_union_empty(p: Partitioning, start: int, b: int)
    ensures
        route_union(Seq::empty(), p, start, b) =~= Multiset::empty(),
        route_len_sum(Seq::empty(), p, start, b) == 0,
    decreases b,
{
    if b > 0 {
        lemma_route_union_empty(p, start, b - 1);
        assert(route(Seq::empty(), p, start, b - 1) =~= Seq::<Seq<u64>>::empty());
        assert(Seq::<Seq<u64>>::empty().to_multiset() =~= Multiset::<Seq<u64>>::empty());
    }
}

proof fn lemma_route_union_step(
    pre: Seq<Seq<u64>>,
    rows: Seq<Seq<u64>>,
    p: Partitioning,
    start: int,
    tb: int,
    b: int,
)
    requires
        rows.len() > 0,
        pre == rows.drop_last(),
        tb >= 0,
        tb == bucket_of(rows.last(), p, start + rows.len() - 1),
    ensures
        b <= tb ==> route_union(rows, p, start, b) =~= route_union(pre, p, start, b)
            && route_len_sum(rows, p, start, b) == route_len_sum(pre, p, start, b),
        b > tb ==> route_union(rows, p, start, b) =~= route_union(pre, p, start, b).insert(
            rows.last(),
        ) && route_len_sum(rows, p, start, b) == route_len_sum(pre, p, start, b) + 1,
    decreases b,
{
    if b > 0 {
        lemma_route_union_step(pre, rows, p, start, tb, b - 1);
        if b - 1 == tb {
            assert(route(rows, p, start, b - 1) == route(pre, p, start, b - 1).push(rows.last()));
            assert(route(pre, p, start, b - 1).push(rows.last()).to_multiset() =~= route(
                pre,
                p,
                start,
                b - 1,
            ).to_multiset().insert(rows.last()));
            assert(route_union(rows, p, start, b) =~= route_union(pre, p, start, b).insert(
                rows.last(),
            ));
        } else {
            assert(route(rows, p, start, b - 1) == route(pre, p, start, b - 1));
            if b - 1 < tb {
                assert(route_union(rows, p, start, b) =~= route_union(pre, p, start, b));
            } else {
                assert(route_union(rows, p, start, b) =~= route_union(pre, p, start, b).insert(
                    rows.last(),
                ));
            }
        }
    }
}

/// Exact-once accounting of routing: over all `count` buckets together,
/// the scheme hands out exactly the input rows, as a multiset, and exactly
/// as many rows as came in.
pub proof fn lemma_route_conservation(rows: Seq<Seq<u64>>, p: Partitioning, start: int, count: int)
    requires
        p.wf(),
        count == p.spec_count(),
        start >= 0,
    ensures
        route_union(rows, p, start, count) =~= rows.to_multiset(),
        route_len_sum(rows, p, start, count) == rows.len(),
    decreases rows.len(),
{
    if rows.len() == 0 {
        assert(rows =~= Seq::<Seq<u64>>::empty());
        lemma_route_union_empty(p, start, count);
        assert(rows.to_multiset().len() == 0);
        assert(route_union(rows, p, start, count) =~= rows.to_multiset());
    } else {
        let pre = rows.drop_last();
        lemma_route_conservation(pre, p, start, count);
        let tb = bucket_of(rows.last(), p, start + rows.len() - 1);
        lemma_bucket_of_in_range(rows.last(), p, start + rows.len() - 1);
        lemma_route_union_step(pre, rows, p, start, tb, count);
        assert(pre.push(rows.last()) =~= rows);
        assert(pre.push(rows.last()).to_multiset() =~= pre.to_multiset().insert(rows.last()));
    }
}

/// Per-partition accounting returned by the shuffle writer. `None` fields
/// mean "not measured"; they are never a lie about a measured value.
#[derive(Debug, Clone, Copy, PartialEq, Eq, Structural)]
pub struct PartitionStats {
    pub num_rows: Option<u64>,
    pub num_batches: Option<u64>,
    pub num_bytes: Option<u64>,
}

impl PartitionStats {
    /// Fresh stats with every field measured.
    pub fn new(num_rows: Option<u64>, num_batches: Option<u64>, num_bytes: Option<u64>) -> (r:
        PartitionStats)
        ensures
            r.num_rows == num_rows,
            r.num_batches == num_batches,
            r.num_bytes == num_bytes,
    {
        PartitionStats { num_rows, num_batches, num_bytes }
    }
}

/// The sum of the measured `num_rows` fields of a list of stats; an
/// unmeasured field counts as zero.
pub open spec fn stats_rows_sum(stats: Seq<PartitionStats>) -> int
    decreases stats.len(),
{
    if stats.len() == 0 {
        0
    } else {
        stats_rows_sum(stats.drop_last()) + (match stats.last().num_rows {
            Some(n) => n as int,
            None => 0,
        })
    }
}

/// One bucket's in-progress output: its rows so far and its running
/// batch and byte counters.
#[derive(Debug)]
pub struct PartitionBuffer {
    pub rows: Vec<Vec<u64>>,
    pub num_batches: u64,
    pub num_bytes: u64,
}

/// One finalized partition artifact, readable independently of its
/// siblings through the shuffle fetch interface.
#[derive(Debug)]
pub struct PartitionFile {
    pub stage_id: usize,
    pub partition_id: usize,
    pub num_columns: usize,
    pub rows: Vec<Vec<u64>>,
    pub stats: PartitionStats,
}

/// Copy one row.
fn copy_row(row: &Vec<u64>) -> (r: Vec<u64>)
    ensures
        r@ == row@,
{
    let mut out: Vec<u64> = Vec::new();
    let mut i: usize = 0;
    while i < row.len()
        invariant
            i <= row@.len(),
            out@ == row@.take(i as int),
        decreases row@.len() - i,
    {
        out.push(row[i]);
        proof {
            assert(out@ =~= row@.take(i + 1));
        }
        i += 1;
    }
    proof {
        assert(row@.take(row@.len() as int) =~= row@);
    }
    out
}

/// Executes one stage's output side: rows are partitioned into buckets per
/// the scheme, appended to each bucket's buffer, and accounted exactly.
/// Buckets become visible to readers only through the files `finish`
/// returns.
pub struct ShuffleWriter {
    pub partitioning: Partitioning,
    pub num_columns: usize,
    pub buckets: Vec<PartitionBuffer>,
    pub row_count: u64,
    pub batch_count: u64,
    pub byte_count: u64,
    pub consumed: Ghost<Seq<Seq<u64>>>,
}

impl ShuffleWriter {
    /// The rows consumed from upstream so far, in stream order.
    pub open spec fn consumed_rows(&self) -> Seq<Seq<u64>> {
        self.consumed@
    }

    /// The scheme this writer distributes rows by.
    pub open spec fn spec_partitioning(&self) -> Partitioning {
        self.partitioning
    }

    /// The width of the rows this writer accepts.
    pub open spec fn spec_num_columns(&self) -> int {
        self.num_columns as int
    }

    /// The writer's invariant: one buffer per declared partition, each
    /// holding exactly the rows routed to it, counters agreeing with the
    /// consumed stream, and every consumed row of the declared width.
    pub open spec fn wf(&self) -> bool {
        &&& self.partitioning.wf()
        &&& self.buckets@.len() == self.partitioning.spec_count()
        &&& self.row_count == self.consumed@.len()
        &&& self.byte_count == 8 * self.num_columns * self.consumed@.len()
        &&& forall|b: int|
            0 <= b < self.buckets@.len() ==> (#[trigger] self.buckets@[b]).rows.deep_view()
                == route(self.consumed@, self.partitioning, 0, b)
        &&& forall|b: int|
            0 <= b < self.buckets@.len() ==> (#[trigger] self.buckets@[b]).num_bytes == 8
                * self.num_columns * self.buckets@[b].rows@.len()
        &&& forall|i: int|
            0 <= i < self.consumed@.len() ==> (#[trigger] self.consumed@[i]).len()
                == self.num_columns
    }

    /// A fresh writer for the given scheme and row width: one empty bucket
    /// per declared partition, nothing consumed, all counters zero.
    pub fn new(partitioning: Partitioning, num_columns: usize) -> (r: ShuffleWriter)
        requires
            partitioning.wf(),
        ensures
            r.wf(),
            r.spec_partitioning() == partitioning,
            r.spec_num_columns() == num_columns,
            r.consumed_rows() == Seq::<Seq<u64>>::empty(),
            r.row_count == 0,
            r.batch_count == 0,
            r.byte_count == 0,
            forall|b: int|
                0 <= b < r.buckets@.len() ==> (#[trigger] r.buckets@[b]).num_batches == 0,
    {
        let count = partitioning.count();
        let mut buckets: Vec<PartitionBuffer> = Vec::new();
        let mut b: usize = 0;
        while b < count
            invariant
                b <= count,
                buckets@.len() == b,
                forall|j: int|
                    0 <= j < b ==> (#[trigger] buckets@[j]).rows@.len() == 0
                        && buckets@[j].num_batches == 0 && buckets@[j].num_bytes == 0,
            decreases count - b,
        {
            buckets.push(PartitionBuffer { rows: Vec::new(), num_batches: 0, num_bytes: 0 });
            b += 1;
        }
        let r = ShuffleWriter {
            partitioning,
            num_columns,
            buckets,
            row_count: 0,
            batch_count: 0,
            byte_count: 0,
            consumed: Ghost(Seq::empty()),
        };
        proof {
            assert forall|j: int| 0 <= j < r.buckets@.len() implies (
            #[trigger] r.buckets@[j]).rows.deep_view() == route(
                r.consumed@,
                r.partitioning,
                0,
                j,
            ) by {
                assert(r.buckets@[j].rows.deep_view() =~= Seq::<Seq<u64>>::empty());
                assert(route(r.consumed@, r.partitioning, 0, j) =~= Seq::<Seq<u64>>::empty());
            }
        }
        r
    }

    /// Consume one batch: each of its rows is appended to the bucket the
    /// scheme assigns it, in stream order; a bucket's batch counter grows
    /// by one exactly when the batch handed it at least one row; byte
    /// counters grow by eight bytes per cell consumed.
    pub fn write_batch(&mut self, batch: &Batch)
        requires
            old(self).wf(),
            batch.wf(),
            batch.num_columns == old(self).spec_num_columns(),
            old(self).consumed_rows().len() + batch.rows@.len() <= u64::MAX,
            old(self).batch_count + 1 <= u64::MAX,
            8 * old(self).spec_num_columns() * (old(self).consumed_rows().len()
                + batch.rows@.len()) <= u64::MAX,
            forall|b: int|
                0 <= b < old(self).buckets@.len()
                    ==> (#[trigger] old(self).buckets@[b]).num_batches + 1 <= u64::MAX,
        ensures
            final(self).wf(),
            final(self).spec_partitioning() == old(self).spec_partitioning(),
            final(self).spec_num_columns() == old(self).spec_num_columns(),
            final(self).consumed_rows() == old(self).consumed_rows() + batch.rows.deep_view(),
            final(self).row_count == old(self).row_count + batch.rows@.len(),
            final(self).batch_count == old(self).batch_count + 1,
            final(self).byte_count == old(self).byte_count + 8 * old(self).spec_num_columns()
                * batch.rows@.len(),
            forall|b: int|
                0 <= b < final(self).buckets@.len()
                    ==> (#[trigger] final(self).buckets@[b]).num_batches
                    == old(self).buckets@[b].num_batches
                    + (if route(
                        batch.rows.deep_view(),
                        old(self).spec_partitioning(),
                        old(self).row_count as int,
                        b,
                    ).len() > 0 {
                        1int
                    } else {
                        0int
                    }),
    {
        let ghost old_consumed = self.consumed@;
        let ghost p = self.partitioning;
        let ghost batch_rows = batch.rows.deep_view();
        // remember each bucket's row count, to bump batch counters at the end
        let mut before: Vec<usize> = Vec::new();
        let mut b: usize = 0;
        while b < self.buckets.len()
            invariant
                b <= self.buckets@.len(),
                before@.len() == b,
                forall|j: int| 0 <= j < b ==> #[trigger] before@[j] == self.buckets@[j].rows@.len(),
                *self == *old(self),
            decreases self.buckets@.len() - b,
        {
            before.push(self.buckets[b].rows.len());
            b += 1;
        }
        let mut i: usize = 0;
        while i < batch.rows.len()
            invariant
                old(self).wf(),
                batch.wf(),
                i <= batch.rows@.len(),
                batch_rows == batch.rows.deep_view(),
                batch_rows.len() == batch.rows@.len(),
                old_consumed == old(self).consumed@,
                p == old(self).partitioning,
                self.partitioning == old(self).partitioning,
                self.num_columns == old(self).num_columns,
                batch.num_columns == self.num_columns,
                self.batch_count == old(self).batch_count,
                self.buckets@.len() == old(self).buckets@.len(),
                old(self).consumed@.len() + batch.rows@.len() <= u64::MAX,
                8 * old(self).num_columns * (old(self).consumed@.len() + batch.rows@.len())
                    <= u64::MAX,
                self.consumed@ == old_consumed + batch_rows.take(i as int),
                self.row_count == self.consumed@.len(),
                self.byte_count == 8 * self.num_columns * self.consumed@.len(),
                forall|b: int|
                    0 <= b < self.buckets@.len() ==> (#[trigger] self.buckets@[b]).rows.deep_view()
                        == route(self.consumed@, p, 0, b),
                forall|b: int|
                    0 <= b < self.buckets@.len() ==> (#[trigger] self.buckets@[b]).num_bytes == 8
                        * self.num_columns * self.buckets@[b].rows@.len(),
                forall|b: int|
                    0 <= b < self.buckets@.len() ==> (#[trigger] self.buckets@[b]).num_batches
                        == old(self).buckets@[b].num_batches,
                forall|j: int|
                    0 <= j < self.consumed@.len() ==> (#[trigger] self.consumed@[j]).len()
                        == self.num_columns,
            decreases batch.rows@.len() - i,
        {
            let row = copy_row(&batch.rows[i]);
            let ghost rowv = row@;
            proof {
                assert(batch_rows[i as int] == batch.rows@[i as int]@);
                assert(rowv == batch_rows[i as int]);
            }
            let target: usize = match &self.partitioning {
                Partitioning::Single => 0,
                Partitioning::RoundRobin { count } => (self.row_count % (*count as u64)) as usize,
                Partitioning::Hash { columns, count } => (hash_row(&row, columns) % (
                *count as u64)) as usize,
            };
            proof {
                assert(target as int == bucket_of(rowv, p, self.consumed@.len() as int));
                lemma_bucket_of_in_range(rowv, p, self.consumed@.len() as int);
            }
            let ghost pre_consumed = self.consumed@;
            let ghost pre_buckets = self.buckets@;
            proof {
                lemma_route_len_bound(self.consumed@, p, 0, target as int);
                assert(self.buckets@[target as int].rows.deep_view().len()
                    == self.buckets@[target as int].rows@.len());
                assert(self.buckets@[target as int].rows@.len() <= self.consumed@.len());
                let ghost limit = old(self).consumed@.len() + batch_rows.len();
                assert(self.consumed@.len() + 1 <= limit);
                assert(8 * (self.num_columns as int) * (self.consumed@.len() + 1) <= 8 * (
                self.num_columns as int) * limit) by (nonlinear_arith)
                    requires
                        self.consumed@.len() + 1 <= limit,
                        self.num_columns >= 0,
                ;
                assert(8 * (self.num_columns as int) * (self.buckets@[target as int].rows@.len()
                    + 1) <= 8 * (self.num_columns as int) * (self.consumed@.len() + 1))
                    by (nonlinear_arith)
                    requires
                        self.buckets@[target as int].rows@.len() <= self.consumed@.len(),
                        self.num_columns >= 0,
                ;
                let ghost nc = self.num_columns as int;
                let ghost bl = self.buckets@[target as int].rows@.len() as int;
                let ghost cl = self.consumed@.len() as int;
                assert(8 * nc * bl + 8 * nc == 8 * nc * (bl + 1)) by (nonlinear_arith);
                assert(8 * nc * cl + 8 * nc == 8 * nc * (cl + 1)) by (nonlinear_arith);
                assert(8 * nc <= 8 * nc * limit) by (nonlinear_arith)
                    requires
                        limit >= 1,
                        nc >= 0,
                ;
            }
            let buf = &mut self.buckets[target];
            buf.rows.push(row);
            buf.num_bytes = buf.num_bytes + 8 * (self.num_columns as u64);
            self.row_count = self.row_count + 1;
            self.byte_count = self.byte_count + 8 * (self.num_columns as u64);
            proof {
                self.consumed@ = pre_consumed.push(rowv);
                assert(self.consumed@ =~= old_consumed + batch_rows.take(i + 1));
                assert forall|b: int| 0 <= b < self.buckets@.len() implies (
                #[trigger] self.buckets@[b]).rows.deep_view() == route(self.consumed@, p, 0, b) by {
                    assert(self.consumed@.drop_last() =~= pre_consumed);
                    assert(self.consumed@.last() == rowv);
                    if b == target {
                        assert(self.buckets@[b].rows.deep_view() =~= pre_buckets[b].rows.deep_view().push(
                            rowv,
                        ));
                        assert(route(self.consumed@, p, 0, b) == route(pre_consumed, p, 0, b).push(
                            rowv,
                        ));
                    } else {
                        assert(self.buckets@[b] == pre_buckets[b]);
                        assert(route(self.consumed@, p, 0, b) == route(pre_consumed, p, 0, b));
                    }
                }
            }
            i += 1;
        }
        proof {
            assert(batch_rows.take(batch_rows.len() as int) =~= batch_rows);
            let ghost nc = self.num_columns as int;
            let ghost ol = old(self).consumed@.len() as int;
            let ghost bn = batch_rows.len() as int;
            assert(8 * nc * (ol + bn) == 8 * nc * ol + 8 * nc * bn) by (nonlinear_arith);
        }
        self.batch_count = self.batch_count + 1;
        // bump the batch counter of every bucket that received rows
        let mut b2: usize = 0;
        let ghost mid = *self;
        while b2 < self.buckets.len()
            invariant
                b2 <= self.buckets@.len(),
                before@.len() == old(self).buckets@.len(),
                mid.buckets@.len() == old(self).buckets@.len(),
                self.buckets@.len() == mid.buckets@.len(),
                self.partitioning == mid.partitioning,
                self.num_columns == mid.num_columns,
                self.row_count == mid.row_count,
                self.batch_count == mid.batch_count,
                self.byte_count == mid.byte_count,
                self.consumed@ == mid.consumed@,
                forall|j: int|
                    0 <= j < mid.buckets@.len() ==> #[trigger] before@[j]
                        == old(self).buckets@[j].rows@.len(),
                forall|j: int|
                    0 <= j < mid.buckets@.len() ==> (#[trigger] mid.buckets@[j]).num_batches + 1
                        <= u64::MAX,
                forall|j: int|
                    b2 <= j < mid.buckets@.len() ==> #[trigger] self.buckets@[j]
                        == mid.buckets@[j],
                forall|j: int|
                    0 <= j < b2 ==> (#[trigger] self.buckets@[j]).rows == mid.buckets@[j].rows
                        && self.buckets@[j].num_bytes == mid.buckets@[j].num_bytes,
                forall|j: int|
                    0 <= j < b2 ==> (#[trigger] self.buckets@[j]).num_batches
                        == mid.buckets@[j].num_batches + (if mid.buckets@[j].rows@.len()
                        > before@[j] {
                        1int
                    } else {
                        0int
                    }),
            decreases self.buckets@.len() - b2,
        {
            let grew = self.buckets[b2].rows.len() > before[b2];
            if grew {
                let buf = &mut self.buckets[b2];
                buf.num_batches = buf.num_batches + 1;
            }
            b2 += 1;
        }
        proof {
            assert forall|b: int| 0 <= b < self.buckets@.len() implies (
            #[trigger] self.buckets@[b]).num_batches == old(self).buckets@[b].num_batches + (
            if route(batch_rows, p, old(self).row_count as int, b).len() > 0 {
                1int
            } else {
                0int
            }) by {
                lemma_route_append(old_consumed, batch_rows, p, 0, b);
                assert(mid.buckets@[b].rows.deep_view() == route(
                    old_consumed + batch_rows,
                    p,
                    0,
                    b,
                ));
                assert(old(self).buckets@[b].rows.deep_view() == route(old_consumed, p, 0, b));
                assert(mid.buckets@[b].rows@.len() == mid.buckets@[b].rows.deep_view().len());
                assert(before@[b] == old(self).buckets@[b].rows.deep_view().len());
            }
            assert forall|b: int| 0 <= b < self.buckets@.len() implies (
            #[trigger] self.buckets@[b]).rows.deep_view() == route(
                self.consumed@,
                self.partitioning,
                0,
                b,
            ) by {
                assert(self.buckets@[b].rows == mid.buckets@[b].rows);
            }
        }
    }

    /// Finalize every bucket, the empty ones too, into one readable
    /// partition artifact each, and return one stats record per bucket.
    /// Together the artifacts hold exactly the consumed rows: the stats'
    /// row counts sum to the number of rows consumed, and the union of the
    /// artifacts' rows is the consumed stream as a multiset, every row at
    /// the declared width.
    pub fn finish(self, stage_id: usize) -> (r: (Vec<PartitionFile>, Vec<PartitionStats>))
        requires
            self.wf(),
        ensures
            r.0@.len() == self.spec_partitioning().spec_count(),
            r.1@.len() == self.spec_partitioning().spec_count(),
            forall|b: int|
                0 <= b < r.0@.len() ==> {
                    let f = #[trigger] r.0@[b];
                    &&& f.stage_id == stage_id
                    &&& f.partition_id == b
                    &&& f.num_columns == self.spec_num_columns()
                    &&& f.rows.deep_view() == route(
                        self.consumed_rows(),
                        self.spec_partitioning(),
                        0,
                        b,
                    )
                    &&& f.stats == r.1@[b]
                },
            forall|b: int|
                0 <= b < r.1@.len() ==> {
                    let s = #[trigger] r.1@[b];
                    &&& s.num_rows matches Some(n) && n == route(
                        self.consumed_rows(),
                        self.spec_partitioning(),
                        0,
                        b,
                    ).len()
                    &&& s.num_batches matches Some(n) && n == self.buckets@[b].num_batches
                    &&& s.num_bytes matches Some(n) && n == 8 * self.spec_num_columns() * route(
                        self.consumed_rows(),
                        self.spec_partitioning(),
                        0,
                        b,
                    ).len()
                },
            stats_rows_sum(r.1@) == self.consumed_rows().len(),
            route_union(
                self.consumed_rows(),
                self.spec_partitioning(),
                0,
                self.spec_partitioning().spec_count(),
            ) =~= self.consumed_rows().to_multiset(),
    {
        let ShuffleWriter { partitioning, num_columns, buckets, row_count, batch_count: _, byte_count: _, consumed } = self;
        let ghost p = partitioning;
        let mut files: Vec<PartitionFile> = Vec::new();
        let mut stats: Vec<PartitionStats> = Vec::new();
        let mut rest = buckets;
        let ghost all = rest@;
        let mut b: usize = 0;
        let total = rest.len();
        while b < total
            invariant
                b <= total,
                total == all.len(),
                rest@.len() == all.len() - b,
                forall|j: int| 0 <= j < all.len() - b ==> #[trigger] rest@[j] == all[j + b],
                files@.len() == b,
                stats@.len() == b,
                all.len() == p.spec_count(),
                forall|j: int|
                    0 <= j < all.len() ==> (#[trigger] all[j]).rows.deep_view() == route(
                        consumed@,
                        p,
                        0,
                        j,
                    ),
                forall|j: int|
                    0 <= j < all.len() ==> (#[trigger] all[j]).num_bytes == 8 * num_columns
                        * all[j].rows@.len(),
                forall|j: int|
                    0 <= j < b ==> {
                        let f = #[trigger] files@[j];
                        &&& f.stage_id == stage_id
                        &&& f.partition_id == j
                        &&& f.num_columns == num_columns
                        &&& f.rows.deep_view() == route(consumed@, p, 0, j)
                        &&& f.stats == stats@[j]
                    },
                forall|j: int|
                    0 <= j < b ==> {
                        let s = #[trigger] stats@[j];
                        &&& s.num_rows matches Some(n) && n == route(consumed@, p, 0, j).len()
                        &&& s.num_batches matches Some(n) && n == all[j].num_batches
                        &&& s.num_bytes matches Some(n) && n == 8 * num_columns * route(
                            consumed@,
                            p,
                            0,
                            j,
                        ).len()
                    },
                stats_rows_sum(stats@) == route_len_sum(consumed@, p, 0, b as int),
            decreases total - b,
        {
            let buf = rest.remove(0);
            proof {
                assert(buf == all[b as int]);
                assert(buf.rows.deep_view().len() == buf.rows@.len());
            }
            let n_rows = buf.rows.len() as u64;
            let st = PartitionStats {
                num_rows: Some(n_rows),
                num_batches: Some(buf.num_batches),
                num_bytes: Some(buf.num_bytes),
            };
            let file = PartitionFile {
                stage_id,
                partition_id: b,
                num_columns,
                rows: buf.rows,
                stats: st,
            };
            let ghost prev_stats = stats@;
            files.push(file);
            stats.push(st);
            proof {
                assert(stats@.drop_last() =~= prev_stats);
                assert(stats@.last() == st);
            }
            b += 1;
        }
        proof {
            lemma_route_conservation(consumed@, p, 0, p.spec_count());
        }
        (files, stats)
    }
}

} // verus!
