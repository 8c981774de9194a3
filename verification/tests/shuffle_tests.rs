use kapot::shuffle::{hash_row, Batch, Partitioning, ShuffleWriter};
use kapot::store::PartitionStore;

fn batch_of(num_columns: usize, rows: Vec<Vec<u64>>) -> Batch {
    Batch { num_columns, rows }
}

fn hundred_rows(tag: u64) -> Vec<Vec<u64>> {
    (0..100u64).map(|i| vec![tag, i]).collect()
}

#[test]
fn single_partition_four_batches() {
    // four input batches of 100 rows each, a single output partition
    let mut writer = ShuffleWriter::new(Partitioning::Single, 2);
    for tag in 0..4u64 {
        writer.write_batch(&batch_of(2, hundred_rows(tag)));
    }
    let (files, stats) = writer.finish(9);
    assert_eq!(1, files.len());
    assert_eq!(1, stats.len());
    assert_eq!(Some(400), stats[0].num_rows);
    assert_eq!(Some(4), stats[0].num_batches);
    assert!(stats[0].num_bytes.unwrap() > 0);
    assert_eq!(400, files[0].rows.len());
}

#[test]
fn row_counts_sum_to_consumed_under_hash() {
    let part = Partitioning::Hash { columns: vec![1], count: 3 };
    let mut writer = ShuffleWriter::new(part, 2);
    for tag in 0..4u64 {
        writer.write_batch(&batch_of(2, hundred_rows(tag)));
    }
    let (_, stats) = writer.finish(1);
    assert_eq!(3, stats.len());
    let total: u64 = stats.iter().map(|s| s.num_rows.unwrap()).sum();
    assert_eq!(400, total);
}

#[test]
fn round_robin_deals_rows_in_turn() {
    let part = Partitioning::RoundRobin { count: 2 };
    let mut writer = ShuffleWriter::new(part, 1);
    writer.write_batch(&batch_of(1, vec![vec![10], vec![11], vec![12], vec![13]]));
    let (files, stats) = writer.finish(1);
    assert_eq!(vec![vec![10], vec![12]], files[0].rows);
    assert_eq!(vec![vec![11], vec![13]], files[1].rows);
    assert_eq!(Some(2), stats[0].num_rows);
    assert_eq!(Some(2), stats[1].num_rows);
}

#[test]
fn empty_buckets_still_get_artifacts() {
    let part = Partitioning::Hash { columns: vec![0], count: 4 };
    let mut writer = ShuffleWriter::new(part, 1);
    writer.write_batch(&batch_of(1, vec![vec![5]]));
    let (files, stats) = writer.finish(3);
    assert_eq!(4, files.len());
    let empties = stats.iter().filter(|s| s.num_rows == Some(0)).count();
    assert_eq!(3, empties);
    for s in &stats {
        assert!(s.num_rows.is_some());
        assert!(s.num_batches.is_some());
        assert!(s.num_bytes.is_some());
    }
}

#[test]
fn hash_partitioning_is_deterministic() {
    let cols = vec![0, 1];
    let row = vec![123456789u64, 42];
    let first = hash_row(&row, &cols);
    let second = hash_row(&row, &cols);
    assert_eq!(first, second);
    let other = hash_row(&vec![123456789u64, 43], &cols);
    // a different row may collide, but this particular pair must not hash
    // equal and also bucket equally for every count if the hash differs
    assert_ne!(first, other);
}

#[test]
fn round_trip_through_fetch_preserves_rows() {
    // write under a hash scheme, read every partition back through the
    // fetch interface, and compare the multiset of rows and the schema
    let part = Partitioning::Hash { columns: vec![1], count: 3 };
    let mut writer = ShuffleWriter::new(part, 2);
    let mut expected: Vec<Vec<u64>> = Vec::new();
    for tag in 0..4u64 {
        let rows = hundred_rows(tag);
        expected.extend(rows.iter().cloned());
        writer.write_batch(&batch_of(2, rows));
    }
    let (files, _) = writer.finish(6);
    let mut store = PartitionStore::new();
    for f in files {
        store.publish(f);
    }
    let mut read_back: Vec<Vec<u64>> = Vec::new();
    for pid in 0..3usize {
        let f = store.fetch(6, pid).expect("finalized partition must be fetchable");
        assert_eq!(2, f.num_columns);
        assert_eq!(6, f.stage_id);
        assert_eq!(pid, f.partition_id);
        read_back.extend(f.rows.iter().cloned());
    }
    expected.sort();
    read_back.sort();
    assert_eq!(expected, read_back);
}

#[test]
fn unpublished_partition_is_invisible() {
    let store = PartitionStore::new();
    assert!(store.fetch(1, 0).is_none());
}
