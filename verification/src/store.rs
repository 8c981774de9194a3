//! The shuffle fetch interface: finalized partition artifacts, retrievable
//! by `(stage_id, partition_id)`. Only what has been published through
//! `publish` — that is, only what a writer finalized — is ever visible to
//! a reader; a partition that was never finalized is simply absent.

use vstd::prelude::*;

use crate::shuffle::PartitionFile;

verus! {

/// The index of the last published artifact for the given stage and
/// partition, if any.
pub open spec fn file_lookup(s: Seq<PartitionFile>, stage_id: int, partition_id: int) -> Option<
    int,
>
    decreases s.len(),
{
    if s.len() == 0 {
        None
    } else if s.last().stage_id == stage_id && s.last().partition_id == partition_id {
        Some(s.len() - 1)
    } else {
        file_lookup(s.drop_last(), stage_id, partition_id)
    }
}

/// A published artifact is fetchable: when no later artifact carries the
/// same stage and partition — as when each task owns its partition
/// exclusively — the lookup finds exactly it.
pub proof fn lemma_file_lookup_found(s: Seq<PartitionFile>, i: int)
    requires
        0 <= i < s.len(),
        forall|j: int|
            i < j < s.len() ==> ((#[trigger] s[j]).stage_id != s[i].stage_id || s[j].partition_id
                != s[i].partition_id),
    ensures
        file_lookup(s, s[i].stage_id as int, s[i].partition_id as int) == Some(i),
    decreases s.len(),
{
    if i < s.len() - 1 {
        lemma_file_lookup_found(s.drop_last(), i);
    }
}

/// Serves finalized partitions to downstream stages and clients.
pub struct PartitionStore {
    pub files: Vec<PartitionFile>,
}

impl PartitionStore {
    /// An empty store: nothing has been finalized, nothing can be fetched.
    pub fn new() -> (r: PartitionStore)
        ensures
            r.files@.len() == 0,
    {
        PartitionStore { files: Vec::new() }
    }

    /// Make one finalized artifact visible to readers.
    pub fn publish(&mut self, file: PartitionFile)
        ensures
            final(self).files@ == old(self).files@.push(file),
    {
        self.files.push(file);
    }

    /// Retrieve a stage-partition's persisted output, if it was finalized
    /// and published; the latest published artifact wins.
    pub fn fetch<'a>(&'a self, stage_id: usize, partition_id: usize) -> (r: Option<
        &'a PartitionFile,
    >)
        ensures
            match file_lookup(self.files@, stage_id as int, partition_id as int) {
                Some(i) => r matches Some(f) && *f == self.files@[i],
                None => r is None,
            },
    {
        let ghost fs = self.files@;
        let mut i: usize = self.files.len();
        proof {
            assert(fs.take(i as int) =~= fs);
        }
        while i > 0
            invariant
                i <= self.files@.len(),
                fs == self.files@,
                file_lookup(fs, stage_id as int, partition_id as int) == file_lookup(
                    fs.take(i as int),
                    stage_id as int,
                    partition_id as int,
                ),
            decreases i,
        {
            i -= 1;
            proof {
                assert(fs.take(i + 1).last() == fs[i as int]);
                assert(fs.take(i + 1).drop_last() =~= fs.take(i as int));
            }
            if self.files[i].stage_id == stage_id && self.files[i].partition_id == partition_id {
                return Some(&self.files[i]);
            }
        }
        proof {
            assert(fs.take(0) =~= Seq::<PartitionFile>::empty());
        }
        None
    }
}

} // verus!
