//! Checkpoint bookkeeping for the concurrent dispatcher: what one completed
//! batch does to the checkpoint, and when the checkpoint is due for a
//! durable write. The dispatcher runs submissions concurrently and applies
//! this under the checkpoint's lock, one completion at a time.

use vstd::prelude::*;
use crate::checkpoint::MigrationCheckpoint;

verus! {

/// How one batch submission ended.
pub enum BatchOutcome {
    /// The bulk call succeeded; the store committed `committed` documents,
    /// possibly fewer than the batch holds when single documents were
    /// rejected. The whole batch still counts as processed: rejected
    /// documents are dropped, not retried.
    Success { committed: u64 },
    /// The bulk call failed as a whole; no range is recorded, so the resume
    /// frontier can never advance past this batch until a later run
    /// resubmits it.
    Failure,
}

impl MigrationCheckpoint {
    /// Applies one completed batch to the checkpoint and says whether the
    /// checkpoint is due for a durable write: after a successful batch whose
    /// sequence number is a multiple of `save_batch_interval`, or when the
    /// running committed-document count `total_committed` (this batch
    /// included) lands on a multiple of `save_record_interval`. A failed
    /// batch only moves the failure counter and never asks for a write.
    pub fn record_batch_outcome(
        &mut self,
        start_index: usize,
        batch_size: usize,
        outcome: &BatchOutcome,
        batch_num: usize,
        total_committed: u64,
        save_batch_interval: usize,
        save_record_interval: u64,
    ) -> (save_now: bool)
        requires
            save_batch_interval >= 1,
            save_record_interval >= 1,
            start_index + batch_size <= usize::MAX,
            old(self).processed_records + batch_size <= usize::MAX,
            old(self).successful_batches < usize::MAX,
            old(self).failed_batches < usize::MAX,
        ensures
            match *outcome {
                BatchOutcome::Success { committed } => {
                    &&& final(self).completed_batch_ranges@ == old(
                        self,
                    ).completed_batch_ranges@.push(
                        (start_index, (start_index + batch_size) as usize),
                    )
                    &&& final(self).processed_records == old(self).processed_records + batch_size
                    &&& final(self).successful_batches == old(self).successful_batches + 1
                    &&& final(self).failed_batches == old(self).failed_batches
                    &&& save_now == (batch_num as int % save_batch_interval as int == 0
                        || total_committed as int % save_record_interval as int == 0)
                },
                BatchOutcome::Failure => {
                    &&& final(self).completed_batch_ranges@ == old(self).completed_batch_ranges@
                    &&& final(self).processed_records == old(self).processed_records
                    &&& final(self).successful_batches == old(self).successful_batches
                    &&& final(self).failed_batches == old(self).failed_batches + 1
                    &&& save_now == false
                },
            },
            final(self).total_records == old(self).total_records,
            final(self).csv_file_path@ == old(self).csv_file_path@,
            final(self).start_time == old(self).start_time,
    {
        match outcome {
            BatchOutcome::Success { committed: _ } => {
                self.add_completed_batch(start_index, batch_size);
                batch_num % save_batch_interval == 0 || total_committed % save_record_interval == 0
            },
            BatchOutcome::Failure => {
                self.add_failed_batch();
                false
            },
        }
    }
}

} // verus!
