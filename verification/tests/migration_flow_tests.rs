use migrator::{plan_batches, BatchOutcome, MigrationCheckpoint};

fn dataset(n: usize) -> Vec<(usize, String)> {
    (0..n).map(|i| (i, format!("doc-{}", i))).collect()
}

/// Drives one planned batch through the dispatcher bookkeeping as if its
/// submission had completed with the given outcome.
fn complete(
    cp: &mut MigrationCheckpoint,
    start: usize,
    size: usize,
    outcome: BatchOutcome,
    batch_num: usize,
    total_committed: u64,
) -> bool {
    cp.record_batch_outcome(start, size, &outcome, batch_num, total_committed, 10, 10000)
}

#[test]
fn test_full_run_all_batches_succeed() {
    // 25 records, batches of 10, completing out of order as a concurrent
    // dispatcher would let them
    let mut cp = MigrationCheckpoint::new("data.csv".to_string(), 25);
    let batches = plan_batches(dataset(25), 10, 0);
    assert_eq!(batches.len(), 3);

    let order: Vec<usize> = vec![2, 0, 1];
    let mut committed: u64 = 0;
    for &j in &order {
        let b = &batches[j];
        committed += b.items.len() as u64;
        complete(
            &mut cp,
            b.start_index,
            b.items.len(),
            BatchOutcome::Success {
                committed: b.items.len() as u64,
            },
            j,
            committed,
        );
    }

    assert_eq!(cp.processed_records, 25);
    assert_eq!(cp.successful_batches, 3);
    assert_eq!(cp.failed_batches, 0);
    assert_eq!(cp.completed_batch_ranges.len(), 3);
    assert_eq!(cp.get_safe_resume_point(), 25);
    assert!(cp.is_completed());
}

#[test]
fn test_run_with_failed_middle_batch_and_resume() {
    // the batch [10,20) fails while [0,10) and [20,25) succeed
    let mut cp = MigrationCheckpoint::new("data.csv".to_string(), 25);
    let batches = plan_batches(dataset(25), 10, 0);
    assert_eq!(batches[1].start_index, 10);

    complete(&mut cp, batches[0].start_index, batches[0].items.len(),
        BatchOutcome::Success { committed: 10 }, 0, 10);
    complete(&mut cp, batches[1].start_index, batches[1].items.len(),
        BatchOutcome::Failure, 1, 10);
    complete(&mut cp, batches[2].start_index, batches[2].items.len(),
        BatchOutcome::Success { committed: 5 }, 2, 15);

    assert_eq!(cp.processed_records, 15);
    assert_eq!(cp.successful_batches, 2);
    assert_eq!(cp.failed_batches, 1);
    assert_eq!(cp.get_safe_resume_point(), 10);
    assert!(!cp.is_completed());

    // a later run resumes at 10 and re-submits everything from there,
    // including the already-succeeded [20,25) range
    let resume = cp.get_safe_resume_point();
    let retry = plan_batches(dataset(25), 10, resume);
    assert_eq!(retry.len(), 2);
    assert_eq!(retry[0].start_index, 10);
    assert_eq!(retry[0].items.len(), 10);
    assert_eq!(retry[1].start_index, 20);
    assert_eq!(retry[1].items.len(), 5);
    assert_eq!(retry[0].items[0], "doc-10");
}

#[test]
fn test_save_due_after_interval_batch() {
    let mut cp = MigrationCheckpoint::new("data.csv".to_string(), 1000);
    // batch number on the interval asks for a persist
    assert!(complete(&mut cp, 0, 10, BatchOutcome::Success { committed: 10 }, 0, 10));
    assert!(!complete(&mut cp, 10, 10, BatchOutcome::Success { committed: 10 }, 1, 20));
    assert!(complete(&mut cp, 100, 10, BatchOutcome::Success { committed: 10 }, 10, 30));
    // a committed-count landing on the record interval asks for one too
    assert!(complete(
        &mut cp,
        110,
        10,
        BatchOutcome::Success { committed: 10 },
        3,
        10000
    ));
    // a failed batch never does
    assert!(!complete(&mut cp, 120, 10, BatchOutcome::Failure, 20, 10000));
    assert_eq!(cp.failed_batches, 1);
}

#[test]
fn test_interrupted_run_checkpoint_reflects_finished_updates_only() {
    // only batches whose checkpoint update ran before the interrupt count:
    // two of three updates had finished when the run stopped
    let mut cp = MigrationCheckpoint::new("data.csv".to_string(), 30);
    complete(&mut cp, 0, 10, BatchOutcome::Success { committed: 10 }, 0, 10);
    complete(&mut cp, 20, 10, BatchOutcome::Success { committed: 10 }, 2, 20);
    // the batch [10,20) was still in flight; it is not recorded either way

    assert_eq!(cp.processed_records, 20);
    assert_eq!(cp.get_safe_resume_point(), 10);
}
