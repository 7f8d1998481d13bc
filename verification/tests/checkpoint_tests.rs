use migrator::MigrationCheckpoint;

fn fresh(total: usize) -> MigrationCheckpoint {
    MigrationCheckpoint::new("data.csv".to_string(), total)
}

#[test]
fn test_new_checkpoint_is_zeroed() {
    let cp = fresh(100);
    assert_eq!(cp.csv_file_path, "data.csv");
    assert_eq!(cp.total_records, 100);
    assert_eq!(cp.processed_records, 0);
    assert_eq!(cp.successful_batches, 0);
    assert_eq!(cp.failed_batches, 0);
    assert!(cp.completed_batch_ranges.is_empty());
    assert_eq!(cp.get_safe_resume_point(), 0);
    assert!(!cp.is_completed());
}

#[test]
fn test_resume_point_contiguous_cover_any_order() {
    // ranges tiling [0, 30) exactly, inserted out of order
    let mut cp = fresh(30);
    cp.add_completed_batch(20, 10);
    cp.add_completed_batch(0, 10);
    cp.add_completed_batch(10, 10);
    assert_eq!(cp.get_safe_resume_point(), 30);

    // another insertion order, same ranges
    let mut cp = fresh(30);
    cp.add_completed_batch(10, 10);
    cp.add_completed_batch(20, 10);
    cp.add_completed_batch(0, 10);
    assert_eq!(cp.get_safe_resume_point(), 30);
}

#[test]
fn test_resume_point_stops_at_gap() {
    // {[0,100), [200,300)}: the gap at 100..200 blocks advancement
    let mut cp = fresh(300);
    cp.add_completed_batch(0, 100);
    cp.add_completed_batch(200, 100);
    assert_eq!(cp.get_safe_resume_point(), 100);
}

#[test]
fn test_resume_point_out_of_order_ranges() {
    // {[50,100), [0,50)} added out of order still merges to 100
    let mut cp = fresh(100);
    cp.add_completed_batch(50, 50);
    cp.add_completed_batch(0, 50);
    assert_eq!(cp.get_safe_resume_point(), 100);
}

#[test]
fn test_resume_point_gap_at_zero() {
    let mut cp = fresh(100);
    cp.add_completed_batch(10, 10);
    cp.add_completed_batch(20, 10);
    assert_eq!(cp.get_safe_resume_point(), 0);
}

#[test]
fn test_resume_point_ignores_range_reaching_past_overlap() {
    // [3,10) starts below the frontier 5 and is skipped without advancing
    let mut cp = fresh(10);
    cp.add_completed_batch(0, 5);
    cp.add_completed_batch(3, 7);
    assert_eq!(cp.get_safe_resume_point(), 5);
}

#[test]
fn test_add_completed_batch_double_counts_overlap() {
    // re-adding an overlapping range double-counts processed_records by design
    let mut cp = fresh(10);
    cp.add_completed_batch(0, 10);
    assert_eq!(cp.processed_records, 10);
    cp.add_completed_batch(0, 10);
    assert_eq!(cp.processed_records, 20);
    assert_eq!(cp.successful_batches, 2);
    assert_eq!(cp.completed_batch_ranges, vec![(0, 10), (0, 10)]);
    assert_eq!(cp.get_safe_resume_point(), 10);
}

#[test]
fn test_add_failed_batch_only_counts() {
    let mut cp = fresh(10);
    cp.add_failed_batch();
    assert_eq!(cp.failed_batches, 1);
    assert_eq!(cp.processed_records, 0);
    assert!(cp.completed_batch_ranges.is_empty());
    assert_eq!(cp.get_safe_resume_point(), 0);
}

#[test]
fn test_is_completed() {
    let mut cp = fresh(20);
    cp.add_completed_batch(0, 10);
    assert!(!cp.is_completed());
    cp.add_completed_batch(10, 10);
    assert!(cp.is_completed());

    // an unknown total (the 0 sentinel) counts as completed from the start
    let cp = fresh(0);
    assert!(cp.is_completed());
}

#[test]
fn test_checkpoint_file_path() {
    assert_eq!(
        MigrationCheckpoint::checkpoint_file_path("data.csv"),
        "data.csv.checkpoint"
    );
}

#[test]
fn test_matches_dataset() {
    let cp = fresh(10);
    assert!(cp.matches_dataset("data.csv"));
    assert!(!cp.matches_dataset("other.csv"));
}
