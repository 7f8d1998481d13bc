use migrator::plan_batches;

fn indexed(n: usize) -> Vec<(usize, String)> {
    (0..n).map(|i| (i, format!("record-{}", i))).collect()
}

#[test]
fn test_plan_full_dataset() {
    // 10 records, batches of 3, no resume: ceil(10/3) = 4 batches
    let batches = plan_batches(indexed(10), 3, 0);
    assert_eq!(batches.len(), 4);
    let starts: Vec<usize> = batches.iter().map(|b| b.start_index).collect();
    assert_eq!(starts, vec![0, 3, 6, 9]);
    let sizes: Vec<usize> = batches.iter().map(|b| b.items.len()).collect();
    assert_eq!(sizes, vec![3, 3, 3, 1]);
    let total: usize = sizes.iter().sum();
    assert_eq!(total, 10);
    assert_eq!(batches[2].items[1], "record-7");
}

#[test]
fn test_plan_exact_multiple() {
    let batches = plan_batches(indexed(9), 3, 0);
    assert_eq!(batches.len(), 3);
    assert!(batches.iter().all(|b| b.items.len() == 3));
}

#[test]
fn test_plan_resumes_mid_dataset() {
    // resuming at 4 skips exactly the first 4 records
    let batches = plan_batches(indexed(10), 3, 4);
    assert_eq!(batches.len(), 2);
    assert_eq!(batches[0].start_index, 4);
    assert_eq!(batches[0].items.len(), 3);
    assert_eq!(batches[0].items[0], "record-4");
    assert_eq!(batches[1].start_index, 7);
    assert_eq!(batches[1].items.len(), 3);
    assert_eq!(batches[1].items[2], "record-9");
}

#[test]
fn test_plan_empty_input() {
    let batches = plan_batches(Vec::<(usize, String)>::new(), 5, 0);
    assert!(batches.is_empty());
}

#[test]
fn test_plan_resume_past_end() {
    let batches = plan_batches(indexed(5), 2, 5);
    assert!(batches.is_empty());
    let batches = plan_batches(indexed(5), 2, 17);
    assert!(batches.is_empty());
}

#[test]
fn test_plan_batch_size_one() {
    let batches = plan_batches(indexed(3), 1, 0);
    assert_eq!(batches.len(), 3);
    for (j, b) in batches.iter().enumerate() {
        assert_eq!(b.start_index, j);
        assert_eq!(b.items.len(), 1);
    }
}
