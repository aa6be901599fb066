use stake_accounts::{BatchOutcome, BatchSubmission};

fn submit(total: usize, results: &[bool]) -> (BatchOutcome, Vec<usize>) {
    let mut batch = BatchSubmission::new(total);
    let mut attempted = Vec::new();
    while let Some(i) = batch.next_index() {
        attempted.push(i);
        batch.record_result(results[i]);
    }
    (batch.outcome(), attempted)
}

#[test]
fn partial_failure_is_reported() {
    let (outcome, attempted) = submit(4, &[true, true, false, true]);
    assert_eq!(outcome, BatchOutcome { completed: 2, failed: Some(2) });
    assert_eq!(attempted, vec![0, 1, 2]);
}

#[test]
fn full_batch_is_reported() {
    let (outcome, attempted) = submit(3, &[true, true, true]);
    assert_eq!(outcome, BatchOutcome { completed: 3, failed: None });
    assert_eq!(attempted, vec![0, 1, 2]);
}

#[test]
fn first_failure_stops_at_once() {
    let (outcome, attempted) = submit(2, &[false, true]);
    assert_eq!(outcome, BatchOutcome { completed: 0, failed: Some(0) });
    assert_eq!(attempted, vec![0]);
}

#[test]
fn empty_batch_submits_nothing() {
    let (outcome, attempted) = submit(0, &[]);
    assert_eq!(outcome, BatchOutcome { completed: 0, failed: None });
    assert!(attempted.is_empty());
}
