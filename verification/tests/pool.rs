use ngram::pool::JobQueue;

#[test]
fn jobs_are_handed_out_exactly_once_in_order() {
    let mut q: JobQueue<u64> = JobQueue::new();
    let submitted: Vec<u64> = vec![10, 11, 12, 13, 14];
    for &job in &submitted {
        assert!(q.submit(job));
    }
    let mut handed_out = Vec::new();
    while let Some(job) = q.next_job() {
        handed_out.push(job);
    }
    assert_eq!(handed_out, submitted);
    assert_eq!(q.pending_len(), 0);
    assert_eq!(q.next_job(), None);
}

#[test]
fn submit_after_close_reports_failure() {
    let mut q: JobQueue<u64> = JobQueue::new();
    assert!(q.submit(1));
    q.close();
    assert!(!q.submit(2));
    assert!(q.is_closed());
    // The job accepted before the close is still drained, not abandoned.
    assert_eq!(q.next_job(), Some(1));
    assert_eq!(q.next_job(), None);
}

#[test]
fn close_is_idempotent() {
    let mut q: JobQueue<u64> = JobQueue::new();
    assert!(q.submit(7));
    q.close();
    q.close();
    assert!(q.is_closed());
    assert_eq!(q.pending_len(), 1);
    assert_eq!(q.next_job(), Some(7));
}

#[test]
fn next_job_on_empty_queue_is_none() {
    let mut q: JobQueue<u64> = JobQueue::new();
    assert_eq!(q.next_job(), None);
    assert!(q.submit(3));
    assert_eq!(q.next_job(), Some(3));
    assert_eq!(q.next_job(), None);
}

#[test]
fn queue_holds_closures() {
    let mut q: JobQueue<Box<dyn FnOnce() -> u64 + Send>> = JobQueue::new();
    assert!(q.submit(Box::new(|| 41 + 1)));
    let job = q.next_job().unwrap();
    assert_eq!(job(), 42);
}
