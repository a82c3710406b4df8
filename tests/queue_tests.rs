use transcoder_core::config::TranscodeConfig;
use transcoder_core::error::TranscodeError;
use transcoder_core::job::{id_string, Job, JobConfig, JobStatus, Priority};
use transcoder_core::queue::{JobQueue, PendingToken};

fn create_test_job(priority: Priority) -> Job {
    Job::new(
        "/tmp/test_input.mxf".to_string(),
        "/tmp/test_output.mov".to_string(),
        JobConfig::Transcode(TranscodeConfig::default()),
        priority,
    )
}

fn job_at(id: u128, priority: Priority, created_at: i64) -> Job {
    let mut j = create_test_job(priority);
    j.id = id;
    j.created_at = created_at;
    j
}

#[test]
fn test_queue_basic_operations() {
    let mut queue = JobQueue::new();
    let job = create_test_job(Priority::Normal);
    match queue.add_job(job, false) {
        Err(TranscodeError::InvalidInput(_)) => {}
        _ => panic!("Expected InvalidInput error"),
    }
}

#[test]
fn test_queue_stats() {
    let queue = JobQueue::new();
    let stats = queue.get_stats();
    assert_eq!(stats.total_count, 0);
    assert_eq!(stats.pending_count, 0);
}

#[test]
fn test_priority_ordering() {
    let low = PendingToken { job_id: 1, priority: Priority::Low, created_at: 5 };
    let high = PendingToken { job_id: 2, priority: Priority::High, created_at: 6 };
    assert!(high.outranks(&low));
    assert!(!low.outranks(&high));
}

#[test]
fn pickup_order_priority_then_fifo() {
    let mut q = JobQueue::new();
    q.add_job(job_at(0xA, Priority::Normal, 1), true).unwrap();
    q.add_job(job_at(0xB, Priority::High, 2), true).unwrap();
    q.add_job(job_at(0xC, Priority::Normal, 0), true).unwrap();
    assert_eq!(q.get_next_job(), Some(0xB));
    assert_eq!(q.get_next_job(), Some(0xC));
    assert_eq!(q.get_next_job(), Some(0xA));
    assert_eq!(q.get_next_job(), None);
}

#[test]
fn added_job_reads_back_as_pending() {
    let mut q = JobQueue::new();
    let mut j = job_at(7, Priority::Urgent, 3);
    j.status = JobStatus::Failed;
    j.progress = 1234;
    q.add_job(j, true).unwrap();
    let back = q.get_job(7).unwrap();
    assert_eq!(back.status, JobStatus::Pending);
    assert_eq!(back.id, 7);
    assert_eq!(back.priority, Priority::Urgent);
    assert_eq!(back.progress, 1234);
    assert_eq!(back.created_at, 3);
    assert_eq!(back.input_path, "/tmp/test_input.mxf");
}

#[test]
fn each_job_dispatched_once_and_cancelled_skipped() {
    let mut q = JobQueue::new();
    for i in 0..5u128 {
        q.add_job(job_at(i, Priority::Normal, i as i64), true).unwrap();
    }
    q.cancel_job(2).unwrap();
    let mut seen = Vec::new();
    while let Some(id) = q.get_next_job() {
        seen.push(id);
    }
    assert_eq!(seen, vec![0, 1, 3, 4]);
    assert_eq!(q.get_next_job(), None);
}

#[test]
fn duplicate_and_missing_input_leave_queue_unchanged() {
    let mut q = JobQueue::new();
    q.add_job(job_at(1, Priority::Low, 0), true).unwrap();
    let before = q.get_stats();
    match q.add_job(job_at(1, Priority::High, 1), true) {
        Err(TranscodeError::JobAlreadyExists(m)) => assert_eq!(m, id_string(1)),
        other => panic!("unexpected {:?}", other),
    }
    let mut missing = job_at(2, Priority::Low, 0);
    missing.input_path = "/no/such/file.mxf".to_string();
    match q.add_job(missing, false) {
        Err(TranscodeError::InvalidInput(m)) => assert_eq!(m, "Input file does not exist: \"/no/such/file.mxf\""),
        other => panic!("unexpected {:?}", other),
    }
    assert_eq!(q.get_stats(), before);
}

#[test]
fn cancel_missing_job_is_not_found() {
    let mut q = JobQueue::new();
    let id: u128 = 0x0123456789abcdef0123456789abcdef;
    match q.cancel_job(id) {
        Err(TranscodeError::JobNotFound(m)) => assert_eq!(m, "01234567-89ab-cdef-0123-456789abcdef"),
        other => panic!("unexpected {:?}", other),
    }
    assert!(q.update_job(job_at(9, Priority::Low, 0)).is_err());
    assert!(q.remove_job(9).is_err());
}

#[test]
fn cancel_keeps_finished_jobs() {
    let mut q = JobQueue::new();
    q.add_job(job_at(1, Priority::Low, 0), true).unwrap();
    let mut j = q.get_job(1).unwrap();
    j.start();
    j.complete();
    q.update_job(j).unwrap();
    q.cancel_job(1).unwrap();
    assert_eq!(q.get_job(1).unwrap().status, JobStatus::Completed);
}

#[test]
fn stats_listing_and_clearing() {
    let mut q = JobQueue::new();
    for i in 0..4u128 {
        q.add_job(job_at(i, Priority::Normal, i as i64), true).unwrap();
    }
    let mut j = q.get_job(0).unwrap();
    j.start();
    q.update_job(j).unwrap();
    let mut j = q.get_job(1).unwrap();
    j.start();
    j.fail("boom".to_string());
    q.update_job(j).unwrap();
    q.cancel_job(2).unwrap();
    let s = q.get_stats();
    assert_eq!((s.total_count, s.pending_count, s.running_count, s.failed_count, s.cancelled_count, s.completed_count),
        (4, 1, 1, 1, 1, 0));
    assert_eq!(q.get_all_jobs().len(), 4);
    let pending = q.get_jobs_by_status(JobStatus::Pending);
    assert_eq!(pending.len(), 1);
    assert_eq!(pending[0].id, 3);
    assert_eq!(q.clear_completed(), 2);
    assert_eq!(q.get_stats().total_count, 2);
    assert!(q.get_job(1).is_none());
    let removed = q.remove_job(0).unwrap();
    assert_eq!(removed.id, 0);
    assert_eq!(q.get_stats().total_count, 1);
}

#[test]
fn readding_a_removed_job_dispatches_once() {
    let mut q = JobQueue::new();
    q.add_job(job_at(1, Priority::Low, 0), true).unwrap();
    q.remove_job(1).unwrap();
    q.add_job(job_at(1, Priority::Low, 0), true).unwrap();
    assert_eq!(q.get_next_job(), Some(1));
    assert_eq!(q.get_next_job(), None);
}
