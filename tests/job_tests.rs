use transcoder_core::config::TranscodeConfig;
use transcoder_core::job::{Job, JobConfig, JobStatus, Priority};

fn new_job() -> Job {
    Job::new(
        "/input.mxf".to_string(),
        "/output.mov".to_string(),
        JobConfig::Transcode(TranscodeConfig::default()),
        Priority::Normal,
    )
}

#[test]
fn test_job_lifecycle() {
    let mut job = new_job();
    assert_eq!(job.status, JobStatus::Pending);
    assert!(job.is_active());
    assert!(!job.is_finished());

    job.start();
    assert_eq!(job.status, JobStatus::Running);
    assert!(job.started_at.is_some());

    job.update_progress(5000);
    assert_eq!(job.progress, 5000);

    job.complete();
    assert_eq!(job.status, JobStatus::Completed);
    assert!(job.is_finished());
    assert_eq!(job.progress, 10000);
}

#[test]
fn test_job_failure() {
    let mut job = new_job();
    job.start();
    job.fail("Test error".to_string());
    assert_eq!(job.status, JobStatus::Failed);
    assert!(job.is_finished());
    assert_eq!(job.error_message, Some("Test error".to_string()));
}

#[test]
fn progress_never_goes_down_and_is_capped() {
    let mut job = new_job();
    job.start();
    job.update_progress(4000);
    job.update_progress(3000);
    assert_eq!(job.progress, 4000);
    job.update_progress(20000);
    assert_eq!(job.progress, 10000);
}

#[test]
fn new_jobs_get_distinct_ids_and_a_creation_time() {
    let a = new_job();
    let b = new_job();
    assert_ne!(a.id, b.id);
    assert!(a.created_at > 0);
}

#[test]
fn duration_rounds_toward_zero() {
    let mut job = new_job();
    job.started_at = Some(1_000);
    job.completed_at = Some(3_999);
    assert_eq!(job.duration_seconds(), Some(2));
    job.completed_at = Some(-1_500);
    assert_eq!(job.duration_seconds(), Some(-2));
    job.started_at = None;
    assert_eq!(job.duration_seconds(), None);
}

#[test]
fn cancel_pending_job() {
    let mut job = new_job();
    job.cancel();
    assert_eq!(job.status, JobStatus::Cancelled);
    assert!(job.completed_at.is_some());
    assert!(!job.is_active());
}
