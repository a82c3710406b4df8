use transcoder_core::config::TranscodeConfig;
use transcoder_core::error::TranscodeError;
use transcoder_core::job::{Job, JobConfig, JobStatus, Priority};
use transcoder_core::progress::ProgressEvent;
use transcoder_core::queue::QueueStats;
use transcoder_core::worker::{plan_job, queue_updated, JobPlan, JobSession, WorkerPool};

fn job(config: JobConfig) -> Job {
    Job::new("in.mxf".to_string(), "out.mov".to_string(), config, Priority::Normal)
}

#[test]
fn test_worker_pool_creation() {
    let pool = WorkerPool::new(Some(2));
    assert_eq!(pool.worker_count(), 2);
    assert!(!pool.is_running());
}

#[test]
fn start_twice_is_refused() {
    let mut pool = WorkerPool::new(Some(1));
    pool.start().unwrap();
    assert!(pool.is_running());
    match pool.start() {
        Err(TranscodeError::WorkerPoolError(m)) => assert_eq!(m, "Worker pool already running"),
        other => panic!("unexpected {:?}", other),
    }
    pool.stop();
    assert!(!pool.is_running());
    pool.stop();
    assert!(!pool.is_running());
    assert!(pool.start().is_ok());
}

#[test]
fn default_worker_count_is_positive() {
    let pool = WorkerPool::new(None);
    assert!(pool.worker_count() >= 1);
}

#[test]
fn active_worker_counting() {
    let mut pool = WorkerPool::new(Some(2));
    pool.job_begun();
    pool.job_begun();
    assert_eq!(pool.active_worker_count(), 2);
    pool.job_ended();
    assert_eq!(pool.active_worker_count(), 1);
}

#[test]
fn plans_by_configuration_kind() {
    match plan_job(JobConfig::BwfExtraction { sample_rate: None }) {
        JobPlan::Bwf { sample_rate } => assert_eq!(sample_rate, 48000),
        other => panic!("unexpected {:?}", other),
    }
    match plan_job(JobConfig::BwfExtraction { sample_rate: Some(96000) }) {
        JobPlan::Bwf { sample_rate } => assert_eq!(sample_rate, 96000),
        other => panic!("unexpected {:?}", other),
    }
    match plan_job(JobConfig::Unparsed("missing field".to_string())) {
        JobPlan::Invalid(e) => assert_eq!(e.message(), "Invalid configuration: missing field"),
        other => panic!("unexpected {:?}", other),
    }
    assert!(matches!(plan_job(JobConfig::Transcode(TranscodeConfig::default())), JobPlan::Transcode(_)));
}

#[test]
fn session_events_in_order() {
    let mut j = job(JobConfig::Transcode(TranscodeConfig::default()));
    let mut s = JobSession::new(j.id);
    match s.begin(&mut j) {
        Some(ProgressEvent::JobStarted { job_id, input_path, output_path }) => {
            assert_eq!(job_id, j.id);
            assert_eq!(input_path, "in.mxf");
            assert_eq!(output_path, "out.mov");
        }
        other => panic!("unexpected {:?}", other),
    }
    assert_eq!(j.status, JobStatus::Running);
    let mut last = 0;
    for p in [2500u32, 1000, 6000, 12000] {
        match s.progress(&mut j, p, Some(47800)) {
            ProgressEvent::JobProgress { progress, fps, eta_seconds, .. } => {
                assert!(progress >= last);
                assert_eq!(fps, Some(47800));
                assert_eq!(eta_seconds, None);
                last = progress;
            }
            other => panic!("unexpected {:?}", other),
        }
    }
    assert_eq!(last, 10000);
    match s.finish(&mut j, Ok(()), 12) {
        ProgressEvent::JobCompleted { duration_seconds, .. } => assert_eq!(duration_seconds, 12),
        other => panic!("unexpected {:?}", other),
    }
    assert_eq!(j.status, JobStatus::Completed);
    assert_eq!(j.progress, 10000);
}

#[test]
fn failed_run_reports_error_text() {
    let mut j = job(JobConfig::Transcode(TranscodeConfig::default()));
    let mut s = JobSession::new(j.id);
    s.begin(&mut j).unwrap();
    let e = TranscodeError::FfmpegFailed("FFmpeg exited with code: Some(1)".to_string());
    match s.finish(&mut j, Err(e), 3) {
        ProgressEvent::JobFailed { error, .. } => {
            assert_eq!(error, "FFmpeg execution failed: FFmpeg exited with code: Some(1)")
        }
        other => panic!("unexpected {:?}", other),
    }
    assert_eq!(j.status, JobStatus::Failed);
    assert_eq!(j.error_message.as_deref(), Some("FFmpeg execution failed: FFmpeg exited with code: Some(1)"));
}

#[test]
fn cancelled_job_is_not_started() {
    let mut j = job(JobConfig::Transcode(TranscodeConfig::default()));
    j.cancel();
    let mut s = JobSession::new(j.id);
    assert!(s.begin(&mut j).is_none());
    assert_eq!(j.status, JobStatus::Cancelled);
}

#[test]
fn queue_update_event() {
    let stats = QueueStats {
        total_count: 6,
        pending_count: 1,
        running_count: 2,
        completed_count: 3,
        failed_count: 0,
        cancelled_count: 0,
    };
    match queue_updated(&stats) {
        ProgressEvent::QueueUpdated { pending_count, running_count, completed_count } => {
            assert_eq!((pending_count, running_count, completed_count), (1, 2, 3))
        }
        other => panic!("unexpected {:?}", other),
    }
}
