//! Worker pool lifecycle and the decisions a worker makes for one job.
//!
//! The loop that polls the queue, runs external tools and publishes events
//! lives with the runtime; it asks this module what to do at each step.

use vstd::prelude::*;
use vstd::string::*;
use crate::config::TranscodeConfig;
use crate::error::{error_text, TranscodeError};
use crate::job::{status_edge, Job, JobConfig, JobId, JobStatus, FULL_PROGRESS};
use crate::platform::{cpu_count, default_worker_count};
use crate::progress::{is_progress_for, is_terminal_for, is_started_for, progress_value, run_events, ProgressEvent};
use crate::queue::QueueStats;
use crate::text::owned;

verus! {

/// Lifecycle of a pool: Idle, then Running, then Stopped.
#[derive(Debug, Clone, Copy, PartialEq, Eq, Structural)]
pub enum PoolState {
    Idle,
    Running,
    Stopped,
}

/// The pool's lifecycle and counters.
pub struct WorkerPool {
    worker_count: usize,
    state: PoolState,
    active_workers: usize,
}

impl View for WorkerPool {
    type V = (usize, PoolState, usize);

    closed spec fn view(&self) -> (usize, PoolState, usize) {
        (self.worker_count, self.state, self.active_workers)
    }
}

impl WorkerPool {
    /// An idle pool of `worker_count` workers; by default one per core but
    /// one, and at least one.
    pub fn new(worker_count: Option<usize>) -> (r: WorkerPool)
        ensures
            worker_count matches Some(n) ==> r@.0 == n,
            worker_count is None ==> r@.0 >= 1,
            r@.1 == PoolState::Idle,
            r@.2 == 0,
    {
        let n = match worker_count {
            Some(n) => n,
            None => default_worker_count(cpu_count()),
        };
        WorkerPool { worker_count: n, state: PoolState::Idle, active_workers: 0 }
    }

    /// Number of workers the pool runs.
    pub fn worker_count(&self) -> (r: usize)
        ensures
            r == self@.0,
    {
        self.worker_count
    }

    /// Moves the pool to Running; a running pool refuses.
    pub fn start(&mut self) -> (r: Result<(), TranscodeError>)
        ensures
            old(self)@.1 == PoolState::Running <==> r is Err,
            r matches Err(e) ==> (e matches TranscodeError::WorkerPoolError(m) && m@ == "Worker pool already running"@),
            r is Err ==> final(self)@ == old(self)@,
            r is Ok ==> final(self)@ == (old(self)@.0, PoolState::Running, old(self)@.2),
    {
        if self.state == PoolState::Running {
            return Err(TranscodeError::WorkerPoolError(owned("Worker pool already running")));
        }
        self.state = PoolState::Running;
        Ok(())
    }

    /// Signals shutdown; stopping again changes nothing.
    pub fn stop(&mut self)
        ensures
            final(self)@ == (old(self)@.0, if old(self)@.1 == PoolState::Idle { PoolState::Idle } else { PoolState::Stopped }, old(self)@.2),
    {
        if self.state == PoolState::Running {
            self.state = PoolState::Stopped;
        }
    }

    /// Whether the pool is running.
    pub fn is_running(&self) -> (r: bool)
        ensures
            r == (self@.1 == PoolState::Running),
    {
        self.state == PoolState::Running
    }

    /// Number of workers inside a job right now.
    pub fn active_worker_count(&self) -> (r: usize)
        ensures
            r == self@.2,
    {
        self.active_workers
    }

    /// A worker took a job.
    pub fn job_begun(&mut self)
        requires
            old(self)@.2 < old(self)@.0,
        ensures
            final(self)@ == (old(self)@.0, old(self)@.1, (old(self)@.2 + 1) as usize),
    {
        self.active_workers = self.active_workers + 1;
    }

    /// A worker is done with its job.
    pub fn job_ended(&mut self)
        requires
            old(self)@.2 > 0,
        ensures
            final(self)@ == (old(self)@.0, old(self)@.1, (old(self)@.2 - 1) as usize),
    {
        self.active_workers = self.active_workers - 1;
    }
}

/// What a worker runs for a job.
#[derive(Debug, Clone)]
pub enum JobPlan {
    /// Extract broadcast WAV audio at this sample rate.
    Bwf { sample_rate: u32 },
    /// Transcode with this configuration.
    Transcode(TranscodeConfig),
    /// Nothing can run: the job fails with this error.
    Invalid(TranscodeError),
}

/// Sample rate of a BWF extraction: 48 kHz unless given, kept to its low
/// 32 bits.
pub open spec fn bwf_rate(sample_rate: Option<u64>) -> u32 {
    match sample_rate {
        Some(r) => (r % 0x1_0000_0000) as u32,
        None => 48000,
    }
}

/// The pipeline for a job's configuration: BWF extraction, a transcode, or
/// a failure with `InvalidConfig` when the configuration did not parse.
pub open spec fn plan_of(config: JobConfig) -> JobPlan {
    match config {
        JobConfig::BwfExtraction { sample_rate } => JobPlan::Bwf { sample_rate: bwf_rate(sample_rate) },
        JobConfig::Transcode(c) => JobPlan::Transcode(c),
        JobConfig::Unparsed(m) => JobPlan::Invalid(TranscodeError::InvalidConfig(m)),
    }
}

/// Chooses the pipeline for a job from its configuration.
pub fn plan_job(config: JobConfig) -> (r: JobPlan)
    ensures
        r == plan_of(config),
{
    match config {
        JobConfig::BwfExtraction { sample_rate } => {
            let rate: u32 = match sample_rate {
                Some(r) => (r % 0x1_0000_0000) as u32,
                None => 48000,
            };
            JobPlan::Bwf { sample_rate: rate }
        },
        JobConfig::Transcode(c) => JobPlan::Transcode(c),
        JobConfig::Unparsed(m) => JobPlan::Invalid(TranscodeError::InvalidConfig(m)),
    }
}

/// The event that reports queue counts.
pub fn queue_updated(stats: &QueueStats) -> (r: ProgressEvent)
    ensures
        r == (ProgressEvent::QueueUpdated {
            pending_count: stats.pending_count,
            running_count: stats.running_count,
            completed_count: stats.completed_count,
        }),
{
    ProgressEvent::QueueUpdated {
        pending_count: stats.pending_count,
        running_count: stats.running_count,
        completed_count: stats.completed_count,
    }
}

/// One worker's run of one job: it moves the job along its lifecycle and
/// yields the events to publish, in an order that subscribers can rely on.
pub struct JobSession {
    job_id: JobId,
    started: bool,
    over: bool,
    last_progress: u32,
    emitted: Ghost<Seq<ProgressEvent>>,
}

impl JobSession {
    /// The events yielded so far.
    pub closed spec fn events(&self) -> Seq<ProgressEvent> {
        self.emitted@
    }

    pub closed spec fn job(&self) -> JobId {
        self.job_id
    }

    pub closed spec fn is_started(&self) -> bool {
        self.started
    }

    pub closed spec fn is_over(&self) -> bool {
        self.over
    }

    /// The session's events so far form a prefix of a well-ordered run.
    pub closed spec fn wf(&self) -> bool {
        &&& (!self.started ==> !self.over && self.emitted@.len() == 0)
        &&& (self.started ==> run_events(self.emitted@, self.job_id, self.over))
        &&& (self.started && !self.over && self.emitted@.len() > 1 ==> progress_value(self.emitted@.last()) == self.last_progress)
        &&& (self.started && !self.over && self.emitted@.len() == 1 ==> self.last_progress == 0)
    }

    /// A session for job `job_id`, before anything happened.
    pub fn new(job_id: JobId) -> (r: JobSession)
        ensures
            r.wf(),
            r.job() == job_id,
            !r.is_started(),
            r.events().len() == 0,
    {
        JobSession { job_id, started: false, over: false, last_progress: 0, emitted: Ghost(Seq::empty()) }
    }

    /// Starts a pending job: it becomes Running and `JobStarted` is
    /// yielded. A job that is no longer pending (cancelled meanwhile) is not
    /// started and nothing is yielded.
    pub fn begin(&mut self, job: &mut Job) -> (r: Option<ProgressEvent>)
        requires
            old(self).wf(),
            !old(self).is_started(),
            old(job).id == old(self).job(),
        ensures
            final(self).wf(),
            final(self).job() == old(self).job(),
            old(job).status == JobStatus::Pending <==> r is Some,
            r is None ==> *final(job) == *old(job) && *final(self) == *old(self),
            r matches Some(e) ==> {
                &&& e == (ProgressEvent::JobStarted { job_id: old(job).id, input_path: old(job).input_path, output_path: old(job).output_path })
                &&& final(self).is_started() && !final(self).is_over()
                &&& final(self).events() == old(self).events().push(e)
                &&& status_edge(old(job).status, final(job).status)
                &&& final(job).status == JobStatus::Running
                &&& final(job).id == old(job).id
            },
    {
        if job.status != JobStatus::Pending {
            return None;
        }
        job.start();
        let e = ProgressEvent::JobStarted {
            job_id: job.id,
            input_path: job.input_path.clone(),
            output_path: job.output_path.clone(),
        };
        self.started = true;
        self.last_progress = 0;
        proof {
            self.emitted@ = self.emitted@.push(e);
            assert(self.emitted@.subrange(1, self.emitted@.len() as int) =~= Seq::<ProgressEvent>::empty());
        }
        Some(e)
    }
    /// Reports encoder progress (hundredths of a percent, capped at 100%)
    /// for the running job. The progress yielded never goes down: a report
    /// below the last one repeats the last one.
    pub fn progress(&mut self, job: &mut Job, percent: u32, fps: Option<u64>) -> (r: ProgressEvent)
        requires
            old(self).wf(),
            old(self).is_started(),
            !old(self).is_over(),
            old(job).status == JobStatus::Running,
            old(job).id == old(self).job(),
        ensures
            final(self).wf(),
            final(self).job() == old(self).job(),
            final(self).is_started() && !final(self).is_over(),
            final(self).events() == old(self).events().push(r),
            r matches ProgressEvent::JobProgress { job_id, progress, fps: f, eta_seconds } && job_id == old(self).job()
                && f == fps && eta_seconds is None
                && progress >= (if percent > FULL_PROGRESS { FULL_PROGRESS } else { percent })
                && (progress == (if percent > FULL_PROGRESS { FULL_PROGRESS } else { percent })
                    || (old(self).events().len() > 1 && progress == progress_value(old(self).events().last()))),
            final(job).status == JobStatus::Running,
            final(job).id == old(job).id,
    {
        let capped = if percent > FULL_PROGRESS { FULL_PROGRESS } else { percent };
        let p = if capped < self.last_progress { self.last_progress } else { capped };
        job.update_progress(p);
        let e = ProgressEvent::JobProgress { job_id: self.job_id, progress: p, fps, eta_seconds: None };
        proof {
            let old_evs = self.emitted@;
            let evs = old_evs.push(e);
            let mid_old = old_evs.subrange(1, old_evs.len() as int);
            let mid = evs.subrange(1, evs.len() as int);
            assert(mid =~= mid_old.push(e));
            assert forall|i: int, j: int| 0 <= i < j < mid.len() implies progress_value(#[trigger] mid[i]) <= progress_value(#[trigger] mid[j]) by {
                if j == mid.len() - 1 && i < j {
                    if mid_old.len() > 0 {
                        assert(mid_old[mid_old.len() - 1] == old_evs.last());
                        assert(progress_value(mid_old[i]) <= progress_value(mid_old[mid_old.len() - 1]));
                    }
                } else {
                    assert(mid[i] == mid_old[i]);
                    assert(mid[j] == mid_old[j]);
                }
            }
            assert forall|i: int| 0 <= i < mid.len() implies is_progress_for(#[trigger] mid[i], self.job_id) by {
                if i < mid_old.len() {
                    assert(mid[i] == mid_old[i]);
                }
            }
            self.emitted@ = evs;
        }
        self.last_progress = p;
        e
    }

    /// Ends the run with the job's outcome: Completed with the elapsed
    /// seconds, or Failed with the error's text.
    pub fn finish(&mut self, job: &mut Job, outcome: Result<(), TranscodeError>, elapsed_seconds: u64) -> (r: ProgressEvent)
        requires
            old(self).wf(),
            old(self).is_started(),
            !old(self).is_over(),
            old(job).status == JobStatus::Running,
            old(job).id == old(self).job(),
        ensures
            final(self).wf(),
            final(self).job() == old(self).job(),
            final(self).is_started() && final(self).is_over(),
            final(self).events() == old(self).events().push(r),
            status_edge(old(job).status, final(job).status),
            final(job).id == old(job).id,
            outcome is Ok ==> final(job).status == JobStatus::Completed && final(job).progress == FULL_PROGRESS
                && r == (ProgressEvent::JobCompleted { job_id: old(job).id, duration_seconds: elapsed_seconds }),
            outcome matches Err(e) ==> final(job).status == JobStatus::Failed
                && (final(job).error_message matches Some(m) && m@ == error_text(e))
                && (r matches ProgressEvent::JobFailed { job_id, error } && job_id == old(job).id && error@ == error_text(e)),
    {
        let e = match outcome {
            Ok(()) => {
                job.complete();
                ProgressEvent::JobCompleted { job_id: self.job_id, duration_seconds: elapsed_seconds }
            },
            Err(err) => {
                let m = err.message();
                job.fail(m.clone());
                ProgressEvent::JobFailed { job_id: self.job_id, error: m }
            },
        };
        proof {
            let old_evs = self.emitted@;
            let evs = old_evs.push(e);
            assert(evs.subrange(1, evs.len() - 1) =~= old_evs.subrange(1, old_evs.len() as int));
            self.emitted@ = evs;
        }
        self.over = true;
        e
    }
}

/// A finished run's events, as every subscriber sees them: exactly one
/// `JobStarted` first, then progress events whose progress never goes
/// down, then exactly one terminal event last.
pub proof fn law_event_order(s: JobSession)
    requires
        s.wf(),
        s.is_over(),
    ensures
        s.events().len() >= 2,
        is_started_for(s.events()[0], s.job()),
        forall|i: int| 1 <= i < s.events().len() - 1 ==> is_progress_for(#[trigger] s.events()[i], s.job()),
        forall|i: int, j: int| 1 <= i < j < s.events().len() - 1 ==> progress_value(#[trigger] s.events()[i]) <= progress_value(#[trigger] s.events()[j]),
        is_terminal_for(s.events().last(), s.job()),
{
    let evs = s.events();
    let mid = evs.subrange(1, evs.len() - 1);
    assert forall|i: int| 1 <= i < evs.len() - 1 implies is_progress_for(#[trigger] evs[i], s.job()) by {
        assert(evs[i] == mid[i - 1]);
    }
    assert forall|i: int, j: int| 1 <= i < j < evs.len() - 1 implies progress_value(#[trigger] evs[i]) <= progress_value(#[trigger] evs[j]) by {
        assert(evs[i] == mid[i - 1]);
        assert(evs[j] == mid[j - 1]);
    }
}

} // verus!
