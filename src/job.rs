//! The job model: identity, lifecycle status, priority and progress.

use vstd::prelude::*;
use crate::config::TranscodeConfig;
use crate::text::digit_char;

verus! {

/// A job's 128-bit identifier.
pub type JobId = u128;

#[derive(Debug, Clone, Copy, PartialEq, Eq, Structural)]
pub enum JobStatus {
    Pending,
    Running,
    Completed,
    Failed,
    Cancelled,
}

/// Priority levels, ordered Low < Normal < High < Urgent.
#[derive(Debug, Clone, Copy, PartialEq, Eq, Structural)]
pub enum Priority {
    Low,
    Normal,
    High,
    Urgent,
}

pub open spec fn rank(p: Priority) -> nat {
    match p {
        Priority::Low => 0,
        Priority::Normal => 1,
        Priority::High => 2,
        Priority::Urgent => 3,
    }
}

impl Priority {
    /// Position of this priority in the order Low < Normal < High < Urgent.
    pub fn level(&self) -> (r: u8)
        ensures
            r as nat == rank(*self),
    {
        match self {
            Priority::Low => 0,
            Priority::Normal => 1,
            Priority::High => 2,
            Priority::Urgent => 3,
        }
    }
}

/// What a job asks a worker to do: a transcode with a parsed configuration,
/// a BWF extraction at an optional sample rate, or nothing runnable because
/// its configuration did not parse (the text says why).
#[derive(Debug, Clone)]
pub enum JobConfig {
    Transcode(TranscodeConfig),
    BwfExtraction { sample_rate: Option<u64> },
    Unparsed(String),
}

/// A unit of work. Timestamps are milliseconds since the Unix epoch;
/// `progress` is in hundredths of a percent (10000 is 100%).
#[derive(Debug, Clone)]
pub struct Job {
    pub id: JobId,
    pub input_path: String,
    pub output_path: String,
    pub status: JobStatus,
    pub priority: Priority,
    pub progress: u32,
    pub error_message: Option<String>,
    pub created_at: i64,
    pub started_at: Option<i64>,
    pub completed_at: Option<i64>,
    pub config: JobConfig,
}

/// Progress value of a finished transcode: 100%.
pub const FULL_PROGRESS: u32 = 10000;

/// The allowed status transitions: Pending to Running or Cancelled, Running
/// to Completed, Failed or Cancelled.
pub open spec fn status_edge(a: JobStatus, b: JobStatus) -> bool {
    ||| a == JobStatus::Pending && (b == JobStatus::Running || b == JobStatus::Cancelled)
    ||| a == JobStatus::Running && (b == JobStatus::Completed || b == JobStatus::Failed || b == JobStatus::Cancelled)
}

pub open spec fn finished(s: JobStatus) -> bool {
    s == JobStatus::Completed || s == JobStatus::Failed || s == JobStatus::Cancelled
}

pub open spec fn active(s: JobStatus) -> bool {
    s == JobStatus::Pending || s == JobStatus::Running
}

/// A job whose fields agree with its status: an error message exactly when
/// failed, progress at most 100% and exactly 100% when completed, and a
/// start no later than the end.
pub open spec fn job_wf(j: Job) -> bool {
    &&& (j.error_message is Some <==> j.status == JobStatus::Failed)
    &&& j.progress <= FULL_PROGRESS
    &&& (j.status == JobStatus::Completed ==> j.progress == FULL_PROGRESS)
    &&& (j.started_at is Some && j.completed_at is Some ==> j.started_at->0 <= j.completed_at->0)
}

/// Relies on `uuid::Uuid::new_v4`: a random identifier.
#[verifier::external_body]
pub fn new_job_id() -> (r: JobId) {
    uuid::Uuid::new_v4().as_u128()
}

/// Relies on `chrono::Utc::now`: the current time in milliseconds, which
/// depends on the clock.
#[verifier::external_body]
pub fn now_millis() -> (r: i64) {
    chrono::Utc::now().timestamp_millis()
}

pub open spec fn hex_digit(d: nat) -> char {
    if d < 10 { digit_char(d) } else { ((d - 10 + 97) as u8) as char }
}

/// The last `len` hexadecimal digits of `n`, most significant first.
pub open spec fn hex_text(n: nat, len: nat) -> Seq<char>
    decreases len,
{
    if len == 0 {
        Seq::empty()
    } else {
        hex_text(n / 16, (len - 1) as nat).push(hex_digit(n % 16))
    }
}

/// An identifier written as 32 lower-case hexadecimal digits in groups of
/// 8, 4, 4, 4 and 12, joined by `-`.
pub open spec fn id_text(id: JobId) -> Seq<char> {
    let h = hex_text(id as nat, 32);
    h.subrange(0, 8) + seq!['-'] + h.subrange(8, 12) + seq!['-'] + h.subrange(12, 16) + seq!['-']
        + h.subrange(16, 20) + seq!['-'] + h.subrange(20, 32)
}

/// Relies on `uuid::Uuid::from_u128` (big-endian) and the `Display` of
/// `uuid::Uuid`, which writes the hyphenated lower-case form.
#[verifier::external_body]
pub fn id_string(id: JobId) -> (r: String)
    ensures
        r@ == id_text(id),
{
    uuid::Uuid::from_u128(id).to_string()
}

/// `d / q` rounded toward zero.
pub open spec fn trunc_div(d: int, q: int) -> int {
    if d >= 0 { d / q } else { -((-d) / q) }
}

impl Job {
    /// A pending job with a fresh identifier, created now.
    pub fn new(input_path: String, output_path: String, config: JobConfig, priority: Priority) -> (r: Job)
        ensures
            r.input_path == input_path,
            r.output_path == output_path,
            r.config == config,
            r.priority == priority,
            r.status == JobStatus::Pending,
            r.progress == 0,
            r.error_message is None,
            r.started_at is None,
            r.completed_at is None,
            job_wf(r),
    {
        let id = new_job_id();
        let created_at = now_millis();
        Job {
            id,
            input_path,
            output_path,
            status: JobStatus::Pending,
            priority,
            progress: 0,
            error_message: None,
            created_at,
            started_at: None,
            completed_at: None,
            config,
        }
    }

    /// The instant a job that started at `started` ends, when the clock
    /// reads `now`: never before the start.
    fn end_time(started: Option<i64>, now: i64) -> (r: i64)
        ensures
            started matches Some(s) ==> s <= r,
            started is None ==> r == now,
    {
        match started {
            Some(s) => if now < s { s } else { now },
            None => now,
        }
    }

    /// Pending to Running: records the start time and resets progress.
    pub fn start(&mut self)
        requires
            old(self).status == JobStatus::Pending,
        ensures
            status_edge(old(self).status, final(self).status),
            final(self).status == JobStatus::Running,
            final(self).started_at is Some,
            final(self).progress == 0,
            final(self).completed_at == old(self).completed_at,
            final(self).error_message == old(self).error_message,
            final(self).id == old(self).id,
            final(self).input_path == old(self).input_path,
            final(self).output_path == old(self).output_path,
            final(self).priority == old(self).priority,
            final(self).created_at == old(self).created_at,
            final(self).config == old(self).config,
            job_wf(*old(self)) && old(self).completed_at is None ==> job_wf(*final(self)),
    {
        self.status = JobStatus::Running;
        self.started_at = Some(now_millis());
        self.progress = 0;
    }

    /// Raises progress (hundredths of a percent, capped at 100%) while
    /// running; progress never goes down.
    pub fn update_progress(&mut self, progress: u32)
        requires
            old(self).status == JobStatus::Running,
        ensures
            final(self).progress >= old(self).progress,
            final(self).progress == (if old(self).progress >= (if progress > FULL_PROGRESS { FULL_PROGRESS } else { progress }) { old(self).progress } else { if progress > FULL_PROGRESS { FULL_PROGRESS } else { progress } }),
            *final(self) == (Job { progress: final(self).progress, ..*old(self) }),
            job_wf(*old(self)) ==> job_wf(*final(self)),
    {
        let capped = if progress > FULL_PROGRESS { FULL_PROGRESS } else { progress };
        if capped > self.progress {
            self.progress = capped;
        }
    }

    /// Running to Completed: progress becomes 100%.
    pub fn complete(&mut self)
        requires
            old(self).status == JobStatus::Running,
        ensures
            status_edge(old(self).status, final(self).status),
            final(self).status == JobStatus::Completed,
            final(self).progress == FULL_PROGRESS,
            final(self).completed_at is Some,
            *final(self) == (Job { status: JobStatus::Completed, progress: FULL_PROGRESS, completed_at: final(self).completed_at, ..*old(self) }),
            job_wf(*old(self)) ==> job_wf(*final(self)),
    {
        let end = Self::end_time(self.started_at, now_millis());
        self.status = JobStatus::Completed;
        self.completed_at = Some(end);
        self.progress = FULL_PROGRESS;
    }

    /// Running to Failed, with the error message.
    pub fn fail(&mut self, error: String)
        requires
            old(self).status == JobStatus::Running,
        ensures
            status_edge(old(self).status, final(self).status),
            final(self).status == JobStatus::Failed,
            final(self).error_message == Some(error),
            final(self).completed_at is Some,
            *final(self) == (Job { status: JobStatus::Failed, error_message: Some(error), completed_at: final(self).completed_at, ..*old(self) }),
            job_wf(*old(self)) ==> job_wf(*final(self)),
    {
        let end = Self::end_time(self.started_at, now_millis());
        self.status = JobStatus::Failed;
        self.completed_at = Some(end);
        self.error_message = Some(error);
    }

    /// Pending or Running to Cancelled.
    pub fn cancel(&mut self)
        requires
            active(old(self).status),
        ensures
            status_edge(old(self).status, final(self).status),
            final(self).status == JobStatus::Cancelled,
            final(self).completed_at is Some,
            *final(self) == (Job { status: JobStatus::Cancelled, completed_at: final(self).completed_at, ..*old(self) }),
            job_wf(*old(self)) && old(self).status == JobStatus::Running ==> job_wf(*final(self)),
    {
        let end = Self::end_time(self.started_at, now_millis());
        self.status = JobStatus::Cancelled;
        self.completed_at = Some(end);
    }

    /// Whole seconds between start and end, rounded toward zero, when both
    /// are known.
    pub fn duration_seconds(&self) -> (r: Option<i64>)
        ensures
            r == (match (self.started_at, self.completed_at) {
                (Some(s), Some(c)) => Some(trunc_div(c - s, 1000) as i64),
                _ => None::<i64>,
            }),
    {
        match (self.started_at, self.completed_at) {
            (Some(s), Some(c)) => {
                let d: i128 = c as i128 - s as i128;
                let q: i128 = if d >= 0 { d / 1000 } else { -((-d) / 1000) };
                Some(q as i64)
            },
            _ => None,
        }
    }

    /// Completed, failed or cancelled.
    pub fn is_finished(&self) -> (r: bool)
        ensures
            r == finished(self.status),
    {
        match self.status {
            JobStatus::Completed | JobStatus::Failed | JobStatus::Cancelled => true,
            _ => false,
        }
    }

    /// Pending or running.
    pub fn is_active(&self) -> (r: bool)
        ensures
            r == active(self.status),
    {
        match self.status {
            JobStatus::Pending | JobStatus::Running => true,
            _ => false,
        }
    }
}

} // verus!
