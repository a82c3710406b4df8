//! Progress events published while jobs run.

use vstd::prelude::*;
use crate::job::JobId;

verus! {

/// A typed progress event. `progress` is in hundredths of a percent and
/// `fps` in thousandths of a frame per second.
#[derive(Debug, Clone)]
pub enum ProgressEvent {
    JobStarted { job_id: JobId, input_path: String, output_path: String },
    JobProgress { job_id: JobId, progress: u32, fps: Option<u64>, eta_seconds: Option<u64> },
    JobCompleted { job_id: JobId, duration_seconds: u64 },
    JobFailed { job_id: JobId, error: String },
    JobCancelled { job_id: JobId },
    QueueUpdated { pending_count: usize, running_count: usize, completed_count: usize },
}

pub open spec fn is_started_for(e: ProgressEvent, id: JobId) -> bool {
    e matches ProgressEvent::JobStarted { job_id, .. } && job_id == id
}

pub open spec fn is_progress_for(e: ProgressEvent, id: JobId) -> bool {
    e matches ProgressEvent::JobProgress { job_id, .. } && job_id == id
}

pub open spec fn is_terminal_for(e: ProgressEvent, id: JobId) -> bool {
    ||| e matches ProgressEvent::JobCompleted { job_id, .. } && job_id == id
    ||| e matches ProgressEvent::JobFailed { job_id, .. } && job_id == id
    ||| e matches ProgressEvent::JobCancelled { job_id } && job_id == id
}

pub open spec fn progress_value(e: ProgressEvent) -> u32 {
    match e {
        ProgressEvent::JobProgress { progress, .. } => progress,
        _ => 0,
    }
}

/// Progress events of job `id` whose progress never goes down.
pub open spec fn rising_progress(evs: Seq<ProgressEvent>, id: JobId) -> bool {
    &&& forall|i: int| 0 <= i < evs.len() ==> is_progress_for(#[trigger] evs[i], id)
    &&& forall|i: int, j: int| 0 <= i < j < evs.len() ==> progress_value(#[trigger] evs[i]) <= progress_value(#[trigger] evs[j])
}

/// The events of one run of job `id`: one start, then progress that never
/// goes down, then, once the run is over, exactly one terminal event.
pub open spec fn run_events(evs: Seq<ProgressEvent>, id: JobId, over: bool) -> bool {
    &&& evs.len() >= 1
    &&& is_started_for(evs[0], id)
    &&& if over {
        &&& evs.len() >= 2
        &&& is_terminal_for(evs.last(), id)
        &&& rising_progress(evs.subrange(1, evs.len() - 1), id)
    } else {
        rising_progress(evs.subrange(1, evs.len() as int), id)
    }
}

} // verus!
