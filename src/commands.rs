//! Requests and status reports exchanged with a front end, and what the
//! library decides for them.

use vstd::prelude::*;
use vstd::string::*;
use crate::config::CodecPreset;
use crate::job::{Job, JobConfig, JobStatus, Priority};
use crate::mxf::MxfWrapping;
use crate::platform::default_worker_count;
use crate::progress::ProgressEvent;
use crate::text::owned;
use crate::worker::{PoolState, WorkerPool};

verus! {

/// Host facts shown to an operator.
#[derive(Debug, Clone)]
pub struct SystemInfo {
    pub platform: String,
    pub cpu_cores: usize,
    pub available_memory_mb: Option<u64>,
    pub ffmpeg_available: bool,
    pub ffmpeg_path: Option<String>,
}

impl SystemInfo {
    /// The report for a host; the encoder counts as available when its
    /// path was found.
    pub fn new(platform: String, cpu_cores: usize, available_memory_mb: Option<u64>, ffmpeg_path: Option<String>) -> (r: SystemInfo)
        ensures
            r.platform == platform,
            r.cpu_cores == cpu_cores,
            r.available_memory_mb == available_memory_mb,
            r.ffmpeg_available == ffmpeg_path is Some,
            r.ffmpeg_path == ffmpeg_path,
    {
        let ffmpeg_available = ffmpeg_path.is_some();
        SystemInfo { platform, cpu_cores, available_memory_mb, ffmpeg_available, ffmpeg_path }
    }
}

/// A request to queue a transcode with a catalog preset.
#[derive(Debug, Clone)]
pub struct AddJobRequest {
    pub input_path: String,
    pub output_path: String,
    pub preset_name: String,
    pub priority: Option<Priority>,
}

/// Builds the job that a request asks for: a transcode with the named
/// preset's configuration, at normal priority unless another is given. An
/// unknown preset is refused.
pub fn job_for_request(request: AddJobRequest) -> (r: Result<Job, String>)
    ensures
        r matches Ok(j) ==> {
            &&& j.input_path == request.input_path
            &&& j.output_path == request.output_path
            &&& j.status == JobStatus::Pending
            &&& j.priority == (match request.priority {
                Some(p) => p,
                None => Priority::Normal,
            })
            &&& j.config is Transcode
        },
        r matches Err(m) ==> m@ == "Unknown preset: "@ + request.preset_name@,
{
    match CodecPreset::find(request.preset_name.as_str()) {
        Some(p) => {
            let priority = match request.priority {
                Some(p) => p,
                None => Priority::Normal,
            };
            Ok(Job::new(request.input_path, request.output_path, JobConfig::Transcode(p.config), priority))
        },
        None => {
            let mut m = owned("Unknown preset: ");
            m.append(request.preset_name.as_str());
            Err(m)
        },
    }
}

/// What a front end shows about the worker pool.
#[derive(Debug, Clone, Copy, PartialEq, Eq, Structural)]
pub struct WorkerStatus {
    pub is_running: bool,
    pub active_workers: usize,
    pub total_workers: usize,
}

/// The status of a pool, if one was created, on a host with `cpus` cores.
pub fn worker_status(pool: Option<&WorkerPool>, cpus: usize) -> (r: WorkerStatus)
    ensures
        r.total_workers == (if cpus <= 1 { 1 } else { cpus - 1 }),
        pool matches Some(p) ==> r.is_running == (p@.1 == PoolState::Running) && r.active_workers == p@.2,
        pool is None ==> !r.is_running && r.active_workers == 0,
{
    let total_workers = default_worker_count(cpus);
    match pool {
        Some(p) => WorkerStatus { is_running: p.is_running(), active_workers: p.active_worker_count(), total_workers },
        None => WorkerStatus { is_running: false, active_workers: 0, total_workers },
    }
}

/// A request to rewrap one MXF file.
#[derive(Debug, Clone)]
pub struct MxfRewrapRequest {
    pub input_path: String,
    pub output_path: String,
    pub target_wrapping: MxfWrapping,
}

/// A request to rewrap several MXF files, as (input, output) pairs.
#[derive(Debug, Clone)]
pub struct BatchRewrapRequest {
    pub files: Vec<(String, String)>,
    pub target_wrapping: MxfWrapping,
}

/// The queue event that a batch rewrap reports while it works on file
/// `current` (counted from one) of `total`.
pub fn batch_progress_event(current: usize, total: usize) -> (r: ProgressEvent)
    requires
        1 <= current <= total,
    ensures
        r == (ProgressEvent::QueueUpdated {
            pending_count: (total - current) as usize,
            running_count: 1,
            completed_count: (current - 1) as usize,
        }),
{
    ProgressEvent::QueueUpdated { pending_count: total - current, running_count: 1, completed_count: current - 1 }
}

} // verus!
