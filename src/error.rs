//! The error taxonomy shared by every component.

use vstd::prelude::*;
use vstd::string::*;
use crate::text::owned;

verus! {

/// Categorized failures. Variants that carry text hold a human-readable
/// detail; `Io` and `Serialization` hold the underlying error's message.
#[derive(Debug, Clone)]
pub enum TranscodeError {
    Io(String),
    FfmpegNotFound,
    FfmpegFailed(String),
    InvalidInput(String),
    InvalidOutput(String),
    JobNotFound(String),
    JobAlreadyExists(String),
    InvalidConfig(String),
    WorkerPoolError(String),
    Serialization(String),
    Platform(String),
    Cancelled,
    Unknown(String),
}

pub type TranscodeResult<T> = Result<T, TranscodeError>;

/// The text shown for an error: a category prefix, then the detail.
pub open spec fn error_text(e: TranscodeError) -> Seq<char> {
    match e {
        TranscodeError::Io(m) => "IO error: "@ + m@,
        TranscodeError::FfmpegNotFound => "FFmpeg not found in system PATH"@,
        TranscodeError::FfmpegFailed(m) => "FFmpeg execution failed: "@ + m@,
        TranscodeError::InvalidInput(m) => "Invalid input file: "@ + m@,
        TranscodeError::InvalidOutput(m) => "Invalid output path: "@ + m@,
        TranscodeError::JobNotFound(m) => "Job not found: "@ + m@,
        TranscodeError::JobAlreadyExists(m) => "Job already exists: "@ + m@,
        TranscodeError::InvalidConfig(m) => "Invalid configuration: "@ + m@,
        TranscodeError::WorkerPoolError(m) => "Worker pool error: "@ + m@,
        TranscodeError::Serialization(m) => "Serialization error: "@ + m@,
        TranscodeError::Platform(m) => "Platform error: "@ + m@,
        TranscodeError::Cancelled => "Job cancelled"@,
        TranscodeError::Unknown(m) => "Unknown error: "@ + m@,
    }
}

fn prefixed(prefix: &str, m: &String) -> (r: String)
    ensures
        r@ == prefix@ + m@,
{
    let mut r = owned(prefix);
    r.append(m.as_str());
    r
}

impl TranscodeError {
    /// The text shown for this error.
    pub fn message(&self) -> (r: String)
        ensures
            r@ == error_text(*self),
    {
        match self {
            TranscodeError::Io(m) => prefixed("IO error: ", m),
            TranscodeError::FfmpegNotFound => owned("FFmpeg not found in system PATH"),
            TranscodeError::FfmpegFailed(m) => prefixed("FFmpeg execution failed: ", m),
            TranscodeError::InvalidInput(m) => prefixed("Invalid input file: ", m),
            TranscodeError::InvalidOutput(m) => prefixed("Invalid output path: ", m),
            TranscodeError::JobNotFound(m) => prefixed("Job not found: ", m),
            TranscodeError::JobAlreadyExists(m) => prefixed("Job already exists: ", m),
            TranscodeError::InvalidConfig(m) => prefixed("Invalid configuration: ", m),
            TranscodeError::WorkerPoolError(m) => prefixed("Worker pool error: ", m),
            TranscodeError::Serialization(m) => prefixed("Serialization error: ", m),
            TranscodeError::Platform(m) => prefixed("Platform error: ", m),
            TranscodeError::Cancelled => owned("Job cancelled"),
            TranscodeError::Unknown(m) => prefixed("Unknown error: ", m),
        }
    }
}

} // verus!
