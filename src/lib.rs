//! Multi-job media transcoding orchestrator: job model, priority queue,
//! worker lifecycle, encoder argument building and progress parsing,
//! MXF rewrap planning and BWF timecode arithmetic.

pub mod text;
pub mod bwf;
pub mod platform;
pub mod config;
pub mod error;
pub mod job;
pub mod queue;
pub mod progress;
pub mod worker;
pub mod transcode;
pub mod mxf;
pub mod mxf_tools;
pub mod ale;
pub mod commands;
pub mod logger;
