//! Job history logs: where they are written and what each entry records
//! about the host.

use vstd::prelude::*;
use vstd::string::*;
use crate::platform::{cpu_count, platform_name, Platform};
use crate::text::owned;

verus! {

/// The host as it was when a job was logged.
#[derive(Debug, Clone)]
pub struct SystemSnapshot {
    pub platform: String,
    pub cpu_cores: usize,
    pub available_memory_mb: Option<u64>,
    pub ffmpeg_version: Option<String>,
}

impl SystemSnapshot {
    /// A snapshot of a host on `platform`, with the memory and encoder
    /// version found there; the core count is read now.
    pub fn capture(platform: Platform, available_memory_mb: Option<u64>, ffmpeg_version: Option<String>) -> (r: SystemSnapshot)
        ensures
            r.platform@ == platform_name(platform),
            r.available_memory_mb == available_memory_mb,
            r.ffmpeg_version == ffmpeg_version,
    {
        SystemSnapshot {
            platform: owned(platform.name()),
            cpu_cores: cpu_count(),
            available_memory_mb,
            ffmpeg_version,
        }
    }
}

/// Writes job logs into `log_dir`, one text file and one JSON file per day.
#[derive(Debug, Clone)]
pub struct JobLogger {
    pub log_dir: String,
}

/// Relies on `home::home_dir`: the user's home directory, which depends on
/// the environment.
#[verifier::external_body]
fn home_directory() -> (r: Option<String>) {
    home::home_dir().map(|p| p.to_string_lossy().into_owned())
}

/// The log directory under a home directory, or a relative one without.
pub open spec fn log_dir_under(home: Option<Seq<char>>) -> Seq<char> {
    match home {
        Some(h) => h + "/.industrial-transcoder/logs"@,
        None => "transcoder_logs"@,
    }
}

impl JobLogger {
    /// A logger writing into `log_dir`.
    pub fn new(log_dir: String) -> (r: JobLogger)
        ensures
            r.log_dir == log_dir,
    {
        JobLogger { log_dir }
    }

    /// The log directory for a user whose home directory is `home`.
    pub fn log_dir_for(home: Option<String>) -> (r: String)
        ensures
            r@ == log_dir_under(match home {
                Some(h) => Some(h@),
                None => None::<Seq<char>>,
            }),
    {
        match home {
            Some(h) => {
                let mut d = h;
                d.append("/.industrial-transcoder/logs");
                d
            },
            None => owned("transcoder_logs"),
        }
    }

    /// The default log directory: under the user's home when there is one.
    pub fn default_log_dir() -> (r: String)
        ensures
            r@ == log_dir_under(None) || exists|h: Seq<char>| r@ == log_dir_under(Some(h)),
    {
        let home = home_directory();
        let r = Self::log_dir_for(home);
        proof {
            if home is Some {
                assert(r@ == log_dir_under(Some(home->0@)));
            }
        }
        r
    }

    /// Name of the text log of a day written YYYY-MM-DD.
    pub fn text_log_name(date: &str) -> (r: String)
        ensures
            r@ == date@ + "_transcoder_log.txt"@,
    {
        let mut n = owned(date);
        n.append("_transcoder_log.txt");
        n
    }

    /// Name of the JSON log of a day written YYYY-MM-DD.
    pub fn json_log_name(date: &str) -> (r: String)
        ensures
            r@ == date@ + "_transcoder_log.json"@,
    {
        let mut n = owned(date);
        n.append("_transcoder_log.json");
        n
    }
}

} // verus!
