//! Host platform differences: names, executable suffixes, path separators,
//! tool names and worker pool sizing.

use vstd::prelude::*;
use crate::text::{chars_of, push_char};

verus! {

#[derive(Debug, Clone, Copy, PartialEq, Eq, Structural)]
pub enum Platform {
    MacOS,
    Windows,
    Linux,
    Unknown,
}

impl Platform {
    /// Display name of the platform.
    pub fn name(&self) -> (r: &'static str)
        ensures
            r@ == platform_name(*self),
    {
        match self {
            Platform::MacOS => "macOS",
            Platform::Windows => "Windows",
            Platform::Linux => "Linux",
            Platform::Unknown => "Unknown",
        }
    }

    /// Suffix of executable files: `.exe` on Windows, empty elsewhere.
    pub fn exe_extension(&self) -> (r: &'static str)
        ensures
            r@ == (if *self == Platform::Windows { ".exe"@ } else { ""@ }),
    {
        match self {
            Platform::Windows => ".exe",
            _ => "",
        }
    }

    /// Path component separator: `\` on Windows, `/` elsewhere.
    pub fn path_separator(&self) -> (r: &'static str)
        ensures
            r@ == (if *self == Platform::Windows { "\\"@ } else { "/"@ }),
    {
        match self {
            Platform::Windows => "\\",
            _ => "/",
        }
    }
}

pub open spec fn platform_name(p: Platform) -> Seq<char> {
    match p {
        Platform::MacOS => "macOS"@,
        Platform::Windows => "Windows"@,
        Platform::Linux => "Linux"@,
        Platform::Unknown => "Unknown"@,
    }
}

/// A path written for `platform`: on Windows every `/` becomes `\`, elsewhere
/// the path is kept.
pub open spec fn normalized(path: Seq<char>, platform: Platform) -> Seq<char> {
    if platform == Platform::Windows {
        path.map_values(|c: char| if c == '/' { '\\' } else { c })
    } else {
        path
    }
}

/// Normalizes a path's separators for `platform`.
pub fn normalize_path(path: &str, platform: Platform) -> (r: String)
    ensures
        r@ == normalized(path@, platform),
{
    let v = chars_of(path);
    let mut r = String::new();
    let mut i: usize = 0;
    while i < v.len()
        invariant
            i <= v@.len(),
            v@ == path@,
            r@ == normalized(v@.subrange(0, i as int), platform),
        decreases v@.len() - i,
    {
        let c = v[i];
        let d = if platform == Platform::Windows && c == '/' { '\\' } else { c };
        push_char(&mut r, d);
        i = i + 1;
        assert(r@ =~= normalized(v@.subrange(0, i as int), platform));
    }
    assert(v@.subrange(0, i as int) =~= v@);
    r
}

/// Executable name of the encoder on `platform`.
pub fn ffmpeg_name(platform: Platform) -> (r: &'static str)
    ensures
        r@ == (if platform == Platform::Windows { "ffmpeg.exe"@ } else { "ffmpeg"@ }),
{
    if platform == Platform::Windows { "ffmpeg.exe" } else { "ffmpeg" }
}

/// Executable name of the probe tool on `platform`.
pub fn ffprobe_name(platform: Platform) -> (r: &'static str)
    ensures
        r@ == (if platform == Platform::Windows { "ffprobe.exe"@ } else { "ffprobe"@ }),
{
    if platform == Platform::Windows { "ffprobe.exe" } else { "ffprobe" }
}

/// Relies on `num_cpus::get_physical`: the number of physical cores, which
/// depends on the machine.
#[verifier::external_body]
pub fn cpu_count() -> (r: usize) {
    num_cpus::get_physical()
}

/// Default number of workers for a machine with `cpus` cores: one core is
/// left free, and there is always at least one worker.
pub fn default_worker_count(cpus: usize) -> (r: usize)
    ensures
        r == (if cpus <= 1 { 1 } else { cpus - 1 }),
{
    if cpus <= 1 { 1 } else { cpus - 1 }
}

} // verus!
