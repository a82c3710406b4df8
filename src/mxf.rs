//! MXF rewrapping between clip-wrapped and frame-wrapped layouts: how the
//! current layout is read from the rewrap tool's report, and what a rewrap
//! runs.

use vstd::prelude::*;
use vstd::string::*;
use crate::error::TranscodeError;
use crate::text::{contains_str, contains_text, owned, views};
use crate::transcode::code_text;

verus! {

/// How essence is laid out in an MXF file.
#[derive(Debug, Clone, Copy, PartialEq, Eq, Structural)]
pub enum MxfWrapping {
    /// Contiguous essence, one chunk per track.
    ClipWrapped,
    /// Essence interleaved frame by frame.
    FrameWrapped,
}

impl MxfWrapping {
    /// Short name of the layout.
    pub fn as_str(&self) -> (r: &'static str)
        ensures
            r@ == (if *self == MxfWrapping::ClipWrapped { "clip"@ } else { "frame"@ }),
    {
        match self {
            MxfWrapping::ClipWrapped => "clip",
            MxfWrapping::FrameWrapped => "frame",
        }
    }
}

/// MXF operational patterns.
#[derive(Debug, Clone)]
pub enum MxfOperationalPattern {
    OPAtom,
    OP1a,
    OP1b,
    Unknown(String),
}

/// What is known about an MXF file.
#[derive(Debug, Clone)]
pub struct MxfMetadata {
    pub operational_pattern: MxfOperationalPattern,
    pub wrapping: MxfWrapping,
    pub material_package_uid: Option<String>,
    pub duration_frames: Option<u64>,
    pub edit_rate: Option<String>,
    pub video_codec: Option<String>,
    pub audio_codec: Option<String>,
}

/// The layout named in the rewrap tool's report: frame-wrapped when it says
/// so, clip-wrapped otherwise (also when it says neither).
pub open spec fn wrapping_in_report(info: Seq<char>) -> MxfWrapping {
    if contains_text(info, "frame-wrapped"@) || contains_text(info, "Frame Wrapped"@) {
        MxfWrapping::FrameWrapped
    } else {
        MxfWrapping::ClipWrapped
    }
}

/// Reads the layout from the rewrap tool's `--info` report.
pub fn wrapping_from_report(info: &str) -> (r: MxfWrapping)
    ensures
        r == wrapping_in_report(info@),
{
    if contains_str(info, "frame-wrapped") || contains_str(info, "Frame Wrapped") {
        MxfWrapping::FrameWrapped
    } else {
        MxfWrapping::ClipWrapped
    }
}

/// Whether the probe's JSON report calls for asking the rewrap tool: it
/// lists frame counts and the tool is there. Otherwise the layout is taken
/// to be clip-wrapped.
pub fn needs_tool_report(probe_json: &str, tool_available: bool) -> (r: bool)
    ensures
        r == (tool_available && contains_text(probe_json@, "\"nb_frames\""@)),
{
    tool_available && contains_str(probe_json, "\"nb_frames\"")
}

/// Arguments of the probe whose JSON report starts wrapping detection.
pub fn probe_format_args(input: &str) -> (r: Vec<String>)
    ensures
        views(r@) == seq!["-v"@, "quiet"@, "-print_format"@, "json"@, "-show_format"@, "-show_streams"@, input@],
{
    let r = vec![owned("-v"), owned("quiet"), owned("-print_format"), owned("json"), owned("-show_format"),
        owned("-show_streams"), owned(input)];
    assert(views(r@) =~= seq!["-v"@, "quiet"@, "-print_format"@, "json"@, "-show_format"@, "-show_streams"@, input@]);
    r
}

/// Arguments of the rewrap tool's report on `input`.
pub fn info_args(input: &str) -> (r: Vec<String>)
    ensures
        views(r@) == seq!["--info"@, input@],
{
    let r = vec![owned("--info"), owned(input)];
    assert(views(r@) =~= seq!["--info"@, input@]);
    r
}

/// The rewrap tool's arguments: OP1a output, the target layout, then output
/// and input.
pub open spec fn rewrap_args_spec(target: MxfWrapping, input: Seq<char>, output: Seq<char>) -> Seq<Seq<char>> {
    seq!["-t"@, "op1a"@] + (if target == MxfWrapping::FrameWrapped {
        seq!["--frame-layout"@, "separate"@]
    } else {
        seq!["--clip-wrap"@]
    }) + seq!["-o"@, output, input]
}

/// What a rewrap does: copy the file when it already has the target layout,
/// otherwise run the rewrap tool with these arguments.
#[derive(Debug, Clone)]
pub enum RewrapPlan {
    CopyFile,
    Run(Vec<String>),
}

/// Rewraps MXF files with the external rewrap tool found at
/// `bmxtranswrap_path`, when there is one.
pub struct MxfRewrapper {
    pub bmxtranswrap_path: Option<String>,
}

impl MxfRewrapper {
    /// A rewrapper for the tool at `bmxtranswrap_path`.
    pub fn new(bmxtranswrap_path: Option<String>) -> (r: MxfRewrapper)
        ensures
            r.bmxtranswrap_path == bmxtranswrap_path,
    {
        MxfRewrapper { bmxtranswrap_path }
    }

    /// Whether the rewrap tool was found.
    pub fn is_available(&self) -> (r: bool)
        ensures
            r == self.bmxtranswrap_path is Some,
    {
        self.bmxtranswrap_path.is_some()
    }

    /// Checks that a rewrap can begin: the tool is there, then the input
    /// exists.
    pub fn rewrap_preflight(&self, input: &str, input_exists: bool) -> (r: Result<(), TranscodeError>)
        ensures
            self.bmxtranswrap_path is None ==> (r matches Err(TranscodeError::Platform(m))
                && m@ == "bmxtranswrap not found - cannot rewrap MXF files"@),
            self.bmxtranswrap_path is Some && !input_exists ==> (r matches Err(TranscodeError::InvalidInput(m))
                && m@ == "Input file not found: \""@ + input@ + "\""@),
            r is Ok <==> self.bmxtranswrap_path is Some && input_exists,
    {
        if self.bmxtranswrap_path.is_none() {
            return Err(TranscodeError::Platform(owned("bmxtranswrap not found - cannot rewrap MXF files")));
        }
        if !input_exists {
            let mut m = owned("Input file not found: \"");
            m.append(input);
            m.append("\"");
            return Err(TranscodeError::InvalidInput(m));
        }
        Ok(())
    }
}

/// Plans a rewrap of `input` to `output` with layout `target`, given the
/// input's `current` layout.
pub fn plan_rewrap(current: MxfWrapping, target: MxfWrapping, input: &str, output: &str) -> (r: RewrapPlan)
    ensures
        current == target ==> r is CopyFile,
        current != target ==> (r matches RewrapPlan::Run(a) && views(a@) == rewrap_args_spec(target, input@, output@)),
{
    if current == target {
        return RewrapPlan::CopyFile;
    }
    let mut a: Vec<String> = vec![owned("-t"), owned("op1a")];
    match target {
        MxfWrapping::FrameWrapped => {
            a.push(owned("--frame-layout"));
            a.push(owned("separate"));
        },
        MxfWrapping::ClipWrapped => {
            a.push(owned("--clip-wrap"));
        },
    }
    a.push(owned("-o"));
    a.push(owned(output));
    a.push(owned(input));
    assert(views(a@) =~= rewrap_args_spec(target, input@, output@));
    RewrapPlan::Run(a)
}

/// The final progress of a rewrap (hundredths of a percent), or its error.
/// A copy always completes at 100%; a tool run completes at 100% when the
/// tool succeeded and left the output file.
pub fn rewrap_outcome(plan: &RewrapPlan, success: bool, code: Option<i32>, output_exists: bool) -> (r: Result<u32, TranscodeError>)
    ensures
        *plan is CopyFile ==> r == Ok::<u32, TranscodeError>(10000),
        *plan is Run && !success ==> (r matches Err(TranscodeError::Platform(m)) && m@ == "bmxtranswrap exited with code: "@ + code_text(code)),
        *plan is Run && success && !output_exists ==> (r matches Err(TranscodeError::Platform(m)) && m@ == "Output file was not created"@),
        *plan is Run ==> (r is Ok <==> success && output_exists),
        r matches Ok(p) ==> p == 10000,
{
    match plan {
        RewrapPlan::CopyFile => Ok(10000),
        RewrapPlan::Run(_) => {
            if !success {
                let mut m = owned("bmxtranswrap exited with code: ");
                crate::transcode::push_code(&mut m, code);
                return Err(TranscodeError::Platform(m));
            }
            if !output_exists {
                return Err(TranscodeError::Platform(owned("Output file was not created")));
            }
            Ok(10000)
        },
    }
}

} // verus!
