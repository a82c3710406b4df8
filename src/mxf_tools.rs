//! MOB identifier handling for Avid-family MXF files: reading the package
//! identifiers that `mxf2raw` reports, choosing a common identifier, and
//! checking that files belong together.

use vstd::prelude::*;
use vstd::string::*;
use crate::platform::Platform;
use crate::text::{
    chars_of, contains_str, contains_text, owned, parse_unsigned, parse_unsigned_spec, remove_chars,
    split_by, split_chars, trim, trimmed, views, without, decimal, push_decimal,
};

verus! {

/// Package identifiers and timing of an MXF file.
#[derive(Debug, Clone)]
pub struct MxfMetadata {
    pub material_package_uid: String,
    pub file_package_uid: Option<String>,
    pub physical_source_package_uid: Option<String>,
    pub timecode: Option<String>,
    pub duration: Option<u64>,
    pub tracks: Vec<MxfTrack>,
}

/// A track of an MXF file; `track_type` is "video", "audio" or "data".
#[derive(Debug, Clone)]
pub struct MxfTrack {
    pub track_id: u32,
    pub track_type: String,
    pub codec: Option<String>,
}

/// A request to give several MXF files one material package identifier.
#[derive(Debug, Clone)]
pub struct UnifyMobIdOptions {
    pub input_files: Vec<String>,
    pub target_mob_id: Option<String>,
    pub reference_file: Option<String>,
    pub output_dir: String,
    /// Output flavour of the rewrap tool: "avid", "op1a", ...
    pub output_type: String,
}

/// The path of a bundled MXF tool under `base_dir`:
/// `<base>/<tool>/<tool>`, with `.exe` on Windows.
pub open spec fn tool_path(base_dir: Seq<char>, tool: Seq<char>, platform: Platform) -> Seq<char> {
    let sep = if platform == Platform::Windows { seq!['\\'] } else { seq!['/'] };
    base_dir + sep + tool + sep + tool + (if platform == Platform::Windows { ".exe"@ } else { Seq::empty() })
}

pub open spec fn known_tool(tool: Seq<char>) -> bool {
    tool == "mxf2raw"@ || tool == "bmxtranswrap"@ || tool == "raw2bmx"@
}

/// Where the bundled MXF tool `tool_name` lives under `base_dir`; only
/// `mxf2raw`, `bmxtranswrap` and `raw2bmx` are known.
pub fn get_mxf_tool_path(base_dir: &str, tool_name: &str, platform: Platform) -> (r: Result<String, String>)
    ensures
        known_tool(tool_name@) <==> r is Ok,
        r matches Ok(p) ==> p@ == tool_path(base_dir@, tool_name@, platform),
        r matches Err(m) ==> m@ == "Unknown tool: "@ + tool_name@,
{
    let t = owned(tool_name);
    let known = t == owned("mxf2raw") || t == owned("bmxtranswrap") || t == owned("raw2bmx");
    if !known {
        let mut m = owned("Unknown tool: ");
        m.append(tool_name);
        return Err(m);
    }
    let sep = if platform == Platform::Windows { '\\' } else { '/' };
    let mut p = owned(base_dir);
    crate::text::push_char(&mut p, sep);
    p.append(tool_name);
    crate::text::push_char(&mut p, sep);
    p.append(tool_name);
    if platform == Platform::Windows {
        p.append(".exe");
    }
    assert(p@ =~= tool_path(base_dir@, tool_name@, platform));
    Ok(p)
}

/// A MOB identifier as written without `.` and `-` separators.
pub fn normalize_mob_id(id: &str) -> (r: String)
    ensures
        r@ == without(id@, '.', '-'),
{
    remove_chars(id, '.', '-')
}

/// Message for a MOB identifier of the wrong length.
pub open spec fn mob_length_error(len: nat) -> Seq<char> {
    "Invalid MOB ID length: expected 64 hex chars, got "@ + decimal(len)
}

/// Accepts a MOB identifier of exactly 64 characters.
pub fn check_mob_id_length(id: &str) -> (r: Result<(), String>)
    ensures
        r is Ok <==> id@.len() == 64,
        r matches Err(m) ==> m@ == mob_length_error(id@.len()),
{
    let n = chars_of(id).len();
    if n != 64 {
        let mut m = owned("Invalid MOB ID length: expected 64 hex chars, got ");
        push_decimal(&mut m, n as u64);
        return Err(m);
    }
    Ok(())
}

pub open spec fn checked_target(t: Seq<char>) -> Result<Seq<char>, Seq<char>> {
    if t.len() == 64 { Ok(t) } else { Err(mob_length_error(t.len())) }
}

/// The target identifier of a unification, or why there is none.
pub open spec fn unify_target(n_inputs: nat, requested: Option<String>, extracted: Option<String>) -> Result<Seq<char>, Seq<char>> {
    if n_inputs == 0 {
        Err("No input files provided"@)
    } else {
        match requested {
            Some(t) => checked_target(without(t@, '.', '-')),
            None => match extracted {
                Some(u) => checked_target(u@),
                None => Err("Could not extract Material Package UID from file"@),
            },
        }
    }
}

pub open spec fn text_result(r: Result<String, String>) -> Result<Seq<char>, Seq<char>> {
    match r {
        Ok(s) => Ok(s@),
        Err(e) => Err(e@),
    }
}

/// The target of a unification: the requested identifier without
/// separators when there is one, otherwise `extracted_uid` (read from the
/// reference file, or else the first input). A request without inputs is
/// refused, and so is a target that is not 64 characters long.
pub fn choose_target_mob_id(options: &UnifyMobIdOptions, extracted_uid: Option<String>) -> (r: Result<String, String>)
    ensures
        text_result(r) == unify_target(options.input_files@.len(), options.target_mob_id, extracted_uid),
{
    if options.input_files.len() == 0 {
        return Err(owned("No input files provided"));
    }
    let target = match &options.target_mob_id {
        Some(t) => normalize_mob_id(t.as_str()),
        None => match extracted_uid {
            Some(u) => u,
            None => return Err(owned("Could not extract Material Package UID from file")),
        },
    };
    check_mob_id_length(target.as_str())?;
    Ok(target)
}

/// The file that unification leaves for the input with stem `stem`: the
/// rewrap tool names Avid output with a `_v0` track suffix; a file that
/// already had the target identifier is copied under the plain name.
pub open spec fn unified_name(stem: Seq<char>, output_type: Seq<char>, copied: bool) -> Seq<char> {
    if !copied && output_type == "avid"@ {
        stem + "_unified_v0.mxf"@
    } else {
        stem + "_unified.mxf"@
    }
}

/// Name of the unified file for the input with stem `stem`.
pub fn unified_file_name(stem: &str, output_type: &str, copied: bool) -> (r: String)
    ensures
        r@ == unified_name(stem@, output_type@, copied),
{
    let mut n = owned(stem);
    if !copied && owned(output_type) == owned("avid") {
        n.append("_unified_v0.mxf");
    } else {
        n.append("_unified.mxf");
    }
    n
}

/// Prefix of the rewrap tool's output for the input with stem `stem`.
pub fn unified_prefix(stem: &str) -> (r: String)
    ensures
        r@ == stem@ + "_unified"@,
{
    let mut n = owned(stem);
    n.append("_unified");
    n
}

/// Whether files share one material package identifier, given the
/// identifier read from each file in order. Reading stops at the first
/// failure or the first mismatch, as the files are read one at a time; no
/// files belong together trivially.
pub open spec fn consistency(ids: Seq<Result<String, String>>, first: Seq<char>, i: int) -> Result<bool, String>
    decreases ids.len() - i,
{
    if i < 0 || i >= ids.len() {
        Ok(true)
    } else {
        match ids[i] {
            Err(e) => Err(e),
            Ok(u) => if u@ != first { Ok(false) } else { consistency(ids, first, i + 1) },
        }
    }
}

pub open spec fn consistency_of(ids: Seq<Result<String, String>>) -> Result<bool, String> {
    if ids.len() == 0 {
        Ok(true)
    } else {
        match ids[0] {
            Err(e) => Err(e),
            Ok(u) => consistency(ids, u@, 1),
        }
    }
}

/// Checks that MXF files belong together, from the material package
/// identifier read from each (or the error reading it).
pub fn check_mob_id_consistency(ids: &Vec<Result<String, String>>) -> (r: Result<bool, String>)
    ensures
        r == consistency_of(ids@),
{
    if ids.len() == 0 {
        return Ok(true);
    }
    let first = match &ids[0] {
        Ok(u) => u.clone(),
        Err(e) => return Err(e.clone()),
    };
    let mut i: usize = 1;
    while i < ids.len()
        invariant
            1 <= i <= ids@.len(),
            ids@[0] matches Ok(u) && u@ == first@,
            consistency(ids@, first@, i as int) == consistency(ids@, first@, 1),
        decreases ids@.len() - i,
    {
        match &ids[i] {
            Err(e) => return Err(e.clone()),
            Ok(u) => {
                if !(*u == first) {
                    return Ok(false);
                }
            },
        }
        i = i + 1;
    }
    Ok(true)
}

/// The fields of an `mxf2raw` report that the tools read.
pub ghost struct InfoView {
    pub material: Seq<char>,
    pub file: Option<Seq<char>>,
    pub physical: Option<Seq<char>>,
    pub timecode: Option<Seq<char>>,
    pub duration: Option<nat>,
}

/// The text after the first `=` of a line, up to the next `=`.
pub open spec fn second_field(line: Seq<char>) -> Option<Seq<char>> {
    let p = split_by(line, '=', '=');
    if p.len() >= 2 { Some(p[1]) } else { None }
}

/// An identifier value: trimmed, without `.` and `-`.
pub open spec fn uid_value(f: Seq<char>) -> Seq<char> {
    without(trim(f), '.', '-')
}

/// What one report line changes; the first label that the line contains
/// decides, and a line without a value changes nothing.
pub open spec fn apply_line(v: InfoView, line: Seq<char>) -> InfoView {
    match second_field(line) {
        None => v,
        Some(f) => if contains_text(line, "Material Package UID"@) {
            InfoView { material: uid_value(f), ..v }
        } else if contains_text(line, "File Source Package UID"@) {
            InfoView { file: Some(uid_value(f)), ..v }
        } else if contains_text(line, "Physical Source Package UID"@) {
            InfoView { physical: Some(uid_value(f)), ..v }
        } else if contains_text(line, "Start timecode"@) {
            InfoView { timecode: Some(trim(f)), ..v }
        } else if contains_text(line, "Duration"@) {
            match parse_unsigned_spec(trim(f), u64::MAX as nat) {
                Some(n) => InfoView { duration: Some(n), ..v },
                None => v,
            }
        } else {
            v
        },
    }
}

/// The report's fields after reading `lines` in order.
pub open spec fn info_of(lines: Seq<Seq<char>>) -> InfoView
    decreases lines.len(),
{
    if lines.len() == 0 {
        InfoView { material: Seq::empty(), file: None, physical: None, timecode: None, duration: None }
    } else {
        apply_line(info_of(lines.drop_last()), lines.last())
    }
}

pub open spec fn opt_view(o: Option<String>) -> Option<Seq<char>> {
    match o {
        Some(s) => Some(s@),
        None => None,
    }
}

pub open spec fn metadata_view(m: MxfMetadata) -> InfoView {
    InfoView {
        material: m.material_package_uid@,
        file: opt_view(m.file_package_uid),
        physical: opt_view(m.physical_source_package_uid),
        timecode: opt_view(m.timecode),
        duration: match m.duration {
            Some(d) => Some(d as nat),
            None => None,
        },
    }
}

fn second_field_of(line: &str) -> (r: Option<String>)
    ensures
        opt_view(r) == second_field(line@),
{
    let v = chars_of(line);
    let p = split_chars(&v, '=', '=');
    assert(p@.len() == views(p@).len());
    if p.len() >= 2 {
        assert(p@[1]@ == split_by(line@, '=', '=')[1]);
        Some(p[1].clone())
    } else {
        None
    }
}

/// Reads an `mxf2raw` report. A report without a material package
/// identifier is refused.
pub fn parse_mxf2raw_info(stdout: &str) -> (r: Result<MxfMetadata, String>)
    ensures
        r is Ok <==> info_of(split_by(stdout@, '\n', '\n')).material.len() > 0,
        r matches Ok(m) ==> metadata_view(m) == info_of(split_by(stdout@, '\n', '\n')) && m.tracks@.len() == 0,
        r matches Err(e) ==> e@ == "Could not extract Material Package UID from file"@,
{
    let v = chars_of(stdout);
    let lines = split_chars(&v, '\n', '\n');
    let ghost ls = split_by(stdout@, '\n', '\n');
    assert(lines@.len() == views(lines@).len());
    let mut m = MxfMetadata {
        material_package_uid: String::new(),
        file_package_uid: None,
        physical_source_package_uid: None,
        timecode: None,
        duration: None,
        tracks: Vec::new(),
    };
    let mut i: usize = 0;
    assert(ls.subrange(0, 0).len() == 0);
    assert(metadata_view(m) =~= info_of(ls.subrange(0, 0)));
    while i < lines.len()
        invariant
            i <= lines@.len(),
            views(lines@) == ls,
            metadata_view(m) == info_of(ls.subrange(0, i as int)),
            m.tracks@.len() == 0,
        decreases lines@.len() - i,
    {
        let line = lines[i].as_str();
        assert(line@ == ls[i as int]);
        assert(ls.subrange(0, i + 1).drop_last() =~= ls.subrange(0, i as int));
        assert(ls.subrange(0, i + 1).last() == ls[i as int]);
        match second_field_of(line) {
            None => {},
            Some(f) => {
                if contains_str(line, "Material Package UID") {
                    let t = trimmed(f.as_str());
                    m.material_package_uid = remove_chars(t.as_str(), '.', '-');
                } else if contains_str(line, "File Source Package UID") {
                    let t = trimmed(f.as_str());
                    m.file_package_uid = Some(remove_chars(t.as_str(), '.', '-'));
                } else if contains_str(line, "Physical Source Package UID") {
                    let t = trimmed(f.as_str());
                    m.physical_source_package_uid = Some(remove_chars(t.as_str(), '.', '-'));
                } else if contains_str(line, "Start timecode") {
                    m.timecode = Some(trimmed(f.as_str()));
                } else if contains_str(line, "Duration") {
                    let t = trimmed(f.as_str());
                    let tv = chars_of(t.as_str());
                    assert(tv@.subrange(0, tv@.len() as int) =~= tv@);
                    match parse_unsigned(&tv, 0, tv.len(), u64::MAX) {
                        Some(n) => {
                            m.duration = Some(n);
                        },
                        None => {},
                    }
                }
            },
        }
        assert(metadata_view(m) =~= info_of(ls.subrange(0, i + 1)));
        i = i + 1;
    }
    assert(ls.subrange(0, i as int) =~= ls);
    if m.material_package_uid.unicode_len() == 0 {
        return Err(owned("Could not extract Material Package UID from file"));
    }
    Ok(m)
}

} // verus!
