//! Broadcast WAV timecode arithmetic: BEXT TimeReference for 23.976 fps
//! material at 48 kHz, its decoding, and timecode text parsing.

use vstd::prelude::*;
use vstd::string::*;
use crate::error::TranscodeError;
use crate::text::{chars_of, contains_str, contains_text, decimal, decimal_string, parse_unsigned, parse_unsigned_spec, split_by, split_chars, owned, trim, trimmed, views};

verus! {

/// A timecode HH:MM:SS:FF.
#[derive(Debug, Clone, Copy, PartialEq, Eq)]
pub struct BwfTimecode {
    pub hours: u32,
    pub minutes: u32,
    pub seconds: u32,
    pub frames: u32,
}

/// What a BEXT chunk records about a WAV file.
#[derive(Debug, Clone)]
pub struct BwfMetadata {
    pub time_reference: u64,
    pub sample_rate: u32,
    pub timecode: BwfTimecode,
    pub description: String,
    pub originator: String,
}

/// Whole seconds of the HH:MM:SS part.
pub open spec fn clock_seconds(h: nat, m: nat, s: nat) -> nat {
    h * 3600 + m * 60 + s
}

/// TimeReference of HH:MM:SS:FF at 23.976 fps: the frame count
/// `(h·3600 + m·60 + s)·23.976 + f`, times 2004.005263 samples per frame,
/// rounded down. Both constants are exact decimals, so the product is
/// computed exactly over the integers.
pub open spec fn time_reference(h: nat, m: nat, s: nat, f: nat) -> nat {
    ((clock_seconds(h, m, s) * 23976 + f * 1000) * 2004005263) / 1_000_000_000
}

pub open spec fn timecode_in_range(h: nat, m: nat, s: nat, f: nat) -> bool {
    h <= 23 && m <= 59 && s <= 59 && f <= 23
}

/// Computes the BEXT TimeReference of a 23.976 fps timecode; each field out
/// of range is refused with its own message, hours checked first.
pub fn calculate_bext_timereference_23976(hours: u32, minutes: u32, seconds: u32, frames: u32) -> (r: Result<u64, String>)
    ensures
        hours > 23 ==> (r matches Err(e) && e@ == "Hours must be 0-23"@),
        hours <= 23 && minutes > 59 ==> (r matches Err(e) && e@ == "Minutes must be 0-59"@),
        hours <= 23 && minutes <= 59 && seconds > 59 ==> (r matches Err(e) && e@ == "Seconds must be 0-59"@),
        hours <= 23 && minutes <= 59 && seconds <= 59 && frames > 23 ==> (r matches Err(e) && e@ == "Frames must be 0-23 for 23.976fps"@),
        r is Ok <==> timecode_in_range(hours as nat, minutes as nat, seconds as nat, frames as nat),
        r matches Ok(t) ==> t == time_reference(hours as nat, minutes as nat, seconds as nat, frames as nat),
{
    if hours > 23 {
        return Err(owned("Hours must be 0-23"));
    }
    if minutes > 59 {
        return Err(owned("Minutes must be 0-59"));
    }
    if seconds > 59 {
        return Err(owned("Seconds must be 0-59"));
    }
    if frames > 23 {
        return Err(owned("Frames must be 0-23 for 23.976fps"));
    }
    let h = hours as u64;
    let m = minutes as u64;
    let s = seconds as u64;
    let f = frames as u64;
    let secs: u64 = h * 3600 + m * 60 + s;
    assert(secs <= 86399);
    let scaled: u64 = secs * 23976 + f * 1000;
    assert(scaled <= 2071502424 + 23000) by (nonlinear_arith)
        requires secs <= 86399, f <= 23, scaled == secs * 23976 + f * 1000;
    let product: u64 = scaled * 2004005263;
    assert(product <= 4151347852134306512) by (nonlinear_arith)
        requires scaled <= 2071525424, product == scaled * 2004005263;
    Ok(product / 1_000_000_000)
}

/// HH:MM:SS:FF of a sample offset: hours, minutes and seconds of
/// `time_reference / sample_rate` seconds, and the frames at 23.976 fps of the
/// fraction of a second left over, each rounded down; hours saturate at the
/// largest `u32`.
pub open spec fn decode_time_reference(t: nat, rate: nat) -> BwfTimecode
    recommends rate > 0,
{
    let hour = 3600 * rate;
    let minute = 60 * rate;
    let h = t / hour;
    let within_hour = t % hour;
    let within_minute = within_hour % minute;
    BwfTimecode {
        hours: if h > u32::MAX { u32::MAX } else { h as u32 },
        minutes: (within_hour / minute) as u32,
        seconds: (within_minute / rate) as u32,
        frames: (((within_minute % rate) * 23976) / (1000 * rate)) as u32,
    }
}

/// Decodes a TimeReference back to a 23.976 fps timecode; a zero sample
/// rate is refused.
pub fn verify_timereference_23976(time_reference: u64, sample_rate: u32) -> (r: Result<BwfTimecode, String>)
    ensures
        sample_rate == 0 <==> r is Err,
        r matches Ok(tc) ==> tc == decode_time_reference(time_reference as nat, sample_rate as nat),
{
    if sample_rate == 0 {
        return Err(owned("Sample rate must be positive"));
    }
    let rate = sample_rate as u64;
    let hour: u64 = 3600 * rate;
    let minute: u64 = 60 * rate;
    let h = time_reference / hour;
    let within_hour = time_reference % hour;
    let within_minute = within_hour % minute;
    assert(within_hour < hour);
    assert(within_minute < minute);
    let minutes = within_hour / minute;
    assert(minutes < 60) by (nonlinear_arith)
        requires within_hour < 3600 * rate, minutes == within_hour / minute, minute == 60 * rate, rate > 0;
    let seconds = within_minute / rate;
    assert(seconds < 60) by (nonlinear_arith)
        requires within_minute < 60 * rate, seconds == within_minute / rate, rate > 0;
    let frac = within_minute % rate;
    assert(frac < rate);
    let scaled: u64 = frac * 23976;
    assert(scaled < rate * 23976) by (nonlinear_arith)
        requires frac < rate, scaled == frac * 23976;
    let per_frame: u64 = 1000 * rate;
    let frames = scaled / per_frame;
    assert(frames <= 23) by (nonlinear_arith)
        requires scaled < rate * 23976, frames == scaled / per_frame, per_frame == 1000 * rate, rate > 0;
    let hours: u32 = if h > u32::MAX as u64 { u32::MAX } else { h as u32 };
    Ok(BwfTimecode { hours, minutes: minutes as u32, seconds: seconds as u32, frames: frames as u32 })
}

proof fn lemma_decode_total(t: nat, rate: nat)
    requires
        rate > 0,
    ensures
        (t / (3600 * rate)) * 3600 + ((t % (3600 * rate)) / (60 * rate)) * 60 + ((t % (3600 * rate)) % (60 * rate)) / rate
            == t / rate,
{
    let hh = 3600 * rate;
    let mm = 60 * rate;
    let a = t / hh;
    let b = t % hh;
    let c = b / mm;
    let e = b % mm;
    let g = e / rate;
    let k = e % rate;
    assert(t == a * hh + b && b < hh) by {
        vstd::arithmetic::div_mod::lemma_fundamental_div_mod(t as int, hh as int);
    }
    assert(b == c * mm + e && e < mm) by {
        vstd::arithmetic::div_mod::lemma_fundamental_div_mod(b as int, mm as int);
    }
    assert(e == g * rate + k && k < rate) by {
        vstd::arithmetic::div_mod::lemma_fundamental_div_mod(e as int, rate as int);
    }
    assert(t == (a * 3600 + c * 60 + g) * rate + k) by (nonlinear_arith)
        requires t == a * hh + b, b == c * mm + e, e == g * rate + k, hh == 3600 * rate, mm == 60 * rate;
    vstd::arithmetic::div_mod::lemma_fundamental_div_mod_converse(t as int, rate as int, (a * 3600 + c * 60 + g) as int, k as int);
}

/// Decoding a TimeReference at 48 kHz gives back HH:MM:SS no earlier than
/// the timecode's own clock time and late by at most a thousandth of it
/// plus a second: the frame rate is 0.1% slower than whole frames per
/// second, so the decoded clock drifts ahead over the day (13:20:20:05
/// decodes to 13:21:08).
pub proof fn law_time_reference_decode_drift(h: nat, m: nat, s: nat, f: nat)
    requires
        timecode_in_range(h, m, s, f),
    ensures
        ({
            let d = decode_time_reference(time_reference(h, m, s, f), 48000);
            let decoded = d.hours as nat * 3600 + d.minutes as nat * 60 + d.seconds as nat;
            &&& clock_seconds(h, m, s) <= decoded
            &&& decoded * 999 <= clock_seconds(h, m, s) * 1000 + 999
        }),
{
    let t0 = clock_seconds(h, m, s);
    let x = t0 * 23976 + f * 1000;
    let tr = time_reference(h, m, s, f);
    assert(t0 <= 86399);
    assert(x <= t0 * 23976 + 23000);
    assert(tr * 1_000_000_000 <= x * 2004005263 && x * 2004005263 < (tr + 1) * 1_000_000_000) by {
        vstd::arithmetic::div_mod::lemma_fundamental_div_mod((x * 2004005263) as int, 1_000_000_000);
    }
    let dd = tr / 48000;
    assert(dd * 48000 <= tr && tr < (dd + 1) * 48000) by {
        vstd::arithmetic::div_mod::lemma_fundamental_div_mod(tr as int, 48000);
    }
    lemma_decode_total(tr, 48000);
    assert(tr <= 4151347852) by (nonlinear_arith)
        requires tr * 1_000_000_000 <= x * 2004005263, x <= t0 * 23976 + 23000, t0 <= 86399;
    assert(tr / (3600 * 48000) <= 24);
    assert(t0 <= dd) by (nonlinear_arith)
        requires x >= t0 * 23976, x * 2004005263 < (tr + 1) * 1_000_000_000, tr < (dd + 1) * 48000;
    assert(dd * 999 <= t0 * 1000 + 999) by (nonlinear_arith)
        requires tr * 1_000_000_000 <= x * 2004005263, x <= t0 * 23976 + 23000, dd * 48000 <= tr;
}

/// The timecode fields of `s`, split at `:` or `;`.
pub open spec fn timecode_fields(s: Seq<char>) -> Seq<Seq<char>> {
    split_by(s, ':', ';')
}

/// Timecode text parsed: four fields separated by `:` or `;`, each an
/// unsigned 32-bit integer.
pub open spec fn parse_timecode_spec(s: Seq<char>) -> Option<BwfTimecode> {
    let p = timecode_fields(s);
    if p.len() == 4 && parse_unsigned_spec(p[0], u32::MAX as nat) is Some
        && parse_unsigned_spec(p[1], u32::MAX as nat) is Some
        && parse_unsigned_spec(p[2], u32::MAX as nat) is Some
        && parse_unsigned_spec(p[3], u32::MAX as nat) is Some {
        Some(BwfTimecode {
            hours: parse_unsigned_spec(p[0], u32::MAX as nat)->0 as u32,
            minutes: parse_unsigned_spec(p[1], u32::MAX as nat)->0 as u32,
            seconds: parse_unsigned_spec(p[2], u32::MAX as nat)->0 as u32,
            frames: parse_unsigned_spec(p[3], u32::MAX as nat)->0 as u32,
        })
    } else {
        None
    }
}

fn parse_field(parts: &Vec<String>, k: usize, label: &str) -> (r: Result<u32, String>)
    requires
        k < parts@.len(),
    ensures
        r matches Ok(n) ==> parse_unsigned_spec(parts@[k as int]@, u32::MAX as nat) == Some(n as nat),
        r is Err <==> parse_unsigned_spec(parts@[k as int]@, u32::MAX as nat) is None,
        r matches Err(e) ==> e@ == label@ + parts@[k as int]@,
{
    let v = chars_of(parts[k].as_str());
    match parse_unsigned(&v, 0, v.len(), u32::MAX as u64) {
        Some(n) => {
            assert(v@.subrange(0, v@.len() as int) =~= v@);
            Ok(n as u32)
        },
        None => {
            assert(v@.subrange(0, v@.len() as int) =~= v@);
            let mut e = owned(label);
            e.append(parts[k].as_str());
            Err(e)
        },
    }
}

/// Parses timecode text `HH:MM:SS:FF` (`;` also separates, for drop-frame).
pub fn parse_timecode(tc_str: &str) -> (r: Result<BwfTimecode, String>)
    ensures
        r is Ok <==> parse_timecode_spec(tc_str@) is Some,
        r matches Ok(tc) ==> parse_timecode_spec(tc_str@) == Some(tc),
        timecode_fields(tc_str@).len() != 4 ==> (r matches Err(e) && e@ == "Invalid timecode format: "@ + tc_str@),
        timecode_fields(tc_str@).len() == 4 && parse_unsigned_spec(timecode_fields(tc_str@)[0], u32::MAX as nat) is None
            ==> (r matches Err(e) && e@ == "Invalid hours: "@ + timecode_fields(tc_str@)[0]),
{
    let v = chars_of(tc_str);
    let parts = split_chars(&v, ':', ';');
    assert(views(parts@) == timecode_fields(tc_str@));
    assert(parts@.len() == views(parts@).len());
    if parts.len() != 4 {
        let mut e = owned("Invalid timecode format: ");
        e.append(tc_str);
        return Err(e);
    }
    assert(forall|i: int| 0 <= i < 4 ==> #[trigger] parts@[i]@ == timecode_fields(tc_str@)[i]);
    let hours = parse_field(&parts, 0, "Invalid hours: ")?;
    let minutes = parse_field(&parts, 1, "Invalid minutes: ")?;
    let seconds = parse_field(&parts, 2, "Invalid seconds: ")?;
    let frames = parse_field(&parts, 3, "Invalid frames: ")?;
    Ok(BwfTimecode { hours, minutes, seconds, frames })
}

/// The timecode text of a metadata probe's report: the value after the `=`
/// of the first line that mentions `timecode=`, trimmed.
pub open spec fn timecode_in_report_from(lines: Seq<Seq<char>>, i: int) -> Option<Seq<char>>
    decreases lines.len() - i,
{
    if i < 0 || i >= lines.len() {
        None
    } else if contains_text(lines[i], "timecode="@) && split_by(lines[i], '=', '=').len() >= 2 {
        Some(trim(split_by(lines[i], '=', '=')[1]))
    } else {
        timecode_in_report_from(lines, i + 1)
    }
}

pub open spec fn timecode_in_report(report: Seq<char>) -> Option<Seq<char>> {
    timecode_in_report_from(split_by(report, '\n', '\n'), 0)
}

/// Finds the timecode text in a metadata probe's report.
pub fn find_timecode(report: &str) -> (r: Option<String>)
    ensures
        r matches Some(t) ==> timecode_in_report(report@) == Some(t@),
        r is None <==> timecode_in_report(report@) is None,
{
    let v = chars_of(report);
    let lines = split_chars(&v, '\n', '\n');
    let ghost ls = split_by(report@, '\n', '\n');
    assert(lines@.len() == views(lines@).len());
    let mut i: usize = 0;
    while i < lines.len()
        invariant
            i <= lines@.len(),
            views(lines@) == ls,
            ls == split_by(report@, '\n', '\n'),
            timecode_in_report_from(ls, i as int) == timecode_in_report(report@),
        decreases lines@.len() - i,
    {
        let line = lines[i].as_str();
        assert(line@ == ls[i as int]);
        if contains_str(line, "timecode=") {
            let lv = chars_of(line);
            let parts = split_chars(&lv, '=', '=');
            assert(parts@.len() == views(parts@).len());
            if parts.len() >= 2 {
                assert(parts@[1]@ == split_by(line@, '=', '=')[1]);
                return Some(trimmed(parts[1].as_str()));
            }
        }
        i = i + 1;
    }
    None
}

/// The timecode that a BWF extraction records: the one in the probe's
/// report, or midnight when there is none.
pub fn timecode_or_midnight(report: &str) -> (r: String)
    ensures
        r@ == (match timecode_in_report(report@) {
            Some(t) => t,
            None => "00:00:00:00"@,
        }),
{
    match find_timecode(report) {
        Some(t) => t,
        None => owned("00:00:00:00"),
    }
}

/// Reads the source timecode from a metadata probe's report.
pub fn timecode_from_report(report: &str) -> (r: Result<BwfTimecode, String>)
    ensures
        timecode_in_report(report@) is None ==> (r matches Err(e) && e@ == "No timecode found in file"@),
        timecode_in_report(report@) matches Some(t) ==> (r is Ok <==> parse_timecode_spec(t) is Some),
        r matches Ok(tc) ==> (timecode_in_report(report@) matches Some(t) && parse_timecode_spec(t) == Some(tc)),
{
    match find_timecode(report) {
        Some(t) => parse_timecode(t.as_str()),
        None => Err(owned("No timecode found in file")),
    }
}

/// Arguments of the metadata probe that reports the source timecode.
pub fn timecode_probe_args(input: &str) -> (r: Vec<String>)
    ensures
        views(r@) == seq!["-v"@, "quiet"@, "-show_entries"@, "format_tags:stream_tags"@, input@],
{
    let r = vec![owned("-v"), owned("quiet"), owned("-show_entries"), owned("format_tags:stream_tags"), owned(input)];
    assert(views(r@) =~= seq!["-v"@, "quiet"@, "-show_entries"@, "format_tags:stream_tags"@, input@]);
    r
}

/// Encoder arguments that extract a stereo 24-bit PCM WAV at `sample_rate`
/// from `input`, without video.
pub fn audio_extract_args(input: &str, temp_wav: &str, sample_rate: u32) -> (r: Vec<String>)
    ensures
        views(r@) == seq!["-y"@, "-i"@, input@, "-vn"@, "-acodec"@, "pcm_s24le"@, "-ar"@, decimal(sample_rate as nat),
            "-ac"@, "2"@, temp_wav@],
{
    let r = vec![owned("-y"), owned("-i"), owned(input), owned("-vn"), owned("-acodec"), owned("pcm_s24le"),
        owned("-ar"), decimal_string(sample_rate as u64), owned("-ac"), owned("2"), owned(temp_wav)];
    assert(views(r@) =~= seq!["-y"@, "-i"@, input@, "-vn"@, "-acodec"@, "pcm_s24le"@, "-ar"@, decimal(sample_rate as nat),
        "-ac"@, "2"@, temp_wav@]);
    r
}

/// What a BWF extraction writes once the audio is out: a BEXT chunk with
/// this TimeReference, or the plain WAV when the timecode text is not a
/// timecode.
#[derive(Debug, Clone, Copy, PartialEq, Eq, Structural)]
pub enum BextPlan {
    Insert { time_reference: u64 },
    PlainWav,
}

/// Plans the BEXT step for the source timecode text. A timecode with a
/// field out of range for 23.976 fps is refused as invalid input.
pub fn plan_bext(timecode: &str) -> (r: Result<BextPlan, TranscodeError>)
    ensures
        parse_timecode_spec(timecode@) is None ==> r == Ok::<BextPlan, TranscodeError>(BextPlan::PlainWav),
        parse_timecode_spec(timecode@) matches Some(tc) ==> (
            if timecode_in_range(tc.hours as nat, tc.minutes as nat, tc.seconds as nat, tc.frames as nat) {
                r == Ok::<BextPlan, TranscodeError>(BextPlan::Insert {
                    time_reference: time_reference(tc.hours as nat, tc.minutes as nat, tc.seconds as nat, tc.frames as nat) as u64,
                })
            } else {
                r matches Err(TranscodeError::InvalidInput(_))
            }),
{
    match parse_timecode(timecode) {
        Err(_) => Ok(BextPlan::PlainWav),
        Ok(tc) => match calculate_bext_timereference_23976(tc.hours, tc.minutes, tc.seconds, tc.frames) {
            Ok(t) => Ok(BextPlan::Insert { time_reference: t }),
            Err(e) => Err(TranscodeError::InvalidInput(e)),
        },
    }
}

/// Arguments of the BEXT helper script: it copies `temp_wav` to `output`
/// with a BEXT chunk holding the TimeReference, the rates and the source
/// timecode as description.
pub fn bext_helper_args(script: &str, temp_wav: &str, output: &str, time_reference: u64, sample_rate: u32, timecode: &str) -> (r: Vec<String>)
    ensures
        views(r@) == seq![script@, temp_wav@, output@, "--time-ref"@, decimal(time_reference as nat), "--sample-rate"@,
            decimal(sample_rate as nat), "--frame-rate"@, "23.976"@, "--description"@, timecode@, "--originator"@,
            "Industrial Transcoder v2"@],
{
    let r = vec![owned(script), owned(temp_wav), owned(output), owned("--time-ref"), decimal_string(time_reference),
        owned("--sample-rate"), decimal_string(sample_rate as u64), owned("--frame-rate"), owned("23.976"),
        owned("--description"), owned(timecode), owned("--originator"), owned("Industrial Transcoder v2")];
    assert(views(r@) =~= seq![script@, temp_wav@, output@, "--time-ref"@, decimal(time_reference as nat), "--sample-rate"@,
        decimal(sample_rate as nat), "--frame-rate"@, "23.976"@, "--description"@, timecode@, "--originator"@,
        "Industrial Transcoder v2"@]);
    r
}

} // verus!
