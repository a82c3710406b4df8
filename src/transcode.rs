//! Encoder driver decisions: the probe invocation and its answer, the
//! reading of the encoder's progress lines, and the outcome of its exit.

use vstd::prelude::*;
use vstd::string::*;
use crate::error::TranscodeError;
use crate::text::{
    all_digits, chars_of, decimal, is_digit, owned, parse_unsigned, parse_unsigned_spec,
    push_decimal, split_by, split_chars, string_of, trim, trimmed, views, signed_decimal,
};

verus! {

/// `time=HH:MM:SS.ff` starts at `i` in `s`, every field two ASCII digits.
pub open spec fn clock_at(s: Seq<char>, i: int) -> bool {
    &&& 0 <= i && i + 16 <= s.len()
    &&& s.subrange(i, i + 5) == "time="@
    &&& is_digit(s[i + 5]) && is_digit(s[i + 6]) && s[i + 7] == ':'
    &&& is_digit(s[i + 8]) && is_digit(s[i + 9]) && s[i + 10] == ':'
    &&& is_digit(s[i + 11]) && is_digit(s[i + 12]) && s[i + 13] == '.'
    &&& is_digit(s[i + 14]) && is_digit(s[i + 15])
}

/// The leftmost position at or after `i` where a clock reading starts.
pub open spec fn first_clock(s: Seq<char>, i: int) -> Option<int>
    decreases s.len() - i,
{
    if i < 0 || i + 16 > s.len() {
        None
    } else if clock_at(s, i) {
        Some(i)
    } else {
        first_clock(s, i + 1)
    }
}

/// The hours, minutes and seconds-with-centiseconds texts of the leftmost
/// clock reading in a line.
pub open spec fn clock_fields(s: Seq<char>) -> Option<(Seq<char>, Seq<char>, Seq<char>)> {
    match first_clock(s, 0) {
        Some(i) => Some((s.subrange(i + 5, i + 7), s.subrange(i + 8, i + 10), s.subrange(i + 11, i + 16))),
        None => None,
    }
}

/// Relies on `regex::Regex::captures` with the pattern
/// `time=([0-9]{2}):([0-9]{2}):([0-9]{2}\.[0-9]{2})`: the groups of the
/// leftmost match.
#[verifier::external_body]
fn clock_captures(line: &str) -> (r: Option<(String, String, String)>)
    ensures
        r matches Some(t) ==> clock_fields(line@) == Some((t.0@, t.1@, t.2@)),
        r is None <==> clock_fields(line@) is None,
{
    let re = regex::Regex::new(r"time=([0-9]{2}):([0-9]{2}):([0-9]{2}\.[0-9]{2})").unwrap();
    re.captures(line).map(|c| (c[1].to_string(), c[2].to_string(), c[3].to_string()))
}

/// End of the run of spaces that starts at `j`.
pub open spec fn spaces_end(s: Seq<char>, j: int) -> int
    decreases s.len() - j,
{
    if 0 <= j < s.len() && s[j] == ' ' { spaces_end(s, j + 1) } else { j }
}

/// End of the run of ASCII digits that starts at `j`.
pub open spec fn digits_end(s: Seq<char>, j: int) -> int
    decreases s.len() - j,
{
    if 0 <= j < s.len() && is_digit(s[j]) { digits_end(s, j + 1) } else { j }
}

/// The frame-rate text after `fps=` at `i`: spaces skipped, then digits,
/// an optional `.` and more digits, as many as there are.
pub open spec fn fps_at(s: Seq<char>, i: int) -> Option<Seq<char>> {
    if 0 <= i && i + 4 <= s.len() && s.subrange(i, i + 4) == "fps="@ {
        let j = spaces_end(s, i + 4);
        if 0 <= j < s.len() && is_digit(s[j]) {
            let k = digits_end(s, j);
            let e = if 0 <= k < s.len() && s[k] == '.' { digits_end(s, k + 1) } else { k };
            Some(s.subrange(j, e))
        } else {
            None
        }
    } else {
        None
    }
}

/// The frame-rate text of the leftmost `fps=` reading at or after `i`.
pub open spec fn first_fps(s: Seq<char>, i: int) -> Option<Seq<char>>
    decreases s.len() - i,
{
    if i < 0 || i + 4 > s.len() {
        None
    } else if fps_at(s, i) is Some {
        fps_at(s, i)
    } else {
        first_fps(s, i + 1)
    }
}

/// Relies on `regex::Regex::captures` with the pattern
/// `fps= *([0-9]+\.?[0-9]*)`: the group of the leftmost match.
#[verifier::external_body]
fn fps_capture(line: &str) -> (r: Option<String>)
    ensures
        r matches Some(t) ==> first_fps(line@, 0) == Some(t@),
        r is None <==> first_fps(line@, 0) is None,
{
    let re = regex::Regex::new(r"fps= *([0-9]+\.?[0-9]*)").unwrap();
    re.captures(line).map(|c| c[1].to_string())
}

pub open spec fn digit_value(c: char) -> nat {
    (c as u32 - 48) as nat
}

/// Centiseconds of a clock reading.
pub open spec fn clock_centis(h: Seq<char>, m: Seq<char>, s: Seq<char>) -> nat {
    (digit_value(h[0]) * 10 + digit_value(h[1])) * 360000
        + (digit_value(m[0]) * 10 + digit_value(m[1])) * 6000
        + (digit_value(s[0]) * 10 + digit_value(s[1])) * 100
        + digit_value(s[3]) * 10 + digit_value(s[4])
}

/// Thousandths in the first three digits of a fraction, missing digits
/// counting as zeros.
pub open spec fn frac_milli(f: Seq<char>) -> nat {
    (if f.len() > 0 { digit_value(f[0]) * 100 } else { 0 })
        + (if f.len() > 1 { digit_value(f[1]) * 10 } else { 0 })
        + (if f.len() > 2 { digit_value(f[2]) } else { 0 })
}

/// Largest whole part that a decimal reading accepts.
pub const DECIMAL_WHOLE_MAX: u64 = 1_000_000_000_000;

/// A decimal `W` or `W.F` (W an unsigned integer of at most
/// `DECIMAL_WHOLE_MAX`, F digits) in thousandths, fraction digits past the
/// third dropped.
pub open spec fn milli_of(s: Seq<char>) -> Option<nat> {
    let p = split_by(s, '.', '.');
    if p.len() == 1 && parse_unsigned_spec(p[0], DECIMAL_WHOLE_MAX as nat) is Some {
        Some(parse_unsigned_spec(p[0], DECIMAL_WHOLE_MAX as nat)->0 * 1000)
    } else if p.len() == 2 && parse_unsigned_spec(p[0], DECIMAL_WHOLE_MAX as nat) is Some && all_digits(p[1]) {
        Some(parse_unsigned_spec(p[0], DECIMAL_WHOLE_MAX as nat)->0 * 1000 + frac_milli(p[1]))
    } else {
        None
    }
}

pub proof fn lemma_milli_bound(s: Seq<char>)
    ensures
        milli_of(s) matches Some(n) ==> n <= 1_000_000_000_000_999,
{
    let p = split_by(s, '.', '.');
    if milli_of(s) is Some && p.len() == 2 {
        let f = p[1];
        assert(frac_milli(f) <= 999) by {
            if f.len() > 0 { assert(digit_value(f[0]) <= 9); }
            if f.len() > 1 { assert(digit_value(f[1]) <= 9); }
            if f.len() > 2 { assert(digit_value(f[2]) <= 9); }
        }
    }
}

fn digit_at(v: &Vec<char>, i: usize) -> (r: u64)
    requires
        i < v@.len(),
        is_digit(v@[i as int]),
    ensures
        r == digit_value(v@[i as int]),
        r <= 9,
{
    (v[i] as u32 - 48) as u64
}

/// Reads a decimal in thousandths.
pub fn parse_milli(s: &str) -> (r: Option<u64>)
    ensures
        r matches Some(n) ==> milli_of(s@) == Some(n as nat),
        r is None <==> milli_of(s@) is None,
{
    let v = chars_of(s);
    let parts = split_chars(&v, '.', '.');
    assert(parts@.len() == views(parts@).len());
    if parts.len() != 1 && parts.len() != 2 {
        return None;
    }
    assert(parts@[0]@ == split_by(s@, '.', '.')[0]);
    let w = chars_of(parts[0].as_str());
    let whole = match parse_unsigned(&w, 0, w.len(), DECIMAL_WHOLE_MAX) {
        Some(n) => n,
        None => {
            assert(w@.subrange(0, w@.len() as int) =~= w@);
            return None;
        },
    };
    assert(w@.subrange(0, w@.len() as int) =~= w@);
    if parts.len() == 1 {
        return Some(whole * 1000);
    }
    assert(parts@[1]@ == split_by(s@, '.', '.')[1]);
    let f = chars_of(parts[1].as_str());
    let mut i: usize = 0;
    while i < f.len()
        invariant
            i <= f@.len(),
            all_digits(f@.subrange(0, i as int)),
            f@ == split_by(s@, '.', '.')[1],
            split_by(s@, '.', '.').len() == 2,
        decreases f@.len() - i,
    {
        if !('0' <= f[i] && f[i] <= '9') {
            assert(!is_digit(f@[i as int]));
            assert(!all_digits(f@));
            return None;
        }
        assert forall|k: int| 0 <= k < i + 1 implies is_digit(#[trigger] f@.subrange(0, i + 1)[k]) by {
            if k < i {
                assert(f@.subrange(0, i + 1)[k] == f@.subrange(0, i as int)[k]);
            }
        }
        i = i + 1;
    }
    assert(f@.subrange(0, i as int) =~= f@);
    let a = if f.len() > 0 { digit_at(&f, 0) * 100 } else { 0 };
    let b = if f.len() > 1 { digit_at(&f, 1) * 10 } else { 0 };
    let c = if f.len() > 2 { digit_at(&f, 2) } else { 0 };
    Some(whole * 1000 + a + b + c)
}

/// Progress in hundredths of a percent of `elapsed_centis` into a media of
/// `duration_milli`, capped at 100%; zero when the duration is zero.
pub open spec fn percent_of(elapsed_centis: nat, duration_milli: nat) -> nat {
    if duration_milli == 0 {
        0
    } else {
        let p = elapsed_centis * 10 * 10000 / duration_milli;
        if p > 10000 { 10000 } else { p }
    }
}

/// A progress reading of one encoder line: the percentage (hundredths) and
/// the frame rate (thousandths), when the line holds a clock reading.
pub open spec fn line_progress(line: Seq<char>, duration_milli: nat) -> Option<(nat, Option<nat>)> {
    match clock_fields(line) {
        Some(t) => Some((
            percent_of(clock_centis(t.0, t.1, t.2), duration_milli),
            match first_fps(line, 0) {
                Some(f) => milli_of(f),
                None => None,
            },
        )),
        None => None,
    }
}

proof fn lemma_clock_fields(s: Seq<char>, i: int)
    requires
        0 <= i,
        first_clock(s, i) is Some,
    ensures
        clock_at(s, first_clock(s, i)->0),
    decreases s.len() - i,
{
    if !clock_at(s, i) {
        lemma_clock_fields(s, i + 1);
    }
}

/// Reads one line of encoder output: the progress against a media of
/// `duration_milli` milliseconds, with the frame rate when the line gives
/// one. Lines without a clock reading give nothing.
pub fn parse_progress_line(line: &str, duration_milli: u64) -> (r: Option<(u32, Option<u64>)>)
    ensures
        r is None <==> line_progress(line@, duration_milli as nat) is None,
        r matches Some(p) ==> line_progress(line@, duration_milli as nat) == Some((p.0 as nat, match p.1 {
            Some(f) => Some(f as nat),
            None => None::<nat>,
        })),
{
    let (hs, ms, ss) = match clock_captures(line) {
        Some(t) => t,
        None => return None,
    };
    proof {
        lemma_clock_fields(line@, 0);
    }
    let h = chars_of(hs.as_str());
    let m = chars_of(ms.as_str());
    let s = chars_of(ss.as_str());
    let elapsed: u64 = (digit_at(&h, 0) * 10 + digit_at(&h, 1)) * 360000
        + (digit_at(&m, 0) * 10 + digit_at(&m, 1)) * 6000
        + (digit_at(&s, 0) * 10 + digit_at(&s, 1)) * 100
        + digit_at(&s, 3) * 10 + digit_at(&s, 4);
    let percent: u64 = if duration_milli == 0 {
        0
    } else {
        let p = (elapsed as u128 * 100000) / (duration_milli as u128);
        if p > 10000 { 10000 } else { p as u64 }
    };
    let fps = match fps_capture(line) {
        Some(t) => parse_milli(t.as_str()),
        None => None,
    };
    Some((percent as u32, fps))
}

/// Arguments of the probe that prints a media's duration in seconds.
pub fn probe_duration_args(input: &str) -> (r: Vec<String>)
    ensures
        views(r@) == seq!["-v"@, "error"@, "-show_entries"@, "format=duration"@, "-of"@,
            "default=noprint_wrappers=1:nokey=1"@, input@],
{
    let r = vec![
        owned("-v"),
        owned("error"),
        owned("-show_entries"),
        owned("format=duration"),
        owned("-of"),
        owned("default=noprint_wrappers=1:nokey=1"),
        owned(input),
    ];
    assert(views(r@) =~= seq!["-v"@, "error"@, "-show_entries"@, "format=duration"@, "-of"@,
        "default=noprint_wrappers=1:nokey=1"@, input@]);
    r
}

/// Reads the probe's answer: the duration in milliseconds. A failed probe
/// and an answer that is not a decimal are platform errors.
pub fn parse_probe_duration(stdout: &str, success: bool) -> (r: Result<u64, TranscodeError>)
    ensures
        !success ==> (r matches Err(TranscodeError::Platform(m)) && m@ == "Failed to get media duration"@),
        success && milli_of(trim(stdout@)) is None ==> (r matches Err(TranscodeError::Platform(m)) && m@ == "Invalid duration format"@),
        r matches Ok(d) ==> success && milli_of(trim(stdout@)) == Some(d as nat),
        r is Ok <==> success && milli_of(trim(stdout@)) is Some,
{
    if !success {
        return Err(TranscodeError::Platform(owned("Failed to get media duration")));
    }
    let t = trimmed(stdout);
    match parse_milli(t.as_str()) {
        Some(d) => Ok(d),
        None => Err(TranscodeError::Platform(owned("Invalid duration format"))),
    }
}

/// How an exit code is shown: `Some(<code>)`, or `None` when the process
/// ended without one.
pub open spec fn code_text(code: Option<i32>) -> Seq<char> {
    match code {
        Some(c) => "Some("@ + signed_decimal(c as int) + ")"@,
        None => "None"@,
    }
}

/// Appends the text of an exit code.
pub(crate) fn push_code(s: &mut String, code: Option<i32>)
    ensures
        final(s)@ == old(s)@ + code_text(code),
{
    match code {
        Some(c) => {
            s.append("Some(");
            if c < 0 {
                crate::text::push_char(s, '-');
                push_decimal(s, (-(c as i64)) as u64);
            } else {
                push_decimal(s, c as u64);
            }
            s.append(")");
            assert(s@ =~= old(s)@ + code_text(code));
        },
        None => s.append("None"),
    }
}

/// The outcome of an encoder run: a failing exit reports its code, and a
/// run that left no output file fails too.
pub fn encoder_outcome(success: bool, code: Option<i32>, output_exists: bool) -> (r: Result<(), TranscodeError>)
    ensures
        !success ==> (r matches Err(TranscodeError::FfmpegFailed(m)) && m@ == "FFmpeg exited with code: "@ + code_text(code)),
        success && !output_exists ==> (r matches Err(TranscodeError::FfmpegFailed(m)) && m@ == "Output file was not created"@),
        r is Ok <==> success && output_exists,
{
    if !success {
        let mut m = owned("FFmpeg exited with code: ");
        push_code(&mut m, code);
        return Err(TranscodeError::FfmpegFailed(m));
    }
    if !output_exists {
        return Err(TranscodeError::FfmpegFailed(owned("Output file was not created")));
    }
    Ok(())
}

/// The first line of a text: up to the first line feed, without a
/// carriage return before it; none for an empty text.
pub open spec fn first_line(s: Seq<char>) -> Option<Seq<char>> {
    if s.len() == 0 {
        None
    } else {
        let l = split_by(s, '\n', '\n')[0];
        Some(if l.len() > 0 && l.last() == '\r' { l.drop_last() } else { l })
    }
}

/// Drives the encoder found at `ffmpeg_path`.
pub struct Transcoder {
    pub ffmpeg_path: String,
}

impl Transcoder {
    /// A transcoder for the encoder at `ffmpeg_path`.
    pub fn new(ffmpeg_path: String) -> (r: Transcoder)
        ensures
            r.ffmpeg_path == ffmpeg_path,
    {
        Transcoder { ffmpeg_path }
    }

    /// Reads the encoder's answer to `-version`: its first line, or
    /// "Unknown version" when it printed nothing.
    pub fn verify(&self, stdout: &str, success: bool) -> (r: Result<String, TranscodeError>)
        ensures
            !success ==> (r matches Err(TranscodeError::FfmpegFailed(m)) && m@ == "FFmpeg version check failed"@),
            r is Ok <==> success,
            r matches Ok(v) ==> v@ == (match first_line(stdout@) {
                Some(l) => l,
                None => "Unknown version"@,
            }),
    {
        if !success {
            return Err(TranscodeError::FfmpegFailed(owned("FFmpeg version check failed")));
        }
        let v = chars_of(stdout);
        if v.len() == 0 {
            return Ok(owned("Unknown version"));
        }
        let parts = split_chars(&v, '\n', '\n');
        proof {
            crate::text::lemma_split_nonempty(v@, '\n', '\n');
            assert(parts@.len() == views(parts@).len());
            assert(parts@[0]@ == split_by(v@, '\n', '\n')[0]);
        }
        let l = chars_of(parts[0].as_str());
        let n = l.len();
        if n > 0 && l[n - 1] == '\r' {
            let r = string_of(&l, 0, n - 1);
            assert(l@.subrange(0, n - 1) =~= l@.drop_last());
            Ok(r)
        } else {
            let r = string_of(&l, 0, n);
            assert(l@.subrange(0, n as int) =~= l@);
            Ok(r)
        }
    }
}

} // verus!
