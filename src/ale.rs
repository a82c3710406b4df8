//! Avid Log Exchange (ALE) files: one row per media file with its tape,
//! timecodes, duration, audio track count and frame rate.

use vstd::prelude::*;
use vstd::string::*;
use crate::text::{
    chars_of, decimal, decimal_string, digit_char, owned, parse_unsigned, parse_unsigned_spec, push_char, push_decimal,
    split_by, split_chars, string_of, trim, trimmed, views,
};
use crate::transcode::{milli_of, parse_milli};

verus! {

/// One row of an ALE file.
#[derive(Debug, Clone)]
pub struct AleEntry {
    pub name: String,
    pub tape: String,
    pub start_tc: String,
    pub end_tc: String,
    pub duration: String,
    pub fps: String,
    pub audio_tracks: u32,
    pub video_tracks: u32,
}

/// What the probe printed for a media file: its timecode, its duration in
/// seconds, its video frame rate as a fraction, and one line per audio
/// stream.
#[derive(Debug, Clone)]
pub struct AleProbe {
    pub timecode_output: String,
    pub duration_output: String,
    pub frame_rate_output: String,
    pub audio_streams_output: String,
}

/// Builds ALE files.
pub struct AleGenerator {
    entries: Vec<AleEntry>,
}

/// Two-digit (at least) decimal, zero-padded.
pub open spec fn pad2(n: nat) -> Seq<char> {
    if n < 10 { seq!['0', digit_char(n)] } else { decimal(n) }
}

/// A frame count at 24 frames per timecode second written HH:MM:SS:FF.
pub open spec fn frames_text(total: nat) -> Seq<char> {
    pad2(total / 24 / 3600) + seq![':'] + pad2((total / 24 / 60) % 60) + seq![':'] + pad2((total / 24) % 60)
        + seq![':'] + pad2(total % 24)
}

fn push_pad2(s: &mut String, n: u64)
    ensures
        final(s)@ == old(s)@ + pad2(n as nat),
{
    if n < 10 {
        push_char(s, '0');
    }
    push_decimal(s, n);
    assert(s@ =~= old(s)@ + pad2(n as nat));
}

/// Writes a frame count as HH:MM:SS:FF at 24 frames per timecode second.
pub fn frames_to_timecode(total_frames: u64) -> (r: String)
    ensures
        r@ == frames_text(total_frames as nat),
{
    let mut s = String::new();
    push_pad2(&mut s, total_frames / 24 / 3600);
    push_char(&mut s, ':');
    push_pad2(&mut s, (total_frames / 24 / 60) % 60);
    push_char(&mut s, ':');
    push_pad2(&mut s, (total_frames / 24) % 60);
    push_char(&mut s, ':');
    push_pad2(&mut s, total_frames % 24);
    assert(s@ =~= frames_text(total_frames as nat));
    s
}

/// Largest field value that a timecode reading accepts.
pub const TC_FIELD_MAX: u64 = 1_000_000_000;

/// A field of timecode text as a number; zero when it is not one.
pub open spec fn tc_field(f: Seq<char>) -> nat {
    match parse_unsigned_spec(f, TC_FIELD_MAX as nat) {
        Some(n) => n,
        None => 0,
    }
}

/// Frames of HH:MM:SS:FF text at 24 frames per timecode second; zero
/// unless the text has four `:`-separated fields.
pub open spec fn timecode_frames(tc: Seq<char>) -> nat {
    let p = split_by(tc, ':', ':');
    if p.len() == 4 {
        (tc_field(p[0]) * 3600 + tc_field(p[1]) * 60 + tc_field(p[2])) * 24 + tc_field(p[3])
    } else {
        0
    }
}

fn field_value(parts: &Vec<String>, k: usize) -> (r: u64)
    requires
        k < parts@.len(),
    ensures
        r == tc_field(parts@[k as int]@),
        r <= TC_FIELD_MAX,
{
    let v = chars_of(parts[k].as_str());
    assert(v@.subrange(0, v@.len() as int) =~= v@);
    match parse_unsigned(&v, 0, v.len(), TC_FIELD_MAX) {
        Some(n) => n,
        None => 0,
    }
}

/// Reads HH:MM:SS:FF text as a frame count at 24 frames per second.
pub fn timecode_to_frames(tc: &str) -> (r: u64)
    ensures
        r == timecode_frames(tc@),
        r <= 100_000_000_000_000,
{
    let v = chars_of(tc);
    let p = split_chars(&v, ':', ':');
    assert(p@.len() == views(p@).len());
    if p.len() != 4 {
        return 0;
    }
    assert(forall|i: int| 0 <= i < 4 ==> #[trigger] p@[i]@ == split_by(tc@, ':', ':')[i]);
    let h = field_value(&p, 0);
    let m = field_value(&p, 1);
    let s = field_value(&p, 2);
    let f = field_value(&p, 3);
    assert((h * 3600 + m * 60 + s) * 24 + f <= 100_000_000_000_000) by (nonlinear_arith)
        requires h <= 1_000_000_000, m <= 1_000_000_000, s <= 1_000_000_000, f <= 1_000_000_000;
    (h * 3600 + m * 60 + s) * 24 + f
}

/// The stem of the last component of a `/`-separated path: the name
/// without its last extension (a leading dot starts no extension); none
/// for an empty name or `..`.
pub open spec fn file_stem(path: Seq<char>) -> Option<Seq<char>> {
    let comps = split_by(path, '/', '/');
    let name = comps.last();
    if name.len() == 0 || name == ".."@ {
        None
    } else {
        let pieces = split_by(name, '.', '.');
        if pieces.len() == 1 || (pieces.len() == 2 && pieces[0].len() == 0) {
            Some(name)
        } else {
            Some(name.subrange(0, name.len() - pieces.last().len() - 1))
        }
    }
}

/// Tape name of a clip: the first `_`-separated part of its name that
/// starts with A, B or C; "A001" when there is none.
pub open spec fn tape_from(parts: Seq<Seq<char>>, i: int) -> Seq<char>
    decreases parts.len() - i,
{
    if i < 0 || i >= parts.len() {
        "A001"@
    } else if parts[i].len() > 0 && (parts[i][0] == 'A' || parts[i][0] == 'B' || parts[i][0] == 'C') {
        parts[i]
    } else {
        tape_from(parts, i + 1)
    }
}

pub open spec fn tape_of(name: Seq<char>) -> Seq<char> {
    tape_from(split_by(name, '_', '_'), 0)
}

/// Finds the tape name in a clip name.
pub fn tape_name(name: &str) -> (r: String)
    ensures
        r@ == tape_of(name@),
{
    let v = chars_of(name);
    let parts = split_chars(&v, '_', '_');
    let ghost ps = split_by(name@, '_', '_');
    assert(parts@.len() == views(parts@).len());
    let mut i: usize = 0;
    while i < parts.len()
        invariant
            i <= parts@.len(),
            views(parts@) == ps,
            ps == split_by(name@, '_', '_'),
            tape_from(ps, i as int) == tape_of(name@),
        decreases parts@.len() - i,
    {
        let p = chars_of(parts[i].as_str());
        assert(p@ == ps[i as int]);
        if p.len() > 0 && (p[0] == 'A' || p[0] == 'B' || p[0] == 'C') {
            return parts[i].clone();
        }
        i = i + 1;
    }
    owned("A001")
}

/// Number of lines of a text, a final line feed ending the last line.
pub open spec fn line_count(s: Seq<char>) -> nat {
    if s.len() == 0 {
        0
    } else if s.last() == '\n' {
        (split_by(s, '\n', '\n').len() - 1) as nat
    } else {
        split_by(s, '\n', '\n').len()
    }
}

/// Position of the first `c` at or after `i`.
pub open spec fn first_index(s: Seq<char>, c: char, i: int) -> Option<int>
    decreases s.len() - i,
{
    if i < 0 || i >= s.len() {
        None
    } else if s[i] == c {
        Some(i)
    } else {
        first_index(s, c, i + 1)
    }
}

/// Largest numerator or denominator of a frame-rate fraction.
pub const RATE_PART_MAX: u64 = 1_000_000_000;

/// Thousandths written with three decimals.
pub open spec fn milli_text(m: nat) -> Seq<char> {
    decimal(m / 1000) + seq!['.', digit_char((m / 100) % 10), digit_char((m / 10) % 10), digit_char(m % 10)]
}

/// The frame rate shown for a fraction `num/den` (split at the first `/`):
/// thousandths rounded to the nearest, with three decimals; "23.976" when
/// the text is not such a fraction.
pub open spec fn fps_text(s: Seq<char>) -> Seq<char> {
    match first_index(s, '/', 0) {
        Some(k) => match (parse_unsigned_spec(s.subrange(0, k), RATE_PART_MAX as nat),
            parse_unsigned_spec(s.subrange(k + 1, s.len() as int), RATE_PART_MAX as nat)) {
            (Some(n), Some(d)) => if d > 0 { milli_text((2000 * n + d) / (2 * d)) } else { "23.976"@ },
            _ => "23.976"@,
        },
        None => "23.976"@,
    }
}

proof fn lemma_first_index(s: Seq<char>, c: char, i: int)
    requires
        0 <= i,
    ensures
        first_index(s, c, i) matches Some(k) ==> i <= k < s.len() && s[k] == c,
    decreases s.len() - i,
{
    if i < s.len() && s[i] != c {
        lemma_first_index(s, c, i + 1);
    }
}

/// Writes a probe's frame-rate fraction as a decimal with three places.
pub fn fps_from_fraction(s: &str) -> (r: String)
    ensures
        r@ == fps_text(s@),
{
    let v = chars_of(s);
    let mut k: usize = 0;
    while k < v.len() && v[k] != '/'
        invariant
            k <= v@.len(),
            v@ == s@,
            first_index(s@, '/', k as int) == first_index(s@, '/', 0),
        decreases v@.len() - k,
    {
        k = k + 1;
    }
    if k == v.len() {
        return owned("23.976");
    }
    proof {
        lemma_first_index(s@, '/', k as int);
    }
    let n = parse_unsigned(&v, 0, k, RATE_PART_MAX);
    let d = parse_unsigned(&v, k + 1, v.len(), RATE_PART_MAX);
    match (n, d) {
        (Some(n), Some(d)) => {
            if d == 0 {
                return owned("23.976");
            }
            let m = (2000 * n + d) / (2 * d);
            let mut r = decimal_string(m / 1000);
            push_char(&mut r, '.');
            push_char(&mut r, (((m / 100) % 10) as u8 + 48) as char);
            push_char(&mut r, (((m / 10) % 10) as u8 + 48) as char);
            push_char(&mut r, ((m % 10) as u8 + 48) as char);
            assert(r@ =~= milli_text(m as nat));
            r
        },
        _ => owned("23.976"),
    }
}

/// Counts the lines of a text.
pub fn count_lines(s: &str) -> (r: usize)
    ensures
        r == line_count(s@),
{
    let v = chars_of(s);
    if v.len() == 0 {
        return 0;
    }
    let parts = split_chars(&v, '\n', '\n');
    assert(parts@.len() == views(parts@).len());
    proof {
        crate::text::lemma_split_nonempty(v@, '\n', '\n');
    }
    if v[v.len() - 1] == '\n' {
        parts.len() - 1
    } else {
        parts.len()
    }
}

/// Timecode text of a probe's answer: the trimmed text, or midnight when
/// it is empty.
pub open spec fn start_text(out: Seq<char>) -> Seq<char> {
    if trim(out).len() == 0 { "00:00:00:00"@ } else { trim(out) }
}

/// Frames at 23.976 fps in a duration printed in seconds, rounded down;
/// zero when the answer is not a decimal.
pub open spec fn duration_frames(out: Seq<char>) -> nat {
    match milli_of(trim(out)) {
        Some(ms) => ms * 23976 / 1_000_000,
        None => 0,
    }
}

/// Frames at 23.976 fps in the duration that the probe printed.
pub fn frames_in_duration(out: &str) -> (r: u64)
    ensures
        r == duration_frames(out@),
        r <= 100_000_000_000_000,
{
    let d = trimmed(out);
    match parse_milli(d.as_str()) {
        Some(ms) => {
            let ghost whole = parse_unsigned_spec(split_by(trim(out@), '.', '.')[0], crate::transcode::DECIMAL_WHOLE_MAX as nat);
            assert(ms <= 1_000_000_000_000_999) by {
                crate::transcode::lemma_milli_bound(trim(out@));
            }
            let q = (ms as u128 * 23976) / 1_000_000;
            assert(q <= 100_000_000_000_000) by (nonlinear_arith)
                requires ms <= 1_000_000_000_000_999, q == (ms as u128 * 23976) / 1_000_000;
            q as u64
        },
        None => 0,
    }
}

/// The row for a media file at `file_path` from what the probe printed:
/// name, tape, start, end, duration, frame rate and audio track count.
pub open spec fn entry_of(file_path: Seq<char>, p: AleProbe) -> (Seq<char>, Seq<char>, Seq<char>, Seq<char>, Seq<char>, Seq<char>, nat) {
    let name = match file_stem(file_path) {
        Some(n) => n,
        None => "Unknown"@,
    };
    let start = start_text(p.timecode_output@);
    let frames = duration_frames(p.duration_output@);
    (name, tape_of(name), start, frames_text(timecode_frames(start) + frames), frames_text(frames),
        fps_text(trim(p.frame_rate_output@)), line_count(p.audio_streams_output@) % 0x1_0000_0000)
}

pub open spec fn entry_view(e: AleEntry) -> (Seq<char>, Seq<char>, Seq<char>, Seq<char>, Seq<char>, Seq<char>, nat) {
    (e.name@, e.tape@, e.start_tc@, e.end_tc@, e.duration@, e.fps@, e.audio_tracks as nat)
}

proof fn lemma_split_lengths(s: Seq<char>, c: char)
    ensures
        split_by(s, c, c).len() >= 2 ==> split_by(s, c, c).last().len() + 1 <= s.len(),
        split_by(s, c, c).last().len() <= s.len(),
    decreases s.len(),
{
    crate::text::lemma_split_nonempty(s, c, c);
    if s.len() > 0 {
        lemma_split_lengths(s.drop_last(), c);
        crate::text::lemma_split_nonempty(s.drop_last(), c, c);
    }
}

/// The stem of a path's file name.
pub fn stem_of(path: &str) -> (r: Option<String>)
    ensures
        match r {
            Some(s) => file_stem(path@) == Some(s@),
            None => file_stem(path@) is None,
        },
{
    let v = chars_of(path);
    let comps = split_chars(&v, '/', '/');
    proof {
        crate::text::lemma_split_nonempty(v@, '/', '/');
    }
    assert(comps@.len() == views(comps@).len());
    let last = comps.len() - 1;
    assert(comps@[last as int]@ == split_by(path@, '/', '/').last());
    let name = comps[last].as_str();
    let nv = chars_of(name);
    if nv.len() == 0 || comps[last] == owned("..") {
        return None;
    }
    let pieces = split_chars(&nv, '.', '.');
    assert(pieces@.len() == views(pieces@).len());
    proof {
        crate::text::lemma_split_nonempty(nv@, '.', '.');
    }
    if pieces.len() == 1 || (pieces.len() == 2 && chars_of(pieces[0].as_str()).len() == 0) {
        assert(pieces@[0]@ == split_by(name@, '.', '.')[0]);
        return Some(owned(name));
    }
    let ext_len = chars_of(pieces[pieces.len() - 1].as_str()).len();
    assert(pieces@[pieces@.len() - 1]@ == split_by(name@, '.', '.').last());
    proof {
        lemma_split_lengths(nv@, '.');
    }
    Some(string_of(&nv, 0, nv.len() - ext_len - 1))
}

/// The clip name of a media file: its stem, or "Unknown".
pub fn clip_name(file_path: &str) -> (r: String)
    ensures
        r@ == (match file_stem(file_path@) {
            Some(n) => n,
            None => "Unknown"@,
        }),
{
    match stem_of(file_path) {
        Some(n) => n,
        None => owned("Unknown"),
    }
}

/// The start timecode from the probe's answer.
pub fn start_timecode(out: &str) -> (r: String)
    ensures
        r@ == start_text(out@),
{
    let t = trimmed(out);
    if chars_of(t.as_str()).len() == 0 { owned("00:00:00:00") } else { t }
}

/// Number of audio tracks: one per line of the probe's answer, kept to
/// its low 32 bits.
pub fn track_count(out: &str) -> (r: u32)
    ensures
        r as nat == line_count(out@) % 0x1_0000_0000,
{
    let n = count_lines(out);
    (n as u64 % 0x1_0000_0000) as u32
}

/// The header of an ALE file, up to the `Data` line.
pub open spec fn ale_header() -> Seq<char> {
    "Heading\nFIELD_DELIM\tTABS\nVIDEO_FORMAT\t1080p\nAUDIO_FORMAT\t48kHz\nFPS\t23.976\n\nColumn\nName\tTape\tStart\tEnd\tDuration\tTracks\tFPS\n\nData\n"@
}

/// One data line: name, tape, start, end, duration, audio tracks (with an
/// `A`) and frame rate, separated by tabs.
pub open spec fn ale_row(e: AleEntry) -> Seq<char> {
    e.name@ + "\t"@ + e.tape@ + "\t"@ + e.start_tc@ + "\t"@ + e.end_tc@ + "\t"@ + e.duration@ + "\t"@
        + decimal(e.audio_tracks as nat) + "A\t"@ + e.fps@ + "\n"@
}

pub open spec fn ale_rows(es: Seq<AleEntry>) -> Seq<char>
    decreases es.len(),
{
    if es.len() == 0 { Seq::empty() } else { ale_rows(es.drop_last()) + ale_row(es.last()) }
}

fn push_row(out: &mut String, e: &AleEntry)
    ensures
        final(out)@ == old(out)@ + ale_row(*e),
{
    out.append(e.name.as_str());
    out.append("\t");
    out.append(e.tape.as_str());
    out.append("\t");
    out.append(e.start_tc.as_str());
    out.append("\t");
    out.append(e.end_tc.as_str());
    out.append("\t");
    out.append(e.duration.as_str());
    out.append("\t");
    push_decimal(out, e.audio_tracks as u64);
    out.append("A\t");
    out.append(e.fps.as_str());
    out.append("\n");
    assert(out@ =~= old(out)@ + ale_row(*e));
}

impl AleGenerator {
    /// The text of the ALE file: the header, then one line per row.
    pub fn render(&self) -> (r: String)
        ensures
            r@ == ale_header() + ale_rows(self.entries()),
    {
        let mut out = owned("Heading\nFIELD_DELIM\tTABS\nVIDEO_FORMAT\t1080p\nAUDIO_FORMAT\t48kHz\nFPS\t23.976\n\nColumn\nName\tTape\tStart\tEnd\tDuration\tTracks\tFPS\n\nData\n");
        let mut i: usize = 0;
        while i < self.entries.len()
            invariant
                i <= self.entries@.len(),
                out@ == ale_header() + ale_rows(self.entries@.subrange(0, i as int)),
            decreases self.entries@.len() - i,
        {
            let e = &self.entries[i];
            push_row(&mut out, e);
            proof {
                let es = self.entries@.subrange(0, i + 1);
                assert(es.drop_last() =~= self.entries@.subrange(0, i as int));
            }
            i = i + 1;
        }
        assert(self.entries@.subrange(0, i as int) =~= self.entries@);
        out
    }

    /// A generator with no rows.
    pub fn new() -> (r: AleGenerator)
        ensures
            r.entries().len() == 0,
    {
        AleGenerator { entries: Vec::new() }
    }

    pub closed spec fn entries(&self) -> Seq<AleEntry> {
        self.entries@
    }

    /// The rows so far.
    pub fn rows(&self) -> (r: &Vec<AleEntry>)
        ensures
            r@ == self.entries(),
    {
        &self.entries
    }

    /// The row for the media file at `file_path`, from the probe's answers.
    pub fn extract_metadata(file_path: &str, probe: &AleProbe) -> (r: Result<AleEntry, String>)
        ensures
            r matches Ok(e) ==> entry_view(e) == entry_of(file_path@, *probe) && e.video_tracks == 1,
            r is Ok,
    {
        let name = clip_name(file_path);
        let tape = tape_name(name.as_str());
        let start_tc = start_timecode(probe.timecode_output.as_str());
        let frames = frames_in_duration(probe.duration_output.as_str());
        let start_frames = timecode_to_frames(start_tc.as_str());
        let end_tc = frames_to_timecode(start_frames + frames);
        let duration = frames_to_timecode(frames);
        let f = trimmed(probe.frame_rate_output.as_str());
        let fps = fps_from_fraction(f.as_str());
        let audio_tracks = track_count(probe.audio_streams_output.as_str());
        Ok(AleEntry { name, tape, start_tc, end_tc, duration, fps, audio_tracks, video_tracks: 1 })
    }

    /// Adds the row for the media file at `file_path`.
    pub fn add_from_file(&mut self, file_path: &str, probe: &AleProbe) -> (r: Result<(), String>)
        ensures
            r is Ok,
            final(self).entries().len() == old(self).entries().len() + 1,
            final(self).entries().subrange(0, old(self).entries().len() as int) == old(self).entries(),
            entry_view(final(self).entries().last()) == entry_of(file_path@, *probe),
    {
        let e = Self::extract_metadata(file_path, probe)?;
        self.entries.push(e);
        assert(self.entries@.subrange(0, old(self).entries@.len() as int) =~= old(self).entries@);
        Ok(())
    }
}

} // verus!
