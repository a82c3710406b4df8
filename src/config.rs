//! Transcoding configuration, codec enumerations and how a configuration
//! becomes the encoder's argument vector.

use vstd::prelude::*;
use vstd::string::*;
use crate::platform::Platform;
use crate::text::{decimal, decimal_string, digit_char, owned, push_char, views};

verus! {

#[derive(Debug, Clone, Copy, PartialEq, Eq, Structural)]
pub enum VideoCodec {
    ProRes,
    ProResKS,
    DNxHD,
    DNxHR,
    H264,
    H265,
    Copy,
}

#[derive(Debug, Clone, Copy, PartialEq, Eq, Structural)]
pub enum AudioCodec {
    PCM16,
    PCM24,
    AAC,
    Copy,
}

#[derive(Debug, Clone, Copy, PartialEq, Eq, Structural)]
pub enum ContainerFormat {
    MOV,
    MP4,
    MXF,
    WAV,
    Auto,
}

/// ProRes profiles, numbered 0 to 5 by the encoder.
#[derive(Debug, Clone, Copy, PartialEq, Eq, Structural)]
pub enum ProResProfile {
    Proxy,
    LT,
    Standard,
    HQ,
    ProRes4444,
    ProRes4444XQ,
}

/// DNxHR profiles; LB, SQ and HQ are 8-bit, HQX and 444 are 10-bit.
#[derive(Debug, Clone, Copy, PartialEq, Eq, Structural)]
pub enum DnxhrProfile {
    LB,
    SQ,
    HQ,
    HQX,
    DNxHR444,
}

pub open spec fn prores_number(p: ProResProfile) -> i32 {
    match p {
        ProResProfile::Proxy => 0,
        ProResProfile::LT => 1,
        ProResProfile::Standard => 2,
        ProResProfile::HQ => 3,
        ProResProfile::ProRes4444 => 4,
        ProResProfile::ProRes4444XQ => 5,
    }
}

pub open spec fn dnxhr_name(p: DnxhrProfile) -> Seq<char> {
    match p {
        DnxhrProfile::LB => "dnxhr_lb"@,
        DnxhrProfile::SQ => "dnxhr_sq"@,
        DnxhrProfile::HQ => "dnxhr_hq"@,
        DnxhrProfile::HQX => "dnxhr_hqx"@,
        DnxhrProfile::DNxHR444 => "dnxhr_444"@,
    }
}

/// Pixel format of a DNxHR profile: 8-bit 4:2:2 for LB, SQ and HQ, 10-bit
/// 4:2:2 for HQX and 444.
pub open spec fn dnxhr_pixel_format(p: DnxhrProfile) -> Seq<char> {
    match p {
        DnxhrProfile::LB | DnxhrProfile::SQ | DnxhrProfile::HQ => "yuv422p"@,
        DnxhrProfile::HQX | DnxhrProfile::DNxHR444 => "yuv422p10le"@,
    }
}

impl ProResProfile {
    /// The encoder's index of this profile.
    pub fn profile_number(&self) -> (r: i32)
        ensures
            r == prores_number(*self),
            0 <= r <= 5,
    {
        match self {
            ProResProfile::Proxy => 0,
            ProResProfile::LT => 1,
            ProResProfile::Standard => 2,
            ProResProfile::HQ => 3,
            ProResProfile::ProRes4444 => 4,
            ProResProfile::ProRes4444XQ => 5,
        }
    }
}

impl DnxhrProfile {
    /// The encoder's name of this profile.
    pub fn as_str(&self) -> (r: &'static str)
        ensures
            r@ == dnxhr_name(*self),
    {
        match self {
            DnxhrProfile::LB => "dnxhr_lb",
            DnxhrProfile::SQ => "dnxhr_sq",
            DnxhrProfile::HQ => "dnxhr_hq",
            DnxhrProfile::HQX => "dnxhr_hqx",
            DnxhrProfile::DNxHR444 => "dnxhr_444",
        }
    }

    /// A human-readable description of this profile.
    pub fn description(&self) -> (r: &'static str)
        ensures
            r@ == dnxhr_description(*self),
    {
        match self {
            DnxhrProfile::LB => "Low Bandwidth (8-bit, ~45 Mbps @ 1080p)",
            DnxhrProfile::SQ => "Standard Quality (8-bit, ~100 Mbps @ 1080p)",
            DnxhrProfile::HQ => "High Quality (8-bit, ~145 Mbps @ 1080p)",
            DnxhrProfile::HQX => "High Quality 10-bit (10-bit, ~220 Mbps @ 1080p)",
            DnxhrProfile::DNxHR444 => "Highest Quality 4:4:4 (10-bit, ~440 Mbps @ 1080p)",
        }
    }

    /// The pixel format that this profile is encoded with.
    pub fn pixel_format(&self) -> (r: &'static str)
        ensures
            r@ == dnxhr_pixel_format(*self),
    {
        match self {
            DnxhrProfile::LB | DnxhrProfile::SQ | DnxhrProfile::HQ => "yuv422p",
            DnxhrProfile::HQX | DnxhrProfile::DNxHR444 => "yuv422p10le",
        }
    }
}

pub open spec fn dnxhr_description(p: DnxhrProfile) -> Seq<char> {
    match p {
        DnxhrProfile::LB => "Low Bandwidth (8-bit, ~45 Mbps @ 1080p)"@,
        DnxhrProfile::SQ => "Standard Quality (8-bit, ~100 Mbps @ 1080p)"@,
        DnxhrProfile::HQ => "High Quality (8-bit, ~145 Mbps @ 1080p)"@,
        DnxhrProfile::HQX => "High Quality 10-bit (10-bit, ~220 Mbps @ 1080p)"@,
        DnxhrProfile::DNxHR444 => "Highest Quality 4:4:4 (10-bit, ~440 Mbps @ 1080p)"@,
    }
}

/// Options of one transcode. `frame_rate` is in thousandths of a frame per
/// second (23976 is 23.976 fps).
#[derive(Debug, Clone)]
pub struct TranscodeConfig {
    pub video_codec: VideoCodec,
    pub audio_codec: AudioCodec,
    pub container: ContainerFormat,
    pub video_bitrate: Option<String>,
    pub audio_bitrate: Option<String>,
    pub audio_sample_rate: Option<u32>,
    pub resolution: Option<String>,
    pub frame_rate: Option<u32>,
    pub prores_profile: Option<ProResProfile>,
    pub dnxhr_profile: Option<DnxhrProfile>,
    pub extra_args: Vec<String>,
    pub hw_accel: bool,
    pub extract_bwf: bool,
    pub map_all_audio: bool,
    pub lut_path: Option<String>,
    pub create_ale: bool,
}

/// The default configuration: ProRes HQ video, 24-bit PCM audio at 48 kHz
/// in MOV, hardware decoding on, all audio streams mapped.
pub open spec fn is_default_config(c: TranscodeConfig) -> bool {
    &&& c.video_codec == VideoCodec::ProResKS
    &&& c.audio_codec == AudioCodec::PCM24
    &&& c.container == ContainerFormat::MOV
    &&& c.video_bitrate is None
    &&& c.audio_bitrate is None
    &&& c.audio_sample_rate == Some(48000u32)
    &&& c.resolution is None
    &&& c.frame_rate is None
    &&& c.prores_profile == Some(ProResProfile::HQ)
    &&& c.dnxhr_profile is None
    &&& c.extra_args@.len() == 0
    &&& c.hw_accel
    &&& !c.extract_bwf
    &&& c.map_all_audio
    &&& c.lut_path is None
    &&& !c.create_ale
}

impl Default for TranscodeConfig {
    fn default() -> (r: Self)
        ensures
            is_default_config(r),
    {
        TranscodeConfig {
            video_codec: VideoCodec::ProResKS,
            audio_codec: AudioCodec::PCM24,
            container: ContainerFormat::MOV,
            video_bitrate: None,
            audio_bitrate: None,
            audio_sample_rate: Some(48000),
            resolution: None,
            frame_rate: None,
            prores_profile: Some(ProResProfile::HQ),
            dnxhr_profile: None,
            extra_args: Vec::new(),
            hw_accel: true,
            extract_bwf: false,
            map_all_audio: true,
            lut_path: None,
            create_ale: false,
        }
    }
}

/// A frame rate in thousandths written as a decimal, without trailing zeros
/// in the fraction (23976 is "23.976", 25000 is "25", 29970 is "29.97").
pub open spec fn rate_text(milli: nat) -> Seq<char> {
    let f = milli % 1000;
    decimal(milli / 1000) + if f == 0 {
        Seq::<char>::empty()
    } else if f % 100 == 0 {
        seq!['.', digit_char(f / 100)]
    } else if f % 10 == 0 {
        seq!['.', digit_char(f / 100), digit_char((f / 10) % 10)]
    } else {
        seq!['.', digit_char(f / 100), digit_char((f / 10) % 10), digit_char(f % 10)]
    }
}

/// Writes a frame rate given in thousandths as a decimal.
pub fn rate_string(milli: u32) -> (r: String)
    ensures
        r@ == rate_text(milli as nat),
{
    let mut s = decimal_string((milli / 1000) as u64);
    let f = milli % 1000;
    if f != 0 {
        push_char(&mut s, '.');
        push_char(&mut s, ((f / 100) as u8 + 48) as char);
        if f % 100 != 0 {
            push_char(&mut s, (((f / 10) % 10) as u8 + 48) as char);
            if f % 10 != 0 {
                push_char(&mut s, ((f % 10) as u8 + 48) as char);
            }
        }
    }
    assert(s@ =~= rate_text(milli as nat));
    s
}

/// The hardware decoder arguments, which precede the input.
pub open spec fn hw_args(c: TranscodeConfig, p: Platform) -> Seq<Seq<char>> {
    if c.hw_accel {
        match p {
            Platform::MacOS => seq!["-hwaccel"@, "videotoolbox"@],
            Platform::Linux => seq!["-hwaccel"@, "vaapi"@],
            Platform::Windows => seq!["-hwaccel"@, "d3d11va"@],
            Platform::Unknown => Seq::empty(),
        }
    } else {
        Seq::empty()
    }
}

/// The video codec arguments.
pub open spec fn video_args(c: TranscodeConfig, p: Platform) -> Seq<Seq<char>> {
    let mac_hw = c.hw_accel && p == Platform::MacOS;
    match c.video_codec {
        VideoCodec::ProRes => seq!["-c:v"@, "prores"@],
        VideoCodec::ProResKS => seq!["-c:v"@, "prores_ks"@] + match c.prores_profile {
            Some(pp) => seq!["-profile:v"@, decimal(prores_number(pp) as nat)],
            None => Seq::empty(),
        },
        VideoCodec::DNxHD => seq!["-c:v"@, "dnxhd"@],
        VideoCodec::DNxHR => seq!["-c:v"@, "dnxhd"@] + match c.dnxhr_profile {
            Some(dp) => seq!["-profile:v"@, dnxhr_name(dp), "-pix_fmt"@, dnxhr_pixel_format(dp)],
            None => Seq::empty(),
        },
        VideoCodec::H264 => seq!["-c:v"@, if mac_hw { "h264_videotoolbox"@ } else { "libx264"@ }]
            + if c.hw_accel { Seq::empty() } else { seq!["-preset"@, "medium"@] },
        VideoCodec::H265 => seq!["-c:v"@, if mac_hw { "hevc_videotoolbox"@ } else { "libx265"@ }],
        VideoCodec::Copy => seq!["-c:v"@, "copy"@],
    }
}

/// A flag followed by its value, when the value is present.
pub open spec fn opt_args(flag: Seq<char>, v: Option<String>) -> Seq<Seq<char>> {
    match v {
        Some(s) => seq![flag, s@],
        None => Seq::empty(),
    }
}

/// Bitrate, resolution, frame rate and LUT filter arguments.
pub open spec fn picture_args(c: TranscodeConfig) -> Seq<Seq<char>> {
    opt_args("-b:v"@, c.video_bitrate) + opt_args("-s"@, c.resolution)
        + match c.frame_rate {
            Some(r) => seq!["-r"@, rate_text(r as nat)],
            None => Seq::empty(),
        }
        + match c.lut_path {
            Some(l) => seq!["-vf"@, "lut3d=file='"@ + l@ + "'"@],
            None => Seq::empty(),
        }
}

pub open spec fn audio_codec_name(a: AudioCodec) -> Seq<char> {
    match a {
        AudioCodec::PCM16 => "pcm_s16le"@,
        AudioCodec::PCM24 => "pcm_s24le"@,
        AudioCodec::AAC => "aac"@,
        AudioCodec::Copy => "copy"@,
    }
}

/// Audio codec, sample rate, bitrate and stream mapping arguments.
pub open spec fn audio_args(c: TranscodeConfig) -> Seq<Seq<char>> {
    seq!["-c:a"@, audio_codec_name(c.audio_codec)]
        + match c.audio_sample_rate {
            Some(r) => seq!["-ar"@, decimal(r as nat)],
            None => Seq::empty(),
        }
        + opt_args("-b:a"@, c.audio_bitrate)
        + if c.map_all_audio { seq!["-map"@, "0:v:0"@, "-map"@, "0:a"@] } else { Seq::empty() }
}

/// Thread count and container arguments.
pub open spec fn output_format_args(c: TranscodeConfig) -> Seq<Seq<char>> {
    seq!["-threads"@, "0"@] + match c.container {
        ContainerFormat::MOV => seq!["-f"@, "mov"@],
        ContainerFormat::MP4 => seq!["-f"@, "mp4"@],
        ContainerFormat::MXF => seq!["-f"@, "mxf"@],
        ContainerFormat::WAV => seq!["-f"@, "wav"@],
        ContainerFormat::Auto => Seq::empty(),
    }
}

/// The encoder's argument vector for a configuration on a platform, in the
/// order hardware decoder, input, overwrite, video codec, bitrate, size,
/// rate, LUT, audio codec, audio rate and bitrate, mapping, threads,
/// container, extra arguments, output.
pub open spec fn ffmpeg_args(c: TranscodeConfig, p: Platform, input: Seq<char>, output: Seq<char>) -> Seq<Seq<char>> {
    hw_args(c, p) + seq!["-i"@, input, "-y"@] + video_args(c, p) + picture_args(c) + audio_args(c)
        + output_format_args(c) + views(c.extra_args@) + seq![output]
}

proof fn lemma_concat_lacks(a: Seq<Seq<char>>, b: Seq<Seq<char>>, x: Seq<char>)
    requires
        !a.contains(x),
        !b.contains(x),
    ensures
        !(a + b).contains(x),
{
    assert forall|i: int| 0 <= i < (a + b).len() implies (a + b)[i] != x by {
        if i < a.len() {
            assert((a + b)[i] == a[i]);
            assert(!(a[i] == x)) by {
                if a[i] == x {
                    assert(a.contains(x));
                }
            }
        } else {
            assert((a + b)[i] == b[i - a.len()]);
            if b[i - a.len()] == x {
                assert(b.contains(x));
            }
        }
    }
}

proof fn lemma_decimal_starts_with_digit(n: nat)
    ensures
        decimal(n).len() > 0,
        '0' <= decimal(n)[0] <= '9',
    decreases n,
{
    if n >= 10 {
        lemma_decimal_starts_with_digit(n / 10);
        assert(decimal(n)[0] == decimal(n / 10)[0]);
    }
}

proof fn lemma_lacks2(a: Seq<char>, b: Seq<char>, x: Seq<char>)
    requires
        a != x,
        b != x,
    ensures
        !seq![a, b].contains(x),
{
    assert forall|i: int| 0 <= i < 2 implies seq![a, b][i] != x by {
        if i == 0 { assert(seq![a, b][i] == a); } else { assert(seq![a, b][i] == b); }
    }
}

proof fn lemma_lacks1(a: Seq<char>, x: Seq<char>)
    requires
        a != x,
    ensures
        !seq![a].contains(x),
{
    assert forall|i: int| 0 <= i < 1 implies seq![a][i] != x by {
        assert(seq![a][i] == a);
    }
}

proof fn lemma_profile_flag_text()
    ensures
        "-profile:v"@.len() == 10,
        "-profile:v"@[0] == '-',
        "-profile:v"@[1] == 'p',
{
    broadcast use vstd::string::group_string_axioms;
    reveal_strlit("-profile:v");
}

proof fn lemma_hw_lacks(c: TranscodeConfig, p: Platform)
    ensures
        !hw_args(c, p).contains("-profile:v"@),
{
    broadcast use vstd::string::group_string_axioms;
    lemma_profile_flag_text();
    reveal_strlit("-hwaccel");
    reveal_strlit("videotoolbox");
    reveal_strlit("vaapi");
    reveal_strlit("d3d11va");
    let x = "-profile:v"@;
    if c.hw_accel {
        match p {
            Platform::MacOS => lemma_lacks2("-hwaccel"@, "videotoolbox"@, x),
            Platform::Linux => lemma_lacks2("-hwaccel"@, "vaapi"@, x),
            Platform::Windows => lemma_lacks2("-hwaccel"@, "d3d11va"@, x),
            Platform::Unknown => {},
        }
    }
}

proof fn lemma_io_lacks(input: Seq<char>)
    requires
        input != "-profile:v"@,
    ensures
        !seq!["-i"@, input, "-y"@].contains("-profile:v"@),
{
    broadcast use vstd::string::group_string_axioms;
    lemma_profile_flag_text();
    reveal_strlit("-i");
    reveal_strlit("-y");
    let io = seq!["-i"@, input, "-y"@];
    assert forall|i: int| 0 <= i < 3 implies io[i] != "-profile:v"@ by {
        if i == 0 { assert(io[i].len() == 2); } else if i == 2 { assert(io[i].len() == 2); }
    }
}

proof fn lemma_video_lacks(c: TranscodeConfig, p: Platform)
    requires
        c.video_codec != VideoCodec::ProResKS,
        c.video_codec != VideoCodec::DNxHR,
    ensures
        !video_args(c, p).contains("-profile:v"@),
{
    broadcast use vstd::string::group_string_axioms;
    lemma_profile_flag_text();
    reveal_strlit("-c:v");
    reveal_strlit("prores");
    reveal_strlit("dnxhd");
    reveal_strlit("h264_videotoolbox");
    reveal_strlit("libx264");
    reveal_strlit("-preset");
    reveal_strlit("medium");
    reveal_strlit("hevc_videotoolbox");
    reveal_strlit("libx265");
    reveal_strlit("copy");
    let x = "-profile:v"@;
    let mac_hw = c.hw_accel && p == Platform::MacOS;
    let va = video_args(c, p);
    assert forall|i: int| 0 <= i < va.len() implies va[i] != x by {
        match c.video_codec {
            VideoCodec::H264 => {
                if !c.hw_accel {
                    assert(va =~= seq!["-c:v"@, "libx264"@, "-preset"@, "medium"@]);
                } else {
                    assert(va =~= seq!["-c:v"@, if mac_hw { "h264_videotoolbox"@ } else { "libx264"@ }]);
                }
            },
            _ => {},
        }
    }
}

proof fn lemma_picture_lacks(c: TranscodeConfig)
    requires
        opt_text(c.video_bitrate) != Some("-profile:v"@),
        opt_text(c.resolution) != Some("-profile:v"@),
    ensures
        !picture_args(c).contains("-profile:v"@),
{
    broadcast use vstd::string::group_string_axioms;
    lemma_profile_flag_text();
    reveal_strlit("-b:v");
    reveal_strlit("-s");
    reveal_strlit("-r");
    reveal_strlit("-vf");
    reveal_strlit("lut3d=file='");
    let x = "-profile:v"@;
    let fr = match c.frame_rate {
        Some(r) => seq!["-r"@, rate_text(r as nat)],
        None => Seq::empty(),
    };
    if let Some(r) = c.frame_rate {
        lemma_decimal_starts_with_digit(r as nat / 1000);
        assert(rate_text(r as nat)[0] == decimal(r as nat / 1000)[0]);
        assert(rate_text(r as nat)[0] != x[0]);
        lemma_lacks2("-r"@, rate_text(r as nat), x);
    }
    let lut = match c.lut_path {
        Some(l) => seq!["-vf"@, "lut3d=file='"@ + l@ + "'"@],
        None => Seq::empty(),
    };
    if let Some(l) = c.lut_path {
        let t = "lut3d=file='"@ + l@ + "'"@;
        assert(t[1] == 'u');
        lemma_lacks2("-vf"@, t, x);
    }
    let vb = opt_args("-b:v"@, c.video_bitrate);
    let rs = opt_args("-s"@, c.resolution);
    if let Some(v) = c.video_bitrate { lemma_lacks2("-b:v"@, v@, x); }
    if let Some(v) = c.resolution { lemma_lacks2("-s"@, v@, x); }
    lemma_concat_lacks(vb, rs, x);
    lemma_concat_lacks(vb + rs, fr, x);
    lemma_concat_lacks(vb + rs + fr, lut, x);
}

proof fn lemma_audio_lacks(c: TranscodeConfig)
    requires
        opt_text(c.audio_bitrate) != Some("-profile:v"@),
    ensures
        !audio_args(c).contains("-profile:v"@),
{
    broadcast use vstd::string::group_string_axioms;
    lemma_profile_flag_text();
    reveal_strlit("-c:a");
    reveal_strlit("pcm_s16le");
    reveal_strlit("pcm_s24le");
    reveal_strlit("aac");
    reveal_strlit("copy");
    reveal_strlit("-ar");
    reveal_strlit("-b:a");
    reveal_strlit("-map");
    reveal_strlit("0:v:0");
    reveal_strlit("0:a");
    let x = "-profile:v"@;
    let ac = seq!["-c:a"@, audio_codec_name(c.audio_codec)];
    lemma_lacks2("-c:a"@, audio_codec_name(c.audio_codec), x);
    let ar = match c.audio_sample_rate {
        Some(r) => seq!["-ar"@, decimal(r as nat)],
        None => Seq::empty(),
    };
    if let Some(r) = c.audio_sample_rate {
        lemma_decimal_starts_with_digit(r as nat);
        assert(decimal(r as nat)[0] != x[0]);
        lemma_lacks2("-ar"@, decimal(r as nat), x);
    }
    let ab = opt_args("-b:a"@, c.audio_bitrate);
    if let Some(v) = c.audio_bitrate { lemma_lacks2("-b:a"@, v@, x); }
    let mp = if c.map_all_audio { seq!["-map"@, "0:v:0"@, "-map"@, "0:a"@] } else { Seq::empty() };
    assert forall|i: int| 0 <= i < mp.len() implies mp[i] != x by {}
    lemma_concat_lacks(ac, ar, x);
    lemma_concat_lacks(ac + ar, ab, x);
    lemma_concat_lacks(ac + ar + ab, mp, x);
}

proof fn lemma_output_format_lacks(c: TranscodeConfig)
    ensures
        !output_format_args(c).contains("-profile:v"@),
{
    broadcast use vstd::string::group_string_axioms;
    lemma_profile_flag_text();
    reveal_strlit("-threads");
    reveal_strlit("0");
    reveal_strlit("-f");
    reveal_strlit("mov");
    reveal_strlit("mp4");
    reveal_strlit("mxf");
    reveal_strlit("wav");
    let of = output_format_args(c);
    assert forall|i: int| 0 <= i < of.len() implies of[i] != "-profile:v"@ by {}
}

/// The encoder is asked for a profile only with a codec that has profiles
/// (ProRes via prores_ks, DNxHR): the builder itself never writes
/// `-profile:v` for another codec. Arguments taken over from the caller
/// (paths, bitrates, size, extra arguments) are left out of the claim.
pub proof fn law_profile_flag_needs_profiled_codec(c: TranscodeConfig, p: Platform, input: Seq<char>, output: Seq<char>)
    requires
        c.video_codec != VideoCodec::ProResKS,
        c.video_codec != VideoCodec::DNxHR,
        input != "-profile:v"@,
        output != "-profile:v"@,
        opt_text(c.video_bitrate) != Some("-profile:v"@),
        opt_text(c.audio_bitrate) != Some("-profile:v"@),
        opt_text(c.resolution) != Some("-profile:v"@),
        forall|i: int| 0 <= i < c.extra_args@.len() ==> (#[trigger] c.extra_args@[i])@ != "-profile:v"@,
    ensures
        !ffmpeg_args(c, p, input, output).contains("-profile:v"@),
{
    let x = "-profile:v"@;
    let hw = hw_args(c, p);
    let io = seq!["-i"@, input, "-y"@];
    let va = video_args(c, p);
    let of = output_format_args(c);
    lemma_hw_lacks(c, p);
    lemma_io_lacks(input);
    lemma_video_lacks(c, p);
    lemma_picture_lacks(c);
    lemma_audio_lacks(c);
    lemma_output_format_lacks(c);
    let ex = views(c.extra_args@);
    assert forall|i: int| 0 <= i < ex.len() implies ex[i] != x by {
        assert(ex[i] == c.extra_args@[i]@);
    }
    lemma_lacks1(output, x);
    lemma_concat_lacks(hw, io, x);
    lemma_concat_lacks(hw + io, va, x);
    lemma_concat_lacks(hw + io + va, picture_args(c), x);
    lemma_concat_lacks(hw + io + va + picture_args(c), audio_args(c), x);
    lemma_concat_lacks(hw + io + va + picture_args(c) + audio_args(c), of, x);
    lemma_concat_lacks(hw + io + va + picture_args(c) + audio_args(c) + of, ex, x);
    lemma_concat_lacks(hw + io + va + picture_args(c) + audio_args(c) + of + ex, seq![output], x);
}

fn push_str(args: &mut Vec<String>, s: &str)
    ensures
        views(final(args)@) == views(old(args)@).push(s@),
{
    args.push(owned(s));
    assert(views(args@) =~= views(old(args)@).push(s@));
}

fn push_string(args: &mut Vec<String>, s: String)
    ensures
        views(final(args)@) == views(old(args)@).push(s@),
{
    args.push(s);
    assert(views(args@) =~= views(old(args)@).push(s@));
}

fn push_opt(args: &mut Vec<String>, flag: &str, v: &Option<String>)
    ensures
        views(final(args)@) == views(old(args)@) + opt_args(flag@, *v),
{
    match v {
        Some(s) => {
            push_str(args, flag);
            push_string(args, s.clone());
            assert(views(args@) =~= views(old(args)@) + opt_args(flag@, *v));
        },
        None => {
            assert(views(args@) =~= views(old(args)@) + opt_args(flag@, *v));
        },
    }
}

impl TranscodeConfig {
    fn push_hw(&self, platform: Platform, args: &mut Vec<String>)
        ensures
            views(final(args)@) == views(old(args)@) + hw_args(*self, platform),
    {
        if self.hw_accel {
            match platform {
                Platform::MacOS => {
                    push_str(args, "-hwaccel");
                    push_str(args, "videotoolbox");
                },
                Platform::Linux => {
                    push_str(args, "-hwaccel");
                    push_str(args, "vaapi");
                },
                Platform::Windows => {
                    push_str(args, "-hwaccel");
                    push_str(args, "d3d11va");
                },
                Platform::Unknown => {},
            }
        }
        assert(views(args@) =~= views(old(args)@) + hw_args(*self, platform));
    }

    fn push_video(&self, platform: Platform, args: &mut Vec<String>)
        ensures
            views(final(args)@) == views(old(args)@) + video_args(*self, platform),
    {
        let mac_hw = self.hw_accel && platform == Platform::MacOS;
        push_str(args, "-c:v");
        match self.video_codec {
            VideoCodec::ProRes => push_str(args, "prores"),
            VideoCodec::ProResKS => {
                push_str(args, "prores_ks");
                if let Some(pp) = self.prores_profile {
                    push_str(args, "-profile:v");
                    let n = pp.profile_number();
                    push_string(args, decimal_string(n as u64));
                }
            },
            VideoCodec::DNxHD => push_str(args, "dnxhd"),
            VideoCodec::DNxHR => {
                push_str(args, "dnxhd");
                if let Some(dp) = self.dnxhr_profile {
                    push_str(args, "-profile:v");
                    push_str(args, dp.as_str());
                    push_str(args, "-pix_fmt");
                    push_str(args, dp.pixel_format());
                }
            },
            VideoCodec::H264 => {
                push_str(args, if mac_hw { "h264_videotoolbox" } else { "libx264" });
                if !self.hw_accel {
                    push_str(args, "-preset");
                    push_str(args, "medium");
                }
            },
            VideoCodec::H265 => push_str(args, if mac_hw { "hevc_videotoolbox" } else { "libx265" }),
            VideoCodec::Copy => push_str(args, "copy"),
        }
        assert(views(args@) =~= views(old(args)@) + video_args(*self, platform));
    }

    fn push_picture(&self, args: &mut Vec<String>)
        ensures
            views(final(args)@) == views(old(args)@) + picture_args(*self),
    {
        let ghost a0 = views(args@);
        push_opt(args, "-b:v", &self.video_bitrate);
        push_opt(args, "-s", &self.resolution);
        let ghost a2 = views(args@);
        if let Some(r) = self.frame_rate {
            push_str(args, "-r");
            push_string(args, rate_string(r));
        }
        let ghost a3 = views(args@);
        if let Some(l) = &self.lut_path {
            push_str(args, "-vf");
            let mut f = owned("lut3d=file='");
            f.append(l.as_str());
            f.append("'");
            push_string(args, f);
        }
        assert(views(args@) =~= a0 + picture_args(*self));
    }

    fn push_audio(&self, args: &mut Vec<String>)
        ensures
            views(final(args)@) == views(old(args)@) + audio_args(*self),
    {
        let ghost a0 = views(args@);
        push_str(args, "-c:a");
        push_str(args, match self.audio_codec {
            AudioCodec::PCM16 => "pcm_s16le",
            AudioCodec::PCM24 => "pcm_s24le",
            AudioCodec::AAC => "aac",
            AudioCodec::Copy => "copy",
        });
        if let Some(r) = self.audio_sample_rate {
            push_str(args, "-ar");
            push_string(args, decimal_string(r as u64));
        }
        push_opt(args, "-b:a", &self.audio_bitrate);
        if self.map_all_audio {
            push_str(args, "-map");
            push_str(args, "0:v:0");
            push_str(args, "-map");
            push_str(args, "0:a");
        }
        assert(views(args@) =~= a0 + audio_args(*self));
    }

    fn push_output_format(&self, args: &mut Vec<String>)
        ensures
            views(final(args)@) == views(old(args)@) + output_format_args(*self),
    {
        push_str(args, "-threads");
        push_str(args, "0");
        match self.container {
            ContainerFormat::MOV => {
                push_str(args, "-f");
                push_str(args, "mov");
            },
            ContainerFormat::MP4 => {
                push_str(args, "-f");
                push_str(args, "mp4");
            },
            ContainerFormat::MXF => {
                push_str(args, "-f");
                push_str(args, "mxf");
            },
            ContainerFormat::WAV => {
                push_str(args, "-f");
                push_str(args, "wav");
            },
            ContainerFormat::Auto => {},
        }
        assert(views(args@) =~= views(old(args)@) + output_format_args(*self));
    }

    fn push_extra(&self, args: &mut Vec<String>)
        ensures
            views(final(args)@) == views(old(args)@) + views(self.extra_args@),
    {
        let ghost a0 = views(args@);
        let mut i: usize = 0;
        while i < self.extra_args.len()
            invariant
                i <= self.extra_args@.len(),
                views(args@) == a0 + views(self.extra_args@.subrange(0, i as int)),
            decreases self.extra_args@.len() - i,
        {
            push_string(args, self.extra_args[i].clone());
            i = i + 1;
            assert(views(args@) =~= a0 + views(self.extra_args@.subrange(0, i as int)));
        }
        assert(self.extra_args@.subrange(0, i as int) =~= self.extra_args@);
    }

    /// The encoder's arguments for transcoding `input` to `output` on
    /// `platform`, which selects the hardware decoder and encoders.
    pub fn to_ffmpeg_args(&self, platform: Platform, input: &str, output: &str) -> (r: Vec<String>)
        ensures
            views(r@) == ffmpeg_args(*self, platform, input@, output@),
    {
        let mut args: Vec<String> = Vec::new();
        self.push_hw(platform, &mut args);
        push_str(&mut args, "-i");
        push_str(&mut args, input);
        push_str(&mut args, "-y");
        self.push_video(platform, &mut args);
        self.push_picture(&mut args);
        self.push_audio(&mut args);
        self.push_output_format(&mut args);
        self.push_extra(&mut args);
        push_str(&mut args, output);
        assert(views(args@) =~= ffmpeg_args(*self, platform, input@, output@));
        args
    }
}

/// A named configuration from the built-in catalog.
#[derive(Debug, Clone)]
pub struct CodecPreset {
    pub name: String,
    pub description: String,
    pub config: TranscodeConfig,
}

pub open spec fn opt_text(o: Option<String>) -> Option<Seq<char>> {
    match o {
        Some(s) => Some(s@),
        None => None,
    }
}

/// A catalog configuration: the given codecs, container, bitrates and
/// profiles, with 48 kHz audio, hardware decoding and every audio stream
/// mapped, and nothing else set.
pub open spec fn preset_shape(c: TranscodeConfig, v: VideoCodec, a: AudioCodec, k: ContainerFormat,
    vbr: Option<Seq<char>>, abr: Option<Seq<char>>, pp: Option<ProResProfile>, dp: Option<DnxhrProfile>) -> bool {
    &&& c.video_codec == v
    &&& c.audio_codec == a
    &&& c.container == k
    &&& opt_text(c.video_bitrate) == vbr
    &&& opt_text(c.audio_bitrate) == abr
    &&& c.audio_sample_rate == Some(48000u32)
    &&& c.resolution is None
    &&& c.frame_rate is None
    &&& c.prores_profile == pp
    &&& c.dnxhr_profile == dp
    &&& c.extra_args@.len() == 0
    &&& c.hw_accel
    &&& !c.extract_bwf
    &&& c.map_all_audio
    &&& c.lut_path is None
    &&& !c.create_ale
}

fn opt_owned(s: Option<&str>) -> (r: Option<String>)
    ensures
        opt_text(r) == (match s {
            Some(t) => Some(t@),
            None => None::<Seq<char>>,
        }),
{
    match s {
        Some(t) => Some(owned(t)),
        None => None,
    }
}

fn preset(name: &str, description: &str, v: VideoCodec, a: AudioCodec, k: ContainerFormat, vbr: Option<&str>,
    abr: Option<&str>, pp: Option<ProResProfile>, dp: Option<DnxhrProfile>) -> (r: CodecPreset)
    ensures
        r.name@ == name@,
        r.description@ == description@,
        preset_shape(r.config, v, a, k, match vbr {
            Some(t) => Some(t@),
            None => None::<Seq<char>>,
        }, match abr {
            Some(t) => Some(t@),
            None => None::<Seq<char>>,
        }, pp, dp),
{
    CodecPreset {
        name: owned(name),
        description: owned(description),
        config: TranscodeConfig {
            video_codec: v,
            audio_codec: a,
            container: k,
            video_bitrate: opt_owned(vbr),
            audio_bitrate: opt_owned(abr),
            audio_sample_rate: Some(48000),
            resolution: None,
            frame_rate: None,
            prores_profile: pp,
            dnxhr_profile: dp,
            extra_args: Vec::new(),
            hw_accel: true,
            extract_bwf: false,
            map_all_audio: true,
            lut_path: None,
            create_ale: false,
        },
    }
}

impl CodecPreset {
    /// The "ProRes HQ" preset: High Quality ProRes for broadcast.
    pub fn prores_hq() -> (r: CodecPreset)
        ensures
            r.name@ == "ProRes HQ"@,
            r.description@ == "High Quality ProRes for broadcast"@,
            preset_shape(r.config, VideoCodec::ProResKS, AudioCodec::PCM24, ContainerFormat::MOV, None::<Seq<char>>, None::<Seq<char>>,
                Some(ProResProfile::HQ), None),
    {
        preset("ProRes HQ", "High Quality ProRes for broadcast", VideoCodec::ProResKS, AudioCodec::PCM24, ContainerFormat::MOV, None, None,
            Some(ProResProfile::HQ), None)
    }

    /// The "ProRes 422" preset: Standard ProRes 422.
    pub fn prores_422() -> (r: CodecPreset)
        ensures
            r.name@ == "ProRes 422"@,
            r.description@ == "Standard ProRes 422"@,
            preset_shape(r.config, VideoCodec::ProResKS, AudioCodec::PCM24, ContainerFormat::MOV, None::<Seq<char>>, None::<Seq<char>>,
                Some(ProResProfile::Standard), None),
    {
        preset("ProRes 422", "Standard ProRes 422", VideoCodec::ProResKS, AudioCodec::PCM24, ContainerFormat::MOV, None, None,
            Some(ProResProfile::Standard), None)
    }

    /// The "ProRes LT" preset: ProRes LT for offline editing.
    pub fn prores_lt() -> (r: CodecPreset)
        ensures
            r.name@ == "ProRes LT"@,
            r.description@ == "ProRes LT for offline editing"@,
            preset_shape(r.config, VideoCodec::ProResKS, AudioCodec::PCM24, ContainerFormat::MOV, None::<Seq<char>>, None::<Seq<char>>,
                Some(ProResProfile::LT), None),
    {
        preset("ProRes LT", "ProRes LT for offline editing", VideoCodec::ProResKS, AudioCodec::PCM24, ContainerFormat::MOV, None, None,
            Some(ProResProfile::LT), None)
    }

    /// The "H.264 High" preset: H.264 high quality for delivery.
    pub fn h264_high() -> (r: CodecPreset)
        ensures
            r.name@ == "H.264 High"@,
            r.description@ == "H.264 high quality for delivery"@,
            preset_shape(r.config, VideoCodec::H264, AudioCodec::AAC, ContainerFormat::MP4, Some("20M"@), Some("320k"@),
                None, None),
    {
        preset("H.264 High", "H.264 high quality for delivery", VideoCodec::H264, AudioCodec::AAC, ContainerFormat::MP4, Some("20M"), Some("320k"),
            None, None)
    }

    /// The "DNxHR HQX" preset: Avid DNxHR HQX 10-bit for 4K/UHD editing.
    pub fn dnxhr_hqx() -> (r: CodecPreset)
        ensures
            r.name@ == "DNxHR HQX"@,
            r.description@ == "Avid DNxHR HQX 10-bit for 4K/UHD editing"@,
            preset_shape(r.config, VideoCodec::DNxHR, AudioCodec::PCM24, ContainerFormat::MOV, None::<Seq<char>>, None::<Seq<char>>,
                None, Some(DnxhrProfile::HQX)),
    {
        preset("DNxHR HQX", "Avid DNxHR HQX 10-bit for 4K/UHD editing", VideoCodec::DNxHR, AudioCodec::PCM24, ContainerFormat::MOV, None, None,
            None, Some(DnxhrProfile::HQX))
    }

    /// The "DNxHR HQ" preset: Avid DNxHR HQ 8-bit for 4K/UHD editing.
    pub fn dnxhr_hq() -> (r: CodecPreset)
        ensures
            r.name@ == "DNxHR HQ"@,
            r.description@ == "Avid DNxHR HQ 8-bit for 4K/UHD editing"@,
            preset_shape(r.config, VideoCodec::DNxHR, AudioCodec::PCM24, ContainerFormat::MOV, None::<Seq<char>>, None::<Seq<char>>,
                None, Some(DnxhrProfile::HQ)),
    {
        preset("DNxHR HQ", "Avid DNxHR HQ 8-bit for 4K/UHD editing", VideoCodec::DNxHR, AudioCodec::PCM24, ContainerFormat::MOV, None, None,
            None, Some(DnxhrProfile::HQ))
    }

    /// The "DNxHR SQ" preset: Avid DNxHR SQ for offline editing.
    pub fn dnxhr_sq() -> (r: CodecPreset)
        ensures
            r.name@ == "DNxHR SQ"@,
            r.description@ == "Avid DNxHR SQ for offline editing"@,
            preset_shape(r.config, VideoCodec::DNxHR, AudioCodec::PCM24, ContainerFormat::MOV, None::<Seq<char>>, None::<Seq<char>>,
                None, Some(DnxhrProfile::SQ)),
    {
        preset("DNxHR SQ", "Avid DNxHR SQ for offline editing", VideoCodec::DNxHR, AudioCodec::PCM24, ContainerFormat::MOV, None, None,
            None, Some(DnxhrProfile::SQ))
    }

    /// The "DNxHR LB (Fast)" preset: Avid DNxHR LB with hardware acceleration - FASTEST!.
    pub fn dnxhr_lb_fast() -> (r: CodecPreset)
        ensures
            r.name@ == "DNxHR LB (Fast)"@,
            r.description@ == "Avid DNxHR LB with hardware acceleration - FASTEST!"@,
            preset_shape(r.config, VideoCodec::DNxHR, AudioCodec::PCM24, ContainerFormat::MOV, None::<Seq<char>>, None::<Seq<char>>,
                None, Some(DnxhrProfile::LB)),
    {
        preset("DNxHR LB (Fast)", "Avid DNxHR LB with hardware acceleration - FASTEST!", VideoCodec::DNxHR, AudioCodec::PCM24, ContainerFormat::MOV, None, None,
            None, Some(DnxhrProfile::LB))
    }

    /// The "H.264 (Fast HW)" preset: Hardware-accelerated H.264 for fast delivery/proxies.
    pub fn h264_fast() -> (r: CodecPreset)
        ensures
            r.name@ == "H.264 (Fast HW)"@,
            r.description@ == "Hardware-accelerated H.264 for fast delivery/proxies"@,
            preset_shape(r.config, VideoCodec::H264, AudioCodec::AAC, ContainerFormat::MP4, Some("15M"@), Some("256k"@),
                None, None),
    {
        preset("H.264 (Fast HW)", "Hardware-accelerated H.264 for fast delivery/proxies", VideoCodec::H264, AudioCodec::AAC, ContainerFormat::MP4, Some("15M"), Some("256k"),
            None, None)
    }

    /// The "H.264 HQ (Fast HW)" preset: Hardware-accelerated H.264 high quality for delivery.
    pub fn h264_hq_fast() -> (r: CodecPreset)
        ensures
            r.name@ == "H.264 HQ (Fast HW)"@,
            r.description@ == "Hardware-accelerated H.264 high quality for delivery"@,
            preset_shape(r.config, VideoCodec::H264, AudioCodec::AAC, ContainerFormat::MP4, Some("25M"@), Some("320k"@),
                None, None),
    {
        preset("H.264 HQ (Fast HW)", "Hardware-accelerated H.264 high quality for delivery", VideoCodec::H264, AudioCodec::AAC, ContainerFormat::MP4, Some("25M"), Some("320k"),
            None, None)
    }

    /// The "HEVC/H.265 (Fast HW)" preset: Hardware-accelerated HEVC for best compression - half the size of H.264!.
    pub fn hevc_fast() -> (r: CodecPreset)
        ensures
            r.name@ == "HEVC/H.265 (Fast HW)"@,
            r.description@ == "Hardware-accelerated HEVC for best compression - half the size of H.264!"@,
            preset_shape(r.config, VideoCodec::H265, AudioCodec::AAC, ContainerFormat::MP4, Some("12M"@), Some("256k"@),
                None, None),
    {
        preset("HEVC/H.265 (Fast HW)", "Hardware-accelerated HEVC for best compression - half the size of H.264!", VideoCodec::H265, AudioCodec::AAC, ContainerFormat::MP4, Some("12M"), Some("256k"),
            None, None)
    }

    /// The "HEVC/H.265 HQ (Fast HW)" preset: Hardware-accelerated HEVC high quality - amazing compression!.
    pub fn hevc_hq_fast() -> (r: CodecPreset)
        ensures
            r.name@ == "HEVC/H.265 HQ (Fast HW)"@,
            r.description@ == "Hardware-accelerated HEVC high quality - amazing compression!"@,
            preset_shape(r.config, VideoCodec::H265, AudioCodec::AAC, ContainerFormat::MP4, Some("18M"@), Some("320k"@),
                None, None),
    {
        preset("HEVC/H.265 HQ (Fast HW)", "Hardware-accelerated HEVC high quality - amazing compression!", VideoCodec::H265, AudioCodec::AAC, ContainerFormat::MP4, Some("18M"), Some("320k"),
            None, None)
    }

    /// The built-in catalog, hardware-accelerated presets first; names are
    /// distinct.
    pub fn all_presets() -> (r: Vec<CodecPreset>)
        ensures
            r@.map_values(|p: CodecPreset| p.name@) == seq!["DNxHR LB (Fast)"@, "H.264 (Fast HW)"@, "H.264 HQ (Fast HW)"@, "HEVC/H.265 (Fast HW)"@, "HEVC/H.265 HQ (Fast HW)"@, "ProRes HQ"@, "ProRes 422"@, "ProRes LT"@, "DNxHR HQX"@, "DNxHR HQ"@, "DNxHR SQ"@, "H.264 High"@],
    {
        let mut v: Vec<CodecPreset> = Vec::new();
        v.push(Self::dnxhr_lb_fast());
        v.push(Self::h264_fast());
        v.push(Self::h264_hq_fast());
        v.push(Self::hevc_fast());
        v.push(Self::hevc_hq_fast());
        v.push(Self::prores_hq());
        v.push(Self::prores_422());
        v.push(Self::prores_lt());
        v.push(Self::dnxhr_hqx());
        v.push(Self::dnxhr_hq());
        v.push(Self::dnxhr_sq());
        v.push(Self::h264_high());
        assert(v@.map_values(|p: CodecPreset| p.name@) =~= seq!["DNxHR LB (Fast)"@, "H.264 (Fast HW)"@, "H.264 HQ (Fast HW)"@, "HEVC/H.265 (Fast HW)"@, "HEVC/H.265 HQ (Fast HW)"@, "ProRes HQ"@, "ProRes 422"@, "ProRes LT"@, "DNxHR HQX"@, "DNxHR HQ"@, "DNxHR SQ"@, "H.264 High"@]);
        v
    }

    /// The catalog preset named `name`.
    pub fn find(name: &str) -> (r: Option<CodecPreset>)
        ensures
            r matches Some(p) ==> p.name@ == name@,
            r is None ==> !seq!["DNxHR LB (Fast)"@, "H.264 (Fast HW)"@, "H.264 HQ (Fast HW)"@, "HEVC/H.265 (Fast HW)"@, "HEVC/H.265 HQ (Fast HW)"@, "ProRes HQ"@, "ProRes 422"@, "ProRes LT"@, "DNxHR HQX"@, "DNxHR HQ"@, "DNxHR SQ"@, "H.264 High"@].contains(name@),
    {
        let mut all = Self::all_presets();
        let ghost names = all@.map_values(|p: CodecPreset| p.name@);
        let target = owned(name);
        while all.len() > 0
            invariant
                forall|i: int| 0 <= i < all@.len() ==> (#[trigger] all@[i]).name@ == names[i],
                names == seq!["DNxHR LB (Fast)"@, "H.264 (Fast HW)"@, "H.264 HQ (Fast HW)"@, "HEVC/H.265 (Fast HW)"@, "HEVC/H.265 HQ (Fast HW)"@, "ProRes HQ"@, "ProRes 422"@, "ProRes LT"@, "DNxHR HQX"@, "DNxHR HQ"@, "DNxHR SQ"@, "H.264 High"@],
                all@.len() <= names.len(),
                target@ == name@,
                forall|i: int| all@.len() <= i < names.len() ==> #[trigger] names[i] != name@,
            decreases all@.len(),
        {
            let ghost n0 = all@.len();
            let ghost last = all@[n0 - 1];
            let p = all.pop().unwrap();
            assert(p == last);
            assert(p.name@ == names[n0 - 1]);
            if p.name == target {
                return Some(p);
            }
        }
        assert forall|i: int| 0 <= i < names.len() implies #[trigger] names[i] != name@ by {}
        None
    }
}

} // verus!
