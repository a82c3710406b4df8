use transcoder_core::config::{
    rate_string, AudioCodec, CodecPreset, ContainerFormat, DnxhrProfile, ProResProfile, TranscodeConfig, VideoCodec,
};
use transcoder_core::platform::Platform;

#[test]
fn test_default_config() {
    let config = TranscodeConfig::default();
    assert_eq!(config.video_codec, VideoCodec::ProResKS);
    assert_eq!(config.audio_codec, AudioCodec::PCM24);
}

#[test]
fn test_ffmpeg_args() {
    let config = TranscodeConfig::default();
    let args = config.to_ffmpeg_args(Platform::Linux, "input.mxf", "output.mov");
    assert!(args.contains(&"-i".to_string()));
    assert!(args.contains(&"input.mxf".to_string()));
    assert!(args.contains(&"output.mov".to_string()));
}

#[test]
fn test_presets() {
    let presets: std::collections::HashMap<String, CodecPreset> =
        CodecPreset::all_presets().into_iter().map(|p| (p.name.clone(), p)).collect();
    assert!(presets.contains_key("ProRes HQ"));
    assert!(presets.contains_key("H.264 High"));
}

#[test]
fn default_args_in_order() {
    let config = TranscodeConfig::default();
    let args = config.to_ffmpeg_args(Platform::MacOS, "in.mxf", "out.mov");
    let expected = vec![
        "-hwaccel", "videotoolbox", "-i", "in.mxf", "-y", "-c:v", "prores_ks", "-profile:v", "3", "-c:a", "pcm_s24le",
        "-ar", "48000", "-map", "0:v:0", "-map", "0:a", "-threads", "0", "-f", "mov", "out.mov",
    ];
    assert_eq!(args, expected);
}

#[test]
fn dnxhr_args_pick_pixel_format() {
    let mut config = TranscodeConfig::default();
    config.video_codec = VideoCodec::DNxHR;
    config.dnxhr_profile = Some(DnxhrProfile::HQX);
    config.hw_accel = false;
    config.map_all_audio = false;
    config.audio_sample_rate = None;
    config.container = ContainerFormat::Auto;
    let args = config.to_ffmpeg_args(Platform::Linux, "a", "b");
    assert_eq!(args, vec!["-i", "a", "-y", "-c:v", "dnxhd", "-profile:v", "dnxhr_hqx", "-pix_fmt", "yuv422p10le",
        "-c:a", "pcm_s24le", "-threads", "0", "b"]);
    config.dnxhr_profile = Some(DnxhrProfile::LB);
    let args = config.to_ffmpeg_args(Platform::Linux, "a", "b");
    assert!(args.contains(&"yuv422p".to_string()));
}

#[test]
fn h264_software_and_extras() {
    let mut config = TranscodeConfig::default();
    config.video_codec = VideoCodec::H264;
    config.hw_accel = false;
    config.video_bitrate = Some("20M".to_string());
    config.resolution = Some("1920x1080".to_string());
    config.frame_rate = Some(23976);
    config.lut_path = Some("/luts/a.cube".to_string());
    config.audio_codec = AudioCodec::AAC;
    config.audio_bitrate = Some("320k".to_string());
    config.container = ContainerFormat::MP4;
    config.extra_args = vec!["-movflags".to_string(), "+faststart".to_string()];
    let args = config.to_ffmpeg_args(Platform::Windows, "in", "out.mp4");
    assert_eq!(args, vec![
        "-i", "in", "-y", "-c:v", "libx264", "-preset", "medium", "-b:v", "20M", "-s", "1920x1080", "-r", "23.976",
        "-vf", "lut3d=file='/luts/a.cube'", "-c:a", "aac", "-ar", "48000", "-b:a", "320k", "-map", "0:v:0", "-map",
        "0:a", "-threads", "0", "-f", "mp4", "-movflags", "+faststart", "out.mp4",
    ]);
}

#[test]
fn hardware_encoders_per_platform() {
    let mut config = TranscodeConfig::default();
    config.video_codec = VideoCodec::H265;
    let mac = config.to_ffmpeg_args(Platform::MacOS, "i", "o");
    assert!(mac.contains(&"hevc_videotoolbox".to_string()));
    let linux = config.to_ffmpeg_args(Platform::Linux, "i", "o");
    assert!(linux.contains(&"libx265".to_string()));
    assert_eq!(&linux[0..2], &["-hwaccel".to_string(), "vaapi".to_string()]);
    let win = config.to_ffmpeg_args(Platform::Windows, "i", "o");
    assert_eq!(&win[0..2], &["-hwaccel".to_string(), "d3d11va".to_string()]);
}

#[test]
fn profile_flag_only_for_profiled_codecs() {
    for codec in [VideoCodec::ProRes, VideoCodec::DNxHD, VideoCodec::H264, VideoCodec::H265, VideoCodec::Copy] {
        let mut config = TranscodeConfig::default();
        config.video_codec = codec;
        config.dnxhr_profile = Some(DnxhrProfile::HQ);
        let args = config.to_ffmpeg_args(Platform::Linux, "i", "o");
        assert!(!args.contains(&"-profile:v".to_string()));
    }
    let config = TranscodeConfig::default();
    assert!(config.to_ffmpeg_args(Platform::Linux, "i", "o").contains(&"-profile:v".to_string()));
}

#[test]
fn profile_numbers_and_names() {
    assert_eq!(ProResProfile::Proxy.profile_number(), 0);
    assert_eq!(ProResProfile::ProRes4444XQ.profile_number(), 5);
    assert_eq!(DnxhrProfile::DNxHR444.as_str(), "dnxhr_444");
    assert_eq!(DnxhrProfile::LB.description(), "Low Bandwidth (8-bit, ~45 Mbps @ 1080p)");
    assert_eq!(DnxhrProfile::SQ.pixel_format(), "yuv422p");
}

#[test]
fn frame_rate_text() {
    assert_eq!(rate_string(23976), "23.976");
    assert_eq!(rate_string(25000), "25");
    assert_eq!(rate_string(29970), "29.97");
    assert_eq!(rate_string(59940), "59.94");
    assert_eq!(rate_string(500), "0.5");
}

#[test]
fn preset_catalog() {
    let all = CodecPreset::all_presets();
    assert_eq!(all.len(), 12);
    let p = CodecPreset::find("DNxHR LB (Fast)").unwrap();
    assert_eq!(p.config.dnxhr_profile, Some(DnxhrProfile::LB));
    assert!(CodecPreset::find("nope").is_none());
    let h = CodecPreset::h264_high();
    assert_eq!(h.config.video_bitrate.as_deref(), Some("20M"));
    assert_eq!(CodecPreset::prores_422().config.prores_profile, Some(ProResProfile::Standard));
}
