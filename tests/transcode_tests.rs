use transcoder_core::error::TranscodeError;
use transcoder_core::transcode::{
    encoder_outcome, parse_milli, parse_probe_duration, parse_progress_line, probe_duration_args, Transcoder,
};

#[test]
fn progress_from_encoder_line() {
    let line = "frame=  360 fps=47.8 q=-1.0 size=   1024kB time=00:00:15.00 bitrate=1000.0kbits/s speed=2x";
    assert_eq!(parse_progress_line(line, 60_000), Some((2500, Some(47_800))));
    assert_eq!(parse_progress_line("time=01:00:00.00", 60_000), Some((10000, None)));
    assert_eq!(parse_progress_line("frame=1 fps=0.0 q=0.0", 60_000), None);
    assert_eq!(parse_progress_line("time=00:00:30.50 fps= 25", 0), Some((0, Some(25_000))));
    assert_eq!(parse_progress_line("time=00:00:30.50 fps= 25", 61_000), Some((5000, Some(25_000))));
}

#[test]
fn decimal_readings() {
    assert_eq!(parse_milli("60.000000"), Some(60_000));
    assert_eq!(parse_milli("47.8"), Some(47_800));
    assert_eq!(parse_milli("12"), Some(12_000));
    assert_eq!(parse_milli("1.23456"), Some(1_234));
    assert_eq!(parse_milli("N/A"), None);
    assert_eq!(parse_milli("1.2.3"), None);
}

#[test]
fn probe_duration_answers() {
    assert_eq!(parse_probe_duration("60.000000\n", true).unwrap(), 60_000);
    match parse_probe_duration("60.0", false) {
        Err(TranscodeError::Platform(m)) => assert_eq!(m, "Failed to get media duration"),
        other => panic!("unexpected {:?}", other),
    }
    match parse_probe_duration("N/A\n", true) {
        Err(TranscodeError::Platform(m)) => assert_eq!(m, "Invalid duration format"),
        other => panic!("unexpected {:?}", other),
    }
    let args = probe_duration_args("in.mxf");
    assert_eq!(args, vec!["-v", "error", "-show_entries", "format=duration", "-of",
        "default=noprint_wrappers=1:nokey=1", "in.mxf"]);
}

#[test]
fn encoder_exit_outcomes() {
    assert!(encoder_outcome(true, Some(0), true).is_ok());
    match encoder_outcome(false, Some(1), true) {
        Err(TranscodeError::FfmpegFailed(m)) => assert_eq!(m, "FFmpeg exited with code: Some(1)"),
        other => panic!("unexpected {:?}", other),
    }
    match encoder_outcome(false, Some(-11), true) {
        Err(TranscodeError::FfmpegFailed(m)) => assert_eq!(m, "FFmpeg exited with code: Some(-11)"),
        other => panic!("unexpected {:?}", other),
    }
    match encoder_outcome(false, None, true) {
        Err(TranscodeError::FfmpegFailed(m)) => assert_eq!(m, "FFmpeg exited with code: None"),
        other => panic!("unexpected {:?}", other),
    }
    match encoder_outcome(true, Some(0), false) {
        Err(TranscodeError::FfmpegFailed(m)) => assert_eq!(m, "Output file was not created"),
        other => panic!("unexpected {:?}", other),
    }
}

#[test]
fn version_line() {
    let t = Transcoder::new("/usr/bin/ffmpeg".to_string());
    assert_eq!(t.verify("ffmpeg version 6.0\r\nbuilt with gcc\n", true).unwrap(), "ffmpeg version 6.0");
    assert_eq!(t.verify("", true).unwrap(), "Unknown version");
    assert!(t.verify("x", false).is_err());
}

#[test]
fn error_texts() {
    assert_eq!(TranscodeError::FfmpegNotFound.message(), "FFmpeg not found in system PATH");
    assert_eq!(TranscodeError::Cancelled.message(), "Job cancelled");
    assert_eq!(TranscodeError::Io("disk".to_string()).message(), "IO error: disk");
    assert_eq!(TranscodeError::InvalidOutput("x".to_string()).message(), "Invalid output path: x");
    assert_eq!(TranscodeError::JobNotFound("x".to_string()).message(), "Job not found: x");
    assert_eq!(TranscodeError::JobAlreadyExists("x".to_string()).message(), "Job already exists: x");
    assert_eq!(TranscodeError::WorkerPoolError("x".to_string()).message(), "Worker pool error: x");
    assert_eq!(TranscodeError::Serialization("x".to_string()).message(), "Serialization error: x");
    assert_eq!(TranscodeError::Platform("x".to_string()).message(), "Platform error: x");
    assert_eq!(TranscodeError::Unknown("x".to_string()).message(), "Unknown error: x");
    assert_eq!(TranscodeError::InvalidInput("x".to_string()).message(), "Invalid input file: x");
}
