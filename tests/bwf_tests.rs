use transcoder_core::bwf::{
    audio_extract_args, calculate_bext_timereference_23976, find_timecode, parse_timecode, plan_bext,
    timecode_from_report, timecode_or_midnight, verify_timereference_23976, BextPlan,
};
use transcoder_core::error::TranscodeError;

#[test]
fn test_calculate_timereference_23976() {
    let time_ref = calculate_bext_timereference_23976(13, 20, 20, 5).unwrap();
    assert_eq!(time_ref, 2307276429);
}

#[test]
fn test_verify_timereference() {
    let time_ref = 2307276429;
    let tc = verify_timereference_23976(time_ref, 48000).unwrap();
    assert_eq!(tc.hours, 13);
    assert_eq!(tc.minutes, 21);
    assert_eq!(tc.seconds, 8);
}

#[test]
fn test_parse_timecode() {
    let tc = parse_timecode("13:20:20:05").unwrap();
    assert_eq!(tc.hours, 13);
    assert_eq!(tc.minutes, 20);
    assert_eq!(tc.seconds, 20);
    assert_eq!(tc.frames, 5);
}

#[test]
fn test_validation_edge_cases() {
    assert!(calculate_bext_timereference_23976(24, 0, 0, 0).is_err());
    assert!(calculate_bext_timereference_23976(0, 60, 0, 0).is_err());
    assert!(calculate_bext_timereference_23976(0, 0, 0, 24).is_err());
}

#[test]
fn time_reference_error_messages() {
    assert_eq!(calculate_bext_timereference_23976(24, 0, 0, 0).unwrap_err(), "Hours must be 0-23");
    assert_eq!(calculate_bext_timereference_23976(0, 60, 0, 0).unwrap_err(), "Minutes must be 0-59");
    assert_eq!(calculate_bext_timereference_23976(0, 0, 60, 0).unwrap_err(), "Seconds must be 0-59");
    assert_eq!(calculate_bext_timereference_23976(0, 0, 0, 24).unwrap_err(), "Frames must be 0-23 for 23.976fps");
}

#[test]
fn time_reference_small_values() {
    assert_eq!(calculate_bext_timereference_23976(0, 0, 0, 0).unwrap(), 0);
    // one frame: 2004.005263 samples, rounded down
    assert_eq!(calculate_bext_timereference_23976(0, 0, 0, 1).unwrap(), 2004);
    // one second: 23.976 frames
    assert_eq!(calculate_bext_timereference_23976(0, 0, 1, 0).unwrap(), 48048);
    assert_eq!(calculate_bext_timereference_23976(23, 59, 59, 23).unwrap(), 4151347852);
}

#[test]
fn time_reference_decodes_close_to_the_timecode() {
    for &(h, m, s, f) in &[(0u32, 0u32, 0u32, 0u32), (1, 2, 3, 4), (13, 20, 20, 5), (23, 59, 59, 23)] {
        let t = calculate_bext_timereference_23976(h, m, s, f).unwrap();
        let tc = verify_timereference_23976(t, 48000).unwrap();
        let clock = (h * 3600 + m * 60 + s) as u64;
        let decoded = (tc.hours * 3600 + tc.minutes * 60 + tc.seconds) as u64;
        assert!(clock <= decoded);
        assert!(decoded * 999 <= clock * 1000 + 999);
    }
    let tc = verify_timereference_23976(calculate_bext_timereference_23976(0, 1, 2, 3).unwrap(), 48000).unwrap();
    assert_eq!((tc.hours, tc.minutes, tc.seconds), (0, 1, 2));
}

#[test]
fn decode_rejects_zero_sample_rate() {
    assert!(verify_timereference_23976(1000, 0).is_err());
    let tc = verify_timereference_23976(48000 * 3661 + 24000, 48000).unwrap();
    assert_eq!((tc.hours, tc.minutes, tc.seconds, tc.frames), (1, 1, 1, 11));
}

#[test]
fn parse_timecode_variants() {
    let tc = parse_timecode("01:02:03;04").unwrap();
    assert_eq!((tc.hours, tc.minutes, tc.seconds, tc.frames), (1, 2, 3, 4));
    assert_eq!(parse_timecode("01:02:03").unwrap_err(), "Invalid timecode format: 01:02:03");
    assert_eq!(parse_timecode("xx:02:03:04").unwrap_err(), "Invalid hours: xx");
    assert_eq!(parse_timecode("01:02:03:ff").unwrap_err(), "Invalid frames: ff");
}

#[test]
fn finds_timecode_in_probe_report() {
    let report = "[FORMAT]\nTAG:company=x\nTAG:timecode=10:00:00:00\nTAG:timecode=11:00:00:00\n";
    assert_eq!(find_timecode(report).unwrap(), "10:00:00:00");
    assert_eq!(timecode_or_midnight("nothing here\n"), "00:00:00:00");
    assert_eq!(timecode_from_report("none").unwrap_err(), "No timecode found in file");
    let tc = timecode_from_report("timecode= 01:00:00:12 \n").unwrap();
    assert_eq!((tc.hours, tc.frames), (1, 12));
}

#[test]
fn bext_plan_checks_ranges() {
    assert_eq!(plan_bext("13:20:20:05").unwrap(), BextPlan::Insert { time_reference: 2307276429 });
    assert_eq!(plan_bext("garbage").unwrap(), BextPlan::PlainWav);
    match plan_bext("00:00:00:24") {
        Err(TranscodeError::InvalidInput(m)) => assert_eq!(m, "Frames must be 0-23 for 23.976fps"),
        other => panic!("unexpected {:?}", other),
    }
}

#[test]
fn audio_extraction_arguments() {
    let a = audio_extract_args("in.mxf", "out.temp.wav", 48000);
    assert_eq!(a, vec!["-y", "-i", "in.mxf", "-vn", "-acodec", "pcm_s24le", "-ar", "48000", "-ac", "2", "out.temp.wav"]);
}
