use transcoder_core::error::TranscodeError;
use transcoder_core::mxf::{
    info_args, needs_tool_report, plan_rewrap, probe_format_args, rewrap_outcome, wrapping_from_report, MxfRewrapper,
    MxfWrapping, RewrapPlan,
};
use transcoder_core::mxf_tools::{
    check_mob_id_consistency, check_mob_id_length, choose_target_mob_id, get_mxf_tool_path, normalize_mob_id,
    parse_mxf2raw_info, unified_file_name, unified_prefix, UnifyMobIdOptions,
};
use transcoder_core::platform::Platform;

#[test]
fn test_mxf_rewrapper_creation() {
    let rewrapper = MxfRewrapper::new(None);
    if rewrapper.is_available() {
        println!("bmxtranswrap is available");
    } else {
        println!("bmxtranswrap is not available - install from https://github.com/ebu/bmx");
    }
    assert!(MxfRewrapper::new(Some("/usr/bin/bmxtranswrap".to_string())).is_available());
}

#[test]
fn test_wrapping_enum() {
    assert_eq!(MxfWrapping::ClipWrapped.as_str(), "clip");
    assert_eq!(MxfWrapping::FrameWrapped.as_str(), "frame");
}

#[test]
fn test_mob_id_length_validation() {
    let options = UnifyMobIdOptions {
        input_files: vec!["test.mxf".to_string()],
        target_mob_id: Some("invalid".to_string()),
        reference_file: None,
        output_dir: "output".to_string(),
        output_type: "avid".to_string(),
    };
    let result = choose_target_mob_id(&options, None);
    assert!(result.is_err());
    assert!(result.unwrap_err().contains("Invalid MOB ID length"));
}

#[test]
fn mob_id_checks() {
    assert_eq!(check_mob_id_length("abc").unwrap_err(), "Invalid MOB ID length: expected 64 hex chars, got 3");
    let id64 = "a".repeat(64);
    assert!(check_mob_id_length(&id64).is_ok());
    assert_eq!(normalize_mob_id("06.0a-2b"), "060a2b");
    let dotted = format!("{}.{}-{}", "a".repeat(20), "b".repeat(20), "c".repeat(24));
    let options = UnifyMobIdOptions {
        input_files: vec!["a.mxf".to_string()],
        target_mob_id: Some(dotted),
        reference_file: None,
        output_dir: "out".to_string(),
        output_type: "op1a".to_string(),
    };
    assert_eq!(choose_target_mob_id(&options, None).unwrap().len(), 64);
    let empty = UnifyMobIdOptions { input_files: vec![], ..options.clone() };
    assert_eq!(choose_target_mob_id(&empty, None).unwrap_err(), "No input files provided");
    let from_file = UnifyMobIdOptions { target_mob_id: None, ..options };
    assert_eq!(choose_target_mob_id(&from_file, Some(id64.clone())).unwrap(), id64);
}

#[test]
fn mob_id_consistency() {
    let a = Ok("aa".to_string());
    let b = Ok("bb".to_string());
    assert_eq!(check_mob_id_consistency(&vec![]), Ok(true));
    assert_eq!(check_mob_id_consistency(&vec![a.clone(), a.clone()]), Ok(true));
    assert_eq!(check_mob_id_consistency(&vec![a.clone(), b.clone(), Err("late".to_string())]), Ok(false));
    assert_eq!(check_mob_id_consistency(&vec![a.clone(), Err("bad".to_string())]), Err("bad".to_string()));
}

#[test]
fn mxf2raw_report() {
    let report = "Material Package UID = 06.0a.2b.34-01\nFile Source Package UID= 11.22\nStart timecode = 10:00:00:00\nDuration = 240\n";
    let m = parse_mxf2raw_info(report).unwrap();
    assert_eq!(m.material_package_uid, "060a2b3401");
    assert_eq!(m.file_package_uid.as_deref(), Some("1122"));
    assert_eq!(m.timecode.as_deref(), Some("10:00:00:00"));
    assert_eq!(m.duration, Some(240));
    assert_eq!(m.physical_source_package_uid, None);
    assert_eq!(parse_mxf2raw_info("Duration = 5\n").unwrap_err(), "Could not extract Material Package UID from file");
}

#[test]
fn tool_paths() {
    assert_eq!(get_mxf_tool_path("/opt/bmx", "mxf2raw", Platform::Linux).unwrap(), "/opt/bmx/mxf2raw/mxf2raw");
    assert_eq!(get_mxf_tool_path("C:\\bmx", "raw2bmx", Platform::Windows).unwrap(), "C:\\bmx\\raw2bmx\\raw2bmx.exe");
    assert_eq!(get_mxf_tool_path("/opt", "other", Platform::Linux).unwrap_err(), "Unknown tool: other");
}

#[test]
fn wrapping_detection() {
    assert_eq!(wrapping_from_report("Essence: frame-wrapped"), MxfWrapping::FrameWrapped);
    assert_eq!(wrapping_from_report("Frame Wrapped MPEG"), MxfWrapping::FrameWrapped);
    assert_eq!(wrapping_from_report("clip-wrapped"), MxfWrapping::ClipWrapped);
    assert_eq!(wrapping_from_report("???"), MxfWrapping::ClipWrapped);
    assert!(needs_tool_report("{\"nb_frames\": \"10\"}", true));
    assert!(!needs_tool_report("{\"nb_frames\": \"10\"}", false));
    assert!(!needs_tool_report("{}", true));
    assert_eq!(info_args("a.mxf"), vec!["--info", "a.mxf"]);
    assert_eq!(probe_format_args("a.mxf").len(), 7);
}

#[test]
fn rewrap_same_layout_copies_and_completes() {
    let plan = plan_rewrap(MxfWrapping::FrameWrapped, MxfWrapping::FrameWrapped, "in.mxf", "out.mxf");
    assert!(matches!(plan, RewrapPlan::CopyFile));
    assert_eq!(rewrap_outcome(&plan, false, None, false).unwrap(), 10000);
}

#[test]
fn rewrap_runs_tool() {
    match plan_rewrap(MxfWrapping::ClipWrapped, MxfWrapping::FrameWrapped, "in.mxf", "out.mxf") {
        RewrapPlan::Run(a) => assert_eq!(a, vec!["-t", "op1a", "--frame-layout", "separate", "-o", "out.mxf", "in.mxf"]),
        other => panic!("unexpected {:?}", other),
    }
    let plan = plan_rewrap(MxfWrapping::FrameWrapped, MxfWrapping::ClipWrapped, "in.mxf", "out.mxf");
    match &plan {
        RewrapPlan::Run(a) => assert_eq!(a, &vec!["-t", "op1a", "--clip-wrap", "-o", "out.mxf", "in.mxf"]),
        other => panic!("unexpected {:?}", other),
    }
    match rewrap_outcome(&plan, false, Some(2), true) {
        Err(TranscodeError::Platform(m)) => assert_eq!(m, "bmxtranswrap exited with code: Some(2)"),
        other => panic!("unexpected {:?}", other),
    }
    assert!(rewrap_outcome(&plan, true, Some(0), false).is_err());
    assert_eq!(rewrap_outcome(&plan, true, Some(0), true).unwrap(), 10000);
}

#[test]
fn rewrap_preflight() {
    let none = MxfRewrapper::new(None);
    match none.rewrap_preflight("a.mxf", true) {
        Err(TranscodeError::Platform(m)) => assert_eq!(m, "bmxtranswrap not found - cannot rewrap MXF files"),
        other => panic!("unexpected {:?}", other),
    }
    let some = MxfRewrapper::new(Some("bmx".to_string()));
    assert!(matches!(some.rewrap_preflight("a.mxf", false), Err(TranscodeError::InvalidInput(_))));
    assert!(some.rewrap_preflight("a.mxf", true).is_ok());
}

#[test]
fn unified_names() {
    assert_eq!(unified_file_name("clip", "avid", false), "clip_unified_v0.mxf");
    assert_eq!(unified_file_name("clip", "op1a", false), "clip_unified.mxf");
    assert_eq!(unified_file_name("clip", "avid", true), "clip_unified.mxf");
    assert_eq!(unified_prefix("clip"), "clip_unified");
}
