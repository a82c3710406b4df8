use transcoder_core::ale::{frames_to_timecode, fps_from_fraction, tape_name, timecode_to_frames, AleGenerator, AleProbe};
use transcoder_core::commands::{batch_progress_event, job_for_request, worker_status, AddJobRequest};
use transcoder_core::job::{JobConfig, Priority};
use transcoder_core::logger::{JobLogger, SystemSnapshot};
use transcoder_core::platform::{cpu_count, default_worker_count, ffmpeg_name, ffprobe_name, normalize_path, Platform};
use transcoder_core::progress::ProgressEvent;
use transcoder_core::worker::WorkerPool;

#[test]
fn test_cpu_count() {
    let count = cpu_count();
    assert!(count > 0);
    println!("CPU cores: {}", count);
}

#[test]
fn platform_names_and_paths() {
    assert_eq!(Platform::MacOS.name(), "macOS");
    assert_eq!(Platform::Unknown.name(), "Unknown");
    assert_eq!(Platform::Windows.exe_extension(), ".exe");
    assert_eq!(Platform::Linux.exe_extension(), "");
    assert_eq!(Platform::Windows.path_separator(), "\\");
    assert_eq!(Platform::Linux.path_separator(), "/");
    assert_eq!(normalize_path("a/b/c", Platform::Windows), "a\\b\\c");
    assert_eq!(normalize_path("a/b/c", Platform::Linux), "a/b/c");
    assert_eq!(ffmpeg_name(Platform::Windows), "ffmpeg.exe");
    assert_eq!(ffprobe_name(Platform::MacOS), "ffprobe");
    assert_eq!(default_worker_count(8), 7);
    assert_eq!(default_worker_count(1), 1);
    assert_eq!(default_worker_count(0), 1);
}

#[test]
fn ale_timecodes() {
    assert_eq!(frames_to_timecode(0), "00:00:00:00");
    assert_eq!(frames_to_timecode(24 * 3661 + 5), "01:01:01:05");
    assert_eq!(timecode_to_frames("01:01:01:05"), 24 * 3661 + 5);
    assert_eq!(timecode_to_frames("bad"), 0);
    assert_eq!(tape_name("BC_030525_A0012"), "BC");
    assert_eq!(tape_name("x_A0012"), "A0012");
    assert_eq!(tape_name("clip"), "A001");
    assert_eq!(fps_from_fraction("24000/1001"), "23.976");
    assert_eq!(fps_from_fraction("25/1"), "25.000");
    assert_eq!(fps_from_fraction("N/A"), "23.976");
}

#[test]
fn ale_entry_and_text() {
    let mut g = AleGenerator::new();
    let probe = AleProbe {
        timecode_output: "01:00:00:00\n".to_string(),
        duration_output: "10.0\n".to_string(),
        frame_rate_output: "24000/1001\n".to_string(),
        audio_streams_output: "1\n2\n".to_string(),
    };
    g.add_from_file("/media/A001_C002.mov", &probe).unwrap();
    let e = &g.rows()[0];
    assert_eq!(e.name, "A001_C002");
    assert_eq!(e.tape, "A001");
    assert_eq!(e.start_tc, "01:00:00:00");
    assert_eq!(e.duration, "00:00:09:23");
    assert_eq!(e.end_tc, "01:00:09:23");
    assert_eq!(e.fps, "23.976");
    assert_eq!(e.audio_tracks, 2);
    assert_eq!(e.video_tracks, 1);
    let text = g.render();
    assert!(text.starts_with("Heading\nFIELD_DELIM\tTABS\n"));
    assert!(text.ends_with("Data\nA001_C002\tA001\t01:00:00:00\t01:00:09:23\t00:00:09:23\t2A\t23.976\n"));
}

#[test]
fn requests_and_status() {
    let req = AddJobRequest {
        input_path: "in.mxf".to_string(),
        output_path: "out.mov".to_string(),
        preset_name: "ProRes HQ".to_string(),
        priority: None,
    };
    let job = job_for_request(req).unwrap();
    assert_eq!(job.priority, Priority::Normal);
    assert!(matches!(job.config, JobConfig::Transcode(_)));
    let bad = AddJobRequest {
        input_path: "in.mxf".to_string(),
        output_path: "out.mov".to_string(),
        preset_name: "Nope".to_string(),
        priority: Some(Priority::High),
    };
    assert_eq!(job_for_request(bad).unwrap_err(), "Unknown preset: Nope");
    let mut pool = WorkerPool::new(Some(3));
    pool.start().unwrap();
    let s = worker_status(Some(&pool), 4);
    assert!(s.is_running);
    assert_eq!(s.total_workers, 3);
    let n = worker_status(None, 1);
    assert!(!n.is_running);
    assert_eq!(n.total_workers, 1);
    match batch_progress_event(2, 5) {
        ProgressEvent::QueueUpdated { pending_count, running_count, completed_count } => {
            assert_eq!((pending_count, running_count, completed_count), (3, 1, 1))
        }
        other => panic!("unexpected {:?}", other),
    }
}

#[test]
fn logger_names() {
    assert_eq!(JobLogger::text_log_name("2024-01-02"), "2024-01-02_transcoder_log.txt");
    assert_eq!(JobLogger::json_log_name("2024-01-02"), "2024-01-02_transcoder_log.json");
    assert_eq!(JobLogger::log_dir_for(Some("/home/u".to_string())), "/home/u/.industrial-transcoder/logs");
    assert_eq!(JobLogger::log_dir_for(None), "transcoder_logs");
    assert!(!JobLogger::default_log_dir().is_empty());
    let s = SystemSnapshot::capture(Platform::Linux, Some(100), None);
    assert_eq!(s.platform, "Linux");
    assert!(s.cpu_cores > 0);
}
