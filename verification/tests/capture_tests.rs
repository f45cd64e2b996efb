use vibeclips::capture::{
    start_screen_recording_process, build_capture_mux_step, commit_start, compute_audio_offset, stop_screen_recording_process,
    get_recording_status, is_audio_capturing, new_session, offset_correction, start_audio_capture,
    stop_audio_capture, stop_disposition, AudioCaptureState, AudioCorrection, StopDisposition,
};
use vibeclips::pip::{compile_pip_composite, AudioOptions, PiPConfig, PipCorner, PipSize};

#[test]
fn test_session_lifecycle() {
    let mut session = new_session();
    assert!(!get_recording_status(&session).unwrap());
    let (video, audio) = start_screen_recording_process(&session, "rec.mp4").unwrap();
    assert_eq!(video.as_str(), "rec_video.mp4");
    assert_eq!(audio.as_str(), "rec_audio.wav");
    commit_start(&mut session, "rec.mp4".to_string(), 1234, 1_700_000_000, 5000, true, 5120);
    assert!(get_recording_status(&session).unwrap());
    // starting while active is refused
    assert!(start_screen_recording_process(&session, "other.mp4").is_err());
    let info = stop_screen_recording_process(&mut session).unwrap();
    assert_eq!(info.output_path.as_str(), "rec.mp4");
    assert_eq!(info.video_only_path.as_str(), "rec_video.mp4");
    assert_eq!(info.audio_only_path.as_str(), "rec_audio.wav");
    assert_eq!(info.offset_ms, -120);
    assert!(info.had_audio_start);
    assert!(!get_recording_status(&session).unwrap());
    // stopping while idle is refused
    assert!(stop_screen_recording_process(&mut session).is_err());
}

#[test]
fn test_start_rejects_bad_extension() {
    let session = new_session();
    assert!(start_screen_recording_process(&session, "rec.webm").is_err());
}

#[test]
fn test_offset_computation_audio_first_trims() {
    // audio started at t, video 250 milliseconds later: the offset is +250
    // and the correction trims the audio head
    let mut session = new_session();
    commit_start(&mut session, "rec.mp4".to_string(), 1, 0, 1250, true, 1000);
    let offset = compute_audio_offset(&session);
    assert_eq!(offset, 250);
    assert!(matches!(offset_correction(offset), AudioCorrection::TrimStart(250)));
}

#[test]
fn test_offset_computation_video_first_pads() {
    // video started at t, audio 250 milliseconds later: the offset is -250
    // and the correction left-pads the audio with silence
    let mut session = new_session();
    commit_start(&mut session, "rec.mp4".to_string(), 1, 0, 1000, true, 1250);
    let offset = compute_audio_offset(&session);
    assert_eq!(offset, -250);
    assert!(matches!(offset_correction(offset), AudioCorrection::Delay(250)));
}

#[test]
fn test_offset_dead_band_pads_only() {
    assert!(matches!(offset_correction(1), AudioCorrection::PadOnly));
    assert!(matches!(offset_correction(-1), AudioCorrection::PadOnly));
    assert!(matches!(offset_correction(0), AudioCorrection::PadOnly));
    assert!(matches!(offset_correction(2), AudioCorrection::TrimStart(2)));
    assert!(matches!(offset_correction(-2), AudioCorrection::Delay(2)));
}

#[test]
fn test_mux_step_trim_filter() {
    let step = build_capture_mux_step("v.mp4", "a.wav", 250, 10000, "out.mp4");
    let args: Vec<&str> = step.args.iter().map(|a| a.as_str()).collect();
    let af = args[args.iter().position(|s| *s == "-af").unwrap() + 1];
    assert_eq!(af, "atrim=start=0.250,asetpts=PTS-STARTPTS,apad");
    // the video is the authoritative timeline
    assert_eq!(args[args.iter().position(|s| *s == "-t").unwrap() + 1], "10.000");
    assert!(args.contains(&"copy"));
}

#[test]
fn test_mux_step_delay_filter() {
    let step = build_capture_mux_step("v.mp4", "a.wav", -250, 10000, "out.mp4");
    let args: Vec<&str> = step.args.iter().map(|a| a.as_str()).collect();
    let af = args[args.iter().position(|s| *s == "-af").unwrap() + 1];
    assert_eq!(af, "adelay=250|250,apad");
}

#[test]
fn test_audio_unavailable_still_active_then_video_only() {
    // the device was unavailable: the session still reports active, and
    // the stop path takes the video-only file without a mux step
    let mut session = new_session();
    commit_start(&mut session, "rec.mp4".to_string(), 1, 0, 1000, false, 0);
    assert!(get_recording_status(&session).unwrap());
    let info = stop_screen_recording_process(&mut session).unwrap();
    assert_eq!(info.offset_ms, 0);
    assert!(!info.had_audio_start);
    assert!(matches!(
        stop_disposition(info.had_audio_start, false),
        StopDisposition::VideoOnly
    ));
    assert!(matches!(stop_disposition(true, true), StopDisposition::Mux));
    // audio captured but no file written still degrades to video-only
    assert!(matches!(stop_disposition(true, false), StopDisposition::VideoOnly));
}

#[test]
fn test_audio_capture_state_transitions() {
    let mut state = AudioCaptureState { is_recording: false };
    assert!(!is_audio_capturing(&state));
    start_audio_capture(&mut state).unwrap();
    assert!(is_audio_capturing(&state));
    assert!(start_audio_capture(&mut state).is_err());
    stop_audio_capture(&mut state).unwrap();
    assert!(!is_audio_capturing(&state));
    assert!(stop_audio_capture(&mut state).is_err());
}

#[test]
fn test_pip_screen_audio_delay_and_duration() {
    // system audio only with a 0.15 second configured offset: the screen
    // audio chain delays by 0.15 plus the fixed webcam latency buffer, and
    // the output is clamped to the screen track's duration
    let cfg = PiPConfig { position: PipCorner::BottomRight, size: PipSize::Small, padding: 20 };
    let audio = AudioOptions { include_system_audio: true, include_mic_audio: false };
    let step = compile_pip_composite(
        "screen.mp4",
        "cam.mp4",
        &cfg,
        &audio,
        "out.mp4",
        Some(150),
        true,
        true,
        12500,
    );
    let args: Vec<&str> = step.args.iter().map(|a| a.as_str()).collect();
    let fc = args[args.iter().position(|s| *s == "-filter_complex").unwrap() + 1];
    assert_eq!(
        fc,
        "[1:v]scale=320:180[pip];[0:v][pip]overlay=W-w-20:H-h-20[vout];[0:a]adelay=250|250,aresample=async=1,apad[aout]"
    );
    assert_eq!(args[args.iter().position(|s| *s == "-t").unwrap() + 1], "12.500");
    assert_eq!(step.output.as_str(), "out.mp4");
}

#[test]
fn test_pip_audio_mix_cases() {
    let cfg = PiPConfig { position: PipCorner::TopLeft, size: PipSize::Medium, padding: 10 };
    let both = AudioOptions { include_system_audio: true, include_mic_audio: true };
    let step = compile_pip_composite(
        "s.mp4", "c.mp4", &cfg, &both, "o.mp4", None, true, true, 0,
    );
    let args: Vec<&str> = step.args.iter().map(|a| a.as_str()).collect();
    let fc = args[args.iter().position(|s| *s == "-filter_complex").unwrap() + 1];
    assert!(fc.contains("amix=inputs=2:duration=longest[aout]"));
    assert!(fc.contains("adelay=100|100"));
    assert!(fc.starts_with("[1:v]scale=480:270[pip];[0:v][pip]overlay=10:10"));
    // without the duration probe no clamp is emitted
    assert!(!args.contains(&"-t"));
    // a requested source without an audio stream is left out of the mix
    let none_available = compile_pip_composite(
        "s.mp4", "c.mp4", &cfg, &both, "o.mp4", None, false, false, 0,
    );
    let nargs: Vec<&str> = none_available.args.iter().map(|a| a.as_str()).collect();
    let nfc = nargs[nargs.iter().position(|s| *s == "-filter_complex").unwrap() + 1];
    assert!(!nfc.contains("[aout]"));
    assert!(!nargs.contains(&"-c:a"));
}
