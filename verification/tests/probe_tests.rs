use vibeclips::audio::{
    audio_poll_step, sample_format_supported, silence_span_samples, AudioPollAction, RecvOutcome,
    SampleFormatKind,
};
use vibeclips::ingest::{decode_data_url, select_api_key};
use vibeclips::media::{
    convert_webm_to_mp4, extract_audio, extract_clip_audio, generate_video_thumbnail,
    import_video_file, mux_video_audio,
};
use vibeclips::probe::{
    check_has_audio_stream, list_screen_sources, parse_audio_device_list, parse_probe_duration,
    select_engine_location, stop_poll_action, MonitorInfo, StopPollAction,
};

#[test]
fn test_parse_probe_duration_values() {
    assert_eq!(parse_probe_duration("5.250000\n"), Some(5250));
    assert_eq!(parse_probe_duration("  12  "), Some(12000));
    assert_eq!(parse_probe_duration("0.5"), Some(500));
    assert_eq!(parse_probe_duration(".5"), Some(500));
    assert_eq!(parse_probe_duration("5."), Some(5000));
    assert_eq!(parse_probe_duration("3.1415926"), Some(3141));
    assert_eq!(parse_probe_duration("abc"), None);
    assert_eq!(parse_probe_duration(""), None);
    assert_eq!(parse_probe_duration("1.2.3"), None);
}

#[test]
fn test_check_has_audio_stream_marker() {
    assert!(check_has_audio_stream("  Stream #0:1: Audio: aac (LC), 44100 Hz"));
    assert!(!check_has_audio_stream("  Stream #0:0: Video: h264"));
}

#[test]
fn test_parse_audio_device_list_sections() {
    let listing = "header noise\n[dshow @ 0] DirectShow audio devices\n[dshow @ 0] \"Speakers (Loopback)\"\n[dshow @ 0] \"Microphone\"\n[dshow @ 0] DirectShow video devices\n[dshow @ 0] \"Webcam\"\n";
    let devices = parse_audio_device_list(listing);
    assert_eq!(devices.len(), 2);
    assert_eq!(devices[0].as_str(), "Speakers (Loopback)");
    assert_eq!(devices[1].as_str(), "Microphone");
}

#[test]
fn test_parse_audio_device_list_empty_without_section() {
    assert_eq!(parse_audio_device_list("no sections at all\n\"quoted\"\n").len(), 0);
}

#[test]
fn test_list_screen_sources_names_and_fallback() {
    let monitors = vec![
        MonitorInfo { id: "m1".to_string(), width: 1920, height: 1080, is_primary: true },
        MonitorInfo { id: "m2".to_string(), width: 1280, height: 720, is_primary: false },
    ];
    let sources = list_screen_sources(&monitors).unwrap();
    assert_eq!(sources.len(), 2);
    assert_eq!(sources[0].name.as_str(), "Primary Display (1920x1080)");
    assert!(sources[0].is_primary);
    assert_eq!(sources[1].name.as_str(), "Display 2 (1280x720)");
    assert_eq!(sources[1].id.as_str(), "m2");
    let fallback = list_screen_sources(&vec![]).unwrap();
    assert_eq!(fallback.len(), 1);
    assert_eq!(fallback[0].name.as_str(), "Primary Display");
    assert_eq!(fallback[0].width, 1920);
    assert!(fallback[0].is_primary);
}

#[test]
fn test_select_engine_location_priority() {
    assert_eq!(
        select_engine_location(Some("/app/bin/ffmpeg".to_string()), true, None, "ffmpeg").as_str(),
        "/app/bin/ffmpeg"
    );
    assert_eq!(select_engine_location(None, true, None, "ffmpeg").as_str(), "ffmpeg");
    assert_eq!(
        select_engine_location(None, false, Some("C:/ffmpeg/bin/ffmpeg.exe".to_string()), "ffmpeg")
            .as_str(),
        "C:/ffmpeg/bin/ffmpeg.exe"
    );
    assert_eq!(select_engine_location(None, false, None, "ffmpeg").as_str(), "ffmpeg");
}

#[test]
fn test_stop_poll_machine() {
    assert!(matches!(stop_poll_action(0, true), StopPollAction::Done));
    assert!(matches!(stop_poll_action(3, false), StopPollAction::Wait));
    assert!(matches!(stop_poll_action(15, false), StopPollAction::ForceKill));
}

#[test]
fn test_audio_capture_decisions() {
    assert_eq!(silence_span_samples(44100, 2), 8820);
    assert_eq!(silence_span_samples(48000, 1), 4800);
    assert!(sample_format_supported(&SampleFormatKind::FloatThirtyTwo));
    assert!(sample_format_supported(&SampleFormatKind::SignedSixteen));
    assert!(sample_format_supported(&SampleFormatKind::UnsignedSixteen));
    assert!(!sample_format_supported(&SampleFormatKind::Other));
    assert!(matches!(
        audio_poll_step(true, false, &RecvOutcome::Samples),
        AudioPollAction::Stop
    ));
    assert!(matches!(
        audio_poll_step(false, false, &RecvOutcome::Samples),
        AudioPollAction::WriteSamples
    ));
    assert!(matches!(
        audio_poll_step(false, false, &RecvOutcome::TimedOut),
        AudioPollAction::WriteSilence
    ));
    assert!(matches!(
        audio_poll_step(false, false, &RecvOutcome::Disconnected),
        AudioPollAction::Abort
    ));
}

#[test]
fn test_decode_data_url_round_trip() {
    let decoded = decode_data_url("data:video/mp4;base64,aGVsbG8=").unwrap();
    assert_eq!(decoded, b"hello".to_vec());
    assert!(decode_data_url("not a data url").is_err());
    assert!(decode_data_url("data:video/mp4;base64").is_err());
    assert!(decode_data_url("data:video/mp4;base64,!!!not-base64!!!").is_err());
}

#[test]
fn test_select_api_key_priority() {
    let k = select_api_key(Some("param".to_string()), Some("stored".to_string()), None).unwrap();
    assert_eq!(k.as_str(), "param");
    // an empty parameter does not win
    let k = select_api_key(Some("".to_string()), Some("stored".to_string()), None).unwrap();
    assert_eq!(k.as_str(), "stored");
    let k = select_api_key(None, None, Some("env".to_string())).unwrap();
    assert_eq!(k.as_str(), "env");
    assert!(select_api_key(None, None, None).is_err());
}

#[test]
fn test_mux_and_convert_steps() {
    let mux = mux_video_audio("v.mp4", "a.wav", "o.mp4");
    let args: Vec<&str> = mux.args.iter().map(|a| a.as_str()).collect();
    assert_eq!(
        args,
        vec![
            "-y", "-i", "v.mp4", "-i", "a.wav", "-c:v", "copy", "-c:a", "aac", "-b:a", "192k",
            "o.mp4", "-hide_banner", "-loglevel", "error"
        ]
    );
    let conv = convert_webm_to_mp4("in.webm", "out.mp4");
    let cargs: Vec<&str> = conv.args.iter().map(|a| a.as_str()).collect();
    assert!(cargs.contains(&"faststart"));
    assert_eq!(conv.output.as_str(), "out.mp4");
}

#[test]
fn test_import_conversion_decision() {
    assert!(import_video_file("movie.mp4", "/tmp/").is_none());
    let step = import_video_file("clips/Movie.MOV", "/tmp/").unwrap();
    assert_eq!(step.output.as_str(), "/tmp/Movie_converted.mp4");
    let args: Vec<&str> = step.args.iter().map(|a| a.as_str()).collect();
    assert_eq!(args[args.iter().position(|s| *s == "-preset").unwrap() + 1], "medium");
}

#[test]
fn test_audio_extract_steps() {
    let whole = extract_audio("v.mp4", "a.mp3");
    let wargs: Vec<&str> = whole.args.iter().map(|a| a.as_str()).collect();
    assert_eq!(
        wargs,
        vec!["-i", "v.mp4", "-vn", "-acodec", "libmp3lame", "-ar", "16000", "-ac", "1", "-y",
            "a.mp3"]
    );
    let clip = extract_clip_audio("v.mp4", 1500, 4000, "a.mp3");
    let cargs: Vec<&str> = clip.args.iter().map(|a| a.as_str()).collect();
    assert_eq!(cargs[cargs.iter().position(|s| *s == "-ss").unwrap() + 1], "1.500");
    assert_eq!(cargs[cargs.iter().position(|s| *s == "-t").unwrap() + 1], "2.500");
}

#[test]
fn test_thumbnail_step() {
    let step = generate_video_thumbnail("v.mp4", "thumb.jpg");
    let args: Vec<&str> = step.args.iter().map(|a| a.as_str()).collect();
    assert!(args.contains(&"scale=160:90"));
    assert!(args.contains(&"00:00:00.5"));
    assert_eq!(step.output.as_str(), "thumb.jpg");
}
