use vibeclips::filters::ClipFilters;
use vibeclips::plan::{calculate_overlay_pos, compile_export_plan, StepKind};
use vibeclips::timeline::{Clip, OverlayPositions, Timeline};

fn clip(path: &str, trim_ms: u64, dur_ms: u64, start_ms: u64, track: u32) -> Clip {
    Clip {
        file_path: path.to_string(),
        trim_start_ms: trim_ms,
        duration_ms: dur_ms,
        start_time_ms: start_ms,
        track,
        filters: None,
    }
}

fn timeline(clips: Vec<Clip>, output: &str) -> Timeline {
    Timeline {
        clips,
        width: 1920,
        height: 1080,
        crf: "23".to_string(),
        preset: "fast".to_string(),
        overlay_positions: None,
        subtitle_srt_path: None,
        output_path: output.to_string(),
    }
}

#[test]
fn test_single_clip_yields_one_step() {
    // a timeline with a single clip on the base track compiles to exactly
    // one transcode step and no temporary files
    let t = timeline(vec![clip("in.mp4", 1500, 4000, 0, 0)], "out.mp4");
    let plan = compile_export_plan(&t, "/tmp/").unwrap();
    assert_eq!(plan.steps.len(), 1);
    assert!(matches!(plan.steps[0].kind, StepKind::Single));
    assert_eq!(plan.steps[0].output.as_str(), "out.mp4");
    assert_eq!(plan.temp_files.len(), 0);
    assert!(plan.list_file.is_none());
    let expected = vec![
        "-y", "-ss", "1.500", "-i", "in.mp4", "-t", "4.000", "-c:v", "libx264", "-preset", "fast",
        "-crf", "23", "-c:a", "aac", "-b:a", "192k", "-pix_fmt", "yuv420p", "-movflags",
        "faststart", "-vf", "scale=1920:1080", "-hide_banner", "-loglevel", "quiet", "-nostats",
        "out.mp4",
    ];
    let got: Vec<&str> = plan.steps[0].args.iter().map(|a| a.as_str()).collect();
    assert_eq!(got, expected);
}

#[test]
fn test_single_clip_no_trim_omits_seek() {
    let t = timeline(vec![clip("in.mp4", 0, 4000, 0, 0)], "out.mp4");
    let plan = compile_export_plan(&t, "/tmp/").unwrap();
    let got: Vec<&str> = plan.steps[0].args.iter().map(|a| a.as_str()).collect();
    assert!(!got.contains(&"-ss"));
    assert!(got.contains(&"-t"));
}

#[test]
fn test_multi_clip_trims_plus_concat() {
    // a two-clip export: clip A of 3.0 seconds at timeline start 0, clip B
    // of 2.0 seconds at 3.0 — two trim steps plus one concatenation step,
    // three temporary files (two clips and the list)
    let t = timeline(
        vec![clip("a.mp4", 0, 3000, 0, 0), clip("b.mp4", 0, 2000, 3000, 0)],
        "out.mp4",
    );
    let plan = compile_export_plan(&t, "/tmp/").unwrap();
    assert_eq!(plan.steps.len(), 3);
    assert!(matches!(plan.steps[0].kind, StepKind::Trim));
    assert!(matches!(plan.steps[1].kind, StepKind::Trim));
    assert!(matches!(plan.steps[2].kind, StepKind::Concat));
    assert_eq!(plan.temp_files.len(), 3);
    assert_eq!(plan.temp_files[0].as_str(), "/tmp/clip_0.mp4");
    assert_eq!(plan.temp_files[1].as_str(), "/tmp/clip_1.mp4");
    assert_eq!(plan.temp_files[2].as_str(), "/tmp/concat_list.txt");
    let (list_path, list_text) = plan.list_file.as_ref().unwrap();
    assert_eq!(list_path.as_str(), "/tmp/concat_list.txt");
    assert_eq!(
        list_text.as_str(),
        "file '/tmp/clip_0.mp4'\nfile '/tmp/clip_1.mp4'\n"
    );
    // the trims carry the clip durations: 3.000 and 2.000 seconds, summing
    // to the expected 5.0 second output
    let a0: Vec<&str> = plan.steps[0].args.iter().map(|a| a.as_str()).collect();
    let a1: Vec<&str> = plan.steps[1].args.iter().map(|a| a.as_str()).collect();
    assert_eq!(a0[a0.iter().position(|s| *s == "-t").unwrap() + 1], "3.000");
    assert_eq!(a1[a1.iter().position(|s| *s == "-t").unwrap() + 1], "2.000");
    assert_eq!(3000 + 2000, 5000);
}

#[test]
fn test_clips_ordered_by_start_time_ties_by_position() {
    let t = timeline(
        vec![
            clip("late.mp4", 0, 1000, 5000, 0),
            clip("early.mp4", 0, 1000, 0, 0),
            clip("tied.mp4", 0, 1000, 0, 0),
        ],
        "out.mp4",
    );
    let plan = compile_export_plan(&t, "/tmp/").unwrap();
    let inputs: Vec<&str> = plan
        .steps
        .iter()
        .take(3)
        .map(|s| {
            let args: Vec<&str> = s.args.iter().map(|a| a.as_str()).collect();
            args[args.iter().position(|x| *x == "-i").unwrap() + 1]
        })
        .map(|s| match s {
            "early.mp4" => "early.mp4",
            "tied.mp4" => "tied.mp4",
            other => other,
        })
        .collect();
    assert_eq!(inputs, vec!["early.mp4", "tied.mp4", "late.mp4"]);
}

#[test]
fn test_export_rejects_empty_and_bad_extension() {
    let empty = timeline(vec![], "out.mp4");
    assert!(compile_export_plan(&empty, "/tmp/").is_err());
    let bad = timeline(vec![clip("a.mp4", 0, 1000, 0, 0)], "out.avi");
    assert!(compile_export_plan(&bad, "/tmp/").is_err());
    let mov = timeline(vec![clip("a.mp4", 0, 1000, 0, 0)], "out.mov");
    assert!(compile_export_plan(&mov, "/tmp/").is_ok());
}

#[test]
fn test_export_rejects_overlay_without_base() {
    let t = timeline(vec![clip("ov.mp4", 0, 1000, 0, 1)], "out.mp4");
    assert!(compile_export_plan(&t, "/tmp/").is_err());
}

#[test]
fn test_overlay_plan_shape() {
    let mut t = timeline(
        vec![clip("base.mp4", 0, 4000, 0, 0), clip("cam.mp4", 0, 2000, 1000, 1)],
        "out.mp4",
    );
    t.overlay_positions = Some(OverlayPositions {
        track1: Some("top-left".to_string()),
        track2: None,
    });
    let plan = compile_export_plan(&t, "/tmp/").unwrap();
    assert_eq!(plan.steps.len(), 4);
    assert!(matches!(plan.steps[0].kind, StepKind::Trim));
    assert!(matches!(plan.steps[1].kind, StepKind::BaseConcat));
    assert!(matches!(plan.steps[2].kind, StepKind::Layer));
    assert!(matches!(plan.steps[3].kind, StepKind::Composite));
    assert_eq!(plan.temp_files.len(), 4);
    assert_eq!(plan.temp_files[0].as_str(), "/tmp/track0_clip_0.mp4");
    assert_eq!(plan.temp_files[1].as_str(), "/tmp/track0_concat.txt");
    assert_eq!(plan.temp_files[2].as_str(), "/tmp/base_track0.mp4");
    assert_eq!(plan.temp_files[3].as_str(), "/tmp/overlay1.mp4");
    // the layer composites the source only inside its timeline window
    let layer: Vec<&str> = plan.steps[2].args.iter().map(|a| a.as_str()).collect();
    let fc = layer[layer.iter().position(|s| *s == "-filter_complex").unwrap() + 1];
    assert!(fc.contains("between(t,1.000,3.000)"));
    // the composite places the overlay at the configured corner: top-left
    // with the fixed padding
    let comp: Vec<&str> = plan.steps[3].args.iter().map(|a| a.as_str()).collect();
    let cfc = comp[comp.iter().position(|s| *s == "-filter_complex").unwrap() + 1];
    assert_eq!(cfc, "[0:v][1:v]overlay=20:20[vout]");
    // the base is padded to the full timeline duration: 4.0 seconds
    let base: Vec<&str> = plan.steps[1].args.iter().map(|a| a.as_str()).collect();
    assert_eq!(base[base.iter().position(|s| *s == "-t").unwrap() + 1], "4.000");
}

#[test]
fn test_subtitles_staged_and_burned() {
    let mut t = timeline(vec![clip("a.mp4", 0, 1000, 0, 0)], "out.mp4");
    t.subtitle_srt_path = Some("subs.srt".to_string());
    let plan = compile_export_plan(&t, "/tmp/").unwrap();
    let (src, staged) = plan.subtitle_stage.as_ref().unwrap();
    assert_eq!(src.as_str(), "subs.srt");
    assert_eq!(staged.as_str(), "./temp_subtitles.srt");
    let args: Vec<&str> = plan.steps[0].args.iter().map(|a| a.as_str()).collect();
    let vf = args[args.iter().position(|s| *s == "-vf").unwrap() + 1];
    assert_eq!(vf, "scale=1920:1080,subtitles=./temp_subtitles.srt");
}

#[test]
fn test_clip_filters_in_trim_steps() {
    let mut c = clip("a.mp4", 0, 1000, 0, 0);
    c.filters = Some(ClipFilters {
        brightness: Some(30),
        contrast: None,
        saturation: None,
    });
    let t = timeline(vec![c], "out.mp4");
    let plan = compile_export_plan(&t, "/tmp/").unwrap();
    let args: Vec<&str> = plan.steps[0].args.iter().map(|a| a.as_str()).collect();
    let vf = args[args.iter().position(|s| *s == "-vf").unwrap() + 1];
    assert_eq!(vf, "scale=1920:1080,eq=brightness=0.300");
}

#[test]
fn test_calculate_overlay_pos_corners() {
    assert_eq!(calculate_overlay_pos("top-left", 1920, 1080, 480, 270, 20), (20, 20));
    assert_eq!(calculate_overlay_pos("top-right", 1920, 1080, 480, 270, 20), (1420, 20));
    assert_eq!(calculate_overlay_pos("bottom-left", 1920, 1080, 480, 270, 20), (20, 790));
    assert_eq!(calculate_overlay_pos("bottom-right", 1920, 1080, 480, 270, 20), (1420, 790));
    assert_eq!(calculate_overlay_pos("center", 1920, 1080, 480, 270, 20), (720, 405));
    // an unknown name falls back to the bottom-right corner
    assert_eq!(calculate_overlay_pos("elsewhere", 1920, 1080, 480, 270, 20), (1420, 790));
}

#[test]
fn test_backslash_paths_normalized() {
    let t = timeline(vec![clip("C:\\media\\in.mp4", 0, 1000, 0, 0)], "out.mp4");
    let plan = compile_export_plan(&t, "/tmp/").unwrap();
    let args: Vec<&str> = plan.steps[0].args.iter().map(|a| a.as_str()).collect();
    assert_eq!(args[args.iter().position(|s| *s == "-i").unwrap() + 1], "C:/media/in.mp4");
}
