//! Picture-in-picture compositing: the webcam recording scaled to a corner
//! of the screen recording, with the audio mix chosen from what the two
//! sources actually contain, and the screen audio delayed to compensate for
//! the webcam's inherent capture latency.

use vstd::prelude::*;
use crate::plan::{StepKind, TranscodeStep, views};
use crate::text::{append_dec, dec_digits, ms_secs_text};

verus! {

/// The corner a picture-in-picture overlay sits in.
pub enum PipCorner {
    TopLeft,
    TopRight,
    BottomLeft,
    BottomRight,
}

/// The size class of a picture-in-picture overlay, mapping to fixed pixel
/// dimensions.
pub enum PipSize {
    Small,
    Medium,
    Large,
}

/// The picture-in-picture configuration: corner, size class, and padding
/// from the edges in pixels.
pub struct PiPConfig {
    pub position: PipCorner,
    pub size: PipSize,
    pub padding: u32,
}

/// Which audio sources the caller wants in the mix; effective only where
/// the source stream actually carries audio.
pub struct AudioOptions {
    pub include_system_audio: bool,
    pub include_mic_audio: bool,
}

/// The extra delay added to the configured offset: webcams lag screen
/// capture by an inherent processing latency, compensated with a fixed
/// buffer, in milliseconds.
pub const WEBCAM_LATENCY_MS: u64 = 100;

/// The pixel width of a size class.
pub open spec fn pip_width(s: PipSize) -> u32 {
    match s {
        PipSize::Small => 320,
        PipSize::Medium => 480,
        PipSize::Large => 640,
    }
}

/// The pixel height of a size class.
pub open spec fn pip_height(s: PipSize) -> u32 {
    match s {
        PipSize::Small => 180,
        PipSize::Medium => 270,
        PipSize::Large => 360,
    }
}

/// The overlay position expression for a corner: the padding measured from
/// the corner's two edges, in the engine's overlay coordinates.
pub open spec fn pip_pos_expr(corner: PipCorner, padding: u32) -> Seq<char> {
    let p = dec_digits(padding as nat);
    match corner {
        PipCorner::TopLeft => p + ":"@ + p,
        PipCorner::TopRight => "W-w-"@ + p + ":"@ + p,
        PipCorner::BottomLeft => p + ":H-h-"@ + p,
        PipCorner::BottomRight => "W-w-"@ + p + ":H-h-"@ + p,
    }
}

/// The video half of the composite filter: the webcam scaled to its class,
/// overlaid at its corner.
pub open spec fn pip_video_filter(cfg: PiPConfig) -> Seq<char> {
    "[1:v]scale="@ + dec_digits(pip_width(cfg.size) as nat) + ":"@ + dec_digits(
        pip_height(cfg.size) as nat,
    ) + "[pip];[0:v][pip]overlay="@ + pip_pos_expr(cfg.position, cfg.padding)
}

/// The screen-audio chain: delayed by the whole delay, resampled, padded.
/// `label` names the chain's output.
pub open spec fn screen_audio_chain(delay_ms: nat, label: Seq<char>) -> Seq<char> {
    "[0:a]adelay="@ + dec_digits(delay_ms) + "|"@ + dec_digits(delay_ms)
        + ",aresample=async=1,apad"@ + label
}

/// The whole composite filter, by which audio sources take part: both mixed,
/// one padded alone, or none.
pub open spec fn pip_filter_text(cfg: PiPConfig, use_screen: bool, use_webcam: bool,
    delay_ms: nat) -> Seq<char> {
    if use_screen && use_webcam {
        pip_video_filter(cfg) + "[vout];"@ + screen_audio_chain(delay_ms, "[a0]"@)
            + ";[1:a]aresample=async=1,apad[a1];[a0][a1]amix=inputs=2:duration=longest[aout]"@
    } else if use_screen {
        pip_video_filter(cfg) + "[vout];"@ + screen_audio_chain(delay_ms, "[aout]"@)
    } else if use_webcam {
        pip_video_filter(cfg) + "[vout];[1:a]aresample=async=1,apad[aout]"@
    } else {
        pip_video_filter(cfg)
    }
}

/// The argument vector of the picture-in-picture composite: the screen
/// recording as the master timeline, the webcam overlaid, the chosen audio
/// mix, and the output clamped to the screen recording's measured duration.
pub open spec fn pip_composite_args(screen: Seq<char>, webcam: Seq<char>, cfg: PiPConfig,
    use_screen: bool, use_webcam: bool, delay_ms: nat, duration_ms: nat, output: Seq<char>) -> Seq<
    Seq<char>,
> {
    seq!["-y"@, "-i"@, screen, "-i"@, webcam, "-map_metadata"@, "0"@, "-fflags"@, "+genpts"@,
        "-fps_mode"@, "vfr"@, "-filter_complex"@, pip_filter_text(cfg, use_screen, use_webcam,
        delay_ms)] + (if use_screen || use_webcam {
        seq!["-map"@, "[vout]"@, "-map"@, "[aout]"@]
    } else {
        Seq::empty()
    }) + seq!["-c:v"@, "libx264"@, "-preset"@, "ultrafast"@, "-crf"@, "23"@] + (if use_screen
        || use_webcam {
        seq!["-c:a"@, "aac"@, "-b:a"@, "192k"@]
    } else {
        Seq::empty()
    }) + (if duration_ms > 0 {
        seq!["-t"@, ms_secs_text(duration_ms)]
    } else {
        Seq::empty()
    }) + seq!["-movflags"@, "faststart"@, output, "-hide_banner"@, "-loglevel"@, "info"@]
}

/// Appends one literal argument.
fn push_lit(args: &mut Vec<String>, s: &str)
    ensures
        views(final(args)@) == views(old(args)@).push(s@),
{
    args.push(String::from_str(s));
    proof {
        assert(views(args@) =~= views(old(args)@).push(s@));
    }
}

/// Appends one computed argument.
fn push_string(args: &mut Vec<String>, s: String)
    ensures
        views(final(args)@) == views(old(args)@).push(s@),
{
    args.push(s);
    proof {
        assert(views(args@) =~= views(old(args)@).push(s@));
    }
}

/// Appends the overlay position expression of a corner.
fn append_pos_expr(out: &mut String, corner: &PipCorner, padding: u32)
    ensures
        final(out)@ == old(out)@ + pip_pos_expr(*corner, padding),
{
    match corner {
        PipCorner::TopLeft => {
            append_dec(out, padding as u64);
            out.append(":");
            append_dec(out, padding as u64);
        },
        PipCorner::TopRight => {
            out.append("W-w-");
            append_dec(out, padding as u64);
            out.append(":");
            append_dec(out, padding as u64);
        },
        PipCorner::BottomLeft => {
            append_dec(out, padding as u64);
            out.append(":H-h-");
            append_dec(out, padding as u64);
        },
        PipCorner::BottomRight => {
            out.append("W-w-");
            append_dec(out, padding as u64);
            out.append(":H-h-");
            append_dec(out, padding as u64);
        },
    }
    proof {
        assert(final(out)@ =~= old(out)@ + pip_pos_expr(*corner, padding));
    }
}

/// Compiles the picture-in-picture composite step. The caller probes which
/// sources actually carry audio and hands the results in: a requested
/// source without an audio stream is left out of the mix. The screen audio
/// is delayed by the configured offset plus the fixed webcam latency
/// buffer; the output is clamped to the screen recording's measured
/// duration, taken as the master timeline.
#[verifier::rlimit(80)]
pub fn compile_pip_composite(screen_path: &str, webcam_path: &str, pip_config: &PiPConfig,
    audio_options: &AudioOptions, output_path: &str, screen_start_offset_ms: Option<u64>,
    screen_has_audio: bool, webcam_has_audio: bool, screen_duration_ms: u64) -> (r: TranscodeStep)
    requires
        screen_start_offset_ms is Some ==> screen_start_offset_ms.unwrap() + WEBCAM_LATENCY_MS
            <= u64::MAX,
    ensures
        views(r.args@) == pip_composite_args(
            screen_path@,
            webcam_path@,
            *pip_config,
            audio_options.include_system_audio && screen_has_audio,
            audio_options.include_mic_audio && webcam_has_audio,
            ((match screen_start_offset_ms {
                Some(o) => o,
                None => 0,
            }) + WEBCAM_LATENCY_MS) as nat,
            screen_duration_ms as nat,
            output_path@,
        ),
        r.output@ == output_path@,
        r.kind == StepKind::Composite,
{
    let use_screen = audio_options.include_system_audio && screen_has_audio;
    let use_webcam = audio_options.include_mic_audio && webcam_has_audio;
    let delay_ms: u64 = match screen_start_offset_ms {
        Some(o) => o + WEBCAM_LATENCY_MS,
        None => WEBCAM_LATENCY_MS,
    };
    let w = match pip_config.size {
        PipSize::Small => 320u64,
        PipSize::Medium => 480u64,
        PipSize::Large => 640u64,
    };
    let h = match pip_config.size {
        PipSize::Small => 180u64,
        PipSize::Medium => 270u64,
        PipSize::Large => 360u64,
    };
    let mut fc = String::new();
    fc.append("[1:v]scale=");
    append_dec(&mut fc, w);
    fc.append(":");
    append_dec(&mut fc, h);
    fc.append("[pip];[0:v][pip]overlay=");
    append_pos_expr(&mut fc, &pip_config.position, pip_config.padding);
    proof {
        assert(fc@ =~= pip_video_filter(*pip_config));
    }
    if use_screen && use_webcam {
        fc.append("[vout];");
        fc.append("[0:a]adelay=");
        append_dec(&mut fc, delay_ms);
        fc.append("|");
        append_dec(&mut fc, delay_ms);
        fc.append(",aresample=async=1,apad");
        fc.append("[a0]");
        fc.append(";[1:a]aresample=async=1,apad[a1];[a0][a1]amix=inputs=2:duration=longest[aout]");
        proof {
            assert(fc@ =~= pip_filter_text(*pip_config, use_screen, use_webcam, delay_ms as nat));
        }
    } else if use_screen {
        fc.append("[vout];");
        fc.append("[0:a]adelay=");
        append_dec(&mut fc, delay_ms);
        fc.append("|");
        append_dec(&mut fc, delay_ms);
        fc.append(",aresample=async=1,apad");
        fc.append("[aout]");
        proof {
            assert(fc@ =~= pip_filter_text(*pip_config, use_screen, use_webcam, delay_ms as nat));
        }
    } else if use_webcam {
        fc.append("[vout];[1:a]aresample=async=1,apad[aout]");
        proof {
            assert(fc@ =~= pip_filter_text(*pip_config, use_screen, use_webcam, delay_ms as nat));
        }
    } else {
        proof {
            assert(fc@ =~= pip_filter_text(*pip_config, use_screen, use_webcam, delay_ms as nat));
        }
    }
    let mut args: Vec<String> = Vec::new();
    push_lit(&mut args, "-y");
    push_lit(&mut args, "-i");
    push_string(&mut args, String::from_str(screen_path));
    push_lit(&mut args, "-i");
    push_string(&mut args, String::from_str(webcam_path));
    push_lit(&mut args, "-map_metadata");
    push_lit(&mut args, "0");
    push_lit(&mut args, "-fflags");
    push_lit(&mut args, "+genpts");
    push_lit(&mut args, "-fps_mode");
    push_lit(&mut args, "vfr");
    push_lit(&mut args, "-filter_complex");
    push_string(&mut args, fc);
    if use_screen || use_webcam {
        push_lit(&mut args, "-map");
        push_lit(&mut args, "[vout]");
        push_lit(&mut args, "-map");
        push_lit(&mut args, "[aout]");
    }
    push_lit(&mut args, "-c:v");
    push_lit(&mut args, "libx264");
    push_lit(&mut args, "-preset");
    push_lit(&mut args, "ultrafast");
    push_lit(&mut args, "-crf");
    push_lit(&mut args, "23");
    if use_screen || use_webcam {
        push_lit(&mut args, "-c:a");
        push_lit(&mut args, "aac");
        push_lit(&mut args, "-b:a");
        push_lit(&mut args, "192k");
    }
    if screen_duration_ms > 0 {
        push_lit(&mut args, "-t");
        push_string(&mut args, crate::text::ms_secs_string(screen_duration_ms));
    }
    push_lit(&mut args, "-movflags");
    push_lit(&mut args, "faststart");
    push_string(&mut args, String::from_str(output_path));
    push_lit(&mut args, "-hide_banner");
    push_lit(&mut args, "-loglevel");
    push_lit(&mut args, "info");
    proof {
        assert(views(args@) =~~= pip_composite_args(
            screen_path@,
            webcam_path@,
            *pip_config,
            use_screen,
            use_webcam,
            delay_ms as nat,
            screen_duration_ms as nat,
            output_path@,
        ));
    }
    TranscodeStep { kind: StepKind::Composite, args, output: String::from_str(output_path) }
}

} // verus!
