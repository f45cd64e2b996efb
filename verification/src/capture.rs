//! The capture session state machine. A session owns one screen recording:
//! the video capture process is spawned first, audio capture starts after a
//! short warm-up, and both start timestamps are kept so that stopping can
//! compute the timing correction that aligns the two streams. The
//! long-running outside work — spawning, waiting, joining, probing — happens
//! around these transitions; the transitions themselves decide everything.
//!
//! Timestamps are whole milliseconds on one monotonic clock.

use vstd::prelude::*;
use crate::plan::{StepKind, TranscodeStep, views};
use crate::text::{append_dec, append_ms_secs, dec_digits, join_with, ms_secs_text, split_on,
    split_str, join_strs};

verus! {

/// The state of the one capture session: idle, or active with the paths and
/// start timestamps of the streams being captured.
pub struct RecordingSession {
    pub is_recording: bool,
    /// The requested output path, while active.
    pub output_path: Option<String>,
    /// Wall-clock start, in milliseconds since the epoch, while active.
    pub start_time: Option<u64>,
    /// Process id of the video capture process, while active.
    pub ffmpeg_process: Option<u32>,
    /// Monotonic timestamp at which audio capture started; absent while
    /// idle and when audio capture failed to start.
    pub audio_start_time: Option<u64>,
    /// Monotonic timestamp at which the video process was spawned, while
    /// active.
    pub video_start_time: Option<u64>,
}

/// A session with no recording holds nothing.
pub open spec fn session_idle(s: RecordingSession) -> bool {
    !s.is_recording && s.output_path is None && s.start_time is None && s.ffmpeg_process is None
        && s.audio_start_time is None && s.video_start_time is None
}

/// An active session holds its output path and its video start; the audio
/// start only if audio capture came up. Timestamps stay small enough that
/// their signed difference is representable.
pub open spec fn session_active_wf(s: RecordingSession) -> bool {
    s.is_recording ==> s.output_path is Some && s.video_start_time is Some
        && (s.video_start_time is Some ==> s.video_start_time.unwrap() <= i64::MAX)
        && (s.audio_start_time is Some ==> s.audio_start_time.unwrap() <= i64::MAX)
}

/// Builds the idle session.
pub fn new_session() -> (r: RecordingSession)
    ensures
        session_idle(r),
{
    RecordingSession {
        is_recording: false,
        output_path: None,
        start_time: None,
        ffmpeg_process: None,
        audio_start_time: None,
        video_start_time: None,
    }
}

/// The state of the audio capture task: whether one is running.
pub struct AudioCaptureState {
    pub is_recording: bool,
}

/// Marks the audio capture task started. Fails exactly when one is already
/// running, leaving the state unchanged.
pub fn start_audio_capture(state: &mut AudioCaptureState) -> (r: Result<(), String>)
    ensures
        (r is Ok) == !old(state).is_recording,
        r is Ok ==> final(state).is_recording,
        r is Err ==> *final(state) == *old(state),
{
    if state.is_recording {
        return Err(String::from_str("Audio capture already in progress"));
    }
    state.is_recording = true;
    Ok(())
}

/// Marks the audio capture task stopped. Fails exactly when none is
/// running, leaving the state unchanged.
pub fn stop_audio_capture(state: &mut AudioCaptureState) -> (r: Result<(), String>)
    ensures
        (r is Ok) == old(state).is_recording,
        r is Ok ==> !final(state).is_recording,
        r is Err ==> *final(state) == *old(state),
{
    if !state.is_recording {
        return Err(String::from_str("No audio capture session active"));
    }
    state.is_recording = false;
    Ok(())
}

/// Whether an audio capture task is running.
pub fn is_audio_capturing(state: &AudioCaptureState) -> (r: bool)
    ensures
        r == state.is_recording,
{
    state.is_recording
}

/// Whether a recording is in progress. Active is reported whether or not
/// audio capture came up: a session without audio still records video.
pub fn get_recording_status(session: &RecordingSession) -> (r: Result<bool, String>)
    ensures
        r is Ok,
        r->Ok_0 == session.is_recording,
{
    Ok(session.is_recording)
}

/// `s` with every occurrence of `from` replaced by `to`: the pieces between
/// occurrences, joined by the replacement.
pub open spec fn replaced(s: Seq<char>, from: Seq<char>, to: Seq<char>) -> Seq<char> {
    join_with(split_on(s, from), to)
}

/// Replaces every occurrence of `from` in `s` with `to`, as `str::replace`
/// does.
pub fn replace_str(s: &str, from: &str, to: &str) -> (r: String)
    requires
        from@.len() > 0,
    ensures
        r@ == replaced(s@, from@, to@),
{
    let parts = split_str(s, from);
    join_strs(&parts, to)
}

/// The temporary video-only path of a recording: the output path with its
/// container suffix rewritten.
pub open spec fn video_only_path(output: Seq<char>) -> Seq<char> {
    replaced(output, ".mp4"@, "_video.mp4"@)
}

/// The temporary audio-only path of a recording.
pub open spec fn audio_only_path(output: Seq<char>) -> Seq<char> {
    replaced(output, ".mp4"@, "_audio.wav"@)
}

/// What starting a recording needs before any outside work: the session
/// must be idle and the output must be an `.mp4` path. Returns the two
/// temporary stream paths the capture writes to.
pub fn start_screen_recording_process(session: &RecordingSession, output_path: &str) -> (r: Result<
    (String, String),
    String,
>)
    ensures
        (r is Ok) == (!session.is_recording && crate::plan::ends_with(output_path@, ".mp4"@)),
        r is Ok ==> r->Ok_0.0@ == video_only_path(output_path@) && r->Ok_0.1@ == audio_only_path(
            output_path@,
        ),
{
    proof {
        reveal_strlit(".mp4");
    }
    if session.is_recording {
        return Err(String::from_str("Recording already in progress"));
    }
    if !crate::plan::str_ends_with(output_path, ".mp4") {
        return Err(String::from_str("Output path must end with .mp4"));
    }
    let video = replace_str(output_path, ".mp4", "_video.mp4");
    let audio = replace_str(output_path, ".mp4", "_audio.wav");
    Ok((video, audio))
}

/// Records the session as active once the outside work of starting is done:
/// the video process spawned at `video_start_ms`, audio capture started at
/// `audio_start_ms` or not at all. The audio timestamp is kept exactly when
/// audio came up; the session is active either way.
pub fn commit_start(session: &mut RecordingSession, output_path: String, pid: u32,
    wall_start_ms: u64, video_start_ms: u64, audio_started: bool, audio_start_ms: u64)
    requires
        !old(session).is_recording,
        video_start_ms <= i64::MAX,
        audio_start_ms <= i64::MAX,
    ensures
        final(session).is_recording,
        final(session).output_path == Some(output_path),
        final(session).start_time == Some(wall_start_ms),
        final(session).ffmpeg_process == Some(pid),
        final(session).video_start_time == Some(video_start_ms),
        final(session).audio_start_time == (if audio_started {
            Some(audio_start_ms)
        } else {
            None
        }),
        session_active_wf(*final(session)),
{
    session.is_recording = true;
    session.output_path = Some(output_path);
    session.start_time = Some(wall_start_ms);
    session.ffmpeg_process = Some(pid);
    session.video_start_time = Some(video_start_ms);
    session.audio_start_time = if audio_started {
        Some(audio_start_ms)
    } else {
        None
    };
}

/// The signed inter-stream offset: video start minus audio start, in
/// milliseconds. Positive means audio started first and its head must be
/// trimmed; negative means video started first and the audio must be
/// left-padded with silence; zero when audio never started.
pub open spec fn offset_of(video_start_ms: u64, audio_start_ms: Option<u64>) -> int {
    match audio_start_ms {
        Some(a) => video_start_ms - a,
        None => 0,
    }
}

/// The timing correction applied to the audio stream when muxing.
pub enum AudioCorrection {
    /// Audio started first: drop this many milliseconds from its head.
    TrimStart(u64),
    /// Video started first: left-pad the audio with this many milliseconds
    /// of silence.
    Delay(u64),
    /// No significant offset: only pad the tail to the video's length.
    PadOnly,
}

/// The correction for a computed offset: a trim or a pad of its magnitude,
/// except within the one-millisecond dead band, where the audio is only
/// tail-padded.
pub open spec fn correction_of(offset_ms: int) -> AudioCorrection {
    if offset_ms > 1 {
        AudioCorrection::TrimStart(offset_ms as u64)
    } else if offset_ms < -1 {
        AudioCorrection::Delay((-offset_ms) as u64)
    } else {
        AudioCorrection::PadOnly
    }
}

/// Computes the signed inter-stream offset of an active session.
pub fn compute_audio_offset(session: &RecordingSession) -> (r: i64)
    requires
        session_active_wf(*session),
        session.is_recording,
    ensures
        r as int == offset_of(session.video_start_time.unwrap(), session.audio_start_time),
{
    let v = match session.video_start_time {
        Some(v) => v,
        None => 0,
    };
    match session.audio_start_time {
        Some(a) => (v as i64) - (a as i64),
        None => 0,
    }
}

/// Computes the correction for an offset.
pub fn offset_correction(offset_ms: i64) -> (r: AudioCorrection)
    requires
        offset_ms != i64::MIN,
    ensures
        r == correction_of(offset_ms as int),
{
    if offset_ms > 1 {
        AudioCorrection::TrimStart(offset_ms as u64)
    } else if offset_ms < -1 {
        AudioCorrection::Delay((-offset_ms) as u64)
    } else {
        AudioCorrection::PadOnly
    }
}

/// Everything the stop path needs once the session itself is cleared: the
/// paths involved, and the computed offset.
pub struct StopInfo {
    pub output_path: String,
    pub video_only_path: String,
    pub audio_only_path: String,
    /// Signed offset, video start minus audio start, in milliseconds.
    pub offset_ms: i64,
    /// Whether the session had recorded an audio start.
    pub had_audio_start: bool,
}

/// Clears an active session and hands back what finishing needs. Fails
/// exactly when no recording is in progress, leaving the session unchanged.
/// The caller then stops the outside work and either muxes the two streams
/// with the computed offset or falls back to the video-only file.
pub fn stop_screen_recording_process(session: &mut RecordingSession) -> (r: Result<StopInfo, String>)
    requires
        session_active_wf(*old(session)),
    ensures
        (r is Ok) == old(session).is_recording,
        r is Err ==> *final(session) == *old(session),
        r is Ok ==> session_idle(*final(session)),
        r is Ok ==> ({
            let info = r->Ok_0;
            &&& info.output_path@ == old(session).output_path.unwrap()@
            &&& info.video_only_path@ == video_only_path(old(session).output_path.unwrap()@)
            &&& info.audio_only_path@ == audio_only_path(old(session).output_path.unwrap()@)
            &&& info.offset_ms as int == offset_of(
                old(session).video_start_time.unwrap(),
                old(session).audio_start_time,
            )
            &&& info.had_audio_start == (old(session).audio_start_time is Some)
        }),
{
    if !session.is_recording {
        return Err(String::from_str("No recording in progress"));
    }
    let offset_ms = compute_audio_offset(session);
    let output_path = match &session.output_path {
        Some(p) => p.clone(),
        None => String::new(),
    };
    proof {
        reveal_strlit(".mp4");
    }
    let video_only = replace_str(output_path.as_str(), ".mp4", "_video.mp4");
    let audio_only = replace_str(output_path.as_str(), ".mp4", "_audio.wav");
    let had_audio_start = session.audio_start_time.is_some();
    session.is_recording = false;
    session.output_path = None;
    session.start_time = None;
    session.ffmpeg_process = None;
    session.audio_start_time = None;
    session.video_start_time = None;
    Ok(
        StopInfo {
            output_path,
            video_only_path: video_only,
            audio_only_path: audio_only,
            offset_ms,
            had_audio_start,
        },
    )
}

/// How a stopped recording becomes the final file: muxed with the timing
/// correction, or the video-only file taken as it is.
pub enum StopDisposition {
    /// Audio was captured and its file exists: mux both streams.
    Mux,
    /// No usable audio: the video-only file becomes the output.
    VideoOnly,
}

/// What the final file of a stopped recording is made from: muxing needs an
/// audio capture that ran and an audio file that exists; anything else
/// degrades to the video-only file.
pub open spec fn disposition_of(audio_active: bool, audio_file_exists: bool) -> StopDisposition {
    if audio_active && audio_file_exists {
        StopDisposition::Mux
    } else {
        StopDisposition::VideoOnly
    }
}

/// Decides how the final file is produced.
pub fn stop_disposition(audio_active: bool, audio_file_exists: bool) -> (r: StopDisposition)
    ensures
        r == disposition_of(audio_active, audio_file_exists),
{
    if audio_active && audio_file_exists {
        StopDisposition::Mux
    } else {
        StopDisposition::VideoOnly
    }
}

/// The audio filter of the final mux: the correction, then tail padding so
/// the audio reaches the video's length.
pub open spec fn mux_audio_filter(c: AudioCorrection) -> Seq<char> {
    match c {
        AudioCorrection::TrimStart(ms) => "atrim=start="@ + ms_secs_text(ms as nat)
            + ",asetpts=PTS-STARTPTS,apad"@,
        AudioCorrection::Delay(ms) => "adelay="@ + dec_digits(ms as nat) + "|"@ + dec_digits(
            ms as nat,
        ) + ",apad"@,
        AudioCorrection::PadOnly => "apad"@,
    }
}

/// The argument vector of the final mux step: copy the video stream, apply
/// the correction to the audio, clamp the whole file to the video's
/// measured duration — the video is the authoritative timeline.
pub open spec fn capture_mux_args(video: Seq<char>, audio: Seq<char>, c: AudioCorrection,
    video_duration_ms: nat, output: Seq<char>) -> Seq<Seq<char>> {
    seq!["-y"@, "-i"@, video, "-i"@, audio, "-map"@, "0:v"@, "-af"@, mux_audio_filter(c), "-map"@,
        "1:a"@, "-c:v"@, "copy"@, "-c:a"@, "aac"@, "-b:a"@, "192k"@, "-t"@, ms_secs_text(
        video_duration_ms), "-movflags"@, "faststart"@, output, "-hide_banner"@, "-loglevel"@,
        "warning"@]
}

/// Builds the final mux step for a stopped recording.
pub fn build_capture_mux_step(video_path: &str, audio_path: &str, offset_ms: i64,
    video_duration_ms: u64, output_path: &str) -> (r: TranscodeStep)
    requires
        offset_ms != i64::MIN,
    ensures
        views(r.args@) == capture_mux_args(
            video_path@,
            audio_path@,
            correction_of(offset_ms as int),
            video_duration_ms as nat,
            output_path@,
        ),
        r.output@ == output_path@,
        r.kind == StepKind::Mux,
{
    let correction = offset_correction(offset_ms);
    let mut af = String::new();
    match &correction {
        AudioCorrection::TrimStart(ms) => {
            af.append("atrim=start=");
            append_ms_secs(&mut af, *ms);
            af.append(",asetpts=PTS-STARTPTS,apad");
        },
        AudioCorrection::Delay(ms) => {
            af.append("adelay=");
            append_dec(&mut af, *ms);
            af.append("|");
            append_dec(&mut af, *ms);
            af.append(",apad");
        },
        AudioCorrection::PadOnly => {
            af.append("apad");
        },
    }
    proof {
        assert(af@ =~= mux_audio_filter(correction));
    }
    let mut args: Vec<String> = Vec::new();
    push_lit(&mut args, "-y");
    push_lit(&mut args, "-i");
    push_string(&mut args, String::from_str(video_path));
    push_lit(&mut args, "-i");
    push_string(&mut args, String::from_str(audio_path));
    push_lit(&mut args, "-map");
    push_lit(&mut args, "0:v");
    push_lit(&mut args, "-af");
    push_string(&mut args, af);
    push_lit(&mut args, "-map");
    push_lit(&mut args, "1:a");
    push_lit(&mut args, "-c:v");
    push_lit(&mut args, "copy");
    push_lit(&mut args, "-c:a");
    push_lit(&mut args, "aac");
    push_lit(&mut args, "-b:a");
    push_lit(&mut args, "192k");
    push_lit(&mut args, "-t");
    push_string(&mut args, crate::text::ms_secs_string(video_duration_ms));
    push_lit(&mut args, "-movflags");
    push_lit(&mut args, "faststart");
    push_string(&mut args, String::from_str(output_path));
    push_lit(&mut args, "-hide_banner");
    push_lit(&mut args, "-loglevel");
    push_lit(&mut args, "warning");
    proof {
        assert(views(args@) =~~= capture_mux_args(
            video_path@,
            audio_path@,
            correction_of(offset_ms as int),
            video_duration_ms as nat,
            output_path@,
        ));
    }
    TranscodeStep { kind: StepKind::Mux, args, output: String::from_str(output_path) }
}

/// Appends one literal argument.
fn push_lit(args: &mut Vec<String>, s: &str)
    ensures
        views(final(args)@) == views(old(args)@).push(s@),
{
    args.push(String::from_str(s));
    proof {
        assert(views(args@) =~= views(old(args)@).push(s@));
    }
}

/// Appends one computed argument.
fn push_string(args: &mut Vec<String>, s: String)
    ensures
        views(final(args)@) == views(old(args)@).push(s@),
{
    args.push(s);
    proof {
        assert(views(args@) =~= views(old(args)@).push(s@));
    }
}

/// Offset computation and its correction path: when video capture starts at
/// `t` and audio at `t + d` — video first, beyond the dead band — the
/// offset is `-d` and the correction left-pads `d` milliseconds of silence;
/// when audio starts at `t` and video at `t + d` — audio first — the offset
/// is `d` and the correction trims `d` milliseconds from the audio's head.
pub proof fn lemma_offset_correction_paths(t: u64, d: u64)
    requires
        d > 1,
        t + d <= i64::MAX,
    ensures
        offset_of(t, Some((t + d) as u64)) == -(d as int),
        correction_of(offset_of(t, Some((t + d) as u64))) == AudioCorrection::Delay(d),
        offset_of((t + d) as u64, Some(t)) == d as int,
        correction_of(offset_of((t + d) as u64, Some(t))) == AudioCorrection::TrimStart(d),
{
}

/// A session whose audio capture never came up still reports itself
/// recording, and its stop path never reaches the mux step: the offset is
/// zero and the disposition is the video-only file, whatever the audio
/// task or the file system say about an audio file.
pub proof fn lemma_audio_unavailable_video_only(s: RecordingSession, audio_file_exists: bool)
    requires
        s.is_recording,
        s.audio_start_time is None,
        session_active_wf(s),
    ensures
        s.is_recording,
        offset_of(s.video_start_time.unwrap(), s.audio_start_time) == 0,
        disposition_of(false, audio_file_exists) == StopDisposition::VideoOnly,
{
}

} // verus!
