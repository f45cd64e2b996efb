//! Stand-alone engine invocations around the editor: muxing two finished
//! streams, container conversion on import, audio extraction for
//! transcription, and thumbnailing. Each builder yields one complete
//! transcode step.

use vstd::prelude::*;
use crate::plan::{StepKind, TranscodeStep, views};
use crate::text::{append_char_at, append_ms_secs, ms_secs_text, str_eq};

verus! {

/// Appends one literal argument.
fn push_lit(args: &mut Vec<String>, s: &str)
    ensures
        views(final(args)@) == views(old(args)@).push(s@),
{
    args.push(String::from_str(s));
    proof {
        assert(views(args@) =~= views(old(args)@).push(s@));
    }
}

/// Appends one computed argument.
fn push_string(args: &mut Vec<String>, s: String)
    ensures
        views(final(args)@) == views(old(args)@).push(s@),
{
    args.push(s);
    proof {
        assert(views(args@) =~= views(old(args)@).push(s@));
    }
}

/// The argument vector that muxes a finished video and audio file into one
/// container, copying the video stream.
pub open spec fn mux_args(video: Seq<char>, audio: Seq<char>, output: Seq<char>) -> Seq<
    Seq<char>,
> {
    seq!["-y"@, "-i"@, video, "-i"@, audio, "-c:v"@, "copy"@, "-c:a"@, "aac"@, "-b:a"@, "192k"@,
        output, "-hide_banner"@, "-loglevel"@, "error"@]
}

/// Builds the step that muxes a video and an audio file into the output.
pub fn mux_video_audio(video_path: &str, audio_path: &str, output_path: &str) -> (r:
    TranscodeStep)
    ensures
        views(r.args@) == mux_args(video_path@, audio_path@, output_path@),
        r.output@ == output_path@,
        r.kind == StepKind::Mux,
{
    let mut args: Vec<String> = Vec::new();
    push_lit(&mut args, "-y");
    push_lit(&mut args, "-i");
    push_string(&mut args, String::from_str(video_path));
    push_lit(&mut args, "-i");
    push_string(&mut args, String::from_str(audio_path));
    push_lit(&mut args, "-c:v");
    push_lit(&mut args, "copy");
    push_lit(&mut args, "-c:a");
    push_lit(&mut args, "aac");
    push_lit(&mut args, "-b:a");
    push_lit(&mut args, "192k");
    push_string(&mut args, String::from_str(output_path));
    push_lit(&mut args, "-hide_banner");
    push_lit(&mut args, "-loglevel");
    push_lit(&mut args, "error");
    proof {
        assert(views(args@) =~~= mux_args(video_path@, audio_path@, output_path@));
    }
    TranscodeStep { kind: StepKind::Mux, args, output: String::from_str(output_path) }
}

/// The argument vector that re-encodes a captured stream into the standard
/// container.
pub open spec fn convert_args(input: Seq<char>, output: Seq<char>) -> Seq<Seq<char>> {
    seq!["-y"@, "-i"@, input, "-c:v"@, "libx264"@, "-preset"@, "fast"@, "-crf"@, "23"@, "-c:a"@,
        "aac"@, "-b:a"@, "192k"@, "-movflags"@, "faststart"@, output, "-hide_banner"@,
        "-loglevel"@, "error"@]
}

/// Builds the step that converts a captured stream to the standard
/// container. The caller deletes the input on success.
pub fn convert_webm_to_mp4(input_path: &str, output_path: &str) -> (r: TranscodeStep)
    ensures
        views(r.args@) == convert_args(input_path@, output_path@),
        r.output@ == output_path@,
        r.kind == StepKind::Convert,
{
    let mut args: Vec<String> = Vec::new();
    push_lit(&mut args, "-y");
    push_lit(&mut args, "-i");
    push_string(&mut args, String::from_str(input_path));
    push_lit(&mut args, "-c:v");
    push_lit(&mut args, "libx264");
    push_lit(&mut args, "-preset");
    push_lit(&mut args, "fast");
    push_lit(&mut args, "-crf");
    push_lit(&mut args, "23");
    push_lit(&mut args, "-c:a");
    push_lit(&mut args, "aac");
    push_lit(&mut args, "-b:a");
    push_lit(&mut args, "192k");
    push_lit(&mut args, "-movflags");
    push_lit(&mut args, "faststart");
    push_string(&mut args, String::from_str(output_path));
    push_lit(&mut args, "-hide_banner");
    push_lit(&mut args, "-loglevel");
    push_lit(&mut args, "error");
    proof {
        assert(views(args@) =~~= convert_args(input_path@, output_path@));
    }
    TranscodeStep { kind: StepKind::Convert, args, output: String::from_str(output_path) }
}

/// Whether a path names the interchange container that import re-encodes
/// for compatibility: its suffix, letter case ignored.
pub open spec fn is_mov_path(s: Seq<char>) -> bool {
    s.len() >= 4 && s[s.len() - 4] == '.' && (s[s.len() - 3] == 'm' || s[s.len() - 3] == 'M') && (
    s[s.len() - 2] == 'o' || s[s.len() - 2] == 'O') && (s[s.len() - 1] == 'v' || s[s.len() - 1]
        == 'V')
}

/// Decides whether an imported file needs conversion.
pub fn needs_conversion(file_path: &str) -> (r: bool)
    ensures
        r == is_mov_path(file_path@),
{
    let n = file_path.unicode_len();
    if n < 4 {
        return false;
    }
    let dot = file_path.get_char(n - 4);
    let m = file_path.get_char(n - 3);
    let o = file_path.get_char(n - 2);
    let v = file_path.get_char(n - 1);
    dot == '.' && (m == 'm' || m == 'M') && (o == 'o' || o == 'O') && (v == 'v' || v == 'V')
}

/// The name component after the last path separator.
pub open spec fn last_name(s: Seq<char>) -> Seq<char>
    decreases s.len(),
{
    if s.len() == 0 {
        s
    } else if s.last() == '/' || s.last() == '\\' {
        Seq::empty()
    } else {
        last_name(s.drop_last()) + seq![s.last()]
    }
}

/// A name with its extension cut: everything before the last dot, where a
/// dot past the first character exists; the whole name otherwise.
pub open spec fn cut_ext(n: Seq<char>) -> Seq<char>
    decreases n.len(),
{
    if n.len() <= 1 {
        n
    } else if n.last() == '.' {
        n.drop_last()
    } else if cut_ext(n.drop_last()) == n.drop_last() {
        n
    } else {
        cut_ext(n.drop_last())
    }
}

/// Extracts the name component after the last path separator.
fn take_last_name(s: &str) -> (r: String)
    ensures
        r@ == last_name(s@),
    decreases s@.len(),
{
    let n = s.unicode_len();
    if n == 0 {
        return String::new();
    }
    let c = s.get_char(n - 1);
    if c == '/' || c == '\\' {
        return String::new();
    }
    let mut r = take_last_name(s.substring_char(0, n - 1));
    append_char_at(&mut r, s, n - 1);
    proof {
        assert(s@.subrange(0, n - 1) =~= s@.drop_last());
    }
    r
}

/// Cuts the extension off a name.
fn take_cut_ext(nm: &str) -> (r: String)
    ensures
        r@ == cut_ext(nm@),
    decreases nm@.len(),
{
    let n = nm.unicode_len();
    if n <= 1 {
        return String::from_str(nm);
    }
    if nm.get_char(n - 1) == '.' {
        let r = String::from_str(nm.substring_char(0, n - 1));
        proof {
            assert(r@ =~= nm@.drop_last());
        }
        return r;
    }
    let head = nm.substring_char(0, n - 1);
    proof {
        assert(head@ =~= nm@.drop_last());
    }
    let p = take_cut_ext(head);
    if str_eq(p.as_str(), head) {
        String::from_str(nm)
    } else {
        p
    }
}

/// The stem of a path: the name after the last separator, its extension
/// cut; a fixed fallback when that leaves nothing.
pub open spec fn path_stem(s: Seq<char>) -> Seq<char> {
    if cut_ext(last_name(s)).len() == 0 {
        "converted"@
    } else {
        cut_ext(last_name(s))
    }
}

/// The path an imported file is re-encoded to: its stem under the
/// temporary directory, marked converted.
pub open spec fn converted_path(td: Seq<char>, s: Seq<char>) -> Seq<char> {
    td + path_stem(s) + "_converted.mp4"@
}

/// The argument vector that re-encodes an imported file for compatibility.
pub open spec fn import_convert_args(input: Seq<char>, output: Seq<char>) -> Seq<Seq<char>> {
    seq!["-y"@, "-i"@, input, "-c:v"@, "libx264"@, "-preset"@, "medium"@, "-crf"@, "23"@,
        "-pix_fmt"@, "yuv420p"@, "-c:a"@, "aac"@, "-b:a"@, "192k"@, "-movflags"@, "faststart"@,
        output, "-hide_banner"@, "-loglevel"@, "warning"@]
}

/// Plans an import: a file in the interchange container gets a conversion
/// step targeting its stem under the temporary directory; any other file is
/// used as it is.
pub fn import_video_file(file_path: &str, temp_dir: &str) -> (r: Option<TranscodeStep>)
    ensures
        (r is Some) == is_mov_path(file_path@),
        r is Some ==> views(r.unwrap().args@) == import_convert_args(
            file_path@,
            converted_path(temp_dir@, file_path@),
        ) && r.unwrap().output@ == converted_path(temp_dir@, file_path@),
{
    if !needs_conversion(file_path) {
        return None;
    }
    let nm = take_last_name(file_path);
    let stem = take_cut_ext(nm.as_str());
    let mut out = String::from_str(temp_dir);
    if stem.as_str().unicode_len() == 0 {
        out.append("converted");
    } else {
        out.append(stem.as_str());
    }
    out.append("_converted.mp4");
    proof {
        assert(out@ =~= converted_path(temp_dir@, file_path@));
    }
    let mut args: Vec<String> = Vec::new();
    push_lit(&mut args, "-y");
    push_lit(&mut args, "-i");
    push_string(&mut args, String::from_str(file_path));
    push_lit(&mut args, "-c:v");
    push_lit(&mut args, "libx264");
    push_lit(&mut args, "-preset");
    push_lit(&mut args, "medium");
    push_lit(&mut args, "-crf");
    push_lit(&mut args, "23");
    push_lit(&mut args, "-pix_fmt");
    push_lit(&mut args, "yuv420p");
    push_lit(&mut args, "-c:a");
    push_lit(&mut args, "aac");
    push_lit(&mut args, "-b:a");
    push_lit(&mut args, "192k");
    push_lit(&mut args, "-movflags");
    push_lit(&mut args, "faststart");
    push_string(&mut args, out.clone());
    push_lit(&mut args, "-hide_banner");
    push_lit(&mut args, "-loglevel");
    push_lit(&mut args, "warning");
    proof {
        assert(views(args@) =~~= import_convert_args(
            file_path@,
            converted_path(temp_dir@, file_path@),
        ));
    }
    Some(TranscodeStep { kind: StepKind::Convert, args, output: out })
}

/// The argument vector that extracts a video's audio track as mono
/// sixteen-kilohertz compressed audio, the transcription service's input
/// format.
pub open spec fn extract_audio_args(video: Seq<char>, output: Seq<char>) -> Seq<Seq<char>> {
    seq!["-i"@, video, "-vn"@, "-acodec"@, "libmp3lame"@, "-ar"@, "16000"@, "-ac"@, "1"@, "-y"@,
        output]
}

/// Builds the step that extracts a whole audio track for transcription.
pub fn extract_audio(video_path: &str, output_path: &str) -> (r: TranscodeStep)
    ensures
        views(r.args@) == extract_audio_args(video_path@, output_path@),
        r.output@ == output_path@,
        r.kind == StepKind::Extract,
{
    let mut args: Vec<String> = Vec::new();
    push_lit(&mut args, "-i");
    push_string(&mut args, String::from_str(video_path));
    push_lit(&mut args, "-vn");
    push_lit(&mut args, "-acodec");
    push_lit(&mut args, "libmp3lame");
    push_lit(&mut args, "-ar");
    push_lit(&mut args, "16000");
    push_lit(&mut args, "-ac");
    push_lit(&mut args, "1");
    push_lit(&mut args, "-y");
    push_string(&mut args, String::from_str(output_path));
    proof {
        assert(views(args@) =~~= extract_audio_args(video_path@, output_path@));
    }
    TranscodeStep { kind: StepKind::Extract, args, output: String::from_str(output_path) }
}

/// The argument vector that extracts a trimmed audio segment for
/// transcribing one clip.
pub open spec fn clip_audio_args(video: Seq<char>, trim_start_ms: nat, duration_ms: nat,
    output: Seq<char>) -> Seq<Seq<char>> {
    seq!["-i"@, video, "-ss"@, ms_secs_text(trim_start_ms), "-t"@, ms_secs_text(duration_ms),
        "-vn"@, "-acodec"@, "libmp3lame"@, "-ar"@, "16000"@, "-ac"@, "1"@, "-y"@, output]
}

/// Builds the step that extracts the trimmed audio segment of one clip for
/// transcription.
pub fn extract_clip_audio(video_path: &str, trim_start_ms: u64, trim_end_ms: u64,
    output_path: &str) -> (r: TranscodeStep)
    requires
        trim_start_ms <= trim_end_ms,
    ensures
        views(r.args@) == clip_audio_args(
            video_path@,
            trim_start_ms as nat,
            (trim_end_ms - trim_start_ms) as nat,
            output_path@,
        ),
        r.output@ == output_path@,
        r.kind == StepKind::Extract,
{
    let duration = trim_end_ms - trim_start_ms;
    let mut args: Vec<String> = Vec::new();
    push_lit(&mut args, "-i");
    push_string(&mut args, String::from_str(video_path));
    push_lit(&mut args, "-ss");
    push_string(&mut args, crate::text::ms_secs_string(trim_start_ms));
    push_lit(&mut args, "-t");
    push_string(&mut args, crate::text::ms_secs_string(duration));
    push_lit(&mut args, "-vn");
    push_lit(&mut args, "-acodec");
    push_lit(&mut args, "libmp3lame");
    push_lit(&mut args, "-ar");
    push_lit(&mut args, "16000");
    push_lit(&mut args, "-ac");
    push_lit(&mut args, "1");
    push_lit(&mut args, "-y");
    push_string(&mut args, String::from_str(output_path));
    proof {
        assert(views(args@) =~~= clip_audio_args(
            video_path@,
            trim_start_ms as nat,
            (trim_end_ms - trim_start_ms) as nat,
            output_path@,
        ));
    }
    TranscodeStep { kind: StepKind::Extract, args, output: String::from_str(output_path) }
}

/// The argument vector that extracts one scaled frame as a thumbnail,
/// taken half a second in for reliability.
pub open spec fn thumbnail_args(video: Seq<char>, output: Seq<char>) -> Seq<Seq<char>> {
    seq!["-y"@, "-i"@, video, "-ss"@, "00:00:00.5"@, "-vframes"@, "1"@, "-vf"@, "scale=160:90"@,
        "-q:v"@, "2"@, output, "-hide_banner"@, "-loglevel"@, "info"@]
}

/// Builds the thumbnail step.
pub fn generate_video_thumbnail(video_path: &str, output_path: &str) -> (r: TranscodeStep)
    ensures
        views(r.args@) == thumbnail_args(video_path@, output_path@),
        r.output@ == output_path@,
        r.kind == StepKind::Thumbnail,
{
    let mut args: Vec<String> = Vec::new();
    push_lit(&mut args, "-y");
    push_lit(&mut args, "-i");
    push_string(&mut args, String::from_str(video_path));
    push_lit(&mut args, "-ss");
    push_lit(&mut args, "00:00:00.5");
    push_lit(&mut args, "-vframes");
    push_lit(&mut args, "1");
    push_lit(&mut args, "-vf");
    push_lit(&mut args, "scale=160:90");
    push_lit(&mut args, "-q:v");
    push_lit(&mut args, "2");
    push_string(&mut args, String::from_str(output_path));
    push_lit(&mut args, "-hide_banner");
    push_lit(&mut args, "-loglevel");
    push_lit(&mut args, "info");
    proof {
        assert(views(args@) =~~= thumbnail_args(video_path@, output_path@));
    }
    TranscodeStep { kind: StepKind::Thumbnail, args, output: String::from_str(output_path) }
}

} // verus!
