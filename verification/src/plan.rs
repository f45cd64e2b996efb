//! The filter-graph compiler: turns a timeline into an ordered sequence of
//! transcode steps, each a complete argument vector for the external
//! transcoding engine. Every step is a pure function of the timeline — no
//! external state — so the compiler is testable without invoking the engine.

use vstd::prelude::*;
use crate::filters::{eq_filter_text, build_eq_filter};
use crate::text::{append_char_at, append_ms_secs, dec_digits, dec_string, join_strs, join_with,
    ms_secs_text, str_eq, append_dec};
use crate::timeline::{Clip, Timeline, clip_valid, ordered_pairs, ordered_track,
    timeline_clips_valid, track_pairs};

verus! {

/// The views of a string sequence: each element as its character sequence.
pub open spec fn views(s: Seq<String>) -> Seq<Seq<char>> {
    s.map_values(|t: String| t@)
}

/// Appends one literal argument.
fn push_lit(args: &mut Vec<String>, s: &str)
    ensures
        views(final(args)@) == views(old(args)@).push(s@),
{
    args.push(String::from_str(s));
    proof {
        assert(views(args@) =~= views(old(args)@).push(s@));
    }
}

/// Appends one computed argument.
fn push_string(args: &mut Vec<String>, s: String)
    ensures
        views(final(args)@) == views(old(args)@).push(s@),
{
    args.push(s);
    proof {
        assert(views(args@) =~= views(old(args)@).push(s@));
    }
}

/// A path with every backslash turned into a forward slash, as the engine's
/// argument parsing prefers.
pub open spec fn slashes(s: Seq<char>) -> Seq<char> {
    s.map_values(|c: char| if c == '\\' { '/' } else { c })
}

/// Normalizes a path's separators to forward slashes.
pub fn normalize_path(s: &str) -> (r: String)
    ensures
        r@ == slashes(s@),
{
    let n = s.unicode_len();
    let mut out = String::new();
    let mut i: usize = 0;
    while i < n
        invariant
            n == s@.len(),
            0 <= i <= n,
            out@.len() == i,
            forall|k: int| 0 <= k < i ==> out@[k] == (if s@[k] == '\\' {
                '/'
            } else {
                s@[k]
            }),
        decreases n - i,
    {
        if s.get_char(i) == '\\' {
            proof { reveal_strlit("/"); }
            out.append("/");
        } else {
            append_char_at(&mut out, s, i);
        }
        i = i + 1;
    }
    proof {
        assert(out@ =~= slashes(s@));
    }
    out
}

/// Whether `s` ends with the suffix `suf`.
pub open spec fn ends_with(s: Seq<char>, suf: Seq<char>) -> bool {
    s.len() >= suf.len() && s.subrange(s.len() - suf.len(), s.len() as int) == suf
}

/// Exec test for [`ends_with`].
pub fn str_ends_with(s: &str, suf: &str) -> (r: bool)
    ensures
        r == ends_with(s@, suf@),
{
    let n = s.unicode_len();
    let m = suf.unicode_len();
    if n < m {
        return false;
    }
    let tail = s.substring_char(n - m, n);
    str_eq(tail, suf)
}

/// The scale operand of the output geometry.
pub open spec fn scale_filter_text(w: u32, h: u32) -> Seq<char> {
    "scale="@ + dec_digits(w as nat) + ":"@ + dec_digits(h as nat)
}

/// Builds the scale operand.
fn build_scale_filter(w: u32, h: u32) -> (r: String)
    ensures
        r@ == scale_filter_text(w, h),
{
    let mut s = String::new();
    s.append("scale=");
    append_dec(&mut s, w as u64);
    s.append(":");
    append_dec(&mut s, h as u64);
    proof {
        assert(s@ =~= scale_filter_text(w, h));
    }
    s
}

/// The burn-in operand: the staged subtitle file, referenced relative to the
/// working directory so the engine's path parsing sees no drive letter.
pub open spec fn subtitle_filter_text() -> Seq<char> {
    "subtitles=./temp_subtitles.srt"@
}

/// The video-filter operands for one clip: the scale operand when a
/// geometry is set, the clip's color correction when present, and the
/// burn-in operand when asked for.
pub open spec fn clip_vf_parts(t: Timeline, c: Clip, with_subtitles: bool) -> Seq<Seq<char>> {
    (if t.width > 0 && t.height > 0 {
        seq![scale_filter_text(t.width, t.height)]
    } else {
        Seq::empty()
    }) + (match c.filters {
        Some(f) => match eq_filter_text(f) {
            Some(e) => seq![e],
            None => Seq::empty(),
        },
        None => Seq::empty(),
    }) + (if with_subtitles {
        seq![subtitle_filter_text()]
    } else {
        Seq::empty()
    })
}

/// The whole video-filter argument for one clip, if any operand is present:
/// the operands joined by commas.
pub open spec fn clip_vf_text(t: Timeline, c: Clip, with_subtitles: bool) -> Option<Seq<char>> {
    if clip_vf_parts(t, c, with_subtitles).len() == 0 {
        None
    } else {
        Some(join_with(clip_vf_parts(t, c, with_subtitles), seq![',']))
    }
}

/// Builds the video-filter argument for one clip.
fn build_clip_vf(t: &Timeline, c: &Clip, with_subtitles: bool) -> (r: Option<String>)
    requires
        clip_valid(*c),
    ensures
        match clip_vf_text(*t, *c, with_subtitles) {
            None => r is None,
            Some(v) => r is Some && r.unwrap()@ == v,
        },
{
    let mut parts: Vec<String> = Vec::new();
    if t.width > 0 && t.height > 0 {
        parts.push(build_scale_filter(t.width, t.height));
    }
    match build_eq_filter(&c.filters) {
        Some(e) => {
            parts.push(e);
        },
        None => {},
    }
    if with_subtitles {
        parts.push(String::from_str("subtitles=./temp_subtitles.srt"));
    }
    proof {
        assert(parts@.map_values(|x: String| x@) =~~= clip_vf_parts(*t, *c, with_subtitles));
    }
    if parts.len() == 0 {
        None
    } else {
        proof {
            reveal_strlit(",");
            assert(","@ =~= seq![',']);
        }
        Some(join_strs(&parts, ","))
    }
}

/// What a transcode step does, for dependency ordering and inspection.
pub enum StepKind {
    /// Trim, scale and correct the single clip straight to the output.
    Single,
    /// Trim one clip to a temporary file.
    Trim,
    /// Concatenate the temporary clip files to the output.
    Concat,
    /// Concatenate the base track to a temporary base video.
    BaseConcat,
    /// Render one overlay clip onto a padded black background layer.
    Layer,
    /// Composite the overlay layer onto the base video to the output.
    Composite,
    /// Mux separately captured video and audio streams with a timing
    /// correction.
    Mux,
    /// Re-encode one file into another container or codec.
    Convert,
    /// Extract an audio track from a video file.
    Extract,
    /// Extract one scaled frame as a thumbnail image.
    Thumbnail,
}

/// One atomic invocation of the external transcoding engine: a complete,
/// self-contained argument vector, and the file it produces.
pub struct TranscodeStep {
    pub kind: StepKind,
    pub args: Vec<String>,
    pub output: String,
}

/// An executable transcoding plan: the steps in dependency order, the
/// temporary files to delete afterwards whatever the outcome, the
/// concatenation list file to write first, and the subtitle file to stage.
pub struct ExportPlan {
    pub steps: Vec<TranscodeStep>,
    /// Every temporary file the plan creates; deleted after execution, on
    /// success and on failure alike, the requested output excepted.
    pub temp_files: Vec<String>,
    /// Path and contents of the generated ordered file list, when the plan
    /// concatenates.
    pub list_file: Option<(String, String)>,
    /// The subtitle source to copy to the plan's staging path before the
    /// step that burns it in.
    pub subtitle_stage: Option<(String, String)>,
}

/// The encoder arguments shared by every re-encoding step.
pub open spec fn encode_args(t: Timeline) -> Seq<Seq<char>> {
    seq![
        "-c:v"@,
        "libx264"@,
        "-preset"@,
        t.preset@,
        "-crf"@,
        t.crf@,
        "-c:a"@,
        "aac"@,
        "-b:a"@,
        "192k"@,
        "-pix_fmt"@,
        "yuv420p"@,
    ]
}

/// The argument vector of the single-clip step: trim, re-encode, scale,
/// correct, optionally burn subtitles, write the output.
pub open spec fn single_clip_args(t: Timeline, c: Clip, with_subtitles: bool) -> Seq<Seq<char>> {
    seq!["-y"@] + (if c.trim_start_ms > 0 {
        seq!["-ss"@, ms_secs_text(c.trim_start_ms as nat)]
    } else {
        Seq::empty()
    }) + seq!["-i"@, slashes(c.file_path@)] + seq!["-t"@, ms_secs_text(c.duration_ms as nat)]
        + encode_args(t) + seq!["-movflags"@, "faststart"@] + (match clip_vf_text(
        t,
        c,
        with_subtitles,
    ) {
        Some(v) => seq!["-vf"@, v],
        None => Seq::empty(),
    }) + seq!["-hide_banner"@] + (if with_subtitles {
        seq!["-loglevel"@, "error"@]
    } else {
        seq!["-loglevel"@, "quiet"@, "-nostats"@]
    }) + seq![t.output_path@]
}

/// The argument vector of one per-clip trim step: trim and re-encode one
/// clip to a temporary file. Base-track trims under an overlay build report
/// errors; plain concatenation trims run silent.
pub open spec fn trim_clip_args(t: Timeline, c: Clip, out: Seq<char>, quiet: bool) -> Seq<
    Seq<char>,
> {
    seq!["-y"@] + (if c.trim_start_ms > 0 {
        seq!["-ss"@, ms_secs_text(c.trim_start_ms as nat)]
    } else {
        Seq::empty()
    }) + seq!["-i"@, slashes(c.file_path@)] + seq!["-t"@, ms_secs_text(c.duration_ms as nat)]
        + encode_args(t) + (match clip_vf_text(t, c, false) {
        Some(v) => seq!["-vf"@, v],
        None => Seq::empty(),
    }) + seq!["-hide_banner"@] + (if quiet {
        seq!["-loglevel"@, "quiet"@, "-nostats"@]
    } else {
        seq!["-loglevel"@, "error"@]
    }) + seq![out]
}

/// The video-filter operands of the concatenation step: scale and the
/// burn-in operand; per-clip correction is already in the trimmed files.
pub open spec fn concat_vf_parts(t: Timeline, with_subtitles: bool) -> Seq<Seq<char>> {
    (if t.width > 0 && t.height > 0 {
        seq![scale_filter_text(t.width, t.height)]
    } else {
        Seq::empty()
    }) + (if with_subtitles {
        seq![subtitle_filter_text()]
    } else {
        Seq::empty()
    })
}

/// The argument vector of the concatenation step: read the generated list,
/// re-encode when a filter is wanted and stream-copy otherwise, write the
/// output.
pub open spec fn concat_args(t: Timeline, list_path: Seq<char>, with_subtitles: bool) -> Seq<
    Seq<char>,
> {
    let parts = concat_vf_parts(t, with_subtitles);
    seq!["-y"@, "-f"@, "concat"@, "-safe"@, "0"@, "-i"@, list_path] + (if parts.len() > 0 {
        seq![
            "-vf"@,
            join_with(parts, seq![',']),
            "-c:v"@,
            "libx264"@,
            "-preset"@,
            t.preset@,
            "-crf"@,
            t.crf@,
            "-pix_fmt"@,
            "yuv420p"@,
        ]
    } else {
        seq!["-c"@, "copy"@]
    }) + seq!["-c:a"@, "aac"@, "-b:a"@, "192k"@, "-hide_banner"@] + (if with_subtitles {
        seq!["-loglevel"@, "error"@]
    } else {
        seq!["-loglevel"@, "quiet"@, "-nostats"@]
    }) + seq![t.output_path@]
}

/// The path of the temporary file the `i`-th trimmed clip is written to,
/// under the given directory prefix.
pub open spec fn temp_clip_path(td: Seq<char>, i: nat) -> Seq<char> {
    td + "clip_"@ + dec_digits(i) + ".mp4"@
}

/// The path of the generated concatenation list.
pub open spec fn concat_list_path(td: Seq<char>) -> Seq<char> {
    td + "concat_list.txt"@
}

/// The staging path the subtitle file is copied to: relative, so the
/// engine's filter parsing sees no drive letter.
pub open spec fn subtitle_stage_path() -> Seq<char> {
    "./temp_subtitles.srt"@
}

/// The contents of the concatenation list: one `file '<path>'` line per
/// temporary clip, in order.
pub open spec fn concat_list_text(ps: Seq<Seq<char>>) -> Seq<char>
    decreases ps.len(),
{
    if ps.len() == 0 {
        Seq::empty()
    } else {
        "file '"@ + ps[0] + "'\n"@ + concat_list_text(ps.skip(1))
    }
}

/// Reading the list front to back.
proof fn lemma_concat_list_unfold(ps: Seq<Seq<char>>, i: int)
    requires
        0 <= i < ps.len(),
    ensures
        concat_list_text(ps.skip(i)) == "file '"@ + ps[i] + "'\n"@ + concat_list_text(
            ps.skip(i + 1),
        ),
{
    let t = ps.skip(i);
    assert(t[0] == ps[i]);
    assert(t.skip(1) =~= ps.skip(i + 1));
}

/// Builds the temporary path of the `i`-th trimmed clip.
fn build_temp_clip_path(td: &str, i: usize) -> (r: String)
    ensures
        r@ == temp_clip_path(td@, i as nat),
{
    let mut s = String::from_str(td);
    s.append("clip_");
    append_dec(&mut s, i as u64);
    s.append(".mp4");
    proof {
        assert(s@ =~= temp_clip_path(td@, i as nat));
    }
    s
}

/// Appends the common trim/encode arguments of a clip step.
fn push_clip_encode_args(args: &mut Vec<String>, t: &Timeline, c: &Clip)
    requires
        clip_valid(*c),
    ensures
        views(final(args)@) == views(old(args)@) + (if c.trim_start_ms > 0 {
            seq!["-ss"@, ms_secs_text(c.trim_start_ms as nat)]
        } else {
            Seq::<Seq<char>>::empty()
        }) + seq!["-i"@, slashes(c.file_path@)] + seq![
            "-t"@,
            ms_secs_text(c.duration_ms as nat),
        ] + encode_args(*t),
{
    if c.trim_start_ms > 0 {
        push_lit(args, "-ss");
        push_string(args, crate::text::ms_secs_string(c.trim_start_ms));
    }
    push_lit(args, "-i");
    push_string(args, normalize_path(c.file_path.as_str()));
    push_lit(args, "-t");
    push_string(args, crate::text::ms_secs_string(c.duration_ms));
    push_lit(args, "-c:v");
    push_lit(args, "libx264");
    push_lit(args, "-preset");
    push_string(args, t.preset.clone());
    push_lit(args, "-crf");
    push_string(args, t.crf.clone());
    push_lit(args, "-c:a");
    push_lit(args, "aac");
    push_lit(args, "-b:a");
    push_lit(args, "192k");
    push_lit(args, "-pix_fmt");
    push_lit(args, "yuv420p");
    proof {
        assert(views(args@) =~~= views(old(args)@) + (if c.trim_start_ms > 0 {
            seq!["-ss"@, ms_secs_text(c.trim_start_ms as nat)]
        } else {
            Seq::<Seq<char>>::empty()
        }) + seq!["-i"@, slashes(c.file_path@)] + seq![
            "-t"@,
            ms_secs_text(c.duration_ms as nat),
        ] + encode_args(*t));
    }
}

/// Appends the closing verbosity arguments and the output path.
fn push_tail_args(args: &mut Vec<String>, quiet: bool, output: String)
    ensures
        views(final(args)@) == views(old(args)@) + seq!["-hide_banner"@] + (if quiet {
            seq!["-loglevel"@, "quiet"@, "-nostats"@]
        } else {
            seq!["-loglevel"@, "error"@]
        }) + seq![output@],
{
    push_lit(args, "-hide_banner");
    if quiet {
        push_lit(args, "-loglevel");
        push_lit(args, "quiet");
        push_lit(args, "-nostats");
    } else {
        push_lit(args, "-loglevel");
        push_lit(args, "error");
    }
    push_string(args, output);
    proof {
        assert(views(args@) =~~= views(old(args)@) + seq!["-hide_banner"@] + (if quiet {
            seq!["-loglevel"@, "quiet"@, "-nostats"@]
        } else {
            seq!["-loglevel"@, "error"@]
        }) + seq![output@]);
    }
}

/// Builds the single-clip step.
fn build_single_step(t: &Timeline, c: &Clip, with_subtitles: bool) -> (r: TranscodeStep)
    requires
        clip_valid(*c),
    ensures
        views(r.args@) == single_clip_args(*t, *c, with_subtitles),
        r.output@ == t.output_path@,
        r.kind == StepKind::Single,
{
    let mut args: Vec<String> = Vec::new();
    push_lit(&mut args, "-y");
    push_clip_encode_args(&mut args, t, c);
    push_lit(&mut args, "-movflags");
    push_lit(&mut args, "faststart");
    match build_clip_vf(t, c, with_subtitles) {
        Some(v) => {
            push_lit(&mut args, "-vf");
            push_string(&mut args, v);
        },
        None => {},
    }
    push_tail_args(&mut args, !with_subtitles, t.output_path.clone());
    proof {
        assert(views(args@) =~~= single_clip_args(*t, *c, with_subtitles));
    }
    TranscodeStep { kind: StepKind::Single, args, output: t.output_path.clone() }
}

/// Builds one per-clip trim step.
fn build_trim_step(t: &Timeline, c: &Clip, out: String, quiet: bool) -> (r: TranscodeStep)
    requires
        clip_valid(*c),
    ensures
        views(r.args@) == trim_clip_args(*t, *c, out@, quiet),
        r.output@ == out@,
        r.kind == StepKind::Trim,
{
    let output = out.clone();
    let mut args: Vec<String> = Vec::new();
    push_lit(&mut args, "-y");
    push_clip_encode_args(&mut args, t, c);
    match build_clip_vf(t, c, false) {
        Some(v) => {
            push_lit(&mut args, "-vf");
            push_string(&mut args, v);
        },
        None => {},
    }
    push_tail_args(&mut args, quiet, out);
    proof {
        assert(views(args@) =~~= trim_clip_args(*t, *c, output@, quiet));
    }
    TranscodeStep { kind: StepKind::Trim, args, output }
}

/// Builds the concatenation step.
fn build_concat_step(t: &Timeline, list_path: String, with_subtitles: bool) -> (r: TranscodeStep)
    ensures
        views(r.args@) == concat_args(*t, list_path@, with_subtitles),
        r.output@ == t.output_path@,
        r.kind == StepKind::Concat,
{
    let mut args: Vec<String> = Vec::new();
    push_lit(&mut args, "-y");
    push_lit(&mut args, "-f");
    push_lit(&mut args, "concat");
    push_lit(&mut args, "-safe");
    push_lit(&mut args, "0");
    push_lit(&mut args, "-i");
    push_string(&mut args, list_path);
    let mut parts: Vec<String> = Vec::new();
    if t.width > 0 && t.height > 0 {
        parts.push(build_scale_filter(t.width, t.height));
    }
    if with_subtitles {
        parts.push(String::from_str("subtitles=./temp_subtitles.srt"));
    }
    proof {
        assert(parts@.map_values(|x: String| x@) =~~= concat_vf_parts(*t, with_subtitles));
    }
    if parts.len() > 0 {
        proof {
            reveal_strlit(",");
            assert(","@ =~= seq![',']);
        }
        push_lit(&mut args, "-vf");
        push_string(&mut args, join_strs(&parts, ","));
        push_lit(&mut args, "-c:v");
        push_lit(&mut args, "libx264");
        push_lit(&mut args, "-preset");
        push_string(&mut args, t.preset.clone());
        push_lit(&mut args, "-crf");
        push_string(&mut args, t.crf.clone());
        push_lit(&mut args, "-pix_fmt");
        push_lit(&mut args, "yuv420p");
    } else {
        push_lit(&mut args, "-c");
        push_lit(&mut args, "copy");
    }
    push_lit(&mut args, "-c:a");
    push_lit(&mut args, "aac");
    push_lit(&mut args, "-b:a");
    push_lit(&mut args, "192k");
    push_tail_args(&mut args, !with_subtitles, t.output_path.clone());
    proof {
        assert(views(args@) =~~= concat_args(*t, list_path@, with_subtitles));
    }
    TranscodeStep { kind: StepKind::Concat, args, output: t.output_path.clone() }
}

/// Whether the output path carries one of the two supported container
/// extensions.
pub open spec fn valid_output_ext(p: Seq<char>) -> bool {
    ends_with(p, ".mp4"@) || ends_with(p, ".mov"@)
}

/// Whether any clip sits on an overlay track.
pub open spec fn has_overlay_clips(t: Timeline) -> bool {
    track_pairs(t.clips@, 1).len() > 0 || track_pairs(t.clips@, 2).len() > 0
}

/// Whether the timeline is rejected before any engine invocation: no clips
/// at all, an unsupported output extension, or overlays above an empty base
/// track.
pub open spec fn export_rejected(t: Timeline) -> bool {
    t.clips@.len() == 0 || !valid_output_ext(t.output_path@) || (has_overlay_clips(t)
        && track_pairs(t.clips@, 0).len() == 0)
}

/// Builds the contents of the concatenation list for the given temporary
/// clip paths.
fn build_concat_list_text(paths: &Vec<String>) -> (r: String)
    ensures
        r@ == concat_list_text(views(paths@)),
{
    let ghost ps = views(paths@);
    let mut out = String::new();
    let mut i: usize = 0;
    proof {
        assert(ps.skip(0) =~= ps);
    }
    while i < paths.len()
        invariant
            ps == views(paths@),
            0 <= i <= paths@.len(),
            out@ + concat_list_text(ps.skip(i as int)) == concat_list_text(ps),
        decreases paths@.len() - i,
    {
        proof {
            assert(views(paths@)[i as int] == paths@[i as int]@);
            lemma_concat_list_unfold(ps, i as int);
        }
        let ghost before = out@;
        out.append("file '");
        out.append(paths[i].as_str());
        out.append("'\n");
        proof {
            assert(out@ =~= before + ("file '"@ + ps[i as int] + "'\n"@));
            assert(out@ + concat_list_text(ps.skip(i + 1)) =~= before + concat_list_text(
                ps.skip(i as int),
            ));
        }
        i = i + 1;
    }
    proof {
        assert(ps.skip(paths@.len() as int) =~= Seq::<Seq<char>>::empty());
        assert(out@ + Seq::<char>::empty() =~= out@);
    }
    out
}

/// Whether the staged-subtitle field of a plan matches the timeline's
/// subtitle request.
pub open spec fn subtitle_stage_matches(t: Timeline, r: ExportPlan) -> bool {
    match t.subtitle_srt_path {
        Some(p) => r.subtitle_stage is Some && r.subtitle_stage.unwrap().0@ == p@
            && r.subtitle_stage.unwrap().1@ == subtitle_stage_path(),
        None => r.subtitle_stage is None,
    }
}

/// The shape of the plan for a timeline whose clips all sit on the base
/// track: exactly one single-clip step for one clip; for several, one trim
/// step per clip in rendering order, one concatenation step, and one
/// temporary file per clip plus the list file.
pub open spec fn concat_plan_matches(t: Timeline, td: Seq<char>, r: ExportPlan) -> bool {
    let ord = ordered_pairs(t.clips@, 0);
    let ws = t.subtitle_srt_path is Some;
    &&& (ord.len() == 1 ==> {
        &&& r.steps@.len() == 1
        &&& r.steps@[0].kind == StepKind::Single
        &&& views(r.steps@[0].args@) == single_clip_args(t, t.clips@[ord[0].1 as int], ws)
        &&& r.steps@[0].output@ == t.output_path@
        &&& r.temp_files@.len() == 0
        &&& r.list_file is None
    })
    &&& (ord.len() > 1 ==> {
        &&& r.steps@.len() == ord.len() + 1
        &&& (forall|k: int|
            0 <= k < ord.len() ==> (#[trigger] r.steps@[k]).kind == StepKind::Trim && views(
                r.steps@[k].args@,
            ) == trim_clip_args(
                t,
                t.clips@[ord[k].1 as int],
                temp_clip_path(td, k as nat),
                true,
            ) && r.steps@[k].output@ == temp_clip_path(td, k as nat))
        &&& r.steps@[ord.len() as int].kind == StepKind::Concat
        &&& views(r.steps@[ord.len() as int].args@) == concat_args(t, concat_list_path(td), ws)
        &&& r.temp_files@.len() == ord.len() + 1
        &&& (forall|k: int|
            0 <= k < ord.len() ==> (#[trigger] r.temp_files@[k])@ == temp_clip_path(td, k as nat))
        &&& r.temp_files@[ord.len() as int]@ == concat_list_path(td)
        &&& r.list_file is Some
        &&& r.list_file.unwrap().0@ == concat_list_path(td)
        &&& r.list_file.unwrap().1@ == concat_list_text(
            Seq::new(ord.len(), |k: int| temp_clip_path(td, k as nat)),
        )
    })
    &&& subtitle_stage_matches(t, r)
}

/// Compiles the plan for a timeline whose clips all sit on the base track:
/// one single-clip step, or one trim step per clip in rendering order
/// followed by one concatenation step over the generated list.
fn compile_concat_plan(t: &Timeline, temp_dir: &str) -> (r: ExportPlan)
    requires
        timeline_clips_valid(*t),
        track_pairs(t.clips@, 0).len() > 0,
    ensures
        concat_plan_matches(*t, temp_dir@, r),
{
    let ord = ordered_track(&t.clips, 0);
    let with_subtitles = t.subtitle_srt_path.is_some();
    let subtitle_stage = match &t.subtitle_srt_path {
        Some(p) => Some((p.clone(), String::from_str("./temp_subtitles.srt"))),
        None => None,
    };
    if ord.len() == 1 {
        let idx = ord[0].1;
        let step = build_single_step(t, &t.clips[idx], with_subtitles);
        let mut steps: Vec<TranscodeStep> = Vec::new();
        steps.push(step);
        return ExportPlan { steps, temp_files: Vec::new(), list_file: None, subtitle_stage };
    }
    let mut steps: Vec<TranscodeStep> = Vec::new();
    let mut temp_files: Vec<String> = Vec::new();
    let mut i: usize = 0;
    while i < ord.len()
        invariant
            ord@ == ordered_pairs(t.clips@, 0),
            timeline_clips_valid(*t),
            forall|k: int|
                0 <= k < ord@.len() ==> (#[trigger] ord@[k]).1 < t.clips@.len()
                    && t.clips@[ord@[k].1 as int].track == 0,
            0 <= i <= ord@.len(),
            steps@.len() == i,
            temp_files@.len() == i,
            forall|k: int|
                0 <= k < i ==> (#[trigger] steps@[k]).kind == StepKind::Trim && views(
                    steps@[k].args@,
                ) == trim_clip_args(
                    *t,
                    t.clips@[ord@[k].1 as int],
                    temp_clip_path(temp_dir@, k as nat),
                    true,
                ) && steps@[k].output@ == temp_clip_path(temp_dir@, k as nat),
            forall|k: int|
                0 <= k < i ==> (#[trigger] temp_files@[k])@ == temp_clip_path(temp_dir@, k as nat),
        decreases ord@.len() - i,
    {
        let out = build_temp_clip_path(temp_dir, i);
        let idx = ord[i].1;
        let step = build_trim_step(t, &t.clips[idx], out.clone(), true);
        steps.push(step);
        temp_files.push(out);
        i = i + 1;
    }
    let list_path_str = {
        let mut s = String::from_str(temp_dir);
        s.append("concat_list.txt");
        proof {
            assert(s@ =~= concat_list_path(temp_dir@));
        }
        s
    };
    let list_text = build_concat_list_text(&temp_files);
    proof {
        assert(views(temp_files@) =~~= Seq::new(
            ordered_pairs(t.clips@, 0).len(),
            |k: int| temp_clip_path(temp_dir@, k as nat),
        ));
    }
    let concat_step = build_concat_step(t, list_path_str.clone(), with_subtitles);
    steps.push(concat_step);
    temp_files.push(list_path_str.clone());
    ExportPlan {
        steps,
        temp_files,
        list_file: Some((list_path_str, list_text)),
        subtitle_stage,
    }
}

/// The latest end over all clips of the timeline, in milliseconds: the base
/// video is padded to cover every clip, overlays included.
pub open spec fn max_end_ms(clips: Seq<Clip>) -> nat
    decreases clips.len(),
{
    if clips.len() == 0 {
        0
    } else {
        let rest = max_end_ms(clips.drop_last());
        let e = (clips.last().start_time_ms + clips.last().duration_ms) as nat;
        if e > rest {
            e
        } else {
            rest
        }
    }
}

/// Computes the latest clip end of the timeline.
fn compute_max_end(clips: &Vec<Clip>) -> (r: u64)
    requires
        forall|i: int| 0 <= i < clips@.len() ==> clip_valid(#[trigger] clips@[i]),
    ensures
        r as nat == max_end_ms(clips@),
{
    let mut r: u64 = 0;
    let mut i: usize = 0;
    proof {
        assert(clips@.take(0) =~= Seq::<Clip>::empty());
    }
    while i < clips.len()
        invariant
            forall|k: int| 0 <= k < clips@.len() ==> clip_valid(#[trigger] clips@[k]),
            0 <= i <= clips@.len(),
            r as nat == max_end_ms(clips@.take(i as int)),
        decreases clips@.len() - i,
    {
        let e = clips[i].start_time_ms + clips[i].duration_ms;
        if e > r {
            r = e;
        }
        proof {
            assert(clips@.take(i + 1).drop_last() =~= clips@.take(i as int));
            assert(clips@.take(i + 1).last() == clips@[i as int]);
        }
        i = i + 1;
    }
    proof {
        assert(clips@.take(clips@.len() as int) =~= clips@);
    }
    r
}

/// The pixel position of an overlay for a named corner: padded in from the
/// corner's edges, centred for `center`, the bottom-right corner when the
/// name is unknown.
pub open spec fn overlay_pos(position: Seq<char>, base_w: u32, base_h: u32, overlay_w: u32,
    overlay_h: u32, padding: u32) -> (int, int) {
    if position == "bottom-left"@ {
        (padding as int, base_h - overlay_h - padding)
    } else if position == "bottom-right"@ {
        (base_w - overlay_w - padding, base_h - overlay_h - padding)
    } else if position == "top-left"@ {
        (padding as int, padding as int)
    } else if position == "top-right"@ {
        (base_w - overlay_w - padding, padding as int)
    } else if position == "center"@ {
        ((base_w - overlay_w) as int / 2, (base_h - overlay_h) as int / 2)
    } else {
        (base_w - overlay_w - padding, base_h - overlay_h - padding)
    }
}

/// Computes the pixel position of an overlay for a named corner; the
/// overlay and its padding must fit inside the base.
pub fn calculate_overlay_pos(position: &str, base_w: u32, base_h: u32, overlay_w: u32,
    overlay_h: u32, padding: u32) -> (r: (u32, u32))
    requires
        overlay_w + padding <= base_w,
        overlay_h + padding <= base_h,
    ensures
        (r.0 as int, r.1 as int) == overlay_pos(position@, base_w, base_h, overlay_w, overlay_h,
            padding),
{
    if str_eq(position, "bottom-left") {
        (padding, base_h - overlay_h - padding)
    } else if str_eq(position, "bottom-right") {
        (base_w - overlay_w - padding, base_h - overlay_h - padding)
    } else if str_eq(position, "top-left") {
        (padding, padding)
    } else if str_eq(position, "top-right") {
        (base_w - overlay_w - padding, padding)
    } else if str_eq(position, "center") {
        ((base_w - overlay_w) / 2, (base_h - overlay_h) / 2)
    } else {
        (base_w - overlay_w - padding, base_h - overlay_h - padding)
    }
}

/// The scale-and-pad operand of the base video: scaled to the output
/// geometry, padded on black.
pub open spec fn pad_filter_text(w: u32, h: u32) -> Seq<char> {
    scale_filter_text(w, h) + ",pad="@ + dec_digits(w as nat) + ":"@ + dec_digits(h as nat)
        + ":0:0:black"@
}

/// The argument vector of the base concatenation step: join the trimmed
/// base clips, pad to the timeline's full duration and geometry.
pub open spec fn base_concat_args(t: Timeline, list_path: Seq<char>, max_ms: nat, out: Seq<
    char,
>) -> Seq<Seq<char>> {
    seq!["-y"@, "-f"@, "concat"@, "-safe"@, "0"@, "-i"@, list_path] + encode_args(t) + (if max_ms
        > 0 {
        seq!["-t"@, ms_secs_text(max_ms)]
    } else {
        Seq::empty()
    }) + (if t.width > 0 && t.height > 0 {
        seq!["-vf"@, pad_filter_text(t.width, t.height)]
    } else {
        Seq::empty()
    }) + seq!["-hide_banner"@, "-loglevel"@, "error"@, out]
}

/// The black-background input of an overlay layer, covering the whole
/// timeline.
pub open spec fn color_bg_text(ow: u32, oh: u32, max_ms: nat) -> Seq<char> {
    "color=c=black:s="@ + dec_digits(ow as nat) + "x"@ + dec_digits(oh as nat) + ":d="@
        + ms_secs_text(max_ms)
}

/// The filter of an overlay layer: the source scaled, then composited onto
/// the background only inside the clip's timeline window.
pub open spec fn layer_filter_text(ow: u32, oh: u32, start_ms: nat, end_ms: nat) -> Seq<char> {
    "[1:v]scale="@ + dec_digits(ow as nat) + ":"@ + dec_digits(oh as nat)
        + "[scaled];[0:v][scaled]overlay=enable='between(t,"@ + ms_secs_text(start_ms) + ","@
        + ms_secs_text(end_ms) + ")'[vout]"@
}

/// The argument vector of an overlay layer step: a black background for the
/// full duration, the trimmed source composited at its timeline offset.
pub open spec fn layer_args(t: Timeline, c: Clip, ow: u32, oh: u32, max_ms: nat, out: Seq<
    char,
>) -> Seq<Seq<char>> {
    seq!["-y"@, "-f"@, "lavfi"@, "-i"@, color_bg_text(ow, oh, max_ms), "-ss"@, ms_secs_text(
        c.trim_start_ms as nat,
    ), "-i"@, slashes(c.file_path@), "-t"@, ms_secs_text(c.duration_ms as nat), "-filter_complex"@,
        layer_filter_text(ow, oh, c.start_time_ms as nat, (c.start_time_ms + c.duration_ms) as nat),
        "-map"@, "[vout]"@, "-c:v"@, "libx264"@, "-preset"@, t.preset@, "-crf"@, t.crf@, "-pix_fmt"@,
        "yuv420p"@, "-t"@, ms_secs_text(max_ms), "-hide_banner"@, "-loglevel"@, "error"@, out]
}

/// The merge filter of the final composite: the overlay layer placed at its
/// pixel position, or the base passed through when no layer was built.
pub open spec fn composite_filter_text(overlay: Option<(int, int)>) -> Seq<char> {
    match overlay {
        Some(pos) => "[0:v][1:v]overlay="@ + dec_digits(pos.0 as nat) + ":"@ + dec_digits(
            pos.1 as nat,
        ) + "[vout]"@,
        None => "[0:v]copy[vout]"@,
    }
}

/// The argument vector of the final composite step: merge the base and the
/// layer, optionally burn subtitles, keep the base audio when none is
/// burned, clamp to the timeline duration.
pub open spec fn composite_args(t: Timeline, base: Seq<char>, overlay: Option<
    (Seq<char>, int, int),
>, max_ms: nat, with_subtitles: bool) -> Seq<Seq<char>> {
    let fc = composite_filter_text(match overlay {
        Some(o) => Some((o.1, o.2)),
        None => None,
    });
    seq!["-y"@, "-i"@, base] + (match overlay {
        Some(o) => seq!["-i"@, o.0],
        None => Seq::empty(),
    }) + (if with_subtitles {
        seq![
            "-filter_complex"@,
            fc + ";[vout]subtitles=./temp_subtitles.srt[vsub]"@,
            "-map"@,
            "[vsub]"@,
        ]
    } else {
        seq!["-filter_complex"@, fc, "-map"@, "[vout]"@, "-map"@, "0:a?"@]
    }) + encode_args(t) + seq!["-t"@, ms_secs_text(max_ms), "-movflags"@, "faststart"@,
        "-hide_banner"@] + (if with_subtitles {
        seq!["-loglevel"@, "error"@]
    } else {
        seq!["-loglevel"@, "quiet"@]
    }) + seq![t.output_path@]
}

/// The width of an overlay layer: three tenths of the output width, or a
/// fixed default when no geometry is set.
pub open spec fn layer_w(t: Timeline) -> u32 {
    if t.width > 0 {
        ((t.width * 3) / 10) as u32
    } else {
        320
    }
}

/// The height of an overlay layer: three tenths of the output height, or a
/// fixed default when no geometry is set.
pub open spec fn layer_h(t: Timeline) -> u32 {
    if t.height > 0 {
        ((t.height * 3) / 10) as u32
    } else {
        180
    }
}

/// The corner name configured for the first overlay track, the bottom-right
/// corner when none is.
pub open spec fn track1_pos_name(t: Timeline) -> Seq<char> {
    match t.overlay_positions {
        Some(op) => match op.track1 {
            Some(p) => p@,
            None => "bottom-right"@,
        },
        None => "bottom-right"@,
    }
}

/// The temporary path of the `i`-th trimmed base clip under an overlay
/// build.
pub open spec fn track0_clip_path(td: Seq<char>, i: nat) -> Seq<char> {
    td + "track0_clip_"@ + dec_digits(i) + ".mp4"@
}

/// The path of the base track's concatenation list.
pub open spec fn track0_concat_path(td: Seq<char>) -> Seq<char> {
    td + "track0_concat.txt"@
}

/// The path of the concatenated base video.
pub open spec fn base_video_path(td: Seq<char>) -> Seq<char> {
    td + "base_track0.mp4"@
}

/// The path of the rendered first overlay layer.
pub open spec fn overlay1_video_path(td: Seq<char>) -> Seq<char> {
    td + "overlay1.mp4"@
}

/// Builds the base concatenation step.
fn build_base_concat_step(t: &Timeline, list_path: String, max_ms: u64, out: String) -> (r:
    TranscodeStep)
    ensures
        views(r.args@) == base_concat_args(*t, list_path@, max_ms as nat, out@),
        r.output@ == out@,
        r.kind == StepKind::BaseConcat,
{
    let output = out.clone();
    let mut args: Vec<String> = Vec::new();
    push_lit(&mut args, "-y");
    push_lit(&mut args, "-f");
    push_lit(&mut args, "concat");
    push_lit(&mut args, "-safe");
    push_lit(&mut args, "0");
    push_lit(&mut args, "-i");
    push_string(&mut args, list_path);
    push_lit(&mut args, "-c:v");
    push_lit(&mut args, "libx264");
    push_lit(&mut args, "-preset");
    push_string(&mut args, t.preset.clone());
    push_lit(&mut args, "-crf");
    push_string(&mut args, t.crf.clone());
    push_lit(&mut args, "-c:a");
    push_lit(&mut args, "aac");
    push_lit(&mut args, "-b:a");
    push_lit(&mut args, "192k");
    push_lit(&mut args, "-pix_fmt");
    push_lit(&mut args, "yuv420p");
    if max_ms > 0 {
        push_lit(&mut args, "-t");
        push_string(&mut args, crate::text::ms_secs_string(max_ms));
    }
    if t.width > 0 && t.height > 0 {
        push_lit(&mut args, "-vf");
        let mut v = build_scale_filter(t.width, t.height);
        v.append(",pad=");
        v.append(dec_string(t.width as u64).as_str());
        v.append(":");
        v.append(dec_string(t.height as u64).as_str());
        v.append(":0:0:black");
        proof {
            assert(v@ =~= pad_filter_text(t.width, t.height));
        }
        push_string(&mut args, v);
    }
    push_lit(&mut args, "-hide_banner");
    push_lit(&mut args, "-loglevel");
    push_lit(&mut args, "error");
    push_string(&mut args, out);
    proof {
        assert(views(args@) =~~= base_concat_args(*t, list_path@, max_ms as nat, output@));
    }
    TranscodeStep { kind: StepKind::BaseConcat, args, output }
}

/// Builds one overlay layer step.
fn build_layer_step(t: &Timeline, c: &Clip, ow: u32, oh: u32, max_ms: u64, out: String) -> (r:
    TranscodeStep)
    requires
        clip_valid(*c),
    ensures
        views(r.args@) == layer_args(*t, *c, ow, oh, max_ms as nat, out@),
        r.output@ == out@,
        r.kind == StepKind::Layer,
{
    let output = out.clone();
    let mut args: Vec<String> = Vec::new();
    push_lit(&mut args, "-y");
    push_lit(&mut args, "-f");
    push_lit(&mut args, "lavfi");
    push_lit(&mut args, "-i");
    let mut bg = String::new();
    bg.append("color=c=black:s=");
    append_dec(&mut bg, ow as u64);
    bg.append("x");
    append_dec(&mut bg, oh as u64);
    bg.append(":d=");
    append_ms_secs(&mut bg, max_ms);
    proof {
        assert(bg@ =~= color_bg_text(ow, oh, max_ms as nat));
    }
    push_string(&mut args, bg);
    push_lit(&mut args, "-ss");
    push_string(&mut args, crate::text::ms_secs_string(c.trim_start_ms));
    push_lit(&mut args, "-i");
    push_string(&mut args, normalize_path(c.file_path.as_str()));
    push_lit(&mut args, "-t");
    push_string(&mut args, crate::text::ms_secs_string(c.duration_ms));
    push_lit(&mut args, "-filter_complex");
    let mut fc = String::new();
    fc.append("[1:v]scale=");
    append_dec(&mut fc, ow as u64);
    fc.append(":");
    append_dec(&mut fc, oh as u64);
    fc.append("[scaled];[0:v][scaled]overlay=enable='between(t,");
    append_ms_secs(&mut fc, c.start_time_ms);
    fc.append(",");
    append_ms_secs(&mut fc, c.start_time_ms + c.duration_ms);
    fc.append(")'[vout]");
    proof {
        assert(fc@ =~= layer_filter_text(ow, oh, c.start_time_ms as nat, (c.start_time_ms
            + c.duration_ms) as nat));
    }
    push_string(&mut args, fc);
    push_lit(&mut args, "-map");
    push_lit(&mut args, "[vout]");
    push_lit(&mut args, "-c:v");
    push_lit(&mut args, "libx264");
    push_lit(&mut args, "-preset");
    push_string(&mut args, t.preset.clone());
    push_lit(&mut args, "-crf");
    push_string(&mut args, t.crf.clone());
    push_lit(&mut args, "-pix_fmt");
    push_lit(&mut args, "yuv420p");
    push_lit(&mut args, "-t");
    push_string(&mut args, crate::text::ms_secs_string(max_ms));
    push_lit(&mut args, "-hide_banner");
    push_lit(&mut args, "-loglevel");
    push_lit(&mut args, "error");
    push_string(&mut args, out);
    proof {
        assert(views(args@) =~~= layer_args(*t, *c, ow, oh, max_ms as nat, output@));
    }
    TranscodeStep { kind: StepKind::Layer, args, output }
}

/// Builds the final composite step.
fn build_composite_step(t: &Timeline, base: String, overlay: Option<(String, u32, u32)>,
    max_ms: u64, with_subtitles: bool) -> (r: TranscodeStep)
    ensures
        views(r.args@) == composite_args(*t, base@, match overlay {
            Some(o) => Some((o.0@, o.1 as int, o.2 as int)),
            None => None,
        }, max_ms as nat, with_subtitles),
        r.output@ == t.output_path@,
        r.kind == StepKind::Composite,
{
    let ghost ospec = match overlay {
        Some(ref o) => Some((o.0@, o.1 as int, o.2 as int)),
        None => None::<(Seq<char>, int, int)>,
    };
    let mut args: Vec<String> = Vec::new();
    push_lit(&mut args, "-y");
    push_lit(&mut args, "-i");
    push_string(&mut args, base);
    let mut fc = String::new();
    match &overlay {
        Some(o) => {
            push_lit(&mut args, "-i");
            push_string(&mut args, o.0.clone());
            fc.append("[0:v][1:v]overlay=");
            append_dec(&mut fc, o.1 as u64);
            fc.append(":");
            append_dec(&mut fc, o.2 as u64);
            fc.append("[vout]");
        },
        None => {
            fc.append("[0:v]copy[vout]");
        },
    }
    proof {
        assert(fc@ =~= composite_filter_text(match ospec {
            Some(o) => Some((o.1, o.2)),
            None => None,
        }));
    }
    if with_subtitles {
        push_lit(&mut args, "-filter_complex");
        fc.append(";[vout]subtitles=./temp_subtitles.srt[vsub]");
        push_string(&mut args, fc);
        push_lit(&mut args, "-map");
        push_lit(&mut args, "[vsub]");
    } else {
        push_lit(&mut args, "-filter_complex");
        push_string(&mut args, fc);
        push_lit(&mut args, "-map");
        push_lit(&mut args, "[vout]");
        push_lit(&mut args, "-map");
        push_lit(&mut args, "0:a?");
    }
    push_lit(&mut args, "-c:v");
    push_lit(&mut args, "libx264");
    push_lit(&mut args, "-preset");
    push_string(&mut args, t.preset.clone());
    push_lit(&mut args, "-crf");
    push_string(&mut args, t.crf.clone());
    push_lit(&mut args, "-c:a");
    push_lit(&mut args, "aac");
    push_lit(&mut args, "-b:a");
    push_lit(&mut args, "192k");
    push_lit(&mut args, "-pix_fmt");
    push_lit(&mut args, "yuv420p");
    push_lit(&mut args, "-t");
    push_string(&mut args, crate::text::ms_secs_string(max_ms));
    push_lit(&mut args, "-movflags");
    push_lit(&mut args, "faststart");
    push_lit(&mut args, "-hide_banner");
    push_lit(&mut args, "-loglevel");
    if with_subtitles {
        push_lit(&mut args, "error");
    } else {
        push_lit(&mut args, "quiet");
    }
    push_string(&mut args, t.output_path.clone());
    proof {
        assert(views(args@) =~~= composite_args(*t, base@, ospec, max_ms as nat, with_subtitles));
    }
    TranscodeStep { kind: StepKind::Composite, args, output: t.output_path.clone() }
}

/// The base width the composite position is computed against.
pub open spec fn composite_base_w(t: Timeline) -> u32 {
    if t.width > 640 {
        t.width
    } else {
        640
    }
}

/// The base height the composite position is computed against.
pub open spec fn composite_base_h(t: Timeline) -> u32 {
    if t.height > 480 {
        t.height
    } else {
        480
    }
}

/// The overlay size the composite position is computed against: three
/// tenths of the clamped base.
pub open spec fn composite_overlay_w(t: Timeline) -> u32 {
    ((composite_base_w(t) * 3) / 10) as u32
}

/// See [`composite_overlay_w`].
pub open spec fn composite_overlay_h(t: Timeline) -> u32 {
    ((composite_base_h(t) * 3) / 10) as u32
}

/// The shape of the plan for a timeline with overlay clips: one trim step
/// per base clip in rendering order, a base concatenation padded to the
/// timeline's full duration, one layer step when the first overlay track
/// holds exactly one clip, and the final composite; temporary files for
/// every intermediate, and the base track's list file.
pub open spec fn overlay_plan_matches(t: Timeline, td: Seq<char>, r: ExportPlan) -> bool {
    let ord = ordered_pairs(t.clips@, 0);
    let n0 = ord.len() as int;
    let t1 = ordered_pairs(t.clips@, 1);
    let has_layer = t1.len() == 1;
    let extra: int = if has_layer {
        1
    } else {
        0
    };
    let max = max_end_ms(t.clips@);
    let ws = t.subtitle_srt_path is Some;
    let pos = overlay_pos(
        track1_pos_name(t),
        composite_base_w(t),
        composite_base_h(t),
        composite_overlay_w(t),
        composite_overlay_h(t),
        20,
    );
    &&& r.steps@.len() == n0 + extra + 2
    &&& (forall|k: int|
        0 <= k < n0 ==> (#[trigger] r.steps@[k]).kind == StepKind::Trim && views(
            r.steps@[k].args@,
        ) == trim_clip_args(t, t.clips@[ord[k].1 as int], track0_clip_path(td, k as nat), false)
            && r.steps@[k].output@ == track0_clip_path(td, k as nat))
    &&& r.steps@[n0].kind == StepKind::BaseConcat
    &&& views(r.steps@[n0].args@) == base_concat_args(
        t,
        track0_concat_path(td),
        max,
        base_video_path(td),
    )
    &&& r.steps@[n0].output@ == base_video_path(td)
    &&& (has_layer ==> r.steps@[n0 + 1].kind == StepKind::Layer && views(
        r.steps@[n0 + 1].args@,
    ) == layer_args(
        t,
        t.clips@[t1[0].1 as int],
        layer_w(t),
        layer_h(t),
        max,
        overlay1_video_path(td),
    ) && r.steps@[n0 + 1].output@ == overlay1_video_path(td))
    &&& r.steps@[n0 + extra + 1].kind == StepKind::Composite
    &&& views(r.steps@[n0 + extra + 1].args@) == composite_args(
        t,
        base_video_path(td),
        if has_layer {
            Some((overlay1_video_path(td), pos.0, pos.1))
        } else {
            None
        },
        max,
        ws,
    )
    &&& r.steps@[n0 + extra + 1].output@ == t.output_path@
    &&& r.temp_files@.len() == n0 + extra + 2
    &&& (forall|k: int|
        0 <= k < n0 ==> (#[trigger] r.temp_files@[k])@ == track0_clip_path(td, k as nat))
    &&& r.temp_files@[n0]@ == track0_concat_path(td)
    &&& r.temp_files@[n0 + 1]@ == base_video_path(td)
    &&& (has_layer ==> r.temp_files@[n0 + 2]@ == overlay1_video_path(td))
    &&& r.list_file is Some
    &&& r.list_file.unwrap().0@ == track0_concat_path(td)
    &&& r.list_file.unwrap().1@ == concat_list_text(
        Seq::new(ord.len(), |k: int| track0_clip_path(td, k as nat)),
    )
    &&& subtitle_stage_matches(t, r)
}

/// Builds the temporary path of the `i`-th trimmed base clip.
fn build_track0_clip_path(td: &str, i: usize) -> (r: String)
    ensures
        r@ == track0_clip_path(td@, i as nat),
{
    let mut s = String::from_str(td);
    s.append("track0_clip_");
    append_dec(&mut s, i as u64);
    s.append(".mp4");
    proof {
        assert(s@ =~= track0_clip_path(td@, i as nat));
    }
    s
}

/// Appends a fixed name under the directory prefix.
fn join_td(td: &str, name: &str) -> (r: String)
    ensures
        r@ == td@ + name@,
{
    let mut s = String::from_str(td);
    s.append(name);
    s
}

/// Compiles the plan for a timeline with overlay clips.
fn compile_overlay_plan(t: &Timeline, temp_dir: &str) -> (r: ExportPlan)
    requires
        timeline_clips_valid(*t),
        track_pairs(t.clips@, 0).len() > 0,
    ensures
        overlay_plan_matches(*t, temp_dir@, r),
{
    let ord = ordered_track(&t.clips, 0);
    let t1 = ordered_track(&t.clips, 1);
    let with_subtitles = t.subtitle_srt_path.is_some();
    let subtitle_stage = match &t.subtitle_srt_path {
        Some(p) => Some((p.clone(), String::from_str("./temp_subtitles.srt"))),
        None => None,
    };
    let max_ms = compute_max_end(&t.clips);
    let mut steps: Vec<TranscodeStep> = Vec::new();
    let mut clip_files: Vec<String> = Vec::new();
    let mut i: usize = 0;
    while i < ord.len()
        invariant
            ord@ == ordered_pairs(t.clips@, 0),
            timeline_clips_valid(*t),
            forall|k: int|
                0 <= k < ord@.len() ==> (#[trigger] ord@[k]).1 < t.clips@.len()
                    && t.clips@[ord@[k].1 as int].track == 0,
            0 <= i <= ord@.len(),
            steps@.len() == i,
            clip_files@.len() == i,
            forall|k: int|
                0 <= k < i ==> (#[trigger] steps@[k]).kind == StepKind::Trim && views(
                    steps@[k].args@,
                ) == trim_clip_args(
                    *t,
                    t.clips@[ord@[k].1 as int],
                    track0_clip_path(temp_dir@, k as nat),
                    false,
                ) && steps@[k].output@ == track0_clip_path(temp_dir@, k as nat),
            forall|k: int|
                0 <= k < i ==> (#[trigger] clip_files@[k])@ == track0_clip_path(
                    temp_dir@,
                    k as nat,
                ),
        decreases ord@.len() - i,
    {
        let out = build_track0_clip_path(temp_dir, i);
        let idx = ord[i].1;
        let step = build_trim_step(t, &t.clips[idx], out.clone(), false);
        steps.push(step);
        clip_files.push(out);
        i = i + 1;
    }
    let list_path_str = join_td(temp_dir, "track0_concat.txt");
    proof {
        assert(list_path_str@ == track0_concat_path(temp_dir@));
    }
    let list_text = build_concat_list_text(&clip_files);
    proof {
        assert(views(clip_files@) =~~= Seq::new(
            ordered_pairs(t.clips@, 0).len(),
            |k: int| track0_clip_path(temp_dir@, k as nat),
        ));
    }
    let base_path_str = join_td(temp_dir, "base_track0.mp4");
    proof {
        assert(base_path_str@ == base_video_path(temp_dir@));
    }
    let base_step = build_base_concat_step(t, list_path_str.clone(), max_ms,
        base_path_str.clone());
    steps.push(base_step);
    let has_layer = t1.len() == 1;
    let overlay_path_str = join_td(temp_dir, "overlay1.mp4");
    proof {
        assert(overlay_path_str@ == overlay1_video_path(temp_dir@));
    }
    if has_layer {
        let ow: u32 = if t.width > 0 {
            let w64: u64 = (t.width as u64) * 3 / 10;
            proof {
                assert(w64 <= u32::MAX) by {
                    assert((t.width as u64) * 3 <= 3 * 0xffff_ffffu64);
                }
            }
            w64 as u32
        } else {
            320
        };
        let oh: u32 = if t.height > 0 {
            let h64: u64 = (t.height as u64) * 3 / 10;
            proof {
                assert(h64 <= u32::MAX) by {
                    assert((t.height as u64) * 3 <= 3 * 0xffff_ffffu64);
                }
            }
            h64 as u32
        } else {
            180
        };
        proof {
            assert(ow == layer_w(*t));
            assert(oh == layer_h(*t));
        }
        let idx = t1[0].1;
        let layer_step = build_layer_step(t, &t.clips[idx], ow, oh, max_ms,
            overlay_path_str.clone());
        steps.push(layer_step);
    }
    // the composite position against the clamped base geometry
    let bw: u32 = if t.width > 640 {
        t.width
    } else {
        640
    };
    let bh: u32 = if t.height > 480 {
        t.height
    } else {
        480
    };
    let ow2: u32 = {
        let v: u64 = (bw as u64) * 3 / 10;
        proof {
            assert(v <= u32::MAX) by {
                assert((bw as u64) * 3 <= 3 * 0xffff_ffffu64);
            }
        }
        v as u32
    };
    let oh2: u32 = {
        let v: u64 = (bh as u64) * 3 / 10;
        proof {
            assert(v <= u32::MAX) by {
                assert((bh as u64) * 3 <= 3 * 0xffff_ffffu64);
            }
        }
        v as u32
    };
    proof {
        assert(ow2 == composite_overlay_w(*t));
        assert(oh2 == composite_overlay_h(*t));
        assert(ow2 + 20 <= bw) by {
            vstd::arithmetic::div_mod::lemma_fundamental_div_mod((bw as int) * 3, 10);
            assert(10 * (ow2 as int) <= (bw as int) * 3);
        }
        assert(oh2 + 20 <= bh) by {
            vstd::arithmetic::div_mod::lemma_fundamental_div_mod((bh as int) * 3, 10);
            assert(10 * (oh2 as int) <= (bh as int) * 3);
        }
    }
    let pos_name: &str = match &t.overlay_positions {
        Some(op) => match &op.track1 {
            Some(p) => p.as_str(),
            None => "bottom-right",
        },
        None => "bottom-right",
    };
    proof {
        assert(pos_name@ == track1_pos_name(*t));
    }
    let (x, y) = calculate_overlay_pos(pos_name, bw, bh, ow2, oh2, 20);
    let overlay_arg = if has_layer {
        Some((overlay_path_str.clone(), x, y))
    } else {
        None
    };
    let composite_step = build_composite_step(t, base_path_str.clone(), overlay_arg, max_ms,
        with_subtitles);
    steps.push(composite_step);
    let mut temp_files: Vec<String> = clip_files;
    temp_files.push(list_path_str.clone());
    temp_files.push(base_path_str);
    if has_layer {
        temp_files.push(overlay_path_str);
    }
    ExportPlan {
        steps,
        temp_files,
        list_file: Some((list_path_str, list_text)),
        subtitle_stage,
    }
}

/// A clip on some track puts at least one pair on that track's list.
proof fn lemma_track_pairs_has(clips: Seq<Clip>, i: int, track: u32)
    requires
        0 <= i < clips.len(),
        clips[i].track == track,
    ensures
        track_pairs(clips, track).len() > 0,
    decreases clips.len(),
{
    if i == clips.len() - 1 {
    } else {
        assert(clips.drop_last()[i] == clips[i]);
        lemma_track_pairs_has(clips.drop_last(), i, track);
    }
}

/// Compiles a timeline into an executable plan. Rejected exactly when the
/// timeline has no clips, an unsupported output extension, or overlays
/// above an empty base track; otherwise the plan has the concatenation
/// shape for a base-track-only timeline and the composite shape when an
/// overlay track is occupied.
pub fn compile_export_plan(t: &Timeline, temp_dir: &str) -> (r: Result<ExportPlan, String>)
    requires
        timeline_clips_valid(*t),
    ensures
        (r is Ok) == !export_rejected(*t),
        r is Ok && !has_overlay_clips(*t) ==> concat_plan_matches(*t, temp_dir@, r->Ok_0),
        r is Ok && has_overlay_clips(*t) ==> overlay_plan_matches(*t, temp_dir@, r->Ok_0),
{
    if t.clips.len() == 0 {
        return Err(String::from_str("No clips to export"));
    }
    proof {
        reveal_strlit(".mp4");
        reveal_strlit(".mov");
    }
    let ok_ext = {
        let a = str_ends_with(t.output_path.as_str(), ".mp4");
        let b = str_ends_with(t.output_path.as_str(), ".mov");
        a || b
    };
    if !ok_ext {
        let mut m = String::new();
        m.append("Output path must end with .mp4 or .mov, got: '");
        m.append(t.output_path.as_str());
        m.append("'");
        return Err(m);
    }
    let t1 = ordered_track(&t.clips, 1);
    let t2 = ordered_track(&t.clips, 2);
    let has_ov = t1.len() > 0 || t2.len() > 0;
    let ord0 = ordered_track(&t.clips, 0);
    if !has_ov {
        proof {
            if track_pairs(t.clips@, 0).len() == 0 {
                let c0 = t.clips@[0];
                assert(clip_valid(c0));
                if c0.track == 0 {
                    lemma_track_pairs_has(t.clips@, 0, 0);
                } else if c0.track == 1 {
                    lemma_track_pairs_has(t.clips@, 0, 1);
                } else {
                    lemma_track_pairs_has(t.clips@, 0, 2);
                }
            }
        }
        let plan = compile_concat_plan(t, temp_dir);
        return Ok(plan);
    }
    if ord0.len() == 0 {
        return Err(String::from_str("Track 0 (Main Video) must have at least one clip"));
    }
    let plan = compile_overlay_plan(t, temp_dir);
    Ok(plan)
}

/// A timeline with a single clip on the base track and no overlays compiles
/// to a plan of exactly one transcode step and no temporary files.
pub proof fn lemma_single_clip_one_step(t: Timeline, td: Seq<char>, r: ExportPlan)
    requires
        concat_plan_matches(t, td, r),
        track_pairs(t.clips@, 0).len() == 1,
    ensures
        r.steps@.len() == 1,
        r.temp_files@.len() == 0,
{
    crate::timeline::lemma_ordered_pairs_len(t.clips@, 0);
}

/// A timeline with several clips on the base track and no overlays compiles
/// to one trim step per clip plus exactly one concatenation step, and
/// creates one temporary file per clip plus the generated list file — all of
/// them deleted after execution whatever its outcome.
pub proof fn lemma_multi_clip_trims_and_concat(t: Timeline, td: Seq<char>, r: ExportPlan)
    requires
        concat_plan_matches(t, td, r),
        track_pairs(t.clips@, 0).len() > 1,
    ensures
        r.steps@.len() == track_pairs(t.clips@, 0).len() + 1,
        forall|k: int|
            0 <= k < track_pairs(t.clips@, 0).len() ==> (#[trigger] r.steps@[k]).kind
                == StepKind::Trim,
        r.steps@[r.steps@.len() - 1].kind == StepKind::Concat,
        r.temp_files@.len() == track_pairs(t.clips@, 0).len() + 1,
{
    crate::timeline::lemma_ordered_pairs_len(t.clips@, 0);
}

} // verus!
