//! Reading the external tools' output: the probing tool's single numeric
//! duration line, the capture tool's device listing, and the stream markers
//! in its diagnostic text. Also the decisions around locating the engine
//! binary and winding a capture process down.

use vstd::prelude::*;
use crate::text::{all_digits, digits_val, dec_digits, find_sub, is_digit, lines_of, lines_vec,
    split_on, split_str, trimmed, trim_str, contains_str, find_str, append_dec};

verus! {

/// The value of a fraction's digit run read as milliseconds: the first
/// three digits, zero padded on the right when fewer are given; digits past
/// the third are ignored.
pub open spec fn frac_ms_val(fs: Seq<char>) -> nat {
    if fs.len() >= 3 {
        digits_val(fs.take(3))
    } else if fs.len() == 2 {
        digits_val(fs) * 10
    } else if fs.len() == 1 {
        digits_val(fs) * 100
    } else {
        0
    }
}

/// The duration in milliseconds denoted by the probing tool's output: a
/// plain decimal number of seconds, optionally fractional, surrounded by
/// whitespace. Rejected when it is not such a number or does not fit.
pub open spec fn probe_duration_ms(s: Seq<char>) -> Option<nat> {
    let t = trimmed(s);
    let ps = split_on(t, seq!['.']);
    if ps.len() == 1 {
        if all_digits(ps[0]) && digits_val(ps[0]) * 1000 <= u64::MAX {
            Some(digits_val(ps[0]) * 1000)
        } else {
            None
        }
    } else if ps.len() == 2 {
        let ip = ps[0];
        let fp = ps[1];
        let int_ok = ip.len() == 0 || all_digits(ip);
        let frac_ok = fp.len() == 0 || all_digits(fp);
        if int_ok && frac_ok && (ip.len() > 0 || fp.len() > 0) && digits_val(ip) * 1000
            + frac_ms_val(fp) <= u64::MAX {
            Some(digits_val(ip) * 1000 + frac_ms_val(fp))
        } else {
            None
        }
    } else {
        None
    }
}

/// Parses the probing tool's duration output into milliseconds. An
/// unparsable duration is `None`: the caller treats it as unknown and falls
/// back to a safe default.
pub fn parse_probe_duration(s: &str) -> (r: Option<u64>)
    ensures
        match probe_duration_ms(s@) {
            Some(ms) => r == Some(ms as u64),
            None => r is None,
        },
{
    proof {
        reveal_strlit(".");
        assert("."@ =~= seq!['.']);
    }
    let t = trim_str(s);
    let ps = split_str(t.as_str(), ".");
    if ps.len() == 1 {
        proof {
            assert(ps@.map_values(|x: String| x@)[0] == ps@[0]@);
        }
        let ip = match parse_digits_u64(ps[0].as_str()) {
            Some(v) => v,
            None => {
                return None;
            },
        };
        if ip > u64::MAX / 1000 {
            proof {
                lemma_mul_bound(digits_val(ps@[0]@));
            }
            return None;
        }
        Some(ip * 1000)
    } else if ps.len() == 2 {
        proof {
            assert(ps@.map_values(|x: String| x@)[0] == ps@[0]@);
            assert(ps@.map_values(|x: String| x@)[1] == ps@[1]@);
        }
        let ip_len = ps[0].as_str().unicode_len();
        let fp_len = ps[1].as_str().unicode_len();
        if ip_len == 0 && fp_len == 0 {
            return None;
        }
        let ip: u64 = if ip_len == 0 {
            0
        } else {
            match parse_digits_u64(ps[0].as_str()) {
                Some(v) => v,
                None => {
                    return None;
                },
            }
        };
        let fs = &ps[1];
        let frac: u64 = if fp_len == 0 {
            0
        } else {
            match parse_frac_ms(fs.as_str()) {
                Some(v) => v,
                None => {
                    return None;
                },
            }
        };
        if ip > u64::MAX / 1000 {
            proof {
                lemma_mul_bound(digits_val(ps@[0]@));
            }
            return None;
        }
        let base = ip * 1000;
        if base > u64::MAX - frac {
            return None;
        }
        Some(base + frac)
    } else {
        None
    }
}

/// `v > u64::MAX / 1000` puts `v * 1000` out of range.
proof fn lemma_mul_bound(v: nat)
    requires
        v > (u64::MAX as nat) / 1000,
    ensures
        v * 1000 > u64::MAX,
{
    assert(v >= (u64::MAX as nat) / 1000 + 1);
    assert(v * 1000 >= ((u64::MAX as nat) / 1000 + 1) * 1000) by (nonlinear_arith)
        requires
            v >= (u64::MAX as nat) / 1000 + 1,
    ;
}

/// Parses a nonempty all-digit run whose value fits an unsigned 64-bit
/// number; anything else is `None`. The probing tool's durations fit
/// comfortably.
fn parse_digits_u64(s: &str) -> (r: Option<u64>)
    ensures
        (r is Some) == (all_digits(s@) && digits_val(s@) <= u64::MAX),
        r is Some ==> r.unwrap() as nat == digits_val(s@),
{
    let n = s.unicode_len();
    if n == 0 {
        return None;
    }
    let mut acc: u64 = 0;
    let mut i: usize = 0;
    while i < n
        invariant
            0 < n == s@.len(),
            0 <= i <= n,
            forall|k: int| 0 <= k < i ==> is_digit(#[trigger] s@[k]),
            acc == digits_val(s@.take(i as int)),
        decreases n - i,
    {
        let c = s.get_char(i);
        if c < '0' || c > '9' {
            proof {
                assert(!is_digit(s@[i as int]));
            }
            return None;
        }
        let d: u64 = (c as u32 - '0' as u32) as u64;
        proof {
            assert(d == crate::text::digit_val(s@[i as int]));
        }
        if acc > (u64::MAX - d) / 10 {
            proof {
                let t = s@.take(i as int + 1);
                assert(t.drop_last() =~= s@.take(i as int));
                crate::text::lemma_digits_val_prefix_le(s@, i as int + 1);
            }
            return None;
        }
        acc = acc * 10 + d;
        proof {
            let t = s@.take(i as int + 1);
            assert(t.drop_last() =~= s@.take(i as int));
            assert(t.last() == s@[i as int]);
        }
        i = i + 1;
    }
    proof {
        assert(s@.take(n as int) =~= s@);
    }
    Some(acc)
}

/// Parses a nonempty fraction digit run as milliseconds, as
/// [`frac_ms_val`] reads it.
fn parse_frac_ms(s: &str) -> (r: Option<u64>)
    requires
        s@.len() > 0,
    ensures
        (r is Some) == all_digits(s@),
        r is Some ==> r.unwrap() as nat == frac_ms_val(s@),
{
    let n = s.unicode_len();
    // validate every digit, then read the leading ones
    let mut i: usize = 0;
    while i < n
        invariant
            n == s@.len(),
            0 <= i <= n,
            forall|k: int| 0 <= k < i ==> is_digit(#[trigger] s@[k]),
        decreases n - i,
    {
        let c = s.get_char(i);
        if c < '0' || c > '9' {
            proof {
                assert(!is_digit(s@[i as int]));
            }
            return None;
        }
        i = i + 1;
    }
    let head = if n >= 3 {
        s.substring_char(0, 3)
    } else {
        s.substring_char(0, n)
    };
    let v = match parse_digits_u64(head) {
        Some(v) => v,
        None => {
            proof {
                assert(all_digits(head@));
                crate::text::lemma_digits_val_bound(head@);
            }
            return None;
        },
    };
    if n >= 3 {
        proof {
            assert(head@ =~= s@.take(3));
        }
        Some(v)
    } else if n == 2 {
        proof {
            assert(head@ =~= s@);
            crate::text::lemma_digits_val_bound(s@);
        }
        Some(v * 10)
    } else {
        proof {
            assert(head@ =~= s@);
            crate::text::lemma_digits_val_bound(s@);
        }
        Some(v * 100)
    }
}

/// Whether the capture tool's diagnostic text reports an audio stream: the
/// stream-type marker occurs somewhere in it.
pub fn check_has_audio_stream(probe_text: &str) -> (r: bool)
    ensures
        r == (find_sub(probe_text@, "Audio:"@) is Some),
{
    proof {
        reveal_strlit("Audio:");
    }
    contains_str(probe_text, "Audio:")
}

/// The text between the first two quotation marks of a line, if two are
/// there: how the capture tool prints a device name.
pub open spec fn quoted_name(l: Seq<char>) -> Option<Seq<char>> {
    match find_sub(l, seq!['"']) {
        None => None,
        Some(i) => match find_sub(l.skip(i + 1), seq!['"']) {
            None => None,
            Some(j) => Some(l.skip(i + 1).take(j)),
        },
    }
}

/// The line that opens the audio device section of the listing.
pub open spec fn audio_section_marker() -> Seq<char> {
    "DirectShow audio devices"@
}

/// The line that opens the video device section, ending the audio section.
pub open spec fn video_section_marker() -> Seq<char> {
    "DirectShow video devices"@
}

/// The audio device names in a listing, line by line: names are quoted
/// strings on the lines between the audio section marker and the video
/// section marker.
pub open spec fn audio_devices_from(ls: Seq<Seq<char>>, in_section: bool) -> Seq<Seq<char>>
    decreases ls.len(),
{
    if ls.len() == 0 {
        Seq::empty()
    } else if !in_section {
        if find_sub(ls[0], audio_section_marker()) is Some {
            audio_devices_from(ls.skip(1), true)
        } else {
            audio_devices_from(ls.skip(1), false)
        }
    } else if find_sub(ls[0], video_section_marker()) is Some {
        Seq::empty()
    } else {
        (match quoted_name(ls[0]) {
            Some(nm) => seq![nm],
            None => Seq::<Seq<char>>::empty(),
        }) + audio_devices_from(ls.skip(1), true)
    }
}

/// Scanning the listing front to back.
proof fn lemma_devices_unfold(ls: Seq<Seq<char>>, i: int, in_section: bool)
    requires
        0 <= i < ls.len(),
    ensures
        audio_devices_from(ls.skip(i), in_section) == (if !in_section {
            if find_sub(ls[i], audio_section_marker()) is Some {
                audio_devices_from(ls.skip(i + 1), true)
            } else {
                audio_devices_from(ls.skip(i + 1), false)
            }
        } else if find_sub(ls[i], video_section_marker()) is Some {
            Seq::<Seq<char>>::empty()
        } else {
            (match quoted_name(ls[i]) {
                Some(nm) => seq![nm],
                None => Seq::<Seq<char>>::empty(),
            }) + audio_devices_from(ls.skip(i + 1), true)
        }),
{
    let t = ls.skip(i);
    assert(t[0] == ls[i]);
    assert(t.skip(1) =~= ls.skip(i + 1));
}

/// Reads the audio device names out of the capture tool's device listing:
/// the quoted name on each line of the audio device section, in order.
pub fn parse_audio_device_list(listing: &str) -> (r: Vec<String>)
    ensures
        r@.map_values(|t: String| t@) == audio_devices_from(lines_of(listing@), false),
{
    proof {
        reveal_strlit("\"");
        assert("\""@ =~= seq!['"']);
    }
    let lines = lines_vec(listing);
    let ghost ls = lines_of(listing@);
    proof {
        assert(lines@.map_values(|t: String| t@) == ls);
    }
    let mut out: Vec<String> = Vec::new();
    let mut in_section = false;
    let mut i: usize = 0;
    proof {
        assert(ls.skip(0) =~= ls);
    }
    while i < lines.len()
        invariant
            ls == lines_of(listing@),
            lines@.map_values(|t: String| t@) == ls,
            0 <= i <= lines@.len(),
            out@.map_values(|t: String| t@) + audio_devices_from(ls.skip(i as int), in_section)
                =~~= audio_devices_from(ls, false),
        decreases lines@.len() - i,
    {
        proof {
            reveal_strlit("\"");
            reveal_strlit("DirectShow audio devices");
            reveal_strlit("DirectShow video devices");
            assert("\""@ =~= seq!['"']);
            assert(lines@.map_values(|t: String| t@)[i as int] == lines@[i as int]@);
            lemma_devices_unfold(ls, i as int, in_section);
        }
        let line = &lines[i];
        if !in_section {
            if contains_str(line.as_str(), "DirectShow audio devices") {
                in_section = true;
            }
        } else {
            if contains_str(line.as_str(), "DirectShow video devices") {
                proof {
                    assert(out@.map_values(|t: String| t@) + Seq::<Seq<char>>::empty()
                        =~~= out@.map_values(|t: String| t@));
                }
                return out;
            }
            match find_str(line.as_str(), "\"") {
                Some(start) => {
                    proof {
                        crate::text::lemma_find_sub(ls[i as int], seq!['"']);
                    }
                    let line_len = line.as_str().unicode_len();
                    let rest = line.as_str().substring_char(start + 1, line_len);
                    proof {
                        assert(rest@ =~= ls[i as int].skip(start + 1));
                    }
                    match find_str(rest, "\"") {
                        Some(end) => {
                            proof {
                                crate::text::lemma_find_sub(rest@, seq!['"']);
                            }
                            let nm = String::from_str(rest.substring_char(0, end));
                            let ghost before = out@.map_values(|t: String| t@);
                            proof {
                                assert(nm@ =~= quoted_name(ls[i as int]).unwrap());
                            }
                            out.push(nm);
                            proof {
                                assert(out@.map_values(|t: String| t@) =~~= before + seq![
                                    quoted_name(ls[i as int]).unwrap()]);
                                assert(before + (seq![quoted_name(ls[i as int]).unwrap()]
                                    + audio_devices_from(ls.skip(i + 1), true)) =~~= (before
                                    + seq![quoted_name(ls[i as int]).unwrap()])
                                    + audio_devices_from(ls.skip(i + 1), true));
                            }
                        },
                        None => {
                            proof {
                                assert(Seq::<Seq<char>>::empty() + audio_devices_from(
                                    ls.skip(i + 1), true) =~~= audio_devices_from(
                                    ls.skip(i + 1), true));
                            }
                        },
                    }
                },
                None => {
                    proof {
                        assert(Seq::<Seq<char>>::empty() + audio_devices_from(ls.skip(i + 1),
                            true) =~~= audio_devices_from(ls.skip(i + 1), true));
                    }
                },
            }
        }
        i = i + 1;
    }
    proof {
        assert(ls.skip(lines@.len() as int) =~= Seq::<Seq<char>>::empty());
        assert(out@.map_values(|t: String| t@) + Seq::<Seq<char>>::empty() =~~= out@.map_values(
            |t: String| t@,
        ));
    }
    out
}

/// One capturable display, as reported to the interface layer.
pub struct ScreenSource {
    pub id: String,
    pub name: String,
    pub is_primary: bool,
    pub width: u32,
    pub height: u32,
}

/// What the display enumeration reports for one monitor.
pub struct MonitorInfo {
    pub id: String,
    pub width: u32,
    pub height: u32,
    pub is_primary: bool,
}

/// The display name shown for a monitor: the primary display by title, any
/// other by its one-based position, each with its pixel geometry.
pub open spec fn source_name(is_primary: bool, pos: nat, w: u32, h: u32) -> Seq<char> {
    if is_primary {
        "Primary Display ("@ + dec_digits(w as nat) + "x"@ + dec_digits(h as nat) + ")"@
    } else {
        "Display "@ + dec_digits(pos) + " ("@ + dec_digits(w as nat) + "x"@ + dec_digits(h as nat)
            + ")"@
    }
}

/// Turns enumerated monitors into screen sources: geometry and primary flag
/// carried over, names built from them; one default full-HD primary source
/// when the enumeration reported nothing.
pub fn list_screen_sources(monitors: &Vec<MonitorInfo>) -> (r: Result<Vec<ScreenSource>, String>)
    ensures
        r is Ok,
        monitors@.len() == 0 ==> ({
            let ss = r->Ok_0@;
            &&& ss.len() == 1
            &&& ss[0].id@ == "primary"@
            &&& ss[0].name@ == "Primary Display"@
            &&& ss[0].is_primary == true
            &&& ss[0].width == 1920
            &&& ss[0].height == 1080
        }),
        monitors@.len() > 0 ==> ({
            let ss = r->Ok_0@;
            &&& ss.len() == monitors@.len()
            &&& forall|k: int|
                0 <= k < ss.len() ==> (#[trigger] ss[k]).id@ == monitors@[k].id@ && ss[k].width
                    == monitors@[k].width && ss[k].height == monitors@[k].height
                    && ss[k].is_primary == monitors@[k].is_primary && ss[k].name@ == source_name(
                    monitors@[k].is_primary,
                    (k + 1) as nat,
                    monitors@[k].width,
                    monitors@[k].height,
                )
        }),
{
    let mut out: Vec<ScreenSource> = Vec::new();
    let mut i: usize = 0;
    while i < monitors.len()
        invariant
            0 <= i <= monitors@.len(),
            out@.len() == i,
            forall|k: int|
                0 <= k < i ==> (#[trigger] out@[k]).id@ == monitors@[k].id@ && out@[k].width
                    == monitors@[k].width && out@[k].height == monitors@[k].height
                    && out@[k].is_primary == monitors@[k].is_primary && out@[k].name@
                    == source_name(
                    monitors@[k].is_primary,
                    (k + 1) as nat,
                    monitors@[k].width,
                    monitors@[k].height,
                ),
        decreases monitors@.len() - i,
    {
        let m = &monitors[i];
        let mut name = String::new();
        if m.is_primary {
            name.append("Primary Display (");
            append_dec(&mut name, m.width as u64);
            name.append("x");
            append_dec(&mut name, m.height as u64);
            name.append(")");
        } else {
            name.append("Display ");
            append_dec(&mut name, (i as u64) + 1);
            name.append(" (");
            append_dec(&mut name, m.width as u64);
            name.append("x");
            append_dec(&mut name, m.height as u64);
            name.append(")");
        }
        proof {
            assert(name@ =~= source_name(m.is_primary, (i + 1) as nat, m.width, m.height));
        }
        out.push(
            ScreenSource {
                id: m.id.clone(),
                name,
                is_primary: m.is_primary,
                width: m.width,
                height: m.height,
            },
        );
        i = i + 1;
    }
    if out.len() == 0 {
        out.push(
            ScreenSource {
                id: String::from_str("primary"),
                name: String::from_str("Primary Display"),
                is_primary: true,
                width: 1920,
                height: 1080,
            },
        );
    }
    Ok(out)
}

/// Where the engine binary is taken from, in priority order: a bundled
/// binary beside the application, the bare program name when the search
/// path resolves it, a well-known installation path that exists, and the
/// bare name again as the last resort, letting the spawn fail descriptively.
pub open spec fn engine_location(bundled: Option<Seq<char>>, on_path: bool, known: Option<
    Seq<char>,
>, program: Seq<char>) -> Seq<char> {
    if bundled is Some {
        bundled.unwrap()
    } else if on_path {
        program
    } else if known is Some {
        known.unwrap()
    } else {
        program
    }
}

/// Picks the engine binary location from what the surroundings found: a
/// bundled path, whether the search path has the program, and a well-known
/// installation path that exists.
pub fn select_engine_location(bundled: Option<String>, on_path: bool, known: Option<String>,
    program: &str) -> (r: String)
    ensures
        r@ == engine_location(
            match bundled {
                Some(b) => Some(b@),
                None => None,
            },
            on_path,
            match known {
                Some(k) => Some(k@),
                None => None,
            },
            program@,
        ),
{
    match bundled {
        Some(b) => b,
        None => if on_path {
            String::from_str(program)
        } else {
            match known {
                Some(k) => k,
                None => String::from_str(program),
            }
        },
    }
}

/// How many times the stop path polls a signalled capture process before
/// giving up on a graceful exit.
pub const STOP_POLL_MAX: u32 = 15;

/// How long one poll waits, in milliseconds.
pub const STOP_POLL_INTERVAL_MS: u64 = 200;

/// The next move while winding a signalled capture process down.
pub enum StopPollAction {
    /// The process has exited; stopping is complete.
    Done,
    /// Keep waiting one more poll interval.
    Wait,
    /// The bounded timeout has passed: terminate the process forcibly.
    ForceKill,
}

/// Decides the next move of the graceful-stop sequence: done once the
/// process exited, wait while polls remain, force termination after the
/// bounded timeout.
pub fn stop_poll_action(polls_done: u32, exited: bool) -> (r: StopPollAction)
    ensures
        exited ==> r == StopPollAction::Done,
        !exited && polls_done < STOP_POLL_MAX ==> r == StopPollAction::Wait,
        !exited && polls_done >= STOP_POLL_MAX ==> r == StopPollAction::ForceKill,
{
    if exited {
        StopPollAction::Done
    } else if polls_done < STOP_POLL_MAX {
        StopPollAction::Wait
    } else {
        StopPollAction::ForceKill
    }
}

} // verus!
