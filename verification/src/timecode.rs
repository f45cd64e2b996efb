//! Subtitle timecodes. The timing text format gives an entry's bounds as
//! `HH:MM:SS,mmm --> HH:MM:SS,mmm`; the burn-in markup wants the same instant
//! with a dot before the milliseconds. Times are modelled as whole
//! milliseconds.

use vstd::prelude::*;
use crate::text::{all_digits, append_char_at, dec_digits, digits_val, frac3_digits, is_digit,
    lemma_dec_digits_val, lemma_frac3_val, lemma_prepend_zero_val, lemma_split_no_sep,
    lemma_split_single_sep, lemma_trimmed_id, parse_u32_digits, split_on, split_str, trim_str,
    trimmed, u32_of_digits};
use vstd::arithmetic::div_mod::{lemma_div_denominator, lemma_fundamental_div_mod,
    lemma_fundamental_div_mod_converse_div};

verus! {

/// Total milliseconds denoted by an hour, minute, second, millisecond
/// quadruple.
pub open spec fn time_parts_ms(h: nat, m: nat, s: nat, f: nat) -> nat {
    (h * 3600 + m * 60 + s) * 1000 + f
}

/// The separator between the two timestamps of a timing line.
pub open spec fn arrow_sep() -> Seq<char> {
    seq![' ', '-', '-', '>', ' ']
}

/// The milliseconds denoted by a timestamp `HH:MM:SS,mmm`, if it is well
/// formed: after trimming whitespace, exactly three colon-separated fields,
/// the last split by one comma, every field a nonempty digit run whose value
/// fits in 32 bits. Each field is read in full: the milliseconds field is a
/// count of thousandths whatever its width.
pub open spec fn time_string_ms(s: Seq<char>) -> Option<nat> {
    let cs = split_on(trimmed(s), seq![':']);
    if cs.len() == 3 {
        let sf = split_on(cs[2], seq![',']);
        if u32_of_digits(cs[0]) is Some && u32_of_digits(cs[1]) is Some && sf.len() == 2
            && u32_of_digits(sf[0]) is Some && u32_of_digits(sf[1]) is Some {
            Some(
                time_parts_ms(
                    u32_of_digits(cs[0]).unwrap() as nat,
                    u32_of_digits(cs[1]).unwrap() as nat,
                    u32_of_digits(sf[0]).unwrap() as nat,
                    u32_of_digits(sf[1]).unwrap() as nat,
                ),
            )
        } else {
            None
        }
    } else {
        None
    }
}

/// Parses a timestamp `HH:MM:SS,mmm` into total milliseconds. Returns an
/// error exactly on input that [`time_string_ms`] rejects.
pub fn parse_time_string(time_str: &str) -> (r: Result<u64, String>)
    ensures
        (r is Ok) == (time_string_ms(time_str@) is Some),
        r is Ok ==> r->Ok_0 as nat == time_string_ms(time_str@).unwrap(),
{
    proof {
        reveal_strlit(":");
        reveal_strlit(",");
        assert(":"@ =~= seq![':']);
        assert(","@ =~= seq![',']);
    }
    let t = trim_str(time_str);
    let cs = split_str(t.as_str(), ":");
    if cs.len() != 3 {
        return Err(invalid_time_message(time_str));
    }
    proof {
        assert(cs@.map_values(|x: String| x@)[0] == cs@[0]@);
        assert(cs@.map_values(|x: String| x@)[1] == cs@[1]@);
        assert(cs@.map_values(|x: String| x@)[2] == cs@[2]@);
    }
    let hours = match parse_u32_digits(cs[0].as_str()) {
        Some(h) => h,
        None => {
            return Err(invalid_time_message(time_str));
        },
    };
    let minutes = match parse_u32_digits(cs[1].as_str()) {
        Some(m) => m,
        None => {
            return Err(invalid_time_message(time_str));
        },
    };
    let sf = split_str(cs[2].as_str(), ",");
    if sf.len() != 2 {
        return Err(invalid_time_message(time_str));
    }
    proof {
        assert(sf@.map_values(|x: String| x@)[0] == sf@[0]@);
        assert(sf@.map_values(|x: String| x@)[1] == sf@[1]@);
    }
    let seconds = match parse_u32_digits(sf[0].as_str()) {
        Some(s) => s,
        None => {
            return Err(invalid_time_message(time_str));
        },
    };
    let millis = match parse_u32_digits(sf[1].as_str()) {
        Some(f) => f,
        None => {
            return Err(invalid_time_message(time_str));
        },
    };
    let total: u64 = ((hours as u64) * 3600 + (minutes as u64) * 60 + (seconds as u64)) * 1000
        + (millis as u64);
    Ok(total)
}

/// The error text for a malformed timestamp.
fn invalid_time_message(time_str: &str) -> (r: String) {
    let mut m = String::new();
    m.append("Invalid time format: ");
    m.append(time_str);
    m
}

/// The two timestamps of a timing line `A --> B`, in milliseconds, if the
/// line is one arrow with a well-formed timestamp on each side.
pub open spec fn timestamp_pair_ms(s: Seq<char>) -> Option<(nat, nat)> {
    let ps = split_on(s, arrow_sep());
    if ps.len() == 2 && time_string_ms(ps[0]) is Some && time_string_ms(ps[1]) is Some {
        Some((time_string_ms(ps[0]).unwrap(), time_string_ms(ps[1]).unwrap()))
    } else {
        None
    }
}

/// Parses a timing line `A --> B` into its two bounds in milliseconds.
/// Returns an error exactly on input that [`timestamp_pair_ms`] rejects.
pub fn parse_srt_timestamp(timestamp_str: &str) -> (r: Result<(u64, u64), String>)
    ensures
        (r is Ok) == (timestamp_pair_ms(timestamp_str@) is Some),
        r is Ok ==> (r->Ok_0.0 as nat, r->Ok_0.1 as nat) == timestamp_pair_ms(
            timestamp_str@,
        ).unwrap(),
{
    proof {
        reveal_strlit(" --> ");
        assert(" --> "@ =~= arrow_sep());
    }
    let ps = split_str(timestamp_str, " --> ");
    if ps.len() != 2 {
        let mut m = String::new();
        m.append("Invalid timestamp format: ");
        m.append(timestamp_str);
        return Err(m);
    }
    proof {
        assert(ps@.map_values(|x: String| x@)[0] == ps@[0]@);
        assert(ps@.map_values(|x: String| x@)[1] == ps@[1]@);
    }
    let start = match parse_time_string(ps[0].as_str()) {
        Ok(v) => v,
        Err(e) => {
            return Err(e);
        },
    };
    let end = match parse_time_string(ps[1].as_str()) {
        Ok(v) => v,
        Err(e) => {
            return Err(e);
        },
    };
    Ok((start, end))
}

/// A number rendered with at least two digits, a single leading zero added
/// under ten: the usual timestamp field form.
pub open spec fn pad2(n: nat) -> Seq<char> {
    if n < 10 {
        seq!['0'] + dec_digits(n)
    } else {
        dec_digits(n)
    }
}

/// The canonical timestamp text `HH:MM:SS,mmm` for a count of milliseconds.
pub open spec fn srt_time_text(ms: nat) -> Seq<char> {
    pad2(ms / 3600000) + seq![':'] + pad2((ms / 60000) % 60) + seq![':'] + pad2((ms / 1000) % 60)
        + seq![','] + frac3_digits(ms % 1000)
}

/// A padded field is a digit run that reads back as its value.
proof fn lemma_pad2_val(n: nat)
    ensures
        all_digits(pad2(n)),
        digits_val(pad2(n)) == n,
        pad2(n).len() >= 2,
{
    lemma_dec_digits_val(n);
    if n < 10 {
        lemma_prepend_zero_val(dec_digits(n));
        assert(all_digits(pad2(n))) by {
            assert(forall|i: int|
                0 <= i < pad2(n).len() ==> is_digit(#[trigger] pad2(n)[i]));
        }
    } else {
        lemma_dec_digits_val(n / 10);
        assert(dec_digits(n) == dec_digits(n / 10) + seq![crate::text::digit_char((n % 10) as int)]);
    }
}

/// Timestamp conversion round trip: rendering any count of milliseconds
/// whose hour field fits the parsed range and reading the text back yields
/// the same count. Together with the rendering being canonical, conversion
/// loses nothing on well-formed input.
pub proof fn lemma_srt_time_round_trip(ms: nat)
    requires
        ms / 3600000 <= u32::MAX,
    ensures
        time_string_ms(srt_time_text(ms)) == Some(ms),
{
    let h = ms / 3600000;
    let m = (ms / 60000) % 60;
    let sec = (ms / 1000) % 60;
    let f = ms % 1000;
    let ha = pad2(h);
    let ma = pad2(m);
    let sa = pad2(sec);
    let fa = frac3_digits(f);
    let t = srt_time_text(ms);
    lemma_pad2_val(h);
    lemma_pad2_val(m);
    lemma_pad2_val(sec);
    lemma_frac3_val(f);
    // the text, reassociated around its separators
    let rest2 = sa + seq![','] + fa;
    let rest1 = ma + seq![':'] + rest2;
    assert(t =~= ha + seq![':'] + rest1);
    // trimming: both ends are digits
    assert(t[0] == ha[0]);
    assert(t.last() == fa.last());
    assert(is_digit(t[0]) && is_digit(t.last()));
    lemma_trimmed_id(t);
    // splitting on the colons
    lemma_split_single_sep(ha, ':', rest1);
    lemma_split_single_sep(ma, ':', rest2);
    assert forall|i: int| 0 <= i < rest2.len() implies rest2[i] != ':' by {
        if i < sa.len() {
            assert(rest2[i] == sa[i]);
        } else if i > sa.len() {
            assert(rest2[i] == fa[i - sa.len() - 1]);
        }
    }
    lemma_split_no_sep(rest2, ':');
    let cs = split_on(trimmed(t), seq![':']);
    assert(cs =~= seq![ha, ma, rest2]);
    // splitting the tail on the comma
    lemma_split_single_sep(sa, ',', fa);
    lemma_split_no_sep(fa, ',');
    let sf = split_on(rest2, seq![',']);
    assert(sf =~= seq![sa, fa]);
    // every field reads back as its value
    assert(u32_of_digits(ha) == Some(h as u32));
    assert(u32_of_digits(ma) == Some(m as u32));
    assert(u32_of_digits(sa) == Some(sec as u32));
    assert(u32_of_digits(fa) == Some(f as u32));
    // the fields recombine to the original count
    assert(time_parts_ms(h, m, sec, f) == ms) by {
        let q = ms / 1000;
        lemma_fundamental_div_mod(ms as int, 1000);
        lemma_fundamental_div_mod(q as int, 60);
        let q1 = q / 60;
        lemma_fundamental_div_mod(q1 as int, 60);
        lemma_div_denominator(ms as int, 1000, 60);
        lemma_div_denominator(ms as int, 60000, 60);
        assert(ms / 60000 == q1);
        assert(ms / 3600000 == q1 / 60) by {
            lemma_div_denominator(ms as int, 1000, 3600);
            lemma_div_denominator(q as int, 60, 60);
        }
        assert(q == (q1 / 60) * 3600 + (q1 % 60) * 60 + q % 60);
        assert(ms == ((q1 / 60) * 3600 + (q1 % 60) * 60 + q % 60) * 1000 + ms % 1000);
    }
}

/// `s` with every comma replaced by a dot, other characters unchanged.
pub open spec fn commas_to_dots(s: Seq<char>) -> Seq<char> {
    s.map_values(|c: char| if c == ',' { '.' } else { c })
}

/// Rewrites a timestamp from the comma-delimited timing form to the
/// dot-delimited burn-in form by replacing every comma with a dot.
pub fn srt_to_ass_time(srt_time: &str) -> (r: Option<String>)
    ensures
        r is Some,
        r.unwrap()@ == commas_to_dots(srt_time@),
{
    let n = srt_time.unicode_len();
    let mut out = String::new();
    let mut i: usize = 0;
    while i < n
        invariant
            n == srt_time@.len(),
            0 <= i <= n,
            out@.len() == i,
            forall|k: int| 0 <= k < i ==> out@[k] == (if srt_time@[k] == ',' {
                '.'
            } else {
                srt_time@[k]
            }),
        decreases n - i,
    {
        if srt_time.get_char(i) == ',' {
            proof {
                reveal_strlit(".");
            }
            out.append(".");
        } else {
            append_char_at(&mut out, srt_time, i);
        }
        i = i + 1;
    }
    proof {
        assert(out@ =~= commas_to_dots(srt_time@));
    }
    Some(out)
}

/// The two timestamps of a timing line, trimmed and rewritten to the
/// dot-delimited form, if the line is one arrow between two pieces.
pub open spec fn time_line_ass_pair(s: Seq<char>) -> Option<(Seq<char>, Seq<char>)> {
    let ps = split_on(s, arrow_sep());
    if ps.len() == 2 {
        Some((commas_to_dots(trimmed(ps[0])), commas_to_dots(trimmed(ps[1]))))
    } else {
        None
    }
}

/// Splits a timing line `A --> B` and rewrites each side for burn-in markup,
/// returning `None` exactly when the line is not one arrow between two
/// pieces.
pub fn parse_srt_time(time_line: &str) -> (r: Option<(String, String)>)
    ensures
        (r is Some) == (time_line_ass_pair(time_line@) is Some),
        r is Some ==> (r.unwrap().0@, r.unwrap().1@) == time_line_ass_pair(time_line@).unwrap(),
{
    proof {
        reveal_strlit(" --> ");
        assert(" --> "@ =~= arrow_sep());
    }
    let ps = split_str(time_line, " --> ");
    if ps.len() != 2 {
        return None;
    }
    proof {
        assert(ps@.map_values(|x: String| x@)[0] == ps@[0]@);
        assert(ps@.map_values(|x: String| x@)[1] == ps@[1]@);
    }
    let t0 = trim_str(ps[0].as_str());
    let t1 = trim_str(ps[1].as_str());
    let start = match srt_to_ass_time(t0.as_str()) {
        Some(v) => v,
        None => {
            return None;
        },
    };
    let end = match srt_to_ass_time(t1.as_str()) {
        Some(v) => v,
        None => {
            return None;
        },
    };
    Some((start, end))
}

} // verus!
