//! The subtitle text formats. Input is the standard timing format: blank-line
//! separated blocks of a sequence number, a `start --> end` timing line, and
//! text lines. It is read into structured entries, and converted into the
//! section-based burn-in markup with dot-delimited timestamps and escaped
//! braces and backslashes.

use vstd::prelude::*;
use crate::text::{join_with, lines_of, split_on, split_str, trimmed, trim_str, u32_of_digits,
    parse_u32_digits, lines_vec, append_char_at};
use crate::timecode::{time_line_ass_pair, timestamp_pair_ms, parse_srt_time,
    parse_srt_timestamp};

verus! {

/// One subtitle entry: its sequence number, its bounds in milliseconds, and
/// its text.
pub struct SubtitleEntry {
    pub id: u32,
    /// Start bound, in whole milliseconds.
    pub start_time: u64,
    /// End bound, in whole milliseconds.
    pub end_time: u64,
    pub text: String,
}

impl View for SubtitleEntry {
    type V = (u32, nat, nat, Seq<char>);

    open spec fn view(&self) -> (u32, nat, nat, Seq<char>) {
        (self.id, self.start_time as nat, self.end_time as nat, self.text@)
    }
}

/// The parsed form of a subtitle stream: its entries, and the raw timing
/// text they came from.
pub struct TranscriptionResponse {
    pub subtitles: Vec<SubtitleEntry>,
    pub raw_srt: String,
}

/// The blank-line separated blocks of a subtitle text.
pub open spec fn blocks_of(srt: Seq<char>) -> Seq<Seq<char>> {
    split_on(srt, seq!['\n', '\n'])
}

/// The lines of one block, after trimming the block.
pub open spec fn block_lines(b: Seq<char>) -> Seq<Seq<char>> {
    lines_of(trimmed(b))
}

/// Reading one block. `None` is a malformed block that fails the whole
/// read: its number or its timing line does not parse. `Some(None)` is a
/// block that is silently skipped: fewer than three lines, or empty text.
/// `Some(Some(..))` is an entry: number, start and end milliseconds, text
/// (the text lines joined by newlines, trimmed).
pub open spec fn read_block(b: Seq<char>) -> Option<Option<(u32, nat, nat, Seq<char>)>> {
    let ls = block_lines(b);
    if ls.len() < 3 {
        Some(None)
    } else if u32_of_digits(trimmed(ls[0])) is None {
        None
    } else if timestamp_pair_ms(ls[1]) is None {
        None
    } else {
        let text = trimmed(join_with(ls.skip(2), seq!['\n']));
        if text.len() == 0 {
            Some(None)
        } else {
            Some(
                Some(
                    (
                        u32_of_digits(trimmed(ls[0])).unwrap(),
                        timestamp_pair_ms(ls[1]).unwrap().0,
                        timestamp_pair_ms(ls[1]).unwrap().1,
                        text,
                    ),
                ),
            )
        }
    }
}

/// Reading a sequence of blocks in order: `None` as soon as one block is
/// malformed, otherwise the entries of the blocks that yield one.
pub open spec fn entries_of_blocks(bs: Seq<Seq<char>>) -> Option<
    Seq<(u32, nat, nat, Seq<char>)>,
>
    decreases bs.len(),
{
    if bs.len() == 0 {
        Some(Seq::empty())
    } else {
        match read_block(bs[0]) {
            None => None,
            Some(head) => match entries_of_blocks(bs.skip(1)) {
                None => None,
                Some(rest) => match head {
                    None => Some(rest),
                    Some(e) => Some(seq![e] + rest),
                },
            },
        }
    }
}

/// The entries denoted by a whole subtitle text, if no block is malformed.
pub open spec fn srt_entries(srt: Seq<char>) -> Option<Seq<(u32, nat, nat, Seq<char>)>> {
    entries_of_blocks(blocks_of(srt))
}

/// Reading blocks front to back: the first block's outcome prepends to the
/// rest.
proof fn lemma_entries_unfold(bs: Seq<Seq<char>>, i: int)
    requires
        0 <= i < bs.len(),
    ensures
        entries_of_blocks(bs.skip(i)) == (match read_block(bs[i]) {
            None => None::<Seq<(u32, nat, nat, Seq<char>)>>,
            Some(head) => match entries_of_blocks(bs.skip(i + 1)) {
                None => None,
                Some(rest) => match head {
                    None => Some(rest),
                    Some(e) => Some(seq![e] + rest),
                },
            },
        }),
{
    let t = bs.skip(i);
    assert(t[0] == bs[i]);
    assert(t.skip(1) =~= bs.skip(i + 1));
}

/// Parses a subtitle text into its entries. Fails exactly when some block
/// is malformed; blocks with fewer than three lines or with empty text are
/// skipped.
pub fn parse_srt(srt_content: &str) -> (r: Result<Vec<SubtitleEntry>, String>)
    ensures
        (r is Ok) == (srt_entries(srt_content@) is Some),
        r is Ok ==> r->Ok_0@.map_values(|e: SubtitleEntry| e@) == srt_entries(
            srt_content@,
        ).unwrap(),
{
    proof {
        reveal_strlit("\n\n");
        assert("\n\n"@ =~= seq!['\n', '\n']);
    }
    let blocks = split_str(srt_content, "\n\n");
    let ghost bs = blocks_of(srt_content@);
    proof {
        assert(blocks@.map_values(|t: String| t@) == bs);
    }
    let mut out: Vec<SubtitleEntry> = Vec::new();
    let mut i: usize = 0;
    proof {
        assert(bs.skip(0) =~= bs);
        if entries_of_blocks(bs) is Some {
            assert(out@.map_values(|e: SubtitleEntry| e@) =~= Seq::<(
                u32,
                nat,
                nat,
                Seq<char>,
            )>::empty());
            assert(out@.map_values(|e: SubtitleEntry| e@) + entries_of_blocks(bs).unwrap()
                =~= entries_of_blocks(bs).unwrap());
        }
    }
    while i < blocks.len()
        invariant
            bs == blocks_of(srt_content@),
            blocks@.map_values(|t: String| t@) == bs,
            0 <= i <= blocks@.len(),
            entries_of_blocks(bs) == (match entries_of_blocks(bs.skip(i as int)) {
                None => None::<Seq<(u32, nat, nat, Seq<char>)>>,
                Some(rest) => Some(out@.map_values(|e: SubtitleEntry| e@) + rest),
            }),
        decreases blocks@.len() - i,
    {
        proof {
            assert(blocks@.map_values(|t: String| t@)[i as int] == blocks@[i as int]@);
            lemma_entries_unfold(bs, i as int);
        }
        let block = &blocks[i];
        let btrim = trim_str(block.as_str());
        let lines = lines_vec(btrim.as_str());
        let ghost ls = block_lines(bs[i as int]);
        proof {
            assert(lines@.map_values(|t: String| t@) == ls);
        }
        if lines.len() >= 3 {
            proof {
                assert(lines@.map_values(|t: String| t@)[0] == lines@[0]@);
                assert(lines@.map_values(|t: String| t@)[1] == lines@[1]@);
            }
            let id_text = trim_str(lines[0].as_str());
            let id = match parse_u32_digits(id_text.as_str()) {
                Some(v) => v,
                None => {
                    let mut m = String::new();
                    m.append("Invalid subtitle ID: ");
                    m.append(lines[0].as_str());
                    return Err(m);
                },
            };
            let (start, end) = match parse_srt_timestamp(lines[1].as_str()) {
                Ok(p) => p,
                Err(e) => {
                    let mut m = String::new();
                    m.append("Invalid timestamp format: ");
                    m.append(e.as_str());
                    return Err(m);
                },
            };
            let mut tail: Vec<String> = Vec::new();
            let mut k: usize = 2;
            while k < lines.len()
                invariant
                    ls == lines@.map_values(|t: String| t@),
                    2 <= k <= lines@.len(),
                    tail@.len() == k - 2,
                    forall|j: int| 0 <= j < k - 2 ==> #[trigger] tail@[j]@ == ls[2 + j],
                decreases lines@.len() - k,
            {
                tail.push(lines[k].clone());
                proof {
                    assert(lines@.map_values(|t: String| t@)[k as int] == lines@[k as int]@);
                    assert(tail@[k - 2]@ == ls[k as int]);
                }
                k = k + 1;
            }
            proof {
                assert(tail@.map_values(|t: String| t@) =~~= ls.skip(2));
            }
            let joined = crate::text::join_strs(&tail, "\n");
            let text = trim_str(joined.as_str());
            proof {
                reveal_strlit("\n");
                assert("\n"@ =~= seq!['\n']);
                assert(joined@ == join_with(ls.skip(2), seq!['\n']));
            }
            if text.as_str().unicode_len() > 0 {
                let ghost tv = text@;
                let ghost e = (id, start as nat, end as nat, tv);
                let ghost oldmap = out@.map_values(|x: SubtitleEntry| x@);
                let entry = SubtitleEntry { id, start_time: start, end_time: end, text };
                out.push(entry);
                proof {
                    assert(read_block(bs[i as int]) == Some(Some(e)));
                    assert(out@.map_values(|x: SubtitleEntry| x@) =~= oldmap + seq![e]);
                    if entries_of_blocks(bs.skip(i + 1)) is Some {
                        let rest = entries_of_blocks(bs.skip(i + 1)).unwrap();
                        assert(oldmap + (seq![e] + rest) =~= (oldmap + seq![e]) + rest);
                    }
                }
            } else {
                proof {
                    assert(read_block(bs[i as int]) == Some(None::<(u32, nat, nat, Seq<char>)>));
                }
            }
        } else {
            proof {
                assert(read_block(bs[i as int]) == Some(None::<(u32, nat, nat, Seq<char>)>));
            }
        }
        i = i + 1;
    }
    proof {
        assert(bs.skip(blocks@.len() as int) =~= Seq::<Seq<char>>::empty());
        assert(entries_of_blocks(Seq::<Seq<char>>::empty()) == Some(
            Seq::<(u32, nat, nat, Seq<char>)>::empty(),
        ));
        if srt_entries(srt_content@) is Some {
            assert(out@.map_values(|e: SubtitleEntry| e@) + Seq::<(
                u32,
                nat,
                nat,
                Seq<char>,
            )>::empty() =~= out@.map_values(|e: SubtitleEntry| e@));
        }
    }
    Ok(out)
}

/// Parses a raw subtitle text into the structured response that keeps both
/// the entries and the text they came from. Fails exactly when the text has
/// a malformed block.
pub fn transcription_from_srt(srt_content: String) -> (r: Result<TranscriptionResponse, String>)
    ensures
        (r is Ok) == (srt_entries(srt_content@) is Some),
        r is Ok ==> r->Ok_0.subtitles@.map_values(|e: SubtitleEntry| e@) == srt_entries(
            srt_content@,
        ).unwrap(),
        r is Ok ==> r->Ok_0.raw_srt@ == srt_content@,
{
    let subtitles = match parse_srt(srt_content.as_str()) {
        Ok(v) => v,
        Err(e) => {
            return Err(e);
        },
    };
    Ok(TranscriptionResponse { subtitles, raw_srt: srt_content })
}

/// The escaping of one character for the burn-in markup: backslashes and
/// braces get a leading backslash, everything else stands as it is.
pub open spec fn escape_char(c: char) -> Seq<char> {
    if c == '\\' {
        seq!['\\', '\\']
    } else if c == '{' {
        seq!['\\', '{']
    } else if c == '}' {
        seq!['\\', '}']
    } else {
        seq![c]
    }
}

/// A text escaped for the burn-in markup, character by character.
pub open spec fn escape_ass(s: Seq<char>) -> Seq<char>
    decreases s.len(),
{
    if s.len() == 0 {
        Seq::empty()
    } else {
        escape_char(s[0]) + escape_ass(s.skip(1))
    }
}

/// Escaping distributes over concatenation.
proof fn lemma_escape_concat(a: Seq<char>, b: Seq<char>)
    ensures
        escape_ass(a + b) == escape_ass(a) + escape_ass(b),
    decreases a.len(),
{
    if a.len() == 0 {
        assert(a + b =~= b);
        assert(escape_ass(a) + escape_ass(b) =~= escape_ass(b));
    } else {
        lemma_escape_concat(a.skip(1), b);
        assert((a + b).skip(1) =~= a.skip(1) + b);
        assert((a + b)[0] == a[0]);
        assert(escape_char(a[0]) + (escape_ass(a.skip(1)) + escape_ass(b)) =~= (escape_char(a[0])
            + escape_ass(a.skip(1))) + escape_ass(b));
    }
}

/// Appends `s` escaped for the burn-in markup to `out`.
fn append_escaped(out: &mut String, s: &str)
    ensures
        final(out)@ == old(out)@ + escape_ass(s@),
{
    let n = s.unicode_len();
    let mut i: usize = 0;
    proof {
        assert(old(out)@ + escape_ass(s@.take(0)) =~= old(out)@);
    }
    while i < n
        invariant
            n == s@.len(),
            0 <= i <= n,
            out@ == old(out)@ + escape_ass(s@.take(i as int)),
        decreases n - i,
    {
        let c = s.get_char(i);
        if c == '\\' {
            proof { reveal_strlit("\\\\"); }
            out.append("\\\\");
            proof {
                assert("\\\\"@ =~= seq!['\\', '\\']);
            }
        } else if c == '{' {
            proof { reveal_strlit("\\{"); }
            out.append("\\{");
            proof {
                assert("\\{"@ =~= seq!['\\', '{']);
            }
        } else if c == '}' {
            proof { reveal_strlit("\\}"); }
            out.append("\\}");
            proof {
                assert("\\}"@ =~= seq!['\\', '}']);
            }
        } else {
            append_char_at(out, s, i);
        }
        proof {
            let t = s@.take(i + 1);
            assert(t =~= s@.take(i as int) + seq![s@[i as int]]);
            lemma_escape_concat(s@.take(i as int), seq![s@[i as int]]);
            assert(escape_ass(Seq::<char>::empty()) == Seq::<char>::empty());
            assert(seq![s@[i as int]].skip(1) =~= Seq::<char>::empty());
            assert(escape_ass(seq![s@[i as int]]) == escape_char(s@[i as int]) + escape_ass(
                Seq::<char>::empty(),
            ));
            assert(escape_ass(seq![s@[i as int]]) =~= escape_char(s@[i as int]));
            assert(out@ =~= old(out)@ + escape_ass(t));
        }
        i = i + 1;
    }
    proof {
        assert(s@.take(n as int) =~= s@);
    }
}

/// The fixed head of the burn-in markup: script header, the one style
/// definition, and the head of the events section.
pub open spec fn ass_header() -> Seq<char> {
    "[Script Info]\n"@ + "Title: VibeClips Subtitles\n"@ + "ScriptType: v4.00+\n\n"@
        + "[V4+ Styles]\n"@
        + "Format: Name, Fontname, Fontsize, PrimaryColour, SecondaryColour, OutlineColour, BackColour, Bold, Italic, Underline, StrikeOut, ScaleX, ScaleY, Spacing, Angle, BorderStyle, Outline, Shadow, Alignment, MarginL, MarginR, MarginV, Encoding\n"@
        + "Style: Default,Arial,24,&Hffffff,&Hffffff,&H0,&H80000000,0,0,0,0,100,100,0,0,1,2,1,2,10,10,10,1\n\n"@
        + "[Events]\n"@
        + "Format: Layer, Start, End, Style, Name, MarginL, MarginR, MarginV, Effect, Text\n"@
}

/// The dialogue line of one block, if the block yields one: at least three
/// lines, and a timing line that splits on one arrow. Its text is the text
/// lines joined by the markup's line break, then escaped — the escaping runs
/// over the joined text, line-break markers included.
pub open spec fn dialogue_line(b: Seq<char>) -> Option<Seq<char>> {
    let ls = block_lines(b);
    if ls.len() < 3 {
        None
    } else {
        match time_line_ass_pair(ls[1]) {
            None => None,
            Some(pair) => Some(
                "Dialogue: 0,"@ + pair.0 + ","@ + pair.1 + "Default,,0,0,0,,"@ + escape_ass(
                    join_with(ls.skip(2), seq!['\\', 'N']),
                ) + "\n"@,
            ),
        }
    }
}

/// The dialogue lines of a sequence of blocks, in order; blocks that yield
/// none contribute nothing.
pub open spec fn dialogues_text(bs: Seq<Seq<char>>) -> Seq<char>
    decreases bs.len(),
{
    if bs.len() == 0 {
        Seq::empty()
    } else {
        (match dialogue_line(bs[0]) {
            None => Seq::empty(),
            Some(d) => d,
        }) + dialogues_text(bs.skip(1))
    }
}

/// The whole burn-in markup of a subtitle text: the fixed header, then the
/// dialogue lines of its blocks in order.
pub open spec fn ass_of_srt(srt: Seq<char>) -> Seq<char> {
    ass_header() + dialogues_text(blocks_of(srt))
}

/// Reading the blocks front to back: the first block's dialogue prepends to
/// the rest.
proof fn lemma_dialogues_unfold(bs: Seq<Seq<char>>, i: int)
    requires
        0 <= i < bs.len(),
    ensures
        dialogues_text(bs.skip(i)) == (match dialogue_line(bs[i]) {
            None => Seq::<char>::empty(),
            Some(d) => d,
        }) + dialogues_text(bs.skip(i + 1)),
{
    let t = bs.skip(i);
    assert(t[0] == bs[i]);
    assert(t.skip(1) =~= bs.skip(i + 1));
}

/// The dialogue lines of a sequence of blocks as a list, in order; blocks
/// that yield none contribute nothing.
pub open spec fn dialogue_list(bs: Seq<Seq<char>>) -> Seq<Seq<char>>
    decreases bs.len(),
{
    if bs.len() == 0 {
        Seq::empty()
    } else {
        (match dialogue_line(bs[0]) {
            None => Seq::<Seq<char>>::empty(),
            Some(d) => seq![d],
        }) + dialogue_list(bs.skip(1))
    }
}

/// A block that reads as an entry also yields a dialogue line.
proof fn lemma_entry_has_dialogue(b: Seq<char>)
    requires
        read_block(b) is Some,
        read_block(b).unwrap() is Some,
    ensures
        dialogue_line(b) is Some,
{
}

/// Entry-for-entry preservation over a block list: where every block reads
/// as an entry, the entries and the dialogue lines are both one per block,
/// in block order.
proof fn lemma_blocks_entry_dialogue(bs: Seq<Seq<char>>)
    requires
        forall|i: int|
            0 <= i < bs.len() ==> (#[trigger] read_block(bs[i])) is Some && read_block(
                bs[i],
            ).unwrap() is Some,
    ensures
        entries_of_blocks(bs) is Some,
        entries_of_blocks(bs).unwrap().len() == bs.len(),
        dialogue_list(bs).len() == bs.len(),
        forall|k: int|
            0 <= k < bs.len() ==> entries_of_blocks(bs).unwrap()[k] == (
            #[trigger] read_block(bs[k])).unwrap().unwrap() && dialogue_list(bs)[k]
                == dialogue_line(bs[k]).unwrap(),
    decreases bs.len(),
{
    if bs.len() > 0 {
        assert forall|i: int| 0 <= i < bs.skip(1).len() implies (#[trigger] read_block(
            bs.skip(1)[i],
        )) is Some && read_block(bs.skip(1)[i]).unwrap() is Some by {
            assert(bs.skip(1)[i] == bs[i + 1]);
        }
        lemma_blocks_entry_dialogue(bs.skip(1));
        lemma_entry_has_dialogue(bs[0]);
        let e = read_block(bs[0]).unwrap().unwrap();
        let d = dialogue_line(bs[0]).unwrap();
        let es = entries_of_blocks(bs).unwrap();
        let ds = dialogue_list(bs);
        assert(es == seq![e] + entries_of_blocks(bs.skip(1)).unwrap());
        assert(ds == seq![d] + dialogue_list(bs.skip(1)));
        assert forall|k: int| 0 <= k < bs.len() implies es[k] == (#[trigger] read_block(
            bs[k],
        )).unwrap().unwrap() && ds[k] == dialogue_line(bs[k]).unwrap() by {
            if k > 0 {
                assert(bs.skip(1)[k - 1] == bs[k]);
                assert(es[k] == entries_of_blocks(bs.skip(1)).unwrap()[k - 1]);
                assert(ds[k] == dialogue_list(bs.skip(1))[k - 1]);
            }
        }
    }
}

/// Round-trip preservation: for a subtitle text every block of which reads
/// as an entry, reading yields exactly one entry per block and conversion
/// yields exactly one dialogue line per block, in the same block order — the
/// entry count and the entries' relative order survive the conversion.
pub proof fn lemma_conversion_preserves_entries(srt: Seq<char>)
    requires
        forall|i: int|
            0 <= i < blocks_of(srt).len() ==> (#[trigger] read_block(
                blocks_of(srt)[i],
            )) is Some && read_block(blocks_of(srt)[i]).unwrap() is Some,
    ensures
        srt_entries(srt) is Some,
        srt_entries(srt).unwrap().len() == blocks_of(srt).len(),
        dialogue_list(blocks_of(srt)).len() == blocks_of(srt).len(),
        forall|k: int|
            0 <= k < blocks_of(srt).len() ==> srt_entries(srt).unwrap()[k] == (
            #[trigger] read_block(blocks_of(srt)[k])).unwrap().unwrap() && dialogue_list(
                blocks_of(srt),
            )[k] == dialogue_line(blocks_of(srt)[k]).unwrap(),
{
    lemma_blocks_entry_dialogue(blocks_of(srt));
}

/// Converts a subtitle text to the burn-in markup: the fixed header followed
/// by one dialogue line per block that has at least three lines and a timing
/// line with one arrow; other blocks are dropped.
pub fn convert_srt_to_ass_content(srt_content: &str) -> (r: String)
    ensures
        r@ == ass_of_srt(srt_content@),
{
    let mut ass = String::new();
    ass.append("[Script Info]\n");
    ass.append("Title: VibeClips Subtitles\n");
    ass.append("ScriptType: v4.00+\n\n");
    ass.append("[V4+ Styles]\n");
    ass.append(
        "Format: Name, Fontname, Fontsize, PrimaryColour, SecondaryColour, OutlineColour, BackColour, Bold, Italic, Underline, StrikeOut, ScaleX, ScaleY, Spacing, Angle, BorderStyle, Outline, Shadow, Alignment, MarginL, MarginR, MarginV, Encoding\n",
    );
    ass.append(
        "Style: Default,Arial,24,&Hffffff,&Hffffff,&H0,&H80000000,0,0,0,0,100,100,0,0,1,2,1,2,10,10,10,1\n\n",
    );
    ass.append("[Events]\n");
    ass.append("Format: Layer, Start, End, Style, Name, MarginL, MarginR, MarginV, Effect, Text\n");
    proof {
        assert(ass@ =~= ass_header());
    }
    proof {
        reveal_strlit("\n\n");
        assert("\n\n"@ =~= seq!['\n', '\n']);
    }
    let blocks = split_str(srt_content, "\n\n");
    let ghost bs = blocks_of(srt_content@);
    proof {
        assert(blocks@.map_values(|t: String| t@) == bs);
        assert(bs.skip(0) =~= bs);
        assert(ass@ + dialogues_text(bs.skip(0)) =~= ass@ + dialogues_text(bs));
    }
    let mut i: usize = 0;
    while i < blocks.len()
        invariant
            bs == blocks_of(srt_content@),
            blocks@.map_values(|t: String| t@) == bs,
            0 <= i <= blocks@.len(),
            ass@ + dialogues_text(bs.skip(i as int)) == ass_of_srt(srt_content@),
        decreases blocks@.len() - i,
    {
        proof {
            assert(blocks@.map_values(|t: String| t@)[i as int] == blocks@[i as int]@);
            lemma_dialogues_unfold(bs, i as int);
        }
        let block = &blocks[i];
        let btrim = trim_str(block.as_str());
        let lines = lines_vec(btrim.as_str());
        let ghost ls = block_lines(bs[i as int]);
        proof {
            assert(lines@.map_values(|t: String| t@) == ls);
        }
        if lines.len() >= 3 {
            proof {
                assert(lines@.map_values(|t: String| t@)[1] == lines@[1]@);
            }
            match parse_srt_time(lines[1].as_str()) {
                Some((start, end)) => {
                    let mut tail: Vec<String> = Vec::new();
                    let mut k: usize = 2;
                    while k < lines.len()
                        invariant
                            ls == lines@.map_values(|t: String| t@),
                            2 <= k <= lines@.len(),
                            tail@.len() == k - 2,
                            forall|j: int| 0 <= j < k - 2 ==> #[trigger] tail@[j]@ == ls[2 + j],
                        decreases lines@.len() - k,
                    {
                        tail.push(lines[k].clone());
                        proof {
                            assert(lines@.map_values(|t: String| t@)[k as int] == lines@[k
                                as int]@);
                            assert(tail@[k - 2]@ == ls[k as int]);
                        }
                        k = k + 1;
                    }
                    proof {
                        assert(tail@.map_values(|t: String| t@) =~~= ls.skip(2));
                    }
                    let joined = crate::text::join_strs(&tail, "\\N");
                    proof {
                        reveal_strlit("\\N");
                        assert("\\N"@ =~= seq!['\\', 'N']);
                        assert(joined@ == join_with(ls.skip(2), seq!['\\', 'N']));
                    }
                    let ghost before = ass@;
                    ass.append("Dialogue: 0,");
                    ass.append(start.as_str());
                    ass.append(",");
                    ass.append(end.as_str());
                    ass.append("Default,,0,0,0,,");
                    append_escaped(&mut ass, joined.as_str());
                    ass.append("\n");
                    proof {
                        assert(ass@ =~= before + dialogue_line(bs[i as int]).unwrap());
                    }
                },
                None => {
                    proof {
                        assert(dialogue_line(bs[i as int]) is None);
                    }
                },
            }
        } else {
            proof {
                assert(dialogue_line(bs[i as int]) is None);
            }
        }
        i = i + 1;
    }
    proof {
        assert(bs.skip(blocks@.len() as int) =~= Seq::<char>::empty().map_values(
            |c: char| seq![c],
        ));
        assert(bs.skip(blocks@.len() as int).len() == 0);
        assert(dialogues_text(bs.skip(blocks@.len() as int)) == Seq::<char>::empty());
        assert(ass@ + Seq::<char>::empty() =~= ass@);
    }
    ass
}

} // verus!
