//! The timeline data model: clips placed on up to three tracks, and the
//! declarative description of one export. Times are whole milliseconds.

use vstd::prelude::*;
use crate::filters::{ClipFilters, filters_in_range};

verus! {

/// One trimmed segment of a source file placed at a timeline offset on a
/// track.
pub struct Clip {
    pub file_path: String,
    /// Offset into the source at which the segment starts, in milliseconds.
    pub trim_start_ms: u64,
    /// Length of the segment, in milliseconds.
    pub duration_ms: u64,
    /// Placement on the timeline, in milliseconds.
    pub start_time_ms: u64,
    /// Layer index: zero is the mandatory base layer, one and two are
    /// overlays.
    pub track: u32,
    pub filters: Option<ClipFilters>,
}

/// Whether a clip is well formed: a known track, a positive duration, an
/// end that stays representable, and adjustments in range.
pub open spec fn clip_valid(c: Clip) -> bool {
    c.track <= 2 && c.duration_ms > 0 && c.start_time_ms + c.duration_ms <= u64::MAX
        && (c.filters is Some ==> filters_in_range(c.filters.unwrap()))
}

/// Requested overlay corners for the two overlay tracks, by name.
pub struct OverlayPositions {
    pub track1: Option<String>,
    pub track2: Option<String>,
}

/// The complete declarative description of one export.
pub struct Timeline {
    pub clips: Vec<Clip>,
    /// Output width in pixels; zero leaves the source size.
    pub width: u32,
    /// Output height in pixels; zero leaves the source size.
    pub height: u32,
    /// Quality factor handed to the encoder.
    pub crf: String,
    /// Encoder preset name.
    pub preset: String,
    pub overlay_positions: Option<OverlayPositions>,
    /// Path of a subtitle file to burn in, if any.
    pub subtitle_srt_path: Option<String>,
    /// Path the finished export is written to.
    pub output_path: String,
}

/// Whether every clip of the timeline is well formed.
pub open spec fn timeline_clips_valid(t: Timeline) -> bool {
    forall|i: int| 0 <= i < t.clips@.len() ==> clip_valid(#[trigger] t.clips@[i])
}

/// The rendering order of clips: by timeline start, ties broken by original
/// list position, so the order is total and the sorted sequence unique.
pub open spec fn clip_order_leq(a: (u64, usize), b: (u64, usize)) -> bool {
    a.0 < b.0 || (a.0 == b.0 && a.1 <= b.1)
}

/// The rendering order as a function: [`clip_order_leq`] as a value.
pub open spec fn clip_leq_fn() -> spec_fn((u64, usize), (u64, usize)) -> bool {
    |a: (u64, usize), b: (u64, usize)| clip_order_leq(a, b)
}

/// Whether a pair sequence is sorted by the rendering order.
pub open spec fn pairs_sorted(s: Seq<(u64, usize)>) -> bool {
    forall|p: int, q: int| 0 <= p < q < s.len() ==> clip_order_leq(#[trigger] s[p], #[trigger] s[q])
}

/// The canonical rendering order of the clips on `track`: their key/position
/// pairs sorted by [`clip_order_leq`].
pub open spec fn ordered_pairs(clips: Seq<Clip>, track: u32) -> Seq<(u64, usize)> {
    track_pairs(clips, track).sort_by(clip_leq_fn())
}

/// Collects the positions of the clips on `track`, paired with their start
/// times, in list order.
fn collect_track(clips: &Vec<Clip>, track: u32) -> (r: Vec<(u64, usize)>)
    ensures
        forall|k: int|
            0 <= k < r@.len() ==> (#[trigger] r@[k]).1 < clips@.len() && clips@[r@[k].1 as int].track
                == track && r@[k].0 == clips@[r@[k].1 as int].start_time_ms,
        forall|i: int|
            0 <= i < clips@.len() && clips@[i].track == track ==> exists|k: int|
                0 <= k < r@.len() && (#[trigger] r@[k]).1 == i,
        forall|k1: int, k2: int|
            0 <= k1 < k2 < r@.len() ==> (#[trigger] r@[k1]).1 < (#[trigger] r@[k2]).1,
{
    let mut r: Vec<(u64, usize)> = Vec::new();
    let mut i: usize = 0;
    while i < clips.len()
        invariant
            0 <= i <= clips@.len(),
            forall|k: int|
                0 <= k < r@.len() ==> (#[trigger] r@[k]).1 < i && clips@[r@[k].1 as int].track
                    == track && r@[k].0 == clips@[r@[k].1 as int].start_time_ms,
            forall|j: int|
                0 <= j < i && clips@[j].track == track ==> exists|k: int|
                    0 <= k < r@.len() && (#[trigger] r@[k]).1 == j,
            forall|k1: int, k2: int|
                0 <= k1 < k2 < r@.len() ==> (#[trigger] r@[k1]).1 < (#[trigger] r@[k2]).1,
        decreases clips@.len() - i,
    {
        if clips[i].track == track {
            let ghost before = r@;
            r.push((clips[i].start_time_ms, i));
            proof {
                assert(r@[r@.len() - 1].1 == i);
                assert forall|j: int|
                    0 <= j < i + 1 && clips@[j].track == track implies exists|k: int|
                    0 <= k < r@.len() && (#[trigger] r@[k]).1 == j by {
                    if j < i {
                        let k0 = choose|k0: int| 0 <= k0 < before.len() && before[k0].1 == j;
                        assert(r@[k0].1 == j);
                    } else {
                        assert(r@[r@.len() - 1].1 == j);
                    }
                }
            }
        }
        i = i + 1;
    }
    r
}

/// Sorts key/position pairs by [`clip_order_leq`] with insertion sort:
/// sorted output, the same pairs.
fn sort_pairs(v: Vec<(u64, usize)>) -> (r: Vec<(u64, usize)>)
    ensures
        r@.to_multiset() == v@.to_multiset(),
        pairs_sorted(r@),
{
    let mut r: Vec<(u64, usize)> = Vec::new();
    let mut i: usize = 0;
    proof {
        assert(v@.take(0) =~= Seq::<(u64, usize)>::empty());
        assert(v@.take(0).to_multiset() =~= r@.to_multiset()) by {
            v@.take(0).to_multiset_ensures();
            r@.to_multiset_ensures();
        }
    }
    while i < v.len()
        invariant
            0 <= i <= v@.len(),
            r@.to_multiset() == v@.take(i as int).to_multiset(),
            pairs_sorted(r@),
        decreases v@.len() - i,
    {
        let x = v[i];
        // find the insertion point: after every element that is <= x
        let mut j: usize = r.len();
        while j > 0 && order_after(&r[j - 1], &x)
            invariant
                0 <= j <= r@.len(),
                forall|k: int| j <= k < r@.len() ==> !clip_order_leq(#[trigger] r@[k], x),
            decreases j,
        {
            j = j - 1;
        }
        let ghost before = r@;
        r.insert(j, x);
        proof {
            assert(r@ =~= before.insert(j as int, x));
            lemma_insert_sorted(before, x, j as int);
            lemma_insert_multiset(before, x, j as int);
            assert(v@.take(i + 1) =~= v@.take(i as int).push(x));
            v@.take(i as int).to_multiset_ensures();
            assert(v@.take(i + 1).to_multiset() =~= v@.take(i as int).to_multiset().insert(x));
        }
        i = i + 1;
    }
    proof {
        assert(v@.take(v@.len() as int) =~= v@);
    }
    r
}

/// Exec test: the element before the insertion point must move right,
/// because it does not precede the inserted key.
fn order_after(a: &(u64, usize), x: &(u64, usize)) -> (r: bool)
    ensures
        r == !clip_order_leq(*a, *x),
{
    !(a.0 < x.0 || (a.0 == x.0 && a.1 <= x.1))
}

/// Inserting at the boundary between the elements that precede the key and
/// those that do not keeps the sequence sorted.
proof fn lemma_insert_sorted(s: Seq<(u64, usize)>, x: (u64, usize), j: int)
    requires
        0 <= j <= s.len(),
        pairs_sorted(s),
        forall|k: int| j <= k < s.len() ==> !clip_order_leq(#[trigger] s[k], x),
        j > 0 ==> clip_order_leq(s[j - 1], x),
    ensures
        pairs_sorted(s.insert(j, x)),
{
    let t = s.insert(j, x);
    assert forall|p: int, q: int| 0 <= p < q < t.len() implies clip_order_leq(
        #[trigger] t[p],
        #[trigger] t[q],
    ) by {
        if q < j {
            assert(t[p] == s[p] && t[q] == s[q]);
        } else if p > j {
            assert(t[p] == s[p - 1] && t[q] == s[q - 1]);
        } else if p < j && q == j {
            assert(t[p] == s[p] && t[q] == x);
            assert(clip_order_leq(s[j - 1], x));
            if p < j - 1 {
                assert(clip_order_leq(s[p], s[j - 1]));
            }
        } else if p < j && q > j {
            assert(t[p] == s[p] && t[q] == s[q - 1]);
            assert(clip_order_leq(s[p], s[q - 1]));
        } else if p == j && q > j {
            assert(t[p] == x && t[q] == s[q - 1]);
            assert(!clip_order_leq(s[q - 1], x));
        }
    }
}

/// Inserting adds exactly the key to the sequence's multiset.
proof fn lemma_insert_multiset(s: Seq<(u64, usize)>, x: (u64, usize), j: int)
    requires
        0 <= j <= s.len(),
    ensures
        s.insert(j, x).to_multiset() == s.to_multiset().insert(x),
{
    broadcast use vstd::multiset::group_multiset_axioms;

    let a = s.take(j);
    let b = s.skip(j);
    assert(s.insert(j, x) =~= a.push(x) + b);
    vstd::seq_lib::lemma_multiset_commutative(a.push(x), b);
    a.to_multiset_ensures();
    vstd::seq_lib::lemma_multiset_commutative(a, b);
    assert(a + b =~= s);
    assert(a.to_multiset().insert(x).add(b.to_multiset()) =~= a.to_multiset().add(
        b.to_multiset(),
    ).insert(x));
}

/// The clips of `track`, ordered for rendering: by timeline start, ties
/// broken by original list position.
pub fn ordered_track(clips: &Vec<Clip>, track: u32) -> (r: Vec<(u64, usize)>)
    ensures
        r@ == ordered_pairs(clips@, track),
        pairs_sorted(r@),
        forall|k: int|
            0 <= k < r@.len() ==> (#[trigger] r@[k]).1 < clips@.len() && clips@[r@[k].1 as int].track
                == track && r@[k].0 == clips@[r@[k].1 as int].start_time_ms,
        r@.len() == track_pairs(clips@, track).len(),
{
    let n = clips.len();
    let collected = collect_track(clips, track);
    proof {
        assert(clips@.len() == n);
        lemma_collect_is_track_pairs(clips@, track, collected@);
    }
    let r = sort_pairs(collected);
    proof {
        let leq = clip_leq_fn();
        lemma_clip_leq_total();
        let tp = track_pairs(clips@, track);
        tp.lemma_sort_by_ensures(leq);
        assert forall|p: int, q: int| 0 <= p < q < r@.len() implies #[trigger] leq(
            r@[p],
            r@[q],
        ) by {
            assert(clip_order_leq(r@[p], r@[q]));
        }
        assert(vstd::relations::sorted_by(r@, leq));
        vstd::seq_lib::lemma_sorted_unique(r@, tp.sort_by(leq), leq);
        assert(r@ == ordered_pairs(clips@, track));
        lemma_multiset_len_eq(r@, tp);
        assert forall|k: int| 0 <= k < r@.len() implies (#[trigger] r@[k]).1 < clips@.len()
            && clips@[r@[k].1 as int].track == track && r@[k].0 == clips@[r@[k].1
            as int].start_time_ms by {
            r@.to_multiset_ensures();
            assert(r@.to_multiset().count(r@[k]) > 0);
            tp.to_multiset_ensures();
            assert(tp.contains(r@[k]));
            let p = choose|p: int| 0 <= p < tp.len() && tp[p] == r@[k];
            lemma_track_pairs_elements(clips@, track);
        }
    }
    r
}

/// The rendering order is a total ordering: reflexive, antisymmetric,
/// transitive, and any two keys compare.
pub proof fn lemma_clip_leq_total()
    ensures
        vstd::relations::total_ordering(clip_leq_fn()),
{
    let leq = clip_leq_fn();
    assert forall|a: (u64, usize)| #[trigger] leq(a, a) by {}
    assert forall|a: (u64, usize), b: (u64, usize)| #[trigger] leq(a, b) && #[trigger] leq(
        b,
        a,
    ) implies a == b by {}
    assert forall|a: (u64, usize), b: (u64, usize), c: (u64, usize)|
        #[trigger] leq(a, b) && #[trigger] leq(b, c) implies leq(a, c) by {}
    assert forall|a: (u64, usize), b: (u64, usize)| true implies #[trigger] leq(a, b)
        || #[trigger] leq(b, a) by {}
}

/// Ordering a track keeps its clips: the rendering order has exactly one
/// pair per clip of the track.
pub proof fn lemma_ordered_pairs_len(clips: Seq<Clip>, track: u32)
    ensures
        ordered_pairs(clips, track).len() == track_pairs(clips, track).len(),
{
    lemma_clip_leq_total();
    let leq = clip_leq_fn();
    let tp = track_pairs(clips, track);
    tp.lemma_sort_by_ensures(leq);
    lemma_multiset_len_eq(tp.sort_by(leq), tp);
}

/// Every key/position pair of a track names a clip of that track, with its
/// start time as the key.
proof fn lemma_track_pairs_elements(clips: Seq<Clip>, track: u32)
    requires
        clips.len() <= usize::MAX,
    ensures
        forall|p: int|
            0 <= p < track_pairs(clips, track).len() ==> (#[trigger] track_pairs(
                clips,
                track,
            )[p]).1 < clips.len() && clips[track_pairs(clips, track)[p].1 as int].track == track
                && track_pairs(clips, track)[p].0 == clips[track_pairs(
                clips,
                track,
            )[p].1 as int].start_time_ms,
    decreases clips.len(),
{
    if clips.len() > 0 {
        let head = clips.drop_last();
        lemma_track_pairs_elements(head, track);
        let tp = track_pairs(clips, track);
        let tph = track_pairs(head, track);
        assert forall|p: int| 0 <= p < tp.len() implies (#[trigger] tp[p]).1 < clips.len()
            && clips[tp[p].1 as int].track == track && tp[p].0 == clips[tp[p].1
            as int].start_time_ms by {
            if p < tph.len() {
                assert(tp[p] == tph[p]);
                assert(head[tph[p].1 as int] == clips[tph[p].1 as int]);
            } else {
                assert(clips.last().track == track);
                assert(tp[p] == (clips.last().start_time_ms, (clips.len() - 1) as usize));
            }
        }
    }
}

/// The key/position pairs of the clips on `track`, in list order.
pub open spec fn track_pairs(clips: Seq<Clip>, track: u32) -> Seq<(u64, usize)>
    decreases clips.len(),
{
    if clips.len() == 0 {
        Seq::empty()
    } else {
        track_pairs(clips.drop_last(), track) + (if clips.last().track == track {
            seq![(clips.last().start_time_ms, (clips.len() - 1) as usize)]
        } else {
            Seq::empty()
        })
    }
}

/// What `collect_track` gathers is exactly [`track_pairs`].
proof fn lemma_collect_is_track_pairs(clips: Seq<Clip>, track: u32, c: Seq<(u64, usize)>)
    requires
        clips.len() <= usize::MAX,
        forall|k: int|
            0 <= k < c.len() ==> (#[trigger] c[k]).1 < clips.len() && clips[c[k].1 as int].track
                == track && c[k].0 == clips[c[k].1 as int].start_time_ms,
        forall|i: int|
            0 <= i < clips.len() && clips[i].track == track ==> exists|k: int|
                0 <= k < c.len() && (#[trigger] c[k]).1 == i,
        forall|k1: int, k2: int| 0 <= k1 < k2 < c.len() ==> (#[trigger] c[k1]).1 < (
        #[trigger] c[k2]).1,
    ensures
        c == track_pairs(clips, track),
    decreases clips.len(),
{
    if clips.len() == 0 {
        assert(c.len() == 0) by {
            if c.len() > 0 {
                assert(c[0].1 < clips.len());
            }
        }
        assert(c =~= track_pairs(clips, track));
    } else {
        let n = clips.len() as int;
        let head = clips.drop_last();
        if clips.last().track == track {
            // the last collected pair is for the last clip
            assert(exists|k: int| 0 <= k < c.len() && (#[trigger] c[k]).1 == n - 1);
            let k0 = choose|k0: int| 0 <= k0 < c.len() && (#[trigger] c[k0]).1 == n - 1;
            assert forall|k: int| 0 <= k < c.len() implies (#[trigger] c[k]).1 <= n - 1 by {}
            assert(k0 == c.len() - 1) by {
                if k0 < c.len() - 1 {
                    assert(c[k0].1 < c[c.len() - 1].1);
                }
            }
            let cc = c.drop_last();
            assert forall|k: int| 0 <= k < cc.len() implies (#[trigger] cc[k]).1 < head.len()
                && head[cc[k].1 as int].track == track && cc[k].0 == head[cc[k].1
                as int].start_time_ms by {
                assert(cc[k] == c[k]);
                assert(c[k].1 < c[c.len() - 1].1);
                assert(head[cc[k].1 as int] == clips[cc[k].1 as int]);
            }
            assert forall|i: int| 0 <= i < head.len() && head[i].track == track implies exists|
                k: int,
            | 0 <= k < cc.len() && (#[trigger] cc[k]).1 == i by {
                assert(head[i] == clips[i]);
                let k1 = choose|k1: int| 0 <= k1 < c.len() && (#[trigger] c[k1]).1 == i;
                assert(k1 < c.len() - 1) by {
                    if k1 == c.len() - 1 {
                        assert(c[k1].1 == n - 1);
                    }
                }
                assert(cc[k1].1 == i);
            }
            lemma_collect_is_track_pairs(head, track, cc);
            assert(c =~= cc + seq![(clips.last().start_time_ms, (clips.len() - 1) as usize)]);
            assert(c =~= track_pairs(clips, track));
        } else {
            assert forall|k: int| 0 <= k < c.len() implies (#[trigger] c[k]).1 < head.len()
                && head[c[k].1 as int].track == track && c[k].0 == head[c[k].1
                as int].start_time_ms by {
                assert(c[k].1 != n - 1);
                assert(head[c[k].1 as int] == clips[c[k].1 as int]);
            }
            assert forall|i: int| 0 <= i < head.len() && head[i].track == track implies exists|
                k: int,
            | 0 <= k < c.len() && (#[trigger] c[k]).1 == i by {
                assert(head[i] == clips[i]);
            }
            lemma_collect_is_track_pairs(head, track, c);
            assert(track_pairs(head, track) + Seq::<(u64, usize)>::empty() =~= track_pairs(
                head,
                track,
            ));
            assert(c =~= track_pairs(clips, track));
        }
    }
}

/// Sequences with equal multisets have equal lengths.
proof fn lemma_multiset_len_eq(a: Seq<(u64, usize)>, b: Seq<(u64, usize)>)
    requires
        a.to_multiset() == b.to_multiset(),
    ensures
        a.len() == b.len(),
{
    a.to_multiset_ensures();
    b.to_multiset_ensures();
}

} // verus!
