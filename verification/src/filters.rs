//! Per-clip color correction. A clip may carry brightness, contrast and
//! saturation adjustments, each an integer in [-100, 100]; they compile to
//! one `eq` filter whose operands are fixed-point decimals: brightness maps
//! linearly onto [-1.000, 1.000], contrast and saturation onto
//! [0.000, 2.000] by adding one to the value over a hundred.

use vstd::prelude::*;
use crate::text::{append_milli_signed, join_strs, join_with, milli_signed_text};

verus! {

/// Optional color adjustments for one clip, each in [-100, 100].
pub struct ClipFilters {
    pub brightness: Option<i32>,
    pub contrast: Option<i32>,
    pub saturation: Option<i32>,
}

/// Whether every adjustment that is present lies in [-100, 100].
pub open spec fn filters_in_range(f: ClipFilters) -> bool {
    (f.brightness is Some ==> -100 <= f.brightness.unwrap() <= 100) && (f.contrast is Some
        ==> -100 <= f.contrast.unwrap() <= 100) && (f.saturation is Some ==> -100
        <= f.saturation.unwrap() <= 100)
}

/// The brightness operand: the value over a hundred, in thousandths.
pub open spec fn brightness_part(b: int) -> Seq<char> {
    "brightness="@ + milli_signed_text(b * 10)
}

/// The contrast operand: one plus the value over a hundred, in thousandths.
pub open spec fn contrast_part(c: int) -> Seq<char> {
    "contrast="@ + milli_signed_text(1000 + c * 10)
}

/// The saturation operand: one plus the value over a hundred, in
/// thousandths.
pub open spec fn saturation_part(s: int) -> Seq<char> {
    "saturation="@ + milli_signed_text(1000 + s * 10)
}

/// The operands that are present, in brightness, contrast, saturation
/// order.
pub open spec fn eq_parts(f: ClipFilters) -> Seq<Seq<char>> {
    (if f.brightness is Some {
        seq![brightness_part(f.brightness.unwrap() as int)]
    } else {
        Seq::empty()
    }) + (if f.contrast is Some {
        seq![contrast_part(f.contrast.unwrap() as int)]
    } else {
        Seq::empty()
    }) + (if f.saturation is Some {
        seq![saturation_part(f.saturation.unwrap() as int)]
    } else {
        Seq::empty()
    })
}

/// The whole `eq` filter text for a clip's adjustments: nothing when none is
/// present, else the present operands joined by colons after the filter
/// name.
pub open spec fn eq_filter_text(f: ClipFilters) -> Option<Seq<char>> {
    if eq_parts(f).len() == 0 {
        None
    } else {
        Some("eq="@ + join_with(eq_parts(f), seq![':']))
    }
}

/// Builds the `eq` filter text for a clip's adjustments: `None` when no
/// adjustment is present, else exactly [`eq_filter_text`].
pub fn build_eq_filter(filters: &Option<ClipFilters>) -> (r: Option<String>)
    requires
        filters is Some ==> filters_in_range(filters.unwrap()),
    ensures
        match filters {
            None => r is None,
            Some(f) => match eq_filter_text(*f) {
                None => r is None,
                Some(t) => r is Some && r.unwrap()@ == t,
            },
        },
{
    let f = match filters {
        Some(f) => f,
        None => {
            return None;
        },
    };
    let mut parts: Vec<String> = Vec::new();
    if let Some(b) = f.brightness {
        let mut p = String::new();
        p.append("brightness=");
        append_milli_signed(&mut p, (b as i64) * 10);
        parts.push(p);
    }
    if let Some(c) = f.contrast {
        let mut p = String::new();
        p.append("contrast=");
        append_milli_signed(&mut p, 1000 + (c as i64) * 10);
        parts.push(p);
    }
    if let Some(s) = f.saturation {
        let mut p = String::new();
        p.append("saturation=");
        append_milli_signed(&mut p, 1000 + (s as i64) * 10);
        parts.push(p);
    }
    proof {
        assert(parts@.map_values(|t: String| t@) =~~= eq_parts(*f));
    }
    if parts.len() == 0 {
        None
    } else {
        proof {
            reveal_strlit(":");
            assert(":"@ =~= seq![':']);
        }
        let joined = join_strs(&parts, ":");
        let mut out = String::new();
        out.append("eq=");
        out.append(joined.as_str());
        proof {
            assert(out@ =~= eq_filter_text(*f).unwrap());
        }
        Some(out)
    }
}

/// Compiling the same adjustments twice yields identical filter text: the
/// mapping from adjustments to the filter is a pure function of its input,
/// so repeated compilation is idempotent.
pub proof fn lemma_eq_filter_deterministic(f: ClipFilters, r1: Option<Seq<char>>, r2: Option<
    Seq<char>,
>)
    requires
        r1 == eq_filter_text(f),
        r2 == eq_filter_text(f),
    ensures
        r1 == r2,
{
}

} // verus!
