//! Verified plain-text building blocks: decimal rendering of integers and
//! fixed-point quantities, and decimal parsing. The filter-graph programs and
//! timestamp formats elsewhere in the crate are specified over these.

use vstd::prelude::*;
use vstd::arithmetic::div_mod::lemma_fundamental_div_mod;

verus! {

/// The decimal digit character for a value in 0..=9.
pub open spec fn digit_char(d: int) -> char {
    if d == 0 {
        '0'
    } else if d == 1 {
        '1'
    } else if d == 2 {
        '2'
    } else if d == 3 {
        '3'
    } else if d == 4 {
        '4'
    } else if d == 5 {
        '5'
    } else if d == 6 {
        '6'
    } else if d == 7 {
        '7'
    } else if d == 8 {
        '8'
    } else {
        '9'
    }
}

/// The usual decimal rendering of a nonnegative integer: no sign, no leading
/// zeros (except for zero itself).
pub open spec fn dec_digits(n: nat) -> Seq<char>
    decreases n,
{
    if n < 10 {
        seq![digit_char(n as int)]
    } else {
        dec_digits(n / 10) + seq![digit_char((n % 10) as int)]
    }
}

/// Appends the single decimal digit `d` to `s`.
fn append_digit(s: &mut String, d: u64)
    requires
        d < 10,
    ensures
        final(s)@ == old(s)@ + seq![digit_char(d as int)],
{
    if d == 0 {
        proof { reveal_strlit("0"); }
        s.append("0");
    } else if d == 1 {
        proof { reveal_strlit("1"); }
        s.append("1");
    } else if d == 2 {
        proof { reveal_strlit("2"); }
        s.append("2");
    } else if d == 3 {
        proof { reveal_strlit("3"); }
        s.append("3");
    } else if d == 4 {
        proof { reveal_strlit("4"); }
        s.append("4");
    } else if d == 5 {
        proof { reveal_strlit("5"); }
        s.append("5");
    } else if d == 6 {
        proof { reveal_strlit("6"); }
        s.append("6");
    } else if d == 7 {
        proof { reveal_strlit("7"); }
        s.append("7");
    } else if d == 8 {
        proof { reveal_strlit("8"); }
        s.append("8");
    } else {
        proof { reveal_strlit("9"); }
        s.append("9");
    }
    proof {
        assert(final(s)@ =~= old(s)@ + seq![digit_char(d as int)]);
    }
}

/// Appends the decimal rendering of `n` to `s`.
pub fn append_dec(s: &mut String, n: u64)
    ensures
        final(s)@ == old(s)@ + dec_digits(n as nat),
    decreases n,
{
    if n < 10 {
        append_digit(s, n);
    } else {
        append_dec(s, n / 10);
        append_digit(s, n % 10);
        proof {
            assert(final(s)@ =~= old(s)@ + dec_digits(n as nat));
        }
    }
}

/// The decimal rendering of `n` as a fresh string.
pub fn dec_string(n: u64) -> (r: String)
    ensures
        r@ == dec_digits(n as nat),
{
    let mut s = String::new();
    append_dec(&mut s, n);
    proof {
        assert(s@ =~= dec_digits(n as nat));
    }
    s
}

/// Exactly three decimal digits, zero padded: the fractional part of a
/// fixed-point quantity in thousandths.
pub open spec fn frac3_digits(n: nat) -> Seq<char> {
    seq![
        digit_char((n / 100) as int % 10),
        digit_char((n / 10) as int % 10),
        digit_char(n as int % 10),
    ]
}

/// Appends the three-digit zero-padded rendering of `n` to `s`.
pub fn append_frac3(s: &mut String, n: u64)
    requires
        n < 1000,
    ensures
        final(s)@ == old(s)@ + frac3_digits(n as nat),
{
    append_digit(s, n / 100);
    append_digit(s, (n / 10) % 10);
    append_digit(s, n % 10);
    proof {
        assert(final(s)@ =~= old(s)@ + frac3_digits(n as nat));
    }
}

/// A count of milliseconds rendered as seconds with exactly three decimal
/// places: whole seconds, a dot, then the millisecond remainder zero padded.
pub open spec fn ms_secs_text(ms: nat) -> Seq<char> {
    dec_digits(ms / 1000) + seq!['.'] + frac3_digits(ms % 1000)
}

/// Appends `ms` milliseconds rendered as seconds with three decimal places.
pub fn append_ms_secs(s: &mut String, ms: u64)
    ensures
        final(s)@ == old(s)@ + ms_secs_text(ms as nat),
{
    append_dec(s, ms / 1000);
    proof { reveal_strlit("."); }
    s.append(".");
    append_frac3(s, ms % 1000);
    proof {
        assert(final(s)@ =~= old(s)@ + ms_secs_text(ms as nat));
    }
}

/// `ms` milliseconds rendered as seconds with three decimal places.
pub fn ms_secs_string(ms: u64) -> (r: String)
    ensures
        r@ == ms_secs_text(ms as nat),
{
    let mut s = String::new();
    append_ms_secs(&mut s, ms);
    proof {
        assert(s@ =~= ms_secs_text(ms as nat));
    }
    s
}

/// A signed count of thousandths rendered with exactly three decimal places:
/// an optional minus sign, the whole part, a dot, the thousandth remainder.
pub open spec fn milli_signed_text(t: int) -> Seq<char> {
    if t < 0 {
        seq!['-'] + ms_secs_text((-t) as nat)
    } else {
        ms_secs_text(t as nat)
    }
}

/// Appends the signed thousandths quantity `t` with three decimal places.
pub fn append_milli_signed(s: &mut String, t: i64)
    requires
        t != i64::MIN,
    ensures
        final(s)@ == old(s)@ + milli_signed_text(t as int),
{
    if t < 0 {
        proof { reveal_strlit("-"); }
        s.append("-");
        append_ms_secs(s, (-t) as u64);
    } else {
        append_ms_secs(s, t as u64);
    }
    proof {
        assert(final(s)@ =~= old(s)@ + milli_signed_text(t as int));
    }
}

/// Whether `c` is a decimal digit.
pub open spec fn is_digit(c: char) -> bool {
    '0' <= c && c <= '9'
}

/// The numeric value of the digit character `c`.
pub open spec fn digit_val(c: char) -> nat {
    ((c as int) - ('0' as int)) as nat
}

/// The numeric value of a digit string, most significant digit first.
pub open spec fn digits_val(s: Seq<char>) -> nat
    decreases s.len(),
{
    if s.len() == 0 {
        0
    } else {
        digits_val(s.drop_last()) * 10 + digit_val(s.last())
    }
}

/// Whether `s` is a nonempty run of decimal digits.
pub open spec fn all_digits(s: Seq<char>) -> bool {
    s.len() > 0 && forall|i: int| 0 <= i < s.len() ==> is_digit(#[trigger] s[i])
}

/// A digit string parses as an unsigned 32-bit number exactly when it is a
/// nonempty run of digits whose value fits; the value is its decimal reading.
pub open spec fn u32_of_digits(s: Seq<char>) -> Option<u32> {
    if all_digits(s) && digits_val(s) <= u32::MAX {
        Some(digits_val(s) as u32)
    } else {
        None
    }
}

/// Parses a nonempty all-digit string into a 32-bit number, rejecting
/// anything else, including values that overflow.
pub fn parse_u32_digits(s: &str) -> (r: Option<u32>)
    ensures
        r == u32_of_digits(s@),
{
    let n = s.unicode_len();
    if n == 0 {
        return None;
    }
    let mut acc: u32 = 0;
    let mut i: usize = 0;
    while i < n
        invariant
            0 < n == s@.len(),
            0 <= i <= n,
            forall|k: int| 0 <= k < i ==> is_digit(#[trigger] s@[k]),
            acc == digits_val(s@.take(i as int)),
        decreases n - i,
    {
        let c = s.get_char(i);
        if c < '0' || c > '9' {
            proof {
                assert(!is_digit(s@[i as int]));
            }
            return None;
        }
        let d: u32 = (c as u32) - ('0' as u32);
        proof {
            assert(d == digit_val(s@[i as int]));
        }
        if acc > (u32::MAX - d) / 10 {
            proof {
                let t = s@.take(i as int + 1);
                assert(t.drop_last() =~= s@.take(i as int));
                assert(digits_val(t) > u32::MAX);
                lemma_digits_val_prefix_le(s@, i as int + 1);
            }
            return None;
        }
        acc = acc * 10 + d;
        proof {
            let t = s@.take(i as int + 1);
            assert(t.drop_last() =~= s@.take(i as int));
            assert(t.last() == s@[i as int]);
        }
        i = i + 1;
    }
    proof {
        assert(s@.take(n as int) =~= s@);
    }
    Some(acc)
}

/// The digit character of a value under ten is a digit that reads back as
/// that value.
pub proof fn lemma_digit_char_val(d: int)
    requires
        0 <= d < 10,
    ensures
        is_digit(digit_char(d)),
        digit_val(digit_char(d)) == d,
{
}

/// The decimal rendering of a number is a digit run that reads back as that
/// number.
pub proof fn lemma_dec_digits_val(n: nat)
    ensures
        all_digits(dec_digits(n)),
        digits_val(dec_digits(n)) == n,
    decreases n,
{
    lemma_digit_char_val((n % 10) as int);
    assert(digits_val(Seq::<char>::empty()) == 0);
    if n < 10 {
        let s = seq![digit_char(n as int)];
        lemma_digit_char_val(n as int);
        assert(s.drop_last() =~= Seq::<char>::empty());
        assert(digits_val(s) == digits_val(s.drop_last()) * 10 + digit_val(s.last()));
    } else {
        lemma_dec_digits_val(n / 10);
        let s = dec_digits(n);
        assert(s.drop_last() =~= dec_digits(n / 10));
        assert(s.last() == digit_char((n % 10) as int));
        assert(digits_val(s) == (n / 10) * 10 + n % 10);
        assert((n / 10) * 10 + n % 10 == n) by {
            lemma_fundamental_div_mod(n as int, 10);
        }
    }
}

/// A leading zero does not change the reading of a digit run.
pub proof fn lemma_prepend_zero_val(s: Seq<char>)
    ensures
        digits_val(seq!['0'] + s) == digits_val(s),
    decreases s.len(),
{
    assert(digits_val(Seq::<char>::empty()) == 0);
    if s.len() == 0 {
        let t = seq!['0'] + s;
        assert(t =~= seq!['0']);
        assert(t.drop_last() =~= Seq::<char>::empty());
        assert(digits_val(t) == digits_val(t.drop_last()) * 10 + digit_val(t.last()));
        assert(digit_val('0') == 0);
    } else {
        lemma_prepend_zero_val(s.drop_last());
        let t = seq!['0'] + s;
        assert(t.drop_last() =~= seq!['0'] + s.drop_last());
        assert(t.last() == s.last());
    }
}

/// The three-digit zero-padded rendering of a value under a thousand is a
/// digit run that reads back as that value.
pub proof fn lemma_frac3_val(n: nat)
    requires
        n < 1000,
    ensures
        all_digits(frac3_digits(n)),
        digits_val(frac3_digits(n)) == n,
{
    let s = frac3_digits(n);
    let s2 = s.drop_last();
    let s1 = s2.drop_last();
    lemma_digit_char_val((n / 100) as int % 10);
    lemma_digit_char_val((n / 10) as int % 10);
    lemma_digit_char_val(n as int % 10);
    assert(s2 =~= seq![digit_char((n / 100) as int % 10), digit_char((n / 10) as int % 10)]);
    assert(s1 =~= seq![digit_char((n / 100) as int % 10)]);
    assert(s1.drop_last() =~= Seq::<char>::empty());
    assert(digits_val(Seq::<char>::empty()) == 0);
    assert(digits_val(s1) == digits_val(s1.drop_last()) * 10 + digit_val(s1.last()));
    assert(digits_val(s2) == digits_val(s2.drop_last()) * 10 + digit_val(s2.last()));
    assert(digits_val(s) == digits_val(s.drop_last()) * 10 + digit_val(s.last()));
    assert(digits_val(s) == (digits_val(s1) * 10 + digit_val(s2.last())) * 10 + digit_val(
        s.last(),
    ));
    assert(n / 100 < 10);
    lemma_fundamental_div_mod(n as int, 10);
    lemma_fundamental_div_mod((n / 10) as int, 10);
    assert((n / 10) / 10 == n / 100) by {
        vstd::arithmetic::div_mod::lemma_div_denominator(n as int, 10, 10);
    }
    assert(digits_val(s) == n);
}

/// Short digit runs read as small values.
pub proof fn lemma_digits_val_bound(s: Seq<char>)
    requires
        all_digits(s),
    ensures
        s.len() == 1 ==> digits_val(s) < 10,
        s.len() == 2 ==> digits_val(s) < 100,
        s.len() == 3 ==> digits_val(s) < 1000,
{
    assert(digits_val(Seq::<char>::empty()) == 0);
    if s.len() >= 1 {
        let s1 = s.take(1);
        assert(s1.drop_last() =~= Seq::<char>::empty());
        assert(is_digit(s1.last()) && digit_val(s1.last()) < 10);
        assert(digits_val(s1) < 10);
        if s.len() >= 2 {
            let s2 = s.take(2);
            assert(s2.drop_last() =~= s1);
            assert(is_digit(s2.last()) && digit_val(s2.last()) < 10);
            assert(digits_val(s2) < 100);
            if s.len() == 3 {
                assert(s.drop_last() =~= s2);
                assert(is_digit(s.last()) && digit_val(s.last()) < 10);
                assert(digits_val(s) < 1000);
            } else if s.len() == 2 {
                assert(s =~= s2);
            }
        } else {
            assert(s =~= s1);
        }
    }
}

/// Whether `sep` occurs as a substring of `s` starting at index `j`.
pub open spec fn occurs_at(s: Seq<char>, sep: Seq<char>, j: int) -> bool {
    0 <= j && j + sep.len() <= s.len() && s.subrange(j, j + sep.len()) == sep
}

/// The first index at which `sep` occurs as a substring of `s`, if any.
pub open spec fn find_sub(s: Seq<char>, sep: Seq<char>) -> Option<int>
    decreases s.len(),
{
    if sep.len() == 0 {
        Some(0)
    } else if s.len() < sep.len() {
        None
    } else if s.subrange(0, sep.len() as int) == sep {
        Some(0)
    } else {
        match find_sub(s.skip(1), sep) {
            Some(i) => Some(i + 1),
            None => None,
        }
    }
}

/// Occurrences in a tail of `s` are occurrences in `s`, shifted by one.
proof fn lemma_occurs_shift(s: Seq<char>, sep: Seq<char>, j: int)
    requires
        s.len() > 0,
        0 <= j,
    ensures
        occurs_at(s.skip(1), sep, j) == occurs_at(s, sep, j + 1),
{
    if j + 1 + sep.len() <= s.len() {
        assert(s.skip(1).subrange(j, j + sep.len()) =~= s.subrange(j + 1, j + 1 + sep.len()));
    }
}

/// `find_sub` returns the least index of an occurrence, and `None` exactly
/// when there is none.
pub proof fn lemma_find_sub(s: Seq<char>, sep: Seq<char>)
    ensures
        match find_sub(s, sep) {
            Some(i) => occurs_at(s, sep, i) && (forall|j: int|
                0 <= j < i ==> !occurs_at(s, sep, j)),
            None => forall|j: int| !occurs_at(s, sep, j),
        },
    decreases s.len(),
{
    if sep.len() == 0 {
        assert(s.subrange(0, 0) =~= sep);
        assert(occurs_at(s, sep, 0));
    } else if s.len() < sep.len() {
    } else if s.subrange(0, sep.len() as int) == sep {
        assert(occurs_at(s, sep, 0));
    } else {
        lemma_find_sub(s.skip(1), sep);
        assert(!occurs_at(s, sep, 0));
        assert forall|j: int| 0 <= j implies occurs_at(s.skip(1), sep, j) == occurs_at(
            s,
            sep,
            j + 1,
        ) by {
            lemma_occurs_shift(s, sep, j);
        }
        match find_sub(s.skip(1), sep) {
            Some(i) => {
                assert(occurs_at(s, sep, i + 1));
                assert forall|j: int| 0 <= j < i + 1 implies !occurs_at(s, sep, j) by {
                    if j > 0 {
                        assert(!occurs_at(s.skip(1), sep, j - 1));
                    }
                }
            },
            None => {
                assert forall|j: int| !occurs_at(s, sep, j) implies true by {}
                assert forall|j: int| 0 <= j implies !occurs_at(s, sep, j) by {
                    if j > 0 {
                        assert(!occurs_at(s.skip(1), sep, j - 1));
                    }
                }
            },
        }
    }
}

/// Finds the first occurrence of `sep` in `s`, scanning left to right.
pub fn find_str(s: &str, sep: &str) -> (r: Option<usize>)
    requires
        sep@.len() > 0,
    ensures
        match r {
            Some(i) => find_sub(s@, sep@) == Some(i as int),
            None => find_sub(s@, sep@) is None,
        },
{
    let n = s.unicode_len();
    let m = sep.unicode_len();
    proof {
        lemma_find_sub(s@, sep@);
    }
    if n < m {
        return None;
    }
    let mut j: usize = 0;
    while j <= n - m
        invariant
            m <= n == s@.len(),
            m == sep@.len(),
            0 < m,
            0 <= j <= n - m + 1,
            forall|p: int| 0 <= p < j ==> !occurs_at(s@, sep@, p),
        decreases n - j,
    {
        let mut k: usize = 0;
        let mut matched = true;
        while matched && k < m
            invariant
                m <= n == s@.len(),
                m == sep@.len(),
                0 <= j <= n - m,
                0 <= k <= m,
                matched ==> (forall|q: int| 0 <= q < k ==> s@[j + q] == sep@[q]),
                !matched ==> (exists|q: int| 0 <= q < m && s@[j + q] != sep@[q]),
            decreases m - k + (if matched { 1int } else { 0int }),
        {
            if s.get_char(j + k) != sep.get_char(k) {
                matched = false;
                proof {
                    assert(s@[j + k] != sep@[k as int]);
                }
            } else {
                k = k + 1;
            }
        }
        if matched {
            proof {
                assert(s@.subrange(j as int, j + sep@.len()) =~= sep@);
                assert(occurs_at(s@, sep@, j as int));
                lemma_find_sub(s@, sep@);
            }
            return Some(j);
        }
        proof {
            if occurs_at(s@, sep@, j as int) {
                assert(s@.subrange(j as int, j + sep@.len()) == sep@);
                let q = choose|q: int| 0 <= q < m && s@[j + q] != sep@[q];
                assert(s@.subrange(j as int, j + sep@.len())[q] == sep@[q]);
            }
        }
        j = j + 1;
    }
    proof {
        assert forall|p: int| !occurs_at(s@, sep@, p) by {
            if p > n - m {
                assert(!occurs_at(s@, sep@, p));
            }
        }
    }
    None
}

/// Whether `sep` occurs anywhere in `s`.
pub fn contains_str(s: &str, sep: &str) -> (r: bool)
    requires
        sep@.len() > 0,
    ensures
        r == (find_sub(s@, sep@) is Some),
{
    find_str(s, sep).is_some()
}

/// A one-character separator occurs at `j` exactly when that character
/// stands at `j`.
pub proof fn lemma_occurs_single(s: Seq<char>, c: char, j: int)
    ensures
        occurs_at(s, seq![c], j) == (0 <= j < s.len() && s[j] == c),
{
    if 0 <= j && j + 1 <= s.len() {
        assert(s.subrange(j, j + 1) =~= seq![s[j]]);
        if s[j] == c {
            assert(s.subrange(j, j + 1) =~= seq![c]);
        } else {
            if s.subrange(j, j + 1) == seq![c] {
                assert(seq![s[j]][0] == seq![c][0]);
            }
        }
    }
}

/// Splitting on a character that does not occur leaves the text whole.
pub proof fn lemma_split_no_sep(s: Seq<char>, c: char)
    requires
        forall|i: int| 0 <= i < s.len() ==> s[i] != c,
    ensures
        split_on(s, seq![c]) == seq![s],
{
    lemma_find_sub(s, seq![c]);
    match find_sub(s, seq![c]) {
        Some(i) => {
            lemma_occurs_single(s, c, i);
            assert(false);
        },
        None => {},
    }
}

/// Splitting `a`, a separator, then `b`, where `a` is free of the separator,
/// peels off `a` as the first piece.
pub proof fn lemma_split_single_sep(a: Seq<char>, c: char, b: Seq<char>)
    requires
        forall|i: int| 0 <= i < a.len() ==> a[i] != c,
    ensures
        split_on(a + seq![c] + b, seq![c]) == seq![a] + split_on(b, seq![c]),
{
    let s = a + seq![c] + b;
    lemma_find_sub(s, seq![c]);
    assert(s[a.len() as int] == c);
    lemma_occurs_single(s, c, a.len() as int);
    match find_sub(s, seq![c]) {
        None => {
            assert(false);
        },
        Some(i) => {
            lemma_occurs_single(s, c, i);
            if i < a.len() {
                assert(s[i] == a[i]);
                assert(false);
            }
            if i > a.len() {
                assert(!occurs_at(s, seq![c], a.len() as int));
                assert(false);
            }
            assert(s.take(i) =~= a);
            assert(s.skip(i + 1) =~= b);
            assert(split_on(s, seq![c]) =~= seq![a] + split_on(b, seq![c]));
        },
    }
}

/// Trimming leaves text whose two ends are not whitespace unchanged.
pub proof fn lemma_trimmed_id(s: Seq<char>)
    requires
        s.len() > 0,
        !is_space(s[0]),
        !is_space(s.last()),
    ensures
        trimmed(s) == s,
{
}

/// `s` split at every occurrence of `sep`, left to right: the pieces between
/// the separators, in order, with empty pieces kept.
pub open spec fn split_on(s: Seq<char>, sep: Seq<char>) -> Seq<Seq<char>>
    recommends
        sep.len() > 0,
    decreases s.len(),
{
    if sep.len() == 0 {
        seq![s]
    } else {
        match find_sub(s, sep) {
            None => seq![s],
            Some(i) => if 0 <= i && i + sep.len() <= s.len() {
                seq![s.take(i)] + split_on(s.skip(i + sep.len()), sep)
            } else {
                seq![s]
            },
        }
    }
}

/// Splits `s` at every occurrence of `sep`, as `str::split` does.
pub fn split_str(s: &str, sep: &str) -> (r: Vec<String>)
    requires
        sep@.len() > 0,
    ensures
        r@.map_values(|t: String| t@) == split_on(s@, sep@),
        r@.len() >= 1,
    decreases s@.len(),
{
    proof {
        lemma_find_sub(s@, sep@);
    }
    match find_str(s, sep) {
        None => {
            let mut r: Vec<String> = Vec::new();
            r.push(String::from_str(s));
            proof {
                assert(r@.map_values(|t: String| t@) =~= split_on(s@, sep@));
            }
            r
        },
        Some(i) => {
            let m = sep.unicode_len();
            let n = s.unicode_len();
            let head = s.substring_char(0, i);
            let rest = s.substring_char(i + m, n);
            proof {
                assert(rest@ =~= s@.skip(i + m));
                assert(head@ =~= s@.take(i as int));
            }
            let mut r = split_str(rest, sep);
            r.insert(0, String::from_str(head));
            proof {
                assert(r@.map_values(|t: String| t@) =~= split_on(s@, sep@));
            }
            r
        },
    }
}

/// The pieces of `ps` concatenated in order with `sep` between neighbours.
pub open spec fn join_with(ps: Seq<Seq<char>>, sep: Seq<char>) -> Seq<char>
    decreases ps.len(),
{
    if ps.len() == 0 {
        Seq::empty()
    } else if ps.len() == 1 {
        ps[0]
    } else {
        ps[0] + sep + join_with(ps.skip(1), sep)
    }
}

/// Joining is also peeling off the last piece: the head recursion of
/// `join_with` restated from the right end.
proof fn lemma_join_with_last(ps: Seq<Seq<char>>, sep: Seq<char>)
    requires
        ps.len() >= 2,
    ensures
        join_with(ps, sep) == join_with(ps.drop_last(), sep) + sep + ps.last(),
    decreases ps.len(),
{
    if ps.len() == 2 {
        assert(ps.skip(1) =~= seq![ps[1]]);
        assert(ps.drop_last() =~= seq![ps[0]]);
        assert(join_with(seq![ps[1]], sep) == ps[1]);
        assert(join_with(seq![ps[0]], sep) == ps[0]);
        assert(join_with(ps, sep) == ps[0] + sep + join_with(ps.skip(1), sep));
        assert(join_with(ps, sep) =~= join_with(ps.drop_last(), sep) + sep + ps.last());
    } else {
        lemma_join_with_last(ps.skip(1), sep);
        assert(ps.skip(1).drop_last() =~= ps.drop_last().skip(1));
        assert(ps.skip(1).last() == ps.last());
        assert(ps.drop_last().len() >= 2);
        assert(ps.drop_last()[0] == ps[0]);
        assert(join_with(ps, sep) =~= join_with(ps.drop_last(), sep) + sep + ps.last());
    }
}

/// Joins the strings of `v` with `sep` between neighbours.
pub fn join_strs(v: &Vec<String>, sep: &str) -> (r: String)
    ensures
        r@ == join_with(v@.map_values(|t: String| t@), sep@),
{
    let ghost ps = v@.map_values(|t: String| t@);
    let mut r = String::new();
    let mut i: usize = 0;
    while i < v.len()
        invariant
            ps == v@.map_values(|t: String| t@),
            0 <= i <= v@.len(),
            i == 0 ==> r@ == Seq::<char>::empty(),
            i > 0 ==> r@ == join_with(ps.take(i as int), sep@),
        decreases v@.len() - i,
    {
        if i > 0 {
            r.append(sep);
        }
        r.append(v[i].as_str());
        proof {
            let t = ps.take(i + 1);
            if i == 0 {
                assert(t =~= seq![ps[0]]);
                assert(r@ == join_with(t, sep@));
            } else {
                lemma_join_with_last(t, sep@);
                assert(t.drop_last() =~= ps.take(i as int));
                assert(t.last() == ps[i as int]);
            }
        }
        i = i + 1;
    }
    proof {
        assert(ps.take(v@.len() as int) =~= ps);
        if v@.len() == 0 {
            assert(r@ =~= join_with(ps, sep@));
        }
    }
    r
}

/// Whether `c` is an ASCII whitespace character.
pub open spec fn is_space(c: char) -> bool {
    c == ' ' || c == '\t' || c == '\r' || c == '\n'
}

/// `s` with leading whitespace removed.
pub open spec fn trim_front(s: Seq<char>) -> Seq<char>
    decreases s.len(),
{
    if s.len() > 0 && is_space(s[0]) {
        trim_front(s.skip(1))
    } else {
        s
    }
}

/// `s` with trailing whitespace removed.
pub open spec fn trim_back(s: Seq<char>) -> Seq<char>
    decreases s.len(),
{
    if s.len() > 0 && is_space(s.last()) {
        trim_back(s.drop_last())
    } else {
        s
    }
}

/// `s` with whitespace removed from both ends.
pub open spec fn trimmed(s: Seq<char>) -> Seq<char> {
    trim_back(trim_front(s))
}

/// Removing leading whitespace is skipping to the first non-space character.
proof fn lemma_trim_front_at(s: Seq<char>, a: int)
    requires
        0 <= a <= s.len(),
        forall|i: int| 0 <= i < a ==> is_space(#[trigger] s[i]),
        a < s.len() ==> !is_space(s[a]),
    ensures
        trim_front(s) == s.skip(a),
    decreases a,
{
    if a == 0 {
        assert(s.skip(0) =~= s);
    } else {
        assert(is_space(s[0]));
        lemma_trim_front_at(s.skip(1), a - 1);
        assert(s.skip(1).skip(a - 1) =~= s.skip(a));
    }
}

/// Removing trailing whitespace is truncating after the last non-space
/// character.
proof fn lemma_trim_back_at(s: Seq<char>, b: int)
    requires
        0 <= b <= s.len(),
        forall|i: int| b <= i < s.len() ==> is_space(#[trigger] s[i]),
        b > 0 ==> !is_space(s[b - 1]),
    ensures
        trim_back(s) == s.take(b),
    decreases s.len(),
{
    if b == s.len() {
        if s.len() > 0 && is_space(s.last()) {
            assert(false);
        }
        assert(s.take(b) =~= s);
    } else {
        assert(is_space(s.last()));
        lemma_trim_back_at(s.drop_last(), b);
        assert(s.drop_last().take(b) =~= s.take(b));
    }
}

/// Removes whitespace from both ends of `s`, as `str::trim` does for the
/// ASCII whitespace characters.
pub fn trim_str(s: &str) -> (r: String)
    ensures
        r@ == trimmed(s@),
{
    let n = s.unicode_len();
    let mut a: usize = 0;
    while a < n && is_space_char(s.get_char(a))
        invariant
            n == s@.len(),
            0 <= a <= n,
            forall|i: int| 0 <= i < a ==> is_space(#[trigger] s@[i]),
        decreases n - a,
    {
        a = a + 1;
    }
    let mut b: usize = n;
    while b > a && is_space_char(s.get_char(b - 1))
        invariant
            n == s@.len(),
            0 <= a <= b <= n,
            forall|i: int| b <= i < n ==> is_space(#[trigger] s@[i]),
        decreases b,
    {
        b = b - 1;
    }
    let r = String::from_str(s.substring_char(a, b));
    proof {
        lemma_trim_front_at(s@, a as int);
        let t = s@.skip(a as int);
        lemma_trim_back_at(t, b - a);
        assert(t.take(b - a) =~= s@.subrange(a as int, b as int));
    }
    r
}

/// Exec test for [`is_space`].
fn is_space_char(c: char) -> (r: bool)
    ensures
        r == is_space(c),
{
    c == ' ' || c == '\t' || c == '\r' || c == '\n'
}

/// `s` with a single trailing carriage return removed, if one is there.
pub open spec fn strip_cr(s: Seq<char>) -> Seq<char> {
    if s.len() > 0 && s.last() == '\r' {
        s.drop_last()
    } else {
        s
    }
}

/// The lines of `s`, as `str::lines` yields them: pieces between newline
/// characters, a final empty piece dropped, a trailing carriage return
/// stripped from each line.
pub open spec fn lines_of(s: Seq<char>) -> Seq<Seq<char>> {
    let ps = split_on(s, seq!['\n']);
    let qs = if ps.len() > 0 && ps.last().len() == 0 {
        ps.drop_last()
    } else {
        ps
    };
    qs.map_values(|l: Seq<char>| strip_cr(l))
}

/// Splits `s` into its lines, as `str::lines` does.
pub fn lines_vec(s: &str) -> (r: Vec<String>)
    ensures
        r@.map_values(|t: String| t@) == lines_of(s@),
{
    proof {
        reveal_strlit("\n");
    }
    let mut parts = split_str(s, "\n");
    proof {
        assert("\n"@ =~= seq!['\n']);
    }
    if parts[parts.len() - 1].as_str().unicode_len() == 0 {
        let ghost before = parts@;
        parts.pop();
        proof {
            assert(parts@.map_values(|t: String| t@) =~= before.map_values(|t: String| t@)
                .drop_last());
        }
    }
    let ghost qs = parts@.map_values(|t: String| t@);
    let mut r: Vec<String> = Vec::new();
    let mut i: usize = 0;
    while i < parts.len()
        invariant
            qs == parts@.map_values(|t: String| t@),
            0 <= i <= parts@.len(),
            r@.len() == i,
            forall|k: int| 0 <= k < i ==> #[trigger] r@[k]@ == strip_cr(qs[k]),
        decreases parts@.len() - i,
    {
        let p = &parts[i];
        let len = p.as_str().unicode_len();
        if len > 0 && p.as_str().get_char(len - 1) == '\r' {
            r.push(String::from_str(p.as_str().substring_char(0, len - 1)));
            proof {
                assert(r@[i as int]@ =~= strip_cr(qs[i as int]));
            }
        } else {
            r.push(p.clone());
            proof {
                assert(r@[i as int]@ =~= strip_cr(qs[i as int]));
            }
        }
        i = i + 1;
    }
    proof {
        assert(r@.map_values(|t: String| t@) =~= lines_of(s@));
    }
    r
}

/// Whether two string slices hold the same characters.
pub fn str_eq(a: &str, b: &str) -> (r: bool)
    ensures
        r == (a@ == b@),
{
    let n = a.unicode_len();
    if n != b.unicode_len() {
        return false;
    }
    let mut i: usize = 0;
    while i < n
        invariant
            n == a@.len() == b@.len(),
            0 <= i <= n,
            forall|k: int| 0 <= k < i ==> a@[k] == b@[k],
        decreases n - i,
    {
        if a.get_char(i) != b.get_char(i) {
            return false;
        }
        i = i + 1;
    }
    proof {
        assert(a@ =~= b@);
    }
    true
}

/// Appends the single character `src[i]` to `dst`.
pub fn append_char_at(dst: &mut String, src: &str, i: usize)
    requires
        i < src@.len(),
    ensures
        final(dst)@ == old(dst)@ + seq![src@[i as int]],
{
    let n = src.unicode_len();
    let piece = src.substring_char(i, i + 1);
    dst.append(piece);
    proof {
        assert(final(dst)@ =~= old(dst)@ + seq![src@[i as int]]);
    }
}

/// The decimal value of a longer digit prefix is at least that of a shorter
/// one: appending digits never decreases the reading.
pub proof fn lemma_digits_val_prefix_le(s: Seq<char>, i: int)
    requires
        0 <= i <= s.len(),
    ensures
        digits_val(s.take(i)) <= digits_val(s),
    decreases s.len() - i,
{
    if i < s.len() {
        let t = s.take(i + 1);
        assert(t.drop_last() =~= s.take(i));
        assert(digits_val(s.take(i)) <= digits_val(s.take(i + 1)));
        lemma_digits_val_prefix_le(s, i + 1);
        assert(s.take(s.len() as int) =~= s);
    } else {
        assert(s.take(i) =~= s);
    }
}

} // verus!
