//! The presentation form of a numeric string: digit groups of three in the
//! integer part, a leading sign kept outside the grouping, and the fraction
//! carried over unchanged.

use vstd::prelude::*;
use crate::text::{
    chars_of, is_separator, lemma_next_dot, lemma_next_dot_unique, lemma_strip_concat,
    lemma_strip_plain, next_dot, no_separators, strip_separators, string_from_chars,
};

verus! {

/// Whether the digit at index `k` of an integer part of `len` digits is
/// preceded by a separator: every digit with a multiple of three digits from
/// it to the end of the part, except the first.
pub open spec fn separator_before(len: int, k: int) -> bool {
    k > 0 && (len - k) % 3 == 0
}

/// The first `i` digits of `g`, as they appear once `g` is grouped.
pub open spec fn grouped_upto(g: Seq<char>, i: int) -> Seq<char>
    decreases i,
{
    if i <= 0 {
        Seq::empty()
    } else {
        let prefix = grouped_upto(g, i - 1);
        if separator_before(g.len() as int, i - 1) {
            prefix.push(',').push(g[i - 1])
        } else {
            prefix.push(g[i - 1])
        }
    }
}

/// `g` with a separator inserted after every three digits counted from the right.
pub open spec fn grouped(g: Seq<char>) -> Seq<char> {
    grouped_upto(g, g.len() as int)
}

/// Whether the integer part of `s` (before its first decimal point) carries a sign.
pub open spec fn is_signed(s: Seq<char>) -> bool {
    next_dot(s, 0) > 0 && s[0] == '-'
}

/// Where the grouped digits of `s` start: after the sign, if any.
pub open spec fn digits_start(s: Seq<char>) -> int {
    if is_signed(s) { 1 } else { 0 }
}

/// The end of what the presentation form keeps of `s`: the second decimal
/// point, or the end of `s`.
pub open spec fn kept_end(s: Seq<char>) -> int {
    let d = next_dot(s, 0);
    if d < s.len() { next_dot(s, d + 1) } else { s.len() as int }
}

/// The presentation form of `s`: its sign, its grouped integer digits, then
/// its first decimal point and the fraction up to a second decimal point.
pub open spec fn with_separators(s: Seq<char>) -> Seq<char> {
    let d = next_dot(s, 0);
    let start = digits_start(s);
    s.subrange(0, start) + grouped(s.subrange(start, d)) + s.subrange(d, kept_end(s))
}

/// What the presentation form keeps of `s`, separators aside.
pub open spec fn kept(s: Seq<char>) -> Seq<char> {
    s.subrange(0, kept_end(s))
}

pub proof fn lemma_kept_end(s: Seq<char>)
    ensures
        0 <= next_dot(s, 0) <= kept_end(s) <= s.len(),
        s.len() > 0 ==> kept_end(s) > 0,
        next_dot(s, 0) < s.len() ==> kept_end(s) > next_dot(s, 0),
        forall|j: int| 0 <= j < next_dot(s, 0) ==> s[j] != '.',
        next_dot(s, 0) < s.len() ==> s[next_dot(s, 0)] == '.',
        next_dot(s, 0) < s.len() ==> forall|j: int|
            next_dot(s, 0) < j < kept_end(s) ==> s[j] != '.',
{
    lemma_next_dot(s, 0);
    let d = next_dot(s, 0);
    if d < s.len() {
        lemma_next_dot(s, d + 1);
    }
}

proof fn lemma_strip_grouped_upto(g: Seq<char>, i: int)
    requires
        0 <= i <= g.len(),
        no_separators(g),
    ensures
        strip_separators(grouped_upto(g, i)) == g.subrange(0, i),
    decreases i,
{
    if i > 0 {
        lemma_strip_grouped_upto(g, i - 1);
        let prefix = grouped_upto(g, i - 1);
        assert(!is_separator(g[i - 1]));
        if separator_before(g.len() as int, i - 1) {
            assert(prefix.push(',').drop_last() =~= prefix);
            assert(prefix.push(',').push(g[i - 1]).drop_last() =~= prefix.push(','));
            assert(strip_separators(prefix.push(',')) == strip_separators(prefix));
            assert(strip_separators(prefix.push(',').push(g[i - 1])) == strip_separators(
                prefix,
            ).push(g[i - 1]));
        } else {
            assert(prefix.push(g[i - 1]).drop_last() =~= prefix);
            assert(strip_separators(prefix.push(g[i - 1])) == strip_separators(prefix).push(
                g[i - 1],
            ));
        }
        assert(g.subrange(0, i - 1).push(g[i - 1]) =~= g.subrange(0, i));
    } else {
        assert(g.subrange(0, i) =~= Seq::<char>::empty());
    }
}

/// Removing the separators from the presentation form of a string without
/// separators gives back the string up to its second decimal point.
pub proof fn lemma_strip_with_separators(s: Seq<char>)
    requires
        no_separators(s),
    ensures
        strip_separators(with_separators(s)) == kept(s),
{
    lemma_kept_end(s);
    let d = next_dot(s, 0);
    let start = digits_start(s);
    let sign = s.subrange(0, start);
    let g = s.subrange(start, d);
    let frac = s.subrange(d, kept_end(s));
    assert(no_separators(sign));
    assert(no_separators(g));
    assert(no_separators(frac));
    lemma_strip_grouped_upto(g, g.len() as int);
    assert(g.subrange(0, g.len() as int) =~= g);
    lemma_strip_concat(sign, grouped(g));
    lemma_strip_concat(sign + grouped(g), frac);
    lemma_strip_plain(sign);
    lemma_strip_plain(frac);
    assert(sign + g + frac =~= kept(s));
}

/// `s` holds no decimal point.
pub open spec fn no_dots(s: Seq<char>) -> bool {
    forall|i: int| 0 <= i < s.len() ==> #[trigger] s[i] != '.'
}

pub proof fn lemma_kept_no_dots(s: Seq<char>)
    requires
        no_dots(s),
    ensures
        kept(s) == s,
{
    lemma_next_dot_unique(s, 0, s.len() as int);
    assert(s.subrange(0, s.len() as int) =~= s);
}

/// The presentation form of `number`: a separator after every three digits
/// of the integer part counted from the right, a leading `-` kept before the
/// groups, and the decimal point with the fraction that follows it unchanged.
/// A second decimal point and what follows it are not shown.
pub fn display_thousands_separator(number: &str) -> (r: String)
    ensures
        r@ == with_separators(number@),
{
    let s = chars_of(number);
    let out = separated(&s);
    string_from_chars(&out)
}

/// The index of the first decimal point at or after `i`, or the length.
pub(crate) fn find_dot(s: &Vec<char>, i: usize) -> (r: usize)
    requires
        i <= s@.len(),
    ensures
        r == next_dot(s@, i as int),
{
    let mut k = i;
    while k < s.len() && s[k] != '.'
        invariant
            i <= k <= s@.len(),
            next_dot(s@, k as int) == next_dot(s@, i as int),
        decreases s@.len() - k,
    {
        k = k + 1;
    }
    k
}

pub(crate) fn separated(s: &Vec<char>) -> (out: Vec<char>)
    ensures
        out@ == with_separators(s@),
{
    proof {
        lemma_kept_end(s@);
    }
    let d = find_dot(s, 0);
    let e = if d < s.len() { find_dot(s, d + 1) } else { s.len() };
    let start: usize = if d > 0 && s[0] == '-' { 1 } else { 0 };
    let mut out: Vec<char> = Vec::new();
    if start == 1 {
        out.push('-');
    }
    let ghost sign = s@.subrange(0, start as int);
    let ghost g = s@.subrange(start as int, d as int);
    assert(out@ =~= sign + grouped_upto(g, 0));
    let len = d - start;
    let mut k = start;
    while k < d
        invariant
            start <= k <= d,
            d <= s@.len(),
            len == d - start,
            g == s@.subrange(start as int, d as int),
            out@ == sign + grouped_upto(g, k - start),
        decreases d - k,
    {
        let j = k - start;
        if j > 0 && (len - j) % 3 == 0 {
            out.push(',');
        }
        out.push(s[k]);
        k = k + 1;
        assert(out@ =~= sign + grouped_upto(g, k - start));
    }
    assert(out@ =~= sign + grouped(g));
    let mut m = d;
    while m < e
        invariant
            d <= m <= e,
            e <= s@.len(),
            out@ == sign + grouped(g) + s@.subrange(d as int, m as int),
        decreases e - m,
    {
        out.push(s[m]);
        m = m + 1;
        assert(out@ =~= sign + grouped(g) + s@.subrange(d as int, m as int));
    }
    out
}

} // verus!
