//! The display buffer: the number being entered, kept as a raw value without
//! grouping separators, with the edit operations of the keypad.

use vstd::prelude::*;
use crate::grouping::{
    display_thousands_separator, find_dot, kept, kept_end, lemma_kept_end, with_separators,
};
use crate::text::{
    back_space, is_separator, is_space, lemma_back_space, lemma_next_dot_unique,
    lemma_skip_space, lemma_strip_concat, lemma_strip_shape, next_dot, no_separators,
    skip_space, string_from_chars, strip_separators, trimmed, chars_of,
};

verus! {

/// The value `"0"`, the one form of zero.
pub open spec fn zero() -> Seq<char> {
    seq!['0']
}

/// How many characters the value may hold: 21, and one more for a leading sign.
pub open spec fn budget(v: Seq<char>) -> int {
    if v.len() > 0 && v[0] == '-' { 22 } else { 21 }
}

/// The value that a change of the buffer to `raw` leaves: separators removed
/// and white space trimmed; `"0"` if nothing is left; otherwise what the
/// presentation form keeps of it.
pub open spec fn settle(raw: Seq<char>) -> Seq<char> {
    let t = trimmed(strip_separators(raw));
    if t.len() == 0 { zero() } else { kept(t) }
}

/// The character of a digit.
pub open spec fn digit_char(d: int) -> char {
    seq!['0', '1', '2', '3', '4', '5', '6', '7', '8', '9'][d]
}

/// `c` appended to `v`; a `"0"` is replaced rather than extended, and nothing
/// is appended once the value has used its budget.
pub open spec fn inserted(v: Seq<char>, c: char) -> Seq<char> {
    let base = if v == zero() { Seq::empty() } else { v };
    if base.len() < budget(v) { settle(base.push(c)) } else { v }
}

/// The sign of `v` removed if it has one, else a `-` put before it; `"0"` stays.
pub open spec fn toggled(v: Seq<char>) -> Seq<char> {
    if v == zero() {
        v
    } else if v.len() > 0 && v[0] == '-' {
        settle(v.drop_first())
    } else {
        settle(seq!['-'] + v)
    }
}

/// `v` without its last character; `"0"` stays.
pub open spec fn backspaced(v: Seq<char>) -> Seq<char> {
    if v == zero() { v } else { settle(v.drop_last()) }
}

/// The value that pasting `s` gives: `s` settled, then cut to its budget.
pub open spec fn pasted(s: Seq<char>) -> Seq<char> {
    let t = settle(s);
    if t.len() <= budget(t) { t } else { t.subrange(0, budget(t)) }
}

/// The shape of every value the buffer holds.
pub open spec fn value_ok(v: Seq<char>) -> bool {
    &&& v.len() > 0
    &&& no_separators(v)
    &&& kept(v) == v
    &&& !is_space(v[0])
    &&& v.len() <= budget(v)
    &&& number_text(v)
}

/// Whether `v` has the characters of a number: digits and decimal points,
/// and a `-` only in front.
pub open spec fn number_text(v: Seq<char>) -> bool {
    forall|i: int| 0 <= i < v.len() ==> (is_digit_char(#[trigger] v[i]) || v[i] == '.' || (i == 0
        && v[i] == '-'))
}

/// Whether a paste of `s` is taken: once its separators and surrounding
/// white space are removed, it has the characters of a number.
pub open spec fn paste_accepted(s: Seq<char>) -> bool {
    number_text(trimmed(strip_separators(s)))
}

/// Text with the characters of a number settles to what the presentation
/// form keeps of it, or to `"0"` when empty, and keeps those characters.
pub proof fn lemma_settle_number(raw: Seq<char>)
    requires
        number_text(raw),
    ensures
        settle(raw) == (if raw.len() == 0 { zero() } else { kept(raw) }),
        number_text(settle(raw)),
{
    assert(no_separators(raw));
    crate::text::lemma_strip_plain(raw);
    lemma_skip_space(raw, 0);
    lemma_back_space(raw, raw.len() as int);
    if raw.len() > 0 {
        assert(skip_space(raw, 0) == 0);
        assert(back_space(raw, raw.len() as int) == raw.len());
        assert(raw.subrange(0, raw.len() as int) =~= raw);
        lemma_kept_end(raw);
        let k = kept(raw);
        assert forall|i: int| 0 <= i < k.len() implies (is_digit_char(#[trigger] k[i]) || k[i]
            == '.' || (i == 0 && k[i] == '-')) by {
            assert(k[i] == raw[i]);
        }
    } else {
        assert(trimmed(raw) =~= Seq::<char>::empty());
    }
}

proof fn lemma_number_prefix(v: Seq<char>, n: int)
    requires
        number_text(v),
        0 <= n <= v.len(),
    ensures
        number_text(v.subrange(0, n)),
{
    let p = v.subrange(0, n);
    assert forall|i: int| 0 <= i < p.len() implies (is_digit_char(#[trigger] p[i]) || p[i] == '.'
        || (i == 0 && p[i] == '-')) by {
        assert(p[i] == v[i]);
    }
}

/// Toggling the sign keeps a buffer value well formed; in particular no `-`
/// stands anywhere but in front.
pub proof fn lemma_toggled_ok(v: Seq<char>)
    requires
        value_ok(v),
    ensures
        value_ok(toggled(v)),
{
    if v == zero() {
    } else if v[0] == '-' {
        let body = v.drop_first();
        assert forall|i: int| 0 <= i < body.len() implies (is_digit_char(#[trigger] body[i])
            || body[i] == '.' || (i == 0 && body[i] == '-')) by {
            assert(body[i] == v[i + 1]);
        }
        lemma_settle(body);
        lemma_settle_number(body);
    } else {
        let signed = seq!['-'] + v;
        assert forall|i: int| 0 <= i < signed.len() implies (is_digit_char(#[trigger] signed[i])
            || signed[i] == '.' || (i == 0 && signed[i] == '-')) by {
            if i > 0 {
                assert(signed[i] == v[i - 1]);
            }
        }
        lemma_settle(signed);
        lemma_settle_number(signed);
        lemma_kept_prepend_sign(v);
    }
}

pub proof fn lemma_kept_fixed(t: Seq<char>)
    ensures
        kept(kept(t)) == kept(t),
{
    lemma_kept_end(t);
    let k = kept(t);
    let d = next_dot(t, 0);
    let e = kept_end(t);
    if d < t.len() {
        lemma_next_dot_unique(k, 0, d);
        lemma_next_dot_unique(k, d + 1, e);
    } else {
        lemma_next_dot_unique(k, 0, k.len() as int);
    }
    assert(k.subrange(0, kept_end(k)) =~= k);
}

/// A prefix of a value that the presentation form keeps whole is kept whole too.
pub proof fn lemma_kept_prefix(t: Seq<char>, n: int)
    requires
        kept(t) == t,
        0 <= n <= t.len(),
    ensures
        kept(t.subrange(0, n)) == t.subrange(0, n),
{
    lemma_kept_end(t);
    let p = t.subrange(0, n);
    let d = next_dot(t, 0);
    assert(kept_end(t) == t.len()) by {
        assert(t.subrange(0, kept_end(t)).len() == t.len());
    }
    if d < n {
        lemma_next_dot_unique(p, 0, d);
        lemma_next_dot_unique(p, d + 1, n);
    } else {
        lemma_next_dot_unique(p, 0, n);
    }
    assert(p.subrange(0, kept_end(p)) =~= p);
}

proof fn lemma_trimmed(s: Seq<char>)
    ensures
        trimmed(s).len() <= s.len(),
        trimmed(s).len() > 0 ==> !is_space(trimmed(s)[0]),
        no_separators(s) ==> no_separators(trimmed(s)),
        s.len() > 0 && !is_space(s[0]) ==> trimmed(s).len() > 0 && trimmed(s)[0] == s[0],
{
    lemma_skip_space(s, 0);
    lemma_back_space(s, s.len() as int);
    let a = skip_space(s, 0);
    let b = back_space(s, s.len() as int);
    if s.len() > 0 && !is_space(s[0]) {
        assert(a == 0);
        assert(b > 0) by {
            if b == 0 {
                assert(is_space(s[0]));
            }
        }
    }
}

/// Every settled value has the shape of a buffer value, budget aside, and is
/// no longer than what it was settled from.
pub proof fn lemma_settle(raw: Seq<char>)
    ensures
        settle(raw).len() > 0,
        no_separators(settle(raw)),
        kept(settle(raw)) == settle(raw),
        !is_space(settle(raw)[0]),
        settle(raw).len() <= raw.len() || settle(raw) == zero(),
        raw.len() > 0 && !is_separator(raw[0]) && !is_space(raw[0]) ==> settle(raw)[0] == raw[0],
{
    let st = strip_separators(raw);
    lemma_strip_shape(raw);
    lemma_trimmed(st);
    let t = trimmed(st);
    if t.len() > 0 {
        lemma_kept_end(t);
        lemma_kept_fixed(t);
    } else {
        assert(kept(zero()) == zero()) by {
            lemma_kept_fixed(zero());
            lemma_next_dot_unique(zero(), 0, 1);
            assert(zero().subrange(0, 1) =~= zero());
        }
    }
    if raw.len() > 0 && !is_separator(raw[0]) && !is_space(raw[0]) {
        let head = raw.subrange(0, 1);
        let rest = raw.subrange(1, raw.len() as int);
        assert(head + rest =~= raw);
        lemma_strip_concat(head, rest);
        assert(head.drop_last() =~= Seq::<char>::empty());
        assert(strip_separators(head.drop_last()) =~= Seq::<char>::empty());
        assert(strip_separators(head) =~= head);
    }
}

/// Whether `c` is white space, as `char::is_whitespace` decides it.
pub fn is_space_char(c: char) -> (r: bool)
    ensures
        r == is_space(c),
{
    ('\u{9}' <= c && c <= '\u{d}') || c == ' ' || c == '\u{85}' || c == '\u{a0}'
        || c == '\u{1680}' || ('\u{2000}' <= c && c <= '\u{200a}') || c == '\u{2028}'
        || c == '\u{2029}' || c == '\u{202f}' || c == '\u{205f}' || c == '\u{3000}'
}

fn strip_chars(raw: &Vec<char>) -> (r: Vec<char>)
    ensures
        r@ == strip_separators(raw@),
{
    let mut r: Vec<char> = Vec::new();
    let mut i: usize = 0;
    while i < raw.len()
        invariant
            i <= raw@.len(),
            r@ == strip_separators(raw@.subrange(0, i as int)),
        decreases raw@.len() - i,
    {
        assert(raw@.subrange(0, i + 1).drop_last() =~= raw@.subrange(0, i as int));
        if raw[i] != ',' {
            r.push(raw[i]);
        }
        i = i + 1;
    }
    assert(raw@.subrange(0, raw@.len() as int) =~= raw@);
    r
}

fn copy_range(s: &Vec<char>, from: usize, to: usize) -> (r: Vec<char>)
    requires
        from <= to <= s@.len(),
    ensures
        r@ == s@.subrange(from as int, to as int),
{
    let mut r: Vec<char> = Vec::new();
    let mut i = from;
    while i < to
        invariant
            from <= i <= to,
            to <= s@.len(),
            r@ == s@.subrange(from as int, i as int),
        decreases to - i,
    {
        r.push(s[i]);
        i = i + 1;
        assert(r@ =~= s@.subrange(from as int, i as int));
    }
    r
}

fn trim_chars(s: &Vec<char>) -> (r: Vec<char>)
    ensures
        r@ == trimmed(s@),
{
    let n = s.len();
    let mut a: usize = 0;
    while a < n && is_space_char(s[a])
        invariant
            n == s@.len(),
            a <= n,
            skip_space(s@, a as int) == skip_space(s@, 0),
        decreases n - a,
    {
        a = a + 1;
    }
    let mut b: usize = n;
    while b > 0 && is_space_char(s[b - 1])
        invariant
            n == s@.len(),
            b <= n,
            back_space(s@, b as int) == back_space(s@, n as int),
        decreases b,
    {
        b = b - 1;
    }
    if a < b {
        copy_range(s, a, b)
    } else {
        Vec::new()
    }
}

fn settle_chars(raw: &Vec<char>) -> (r: Vec<char>)
    ensures
        r@ == settle(raw@),
{
    let t = trim_chars(&strip_chars(raw));
    if t.len() == 0 {
        let mut z: Vec<char> = Vec::new();
        z.push('0');
        assert(z@ =~= zero());
        z
    } else {
        let d = find_dot(&t, 0);
        let e = if d < t.len() { find_dot(&t, d + 1) } else { t.len() };
        proof {
            lemma_kept_end(t@);
        }
        copy_range(&t, 0, e)
    }
}

/// The display buffer of the calculator.
pub struct InputDisplay {
    value: Vec<char>,
}

impl View for InputDisplay {
    type V = Seq<char>;

    closed spec fn view(&self) -> Seq<char> {
        self.value@
    }
}

impl InputDisplay {
    pub open spec fn wf(&self) -> bool {
        value_ok(self@)
    }

    /// A buffer that holds `"0"`.
    pub fn new() -> (r: InputDisplay)
        ensures
            r@ == zero(),
            r.wf(),
    {
        let mut value: Vec<char> = Vec::new();
        value.push('0');
        let r = InputDisplay { value };
        assert(r@ =~= zero());
        proof {
            lemma_settle(Seq::empty());
        }
        r
    }

    /// The raw value, without grouping separators.
    pub fn value(&self) -> (r: String)
        ensures
            r@ == self@,
    {
        string_from_chars(&self.value)
    }

    /// The presentation form of the value.
    pub fn text(&self) -> (r: String)
        ensures
            r@ == with_separators(self@),
    {
        let v = string_from_chars(&self.value);
        display_thousands_separator(v.as_str())
    }

    /// How many characters the value may hold.
    pub fn max_length(&self) -> (r: usize)
        ensures
            r == budget(self@),
    {
        if self.value.len() > 0 && self.value[0] == '-' {
            22
        } else {
            21
        }
    }

    fn is_zero(&self) -> (r: bool)
        ensures
            r == (self@ == zero()),
    {
        let r = self.value.len() == 1 && self.value[0] == '0';
        assert(r ==> self.value@ =~= zero());
        r
    }

    fn settle_to(&mut self, raw: &Vec<char>)
        ensures
            final(self)@ == settle(raw@),
    {
        self.value = settle_chars(raw);
    }

    /// Appends `c` after the value, or replaces a `"0"` with it.
    fn insert_display_text(&mut self, c: char)
        requires
            old(self).wf(),
            c == '.' || ('0' <= c && c <= '9'),
        ensures
            final(self)@ == inserted(old(self)@, c),
            final(self).wf(),
    {
        let ghost v = self@;
        let limit = self.max_length();
        let mut base: Vec<char> = if self.is_zero() {
            Vec::new()
        } else {
            self.value.clone()
        };
        assert(base@ == (if v == zero() { Seq::<char>::empty() } else { v }));
        if base.len() < limit {
            base.push(c);
            proof {
                lemma_settle(base@);
                assert forall|i: int| 0 <= i < base@.len() implies (is_digit_char(
                    #[trigger] base@[i],
                ) || base@[i] == '.' || (i == 0 && base@[i] == '-')) by {
                    if i < base@.len() - 1 {
                        assert(base@[i] == v[i]);
                    }
                }
                lemma_settle_number(base@);
                if v == zero() {
                    assert(base@[0] == c);
                } else {
                    assert(base@[0] == v[0]);
                }
            }
            self.settle_to(&base);
        }
    }

    /// Appends the digit `d`.
    pub fn insert_digit(&mut self, d: u8)
        requires
            old(self).wf(),
            d <= 9,
        ensures
            final(self)@ == inserted(old(self)@, digit_char(d as int)),
            final(self).wf(),
    {
        let c = match d {
            0 => '0',
            1 => '1',
            2 => '2',
            3 => '3',
            4 => '4',
            5 => '5',
            6 => '6',
            7 => '7',
            8 => '8',
            _ => '9',
        };
        assert(c == digit_char(d as int));
        self.insert_display_text(c);
    }

    /// Appends a decimal point.
    pub fn insert_decimal_point(&mut self)
        requires
            old(self).wf(),
        ensures
            final(self)@ == inserted(old(self)@, '.'),
            final(self).wf(),
    {
        self.insert_display_text('.');
    }

    /// Removes the sign of the value, or puts a `-` before it; `"0"` stays.
    pub fn toggle_sign(&mut self)
        requires
            old(self).wf(),
        ensures
            final(self)@ == toggled(old(self)@),
            final(self).wf(),
    {
        let ghost v = self@;
        if self.is_zero() {
            return;
        }
        if self.value[0] == '-' {
            let rest = copy_range(&self.value, 1, self.value.len());
            assert(rest@ =~= v.drop_first());
            self.settle_to(&rest);
            proof {
                lemma_toggled_ok(v);
            }
        } else {
            let mut signed: Vec<char> = Vec::new();
            signed.push('-');
            let mut i: usize = 0;
            while i < self.value.len()
                invariant
                    self@ == v,
                    i <= v.len(),
                    signed@ == seq!['-'] + v.subrange(0, i as int),
                decreases v.len() - i,
            {
                signed.push(self.value[i]);
                i = i + 1;
                assert(signed@ =~= seq!['-'] + v.subrange(0, i as int));
            }
            assert(v.subrange(0, v.len() as int) =~= v);
            self.settle_to(&signed);
            proof {
                lemma_toggled_ok(v);
            }
        }
    }

    /// Removes the last character; `"0"` stays, and an emptied buffer holds `"0"`.
    pub fn backspace(&mut self)
        requires
            old(self).wf(),
        ensures
            final(self)@ == backspaced(old(self)@),
            final(self).wf(),
    {
        let ghost v = self@;
        if self.is_zero() {
            return;
        }
        let rest = copy_range(&self.value, 0, self.value.len() - 1);
        assert(rest@ =~= v.drop_last());
        proof {
            lemma_settle(rest@);
            lemma_number_prefix(v, v.len() - 1);
            assert(v.subrange(0, v.len() - 1) =~= v.drop_last());
            lemma_settle_number(rest@);
        }
        self.settle_to(&rest);
    }

    /// Sets the value to `"0"`.
    pub fn clear(&mut self)
        ensures
            final(self)@ == zero(),
            final(self).wf(),
    {
        *self = InputDisplay::new();
    }

    /// Sets the value to `"0"`; the buffer is left as `clear` leaves it.
    pub fn clear_entry(&mut self)
        ensures
            final(self)@ == zero(),
            final(self).wf(),
    {
        *self = InputDisplay::new();
    }

    /// Replaces the value with `text`, its separators and surrounding white
    /// space removed and cut to the budget of its sign, if it then has the
    /// characters of a number; otherwise leaves the value as it is. Returns
    /// whether the paste was taken.
    pub fn paste_replace(&mut self, text: &str) -> (accepted: bool)
        requires
            old(self).wf(),
        ensures
            accepted == paste_accepted(text@),
            accepted ==> final(self)@ == pasted(text@),
            !accepted ==> final(self)@ == old(self)@,
            final(self).wf(),
    {
        let raw = chars_of(text);
        let t = trim_chars(&strip_chars(&raw));
        if !is_number_chars(&t) {
            return false;
        }
        proof {
            lemma_settle(raw@);
            lemma_settle_number(t@);
        }
        let v = settle_chars(&t);
        assert(v@ == settle(raw@));
        let limit: usize = if v[0] == '-' { 22 } else { 21 };
        if v.len() <= limit {
            self.value = v;
        } else {
            let cut = copy_range(&v, 0, limit);
            proof {
                lemma_kept_prefix(v@, limit as int);
                lemma_number_prefix(v@, limit as int);
                assert(no_separators(cut@));
            }
            self.value = cut;
        }
        true
    }
}

fn is_number_chars(t: &Vec<char>) -> (r: bool)
    ensures
        r == number_text(t@),
{
    let mut i: usize = 0;
    while i < t.len()
        invariant
            i <= t@.len(),
            forall|j: int| 0 <= j < i ==> (is_digit_char(#[trigger] t@[j]) || t@[j] == '.' || (j
                == 0 && t@[j] == '-')),
        decreases t@.len() - i,
    {
        let c = t[i];
        if !(('0' <= c && c <= '9') || c == '.' || (i == 0 && c == '-')) {
            assert(!(is_digit_char(t@[i as int]) || t@[i as int] == '.' || (i == 0 && t@[i as int]
                == '-')));
            return false;
        }
        i = i + 1;
    }
    true
}


/// Whether `c` is one of the ten digits.
pub open spec fn is_digit_char(c: char) -> bool {
    '0' <= c && c <= '9'
}

/// Whether every character of `x` is a digit, a decimal point or a minus sign.
pub open spec fn plain_chars(x: Seq<char>) -> bool {
    forall|i: int| 0 <= i < x.len() ==> (is_digit_char(#[trigger] x[i]) || x[i] == '.' || x[i]
        == '-')
}

/// A value that settles to itself.
proof fn lemma_settle_plain(x: Seq<char>)
    requires
        x.len() > 0,
        plain_chars(x),
        kept(x) == x,
    ensures
        settle(x) == x,
{
    assert(no_separators(x));
    crate::text::lemma_strip_plain(x);
    lemma_skip_space(x, 0);
    lemma_back_space(x, x.len() as int);
    assert(skip_space(x, 0) == 0);
    assert(back_space(x, x.len() as int) == x.len());
    assert(x.subrange(0, x.len() as int) =~= x);
}

/// Removing a first character other than a decimal point keeps a value whole.
proof fn lemma_kept_drop_first(v: Seq<char>)
    requires
        kept(v) == v,
        v.len() > 0,
        v[0] != '.',
    ensures
        kept(v.drop_first()) == v.drop_first(),
{
    lemma_kept_end(v);
    let b = v.drop_first();
    let d = next_dot(v, 0);
    assert(kept_end(v) == v.len()) by {
        assert(v.subrange(0, kept_end(v)).len() == v.len());
    }
    if d < v.len() {
        lemma_next_dot_unique(b, 0, d - 1);
        lemma_next_dot_unique(b, d, b.len() as int);
    } else {
        lemma_next_dot_unique(b, 0, b.len() as int);
    }
    assert(b.subrange(0, kept_end(b)) =~= b);
}

/// Putting a `-` first keeps a value whole.
proof fn lemma_kept_prepend_sign(v: Seq<char>)
    requires
        kept(v) == v,
    ensures
        kept(seq!['-'] + v) == seq!['-'] + v,
{
    lemma_kept_end(v);
    let b = seq!['-'] + v;
    let d = next_dot(v, 0);
    assert(kept_end(v) == v.len()) by {
        assert(v.subrange(0, kept_end(v)).len() == v.len());
    }
    if d < v.len() {
        lemma_next_dot_unique(b, 0, d + 1);
        lemma_next_dot_unique(b, d + 2, b.len() as int);
    } else {
        lemma_next_dot_unique(b, 0, b.len() as int);
    }
    assert(b.subrange(0, kept_end(b)) =~= b);
}

/// Toggling the sign twice gives back the value, hence its presentation
/// form and its budget. It fails only on `"-"` and `"-0"`, which the first
/// toggle settles to `"0"`.
pub proof fn lemma_toggle_twice(v: Seq<char>)
    requires
        value_ok(v),
        v != seq!['-'],
        v != seq!['-', '0'],
    ensures
        toggled(toggled(v)) == v,
        budget(toggled(toggled(v))) == budget(v),
{
    assert(forall|i: int| 0 < i < v.len() ==> #[trigger] v[i] != '-');
    if v == zero() {
    } else if v[0] == '-' {
        let body = v.drop_first();
        lemma_kept_drop_first(v);
        assert(body.len() > 0) by {
            if body.len() == 0 {
                assert(v =~= seq!['-']);
            }
        }
        assert forall|i: int| 0 <= i < body.len() implies (is_digit_char(#[trigger] body[i])
            || body[i] == '.' || body[i] == '-') by {
            assert(body[i] == v[i + 1]);
        }
        lemma_settle_plain(body);
        assert(seq!['-'] + body =~= v);
        assert(body != zero()) by {
            if body == zero() {
                assert(v =~= seq!['-', '0']);
            }
        }
        assert(body[0] == v[1]);
        assert(plain_chars(v));
        lemma_settle_plain(v);
    } else {
        let signed = seq!['-'] + v;
        lemma_kept_prepend_sign(v);
        assert forall|i: int| 0 <= i < signed.len() implies (is_digit_char(#[trigger] signed[i])
            || signed[i] == '.' || signed[i] == '-') by {
            if i > 0 {
                assert(signed[i] == v[i - 1]);
            }
        }
        lemma_settle_plain(signed);
        assert(signed.drop_first() =~= v);
        assert(plain_chars(v));
        lemma_settle_plain(v);
    }
}

/// The value after typing the digits `ds` into a fresh buffer.
pub open spec fn typed(ds: Seq<u8>) -> Seq<char>
    decreases ds.len(),
{
    if ds.len() == 0 {
        zero()
    } else {
        inserted(typed(ds.drop_last()), digit_char(ds.last() as int))
    }
}

/// The first index at or after `i` that holds a digit other than zero, or the length.
pub open spec fn first_nonzero(ds: Seq<u8>, i: int) -> int
    decreases ds.len() - i,
{
    if i >= ds.len() {
        ds.len() as int
    } else if ds[i] != 0 {
        i
    } else {
        first_nonzero(ds, i + 1)
    }
}

proof fn lemma_first_nonzero(ds: Seq<u8>, i: int)
    requires
        0 <= i <= ds.len(),
    ensures
        i <= first_nonzero(ds, i) <= ds.len(),
        first_nonzero(ds, i) < ds.len() ==> ds[first_nonzero(ds, i)] != 0,
        forall|j: int| i <= j < first_nonzero(ds, i) ==> ds[j] == 0,
    decreases ds.len() - i,
{
    if i < ds.len() && ds[i] == 0 {
        lemma_first_nonzero(ds, i + 1);
    }
}

proof fn lemma_first_nonzero_unique(ds: Seq<u8>, i: int, r: int)
    requires
        0 <= i <= r <= ds.len(),
        r < ds.len() ==> ds[r] != 0,
        forall|j: int| i <= j < r ==> ds[j] == 0,
    ensures
        first_nonzero(ds, i) == r,
    decreases ds.len() - i,
{
    if i < r {
        lemma_first_nonzero_unique(ds, i + 1, r);
    }
}

/// The characters of the digits `ds`.
pub open spec fn digit_chars(ds: Seq<u8>) -> Seq<char> {
    Seq::new(ds.len(), |i: int| digit_char(ds[i] as int))
}

/// The digits `ds` with their leading zeros dropped, at most 21 of them, or
/// `"0"` if no other digit is left.
pub open spec fn collapsed(ds: Seq<u8>) -> Seq<char> {
    let k = first_nonzero(ds, 0);
    if k == ds.len() {
        zero()
    } else if ds.len() - k <= 21 {
        digit_chars(ds).subrange(k, ds.len() as int)
    } else {
        digit_chars(ds).subrange(k, k + 21)
    }
}

proof fn lemma_typed(ds: Seq<u8>)
    requires
        forall|i: int| 0 <= i < ds.len() ==> ds[i] <= 9,
    ensures
        typed(ds) == collapsed(ds),
    decreases ds.len(),
{
    lemma_first_nonzero(ds, 0);
    if ds.len() > 0 {
        let pre = ds.drop_last();
        let d = ds.last();
        let c = digit_char(d as int);
        lemma_typed(pre);
        lemma_first_nonzero(pre, 0);
        let k = first_nonzero(pre, 0);
        let v = typed(pre);
        assert(digit_chars(ds) =~= digit_chars(pre).push(c));
        assert forall|j: int| 0 <= j < k implies #[trigger] ds[j] == 0 by {
            assert(ds[j] == pre[j]);
        }
        if k == pre.len() {
            if d == 0 {
                lemma_first_nonzero_unique(ds, 0, ds.len() as int);
                assert(Seq::<char>::empty().push(c) =~= zero());
                assert(kept(zero()) == zero()) by {
                    lemma_settle(Seq::empty());
                }
                lemma_settle_plain(zero());
            } else {
                lemma_first_nonzero_unique(ds, 0, pre.len() as int);
                let one = Seq::<char>::empty().push(c);
                assert(one =~= digit_chars(ds).subrange(k, ds.len() as int));
                lemma_next_dot_unique(one, 0, 1);
                assert(one.subrange(0, 1) =~= one);
                lemma_settle_plain(one);
            }
        } else {
            lemma_first_nonzero_unique(ds, 0, k);
            assert(v[0] == digit_char(pre[k] as int));
            assert(v != zero());
            if pre.len() - k < 21 {
                let w = v.push(c);
                assert(w =~= digit_chars(ds).subrange(k, ds.len() as int));
                assert(forall|i: int| 0 <= i < w.len() ==> #[trigger] w[i] != '.');
                crate::grouping::lemma_kept_no_dots(w);
                lemma_settle_plain(w);
            } else {
                assert(v =~= digit_chars(ds).subrange(k, k + 21));
            }
        }
    }
}

/// Typing digits into a fresh buffer and removing the separators from the
/// presentation form gives back the digits typed: leading zeros collapse into
/// the one `"0"`, and digits past the budget of 21 are not taken.
pub proof fn lemma_typed_digits(ds: Seq<u8>)
    requires
        forall|i: int| 0 <= i < ds.len() ==> ds[i] <= 9,
    ensures
        strip_separators(with_separators(typed(ds))) == collapsed(ds),
{
    lemma_typed(ds);
    let v = collapsed(ds);
    lemma_first_nonzero(ds, 0);
    assert(forall|i: int| 0 <= i < v.len() ==> #[trigger] v[i] != '.' && !is_separator(v[i]));
    crate::grouping::lemma_strip_with_separators(v);
    crate::grouping::lemma_kept_no_dots(v);
}

} // verus!
