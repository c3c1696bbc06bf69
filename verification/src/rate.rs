//! Throughput readings in iperf3's text output: the `"<number> <prefix>bits/sec"`
//! pair of words, kept exactly as written (decimal number and unit prefix).
use vstd::prelude::*;

use crate::text::{chars_of, ends_with, is_whitespace, is_ws, matches_at, string_of_range};

verus! {

/// The unit prefix in front of `bits/sec`.
#[derive(Clone, Copy, Debug, PartialEq, Eq, Structural)]
pub enum RateUnit {
    /// `bits/sec`
    Bits,
    /// `Kbits/sec` or `kbits/sec`
    Kilobits,
    /// `Mbits/sec`
    Megabits,
    /// `Gbits/sec`
    Gigabits,
    /// `Tbits/sec`
    Terabits,
}

/// A throughput reading: the decimal number exactly as iperf3 printed it, and
/// its unit. In Mbit/s it is `number` scaled by the unit (divided by 10^6 for
/// bits, by 10^3 for Kbits, multiplied by 10^3 for Gbits, by 10^6 for Tbits).
#[derive(Debug)]
pub struct Rate {
    pub number: String,
    pub unit: RateUnit,
}

impl Clone for Rate {
    fn clone(&self) -> (r: Self)
        ensures
            r@ == self@,
    {
        Rate { number: self.number.clone(), unit: self.unit }
    }
}

/// A reading seen as plain values.
pub struct RateView {
    pub number: Seq<char>,
    pub unit: RateUnit,
}

impl View for Rate {
    type V = RateView;

    open spec fn view(&self) -> RateView {
        RateView { number: self.number@, unit: self.unit }
    }
}

// ---------------------------------------------------------------------------
// Words of a line
// ---------------------------------------------------------------------------

/// The length of the run of non-whitespace characters that starts `s`.
pub open spec fn word_len(s: Seq<char>) -> nat
    decreases s.len(),
{
    if s.len() == 0 || is_ws(s[0]) {
        0
    } else {
        1 + word_len(s.drop_first())
    }
}

pub proof fn lemma_word_len_bound(s: Seq<char>)
    ensures
        word_len(s) <= s.len(),
    decreases s.len(),
{
    if s.len() > 0 && !is_ws(s[0]) {
        lemma_word_len_bound(s.drop_first());
    }
}

/// The whitespace-separated words of `s`, in order (`str::split_whitespace`).
pub open spec fn words(s: Seq<char>) -> Seq<Seq<char>>
    decreases s.len(),
{
    if s.len() == 0 {
        Seq::empty()
    } else if is_ws(s[0]) {
        words(s.drop_first())
    } else {
        proof {
            lemma_word_len_bound(s);
        }
        seq![s.take(word_len(s) as int)] + words(s.skip(word_len(s) as int))
    }
}

/// The spans `(start, end)` of the words of `s`, in order.
pub fn word_spans(s: &Vec<char>) -> (spans: Vec<(usize, usize)>)
    ensures
        spans.len() == words(s@).len(),
        forall|k: int|
            0 <= k < spans.len() ==> {
                &&& (#[trigger] spans@[k]).0 <= spans@[k].1 <= s.len()
                &&& s@.subrange(spans@[k].0 as int, spans@[k].1 as int) == words(s@)[k]
            },
{
    let n = s.len();
    let mut spans: Vec<(usize, usize)> = Vec::new();
    let ghost mut acc: Seq<Seq<char>> = Seq::empty();
    let mut i: usize = 0;
    assert(s@.skip(0) =~= s@);
    assert(acc + words(s@) =~= words(s@));
    while i < n
        invariant
            n == s.len(),
            i <= n,
            words(s@) == acc + words(s@.skip(i as int)),
            spans.len() == acc.len(),
            forall|k: int|
                0 <= k < spans.len() ==> {
                    &&& (#[trigger] spans@[k]).0 <= spans@[k].1 <= s.len()
                    &&& s@.subrange(spans@[k].0 as int, spans@[k].1 as int) == acc[k]
                },
        decreases n - i,
    {
        if is_whitespace(s[i]) {
            assert(s@.skip(i as int).drop_first() =~= s@.skip(i + 1));
            i = i + 1;
        } else {
            let mut j = i;
            while j < n && !is_whitespace(s[j])
                invariant
                    n == s.len(),
                    i <= j <= n,
                    word_len(s@.skip(i as int)) == (j - i) + word_len(s@.skip(j as int)),
                decreases n - j,
            {
                assert(s@.skip(j as int).drop_first() =~= s@.skip(j + 1));
                j = j + 1;
            }
            proof {
                let t = s@.skip(i as int);
                assert(word_len(s@.skip(j as int)) == 0);
                assert(t.take(j - i) =~= s@.subrange(i as int, j as int));
                assert(t.skip(j - i) =~= s@.skip(j as int));
                assert(words(t) == seq![s@.subrange(i as int, j as int)] + words(s@.skip(j as int)));
                assert(acc + words(t) =~= acc.push(s@.subrange(i as int, j as int)) + words(
                    s@.skip(j as int),
                ));
                acc = acc.push(s@.subrange(i as int, j as int));
            }
            spans.push((i, j));
            i = j;
        }
    }
    assert(s@.skip(n as int) =~= Seq::<char>::empty());
    assert(acc + words(s@.skip(n as int)) =~= acc);
    spans
}

// ---------------------------------------------------------------------------
// Decimal numbers, as `str::parse::<f64>` accepts them
// ---------------------------------------------------------------------------

pub open spec fn is_digit(c: char) -> bool {
    48 <= (c as u32) <= 57
}

pub open spec fn is_sign(c: char) -> bool {
    c == '+' || c == '-'
}

pub open spec fn is_exp_mark(c: char) -> bool {
    c == 'e' || c == 'E'
}

pub open spec fn all_digits(s: Seq<char>) -> bool {
    forall|i: int| 0 <= i < s.len() ==> is_digit(#[trigger] s[i])
}

/// `Digit+ | Digit+ '.' Digit* | Digit* '.' Digit+`
pub open spec fn is_mantissa(m: Seq<char>) -> bool {
    ||| m.len() > 0 && all_digits(m)
    ||| exists|p: int|
        0 <= p < m.len() && m[p] == '.' && m.len() >= 2 && all_digits(#[trigger] m.take(p))
            && all_digits(m.skip(p + 1))
}

/// `Sign? Digit+`
pub open spec fn is_exponent_digits(x: Seq<char>) -> bool {
    let d = if x.len() > 0 && is_sign(x[0]) {
        x.drop_first()
    } else {
        x
    };
    d.len() > 0 && all_digits(d)
}

/// `Mantissa (('e' | 'E') Sign? Digit+)?`
pub open spec fn is_number(s: Seq<char>) -> bool {
    ||| is_mantissa(s)
    ||| exists|k: int|
        0 <= k < s.len() && is_exp_mark(s[k]) && is_mantissa(#[trigger] s.take(k))
            && is_exponent_digits(s.skip(k + 1))
}

/// The ASCII lowercase code of `c`.
pub open spec fn ascii_lower(c: char) -> u32 {
    if 65 <= (c as u32) <= 90 {
        ((c as u32) + 32) as u32
    } else {
        c as u32
    }
}

/// `s` spells the lowercase ASCII `word`, ignoring ASCII case.
pub open spec fn spells(s: Seq<char>, word: Seq<char>) -> bool {
    s.len() == word.len() && forall|i: int|
        0 <= i < s.len() ==> ascii_lower(#[trigger] s[i]) == word[i] as u32
}

/// `inf`, `infinity` or `nan`, in any ASCII case.
pub open spec fn is_special_value(s: Seq<char>) -> bool {
    ||| spells(s, seq!['i', 'n', 'f'])
    ||| spells(s, seq!['i', 'n', 'f', 'i', 'n', 'i', 't', 'y'])
    ||| spells(s, seq!['n', 'a', 'n'])
}

/// The strings that `str::parse::<f64>` accepts: an optional sign, then `inf`,
/// `infinity`, `nan` (any ASCII case) or a decimal number with an optional
/// exponent.
pub open spec fn is_float_literal(s: Seq<char>) -> bool {
    let body = if s.len() > 0 && is_sign(s[0]) {
        s.drop_first()
    } else {
        s
    };
    is_special_value(body) || is_number(body)
}

/// The characters of a valid mantissa are digits and dots.
pub proof fn lemma_mantissa_chars(m: Seq<char>)
    requires
        is_mantissa(m),
    ensures
        forall|i: int| 0 <= i < m.len() ==> is_digit(#[trigger] m[i]) || m[i] == '.',
{
    if !(m.len() > 0 && all_digits(m)) {
        let p = choose|p: int|
            0 <= p < m.len() && m[p] == '.' && m.len() >= 2 && all_digits(#[trigger] m.take(p))
                && all_digits(m.skip(p + 1));
        assert forall|i: int| 0 <= i < m.len() implies is_digit(#[trigger] m[i]) || m[i]
            == '.' by {
            if i < p {
                assert(m.take(p)[i] == m[i]);
            } else if i > p {
                assert(m.skip(p + 1)[i - p - 1] == m[i]);
            }
        }
    }
}

fn is_digit_char(c: char) -> (b: bool)
    ensures
        b == is_digit(c),
{
    let u = c as u32;
    48 <= u && u <= 57
}

/// Whether `s[lo..hi]` is a mantissa.
fn check_mantissa(s: &Vec<char>, lo: usize, hi: usize) -> (b: bool)
    requires
        lo <= hi <= s.len(),
    ensures
        b == is_mantissa(s@.subrange(lo as int, hi as int)),
{
    let ghost m = s@.subrange(lo as int, hi as int);
    let mut dot: Option<usize> = None;
    let mut i = lo;
    while i < hi
        invariant
            lo <= i <= hi <= s.len(),
            m == s@.subrange(lo as int, hi as int),
            dot matches Some(p) ==> lo <= p < i && s@[p as int] == '.',
            forall|j: int|
                lo <= j < i && !(dot matches Some(p) && j == p) ==> is_digit(#[trigger] s@[j]),
        decreases hi - i,
    {
        let c = s[i];
        if c == '.' {
            if let Some(p) = dot {
                proof {
                    assert(m[p - lo] == '.' && m[i - lo] == '.');
                    assert forall|q: int|
                        0 <= q < m.len() && m[q] == '.' && m.len() >= 2 implies !(all_digits(
                        #[trigger] m.take(q),
                    ) && all_digits(m.skip(q + 1))) by {
                        if q < i - lo {
                            assert(m.skip(q + 1)[i - lo - q - 1] == '.');
                        } else {
                            assert(m.take(q)[p - lo] == '.');
                        }
                    }
                    assert(!is_digit(m[i - lo]));
                }
                return false;
            }
            dot = Some(i);
        } else if !is_digit_char(c) {
            proof {
                assert(!is_digit(m[i - lo]) && m[i - lo] != '.');
                assert forall|q: int|
                    0 <= q < m.len() && m[q] == '.' && m.len() >= 2 implies !(all_digits(
                    #[trigger] m.take(q),
                ) && all_digits(m.skip(q + 1))) by {
                    if q < i - lo {
                        assert(m.skip(q + 1)[i - lo - q - 1] == m[i - lo]);
                    } else {
                        assert(m.take(q)[i - lo] == m[i - lo]);
                    }
                }
            }
            return false;
        }
        i = i + 1;
    }
    match dot {
        None => {
            proof {
                assert forall|j: int| 0 <= j < m.len() implies is_digit(#[trigger] m[j]) by {
                    assert(m[j] == s@[lo + j]);
                }
                if m.len() == 0 {
                    assert forall|q: int| 0 <= q < m.len() implies m[q] != '.' by {}
                }
            }
            hi > lo
        },
        Some(p) => {
            proof {
                let q = p - lo;
                assert(!all_digits(m)) by {
                    assert(!is_digit(m[q]));
                }
                assert forall|j: int| 0 <= j < m.take(q).len() implies is_digit(
                    #[trigger] m.take(q)[j],
                ) by {
                    assert(m.take(q)[j] == s@[lo + j]);
                }
                assert forall|j: int| 0 <= j < m.skip(q + 1).len() implies is_digit(
                    #[trigger] m.skip(q + 1)[j],
                ) by {
                    assert(m.skip(q + 1)[j] == s@[lo + q + 1 + j]);
                }
                if m.len() >= 2 {
                    assert(all_digits(m.take(q)));
                }
            }
            hi - lo >= 2
        },
    }
}

/// Whether `s[lo..hi]` is `Sign? Digit+`.
fn check_exponent_digits(s: &Vec<char>, lo: usize, hi: usize) -> (b: bool)
    requires
        lo <= hi <= s.len(),
    ensures
        b == is_exponent_digits(s@.subrange(lo as int, hi as int)),
{
    let ghost x = s@.subrange(lo as int, hi as int);
    assert(x.len() > 0 ==> x[0] == s@[lo as int]);
    let mut a = lo;
    if a < hi && (s[a] == '+' || s[a] == '-') {
        a = a + 1;
        assert(x.drop_first() =~= s@.subrange(a as int, hi as int));
    } else {
        assert(x =~= s@.subrange(a as int, hi as int));
    }
    let ghost d = s@.subrange(a as int, hi as int);
    assert(is_exponent_digits(x) == (d.len() > 0 && all_digits(d)));
    if a == hi {
        return false;
    }
    let mut i = a;
    while i < hi
        invariant
            lo <= a <= i <= hi <= s.len(),
            d == s@.subrange(a as int, hi as int),
            is_exponent_digits(s@.subrange(lo as int, hi as int)) == (d.len() > 0 && all_digits(d)),
            forall|j: int| a <= j < i ==> is_digit(#[trigger] s@[j]),
        decreases hi - i,
    {
        if !is_digit_char(s[i]) {
            assert(!is_digit(d[i - a]));
            return false;
        }
        i = i + 1;
    }
    assert forall|j: int| 0 <= j < d.len() implies is_digit(#[trigger] d[j]) by {
        assert(d[j] == s@[a + j]);
    }
    true
}

/// Whether `s[lo..hi]` is a number (mantissa with an optional exponent).
fn check_number(s: &Vec<char>, lo: usize, hi: usize) -> (b: bool)
    requires
        lo <= hi <= s.len(),
    ensures
        b == is_number(s@.subrange(lo as int, hi as int)),
{
    let ghost t = s@.subrange(lo as int, hi as int);
    let mut k = lo;
    while k < hi && s[k] != 'e' && s[k] != 'E'
        invariant
            lo <= k <= hi <= s.len(),
            forall|j: int| lo <= j < k ==> !is_exp_mark(#[trigger] s@[j]),
        decreases hi - k,
    {
        k = k + 1;
    }
    if k == hi {
        proof {
            assert forall|q: int| 0 <= q < t.len() implies !is_exp_mark(#[trigger] t[q]) by {
                assert(t[q] == s@[lo + q]);
            }
        }
        return check_mantissa(s, lo, hi);
    }
    let ghost e = k - lo;
    let mm = check_mantissa(s, lo, k);
    let ee = check_exponent_digits(s, k + 1, hi);
    proof {
        assert(t.take(e) =~= s@.subrange(lo as int, k as int));
        assert(t.skip(e + 1) =~= s@.subrange(k + 1, hi as int));
        assert(is_exp_mark(t[e]));
        // `t` itself holds an exponent mark, so it is no bare mantissa.
        if is_mantissa(t) {
            lemma_mantissa_chars(t);
            assert(false);
        }
        // Any later exponent mark leaves the earlier one inside the mantissa.
        assert forall|q: int|
            0 <= q < t.len() && is_exp_mark(t[q]) && q != e implies !is_mantissa(
            #[trigger] t.take(q),
        ) by {
            if q < e {
                assert(t[q] == s@[lo + q]);
            } else {
                if is_mantissa(t.take(q)) {
                    lemma_mantissa_chars(t.take(q));
                    assert(t.take(q)[e] == t[e]);
                }
            }
        }
    }
    mm && ee
}

/// Whether `s[lo..hi]` spells the lowercase ASCII `word`, ignoring ASCII case.
fn check_spells(s: &Vec<char>, lo: usize, hi: usize, word: &Vec<char>) -> (b: bool)
    requires
        lo <= hi <= s.len(),
    ensures
        b == spells(s@.subrange(lo as int, hi as int), word@),
{
    let ghost x = s@.subrange(lo as int, hi as int);
    if hi - lo != word.len() {
        return false;
    }
    let mut i: usize = 0;
    while i < word.len()
        invariant
            lo <= hi <= s.len(),
            hi - lo == word.len(),
            x == s@.subrange(lo as int, hi as int),
            i <= word.len(),
            forall|j: int| 0 <= j < i ==> ascii_lower(#[trigger] x[j]) == word@[j] as u32,
        decreases word.len() - i,
    {
        let u = s[lo + i] as u32;
        let l = if 65 <= u && u <= 90 {
            u + 32
        } else {
            u
        };
        assert(x[i as int] == s@[lo + i]);
        if l != word[i] as u32 {
            return false;
        }
        i = i + 1;
    }
    true
}

/// Whether `s[lo..hi]` is text that `str::parse::<f64>` accepts.
pub fn check_float_literal(s: &Vec<char>, lo: usize, hi: usize) -> (b: bool)
    requires
        lo <= hi <= s.len(),
    ensures
        b == is_float_literal(s@.subrange(lo as int, hi as int)),
{
    let ghost x = s@.subrange(lo as int, hi as int);
    assert(x.len() > 0 ==> x[0] == s@[lo as int]);
    let mut a = lo;
    if a < hi && (s[a] == '+' || s[a] == '-') {
        a = a + 1;
        assert(x.drop_first() =~= s@.subrange(a as int, hi as int));
    } else {
        assert(x =~= s@.subrange(a as int, hi as int));
    }
    let inf: Vec<char> = vec!['i', 'n', 'f'];
    let infinity: Vec<char> = vec!['i', 'n', 'f', 'i', 'n', 'i', 't', 'y'];
    let nan: Vec<char> = vec!['n', 'a', 'n'];
    assert(inf@ =~= seq!['i', 'n', 'f']);
    assert(infinity@ =~= seq!['i', 'n', 'f', 'i', 'n', 'i', 't', 'y']);
    assert(nan@ =~= seq!['n', 'a', 'n']);
    let special = check_spells(s, a, hi, &inf) || check_spells(s, a, hi, &infinity)
        || check_spells(s, a, hi, &nan);
    special || check_number(s, a, hi)
}

// ---------------------------------------------------------------------------
// The reading in a line
// ---------------------------------------------------------------------------

/// `bits/sec`
pub open spec fn rate_suffix() -> Seq<char> {
    seq!['b', 'i', 't', 's', '/', 's', 'e', 'c']
}

/// The unit that a prefix of `bits/sec` names, if any.
pub open spec fn unit_of_prefix(p: Seq<char>) -> Option<RateUnit> {
    if p.len() == 0 {
        Some(RateUnit::Bits)
    } else if p == seq!['K'] || p == seq!['k'] {
        Some(RateUnit::Kilobits)
    } else if p == seq!['M'] {
        Some(RateUnit::Megabits)
    } else if p == seq!['G'] {
        Some(RateUnit::Gigabits)
    } else if p == seq!['T'] {
        Some(RateUnit::Terabits)
    } else {
        None
    }
}

/// The index of the first word at or after `k` that ends with `bits/sec`.
pub open spec fn first_rate_word(w: Seq<Seq<char>>, k: int) -> Option<int>
    decreases w.len() - k,
{
    if k < 0 || k >= w.len() {
        None
    } else if ends_with(w[k], rate_suffix()) {
        Some(k)
    } else {
        first_rate_word(w, k + 1)
    }
}

/// The reading of a line: the first word ending in `bits/sec` decides. It must
/// have a word before it, that word must be a number, and what stands before
/// `bits/sec` must be one of the known prefixes; otherwise there is no reading.
pub open spec fn line_rate(line: Seq<char>) -> Option<RateView> {
    let w = words(line);
    match first_rate_word(w, 0) {
        None => None,
        Some(k) => {
            let word = w[k];
            let prefix = word.take(word.len() - rate_suffix().len());
            if k == 0 || !is_float_literal(w[k - 1]) {
                None
            } else {
                match unit_of_prefix(prefix) {
                    Some(u) => Some(RateView { number: w[k - 1], unit: u }),
                    None => None,
                }
            }
        },
    }
}

/// The unit that `s[lo..hi]` names as a prefix of `bits/sec`.
fn unit_of(s: &Vec<char>, lo: usize, hi: usize) -> (r: Option<RateUnit>)
    requires
        lo <= hi <= s.len(),
    ensures
        r == unit_of_prefix(s@.subrange(lo as int, hi as int)),
{
    let ghost p = s@.subrange(lo as int, hi as int);
    if hi == lo {
        return Some(RateUnit::Bits);
    }
    if hi - lo != 1 {
        assert(p.len() != 1);
        assert(p != seq!['K'] && p != seq!['k'] && p != seq!['M'] && p != seq!['G'] && p
            != seq!['T']);
        return None;
    }
    let c = s[lo];
    assert(p[0] == c);
    assert(p =~= seq![c]);
    if c == 'K' || c == 'k' {
        Some(RateUnit::Kilobits)
    } else if c == 'M' {
        Some(RateUnit::Megabits)
    } else if c == 'G' {
        Some(RateUnit::Gigabits)
    } else if c == 'T' {
        Some(RateUnit::Terabits)
    } else {
        assert(p != seq!['K'] && p != seq!['k'] && p != seq!['M'] && p != seq!['G'] && p
            != seq!['T']) by {
            assert(seq!['K'][0] == 'K');
            assert(seq!['k'][0] == 'k');
            assert(seq!['M'][0] == 'M');
            assert(seq!['G'][0] == 'G');
            assert(seq!['T'][0] == 'T');
        }
        None
    }
}

/// The reading of the line held in `s`.
pub fn rate_of_chars(s: &Vec<char>) -> (r: Option<Rate>)
    ensures
        match (r, line_rate(s@)) {
            (Some(x), Some(v)) => x@ == v,
            (None, None) => true,
            _ => false,
        },
{
    let spans = word_spans(s);
    let ghost w = words(s@);
    let suffix: Vec<char> = vec!['b', 'i', 't', 's', '/', 's', 'e', 'c'];
    assert(suffix@ =~= rate_suffix());
    let mut k: usize = 0;
    while k < spans.len()
        invariant
            spans.len() == w.len(),
            w == words(s@),
            suffix@ == rate_suffix(),
            k <= spans.len(),
            first_rate_word(w, 0) == first_rate_word(w, k as int),
            forall|j: int|
                0 <= j < spans.len() ==> {
                    &&& (#[trigger] spans@[j]).0 <= spans@[j].1 <= s.len()
                    &&& s@.subrange(spans@[j].0 as int, spans@[j].1 as int) == w[j]
                },
        decreases spans.len() - k,
    {
        let (a, b) = spans[k];
        let ghost word = w[k as int];
        let is_rate_word = b - a >= suffix.len() && matches_at(s, &suffix, b - suffix.len());
        proof {
            if b - a >= 8 {
                assert(word.skip(word.len() - 8) =~= s@.subrange(b - 8, b as int));
            }
        }
        if is_rate_word {
            assert(ends_with(word, rate_suffix()));
            if k == 0 {
                return None;
            }
            let (na, nb) = spans[k - 1];
            if !check_float_literal(s, na, nb) {
                return None;
            }
            let unit = unit_of(s, a, b - suffix.len());
            assert(word.take(word.len() - 8) =~= s@.subrange(a as int, b - 8));
            match unit {
                Some(u) => {
                    let number = string_of_range(s, na, nb);
                    return Some(Rate { number, unit: u });
                },
                None => {
                    return None;
                },
            }
        }
        assert(!ends_with(word, rate_suffix()));
        k = k + 1;
    }
    None
}

/// Extracts the throughput from an iperf3 line: finds the first word of the form
/// `<prefix>bits/sec` and takes the number in the word before it.
/// E.g. `"...  985 Mbits/sec ..."` gives `985` Mbit/s.
pub fn parse_bandwidth_mbps(line: &str) -> (r: Option<Rate>)
    ensures
        match (r, line_rate(line@)) {
            (Some(x), Some(v)) => x@ == v,
            (None, None) => true,
            _ => false,
        },
{
    let s = chars_of(line);
    rate_of_chars(&s)
}

// ---------------------------------------------------------------------------
// Laws
// ---------------------------------------------------------------------------

/// Every reading's number is text that float parsing accepts, and it is one of
/// the line's words, standing right before a word that ends in `bits/sec`.
pub proof fn law_reading_is_a_number(line: Seq<char>)
    requires
        line_rate(line) is Some,
    ensures
        is_float_literal(line_rate(line)->0.number),
        exists|k: int|
            1 <= k < words(line).len() && words(line)[k - 1] == line_rate(line)->0.number
                && ends_with(#[trigger] words(line)[k], rate_suffix()),
{
    let k = first_rate_word(words(line), 0)->0;
    lemma_first_rate_word(words(line), 0);
    assert(ends_with(words(line)[k], rate_suffix()));
}

/// Plain decimal numbers are readings: digits, optionally followed by a point
/// and more digits, with or without a sign, are all accepted as numbers
/// (`0`, `0.00`, `985`, `9.45`, `-3.`, ...).
pub proof fn law_decimals_are_numbers(int_part: Seq<char>, frac: Seq<char>)
    requires
        int_part.len() > 0,
        forall|i: int| 0 <= i < int_part.len() ==> 48 <= (#[trigger] int_part[i] as u32) <= 57,
        forall|i: int| 0 <= i < frac.len() ==> 48 <= (#[trigger] frac[i] as u32) <= 57,
    ensures
        is_float_literal(int_part),
        is_float_literal(int_part + seq!['.'] + frac),
        is_float_literal(seq!['-'] + int_part + seq!['.'] + frac),
        is_float_literal(seq!['+'] + int_part),
{
    let m = int_part + seq!['.'] + frac;
    let p = int_part.len() as int;
    assert(m.take(p) =~= int_part);
    assert(m.skip(p + 1) =~= frac);
    assert(all_digits(m.take(p)));
    assert(all_digits(m.skip(p + 1)));
    assert(m[p] == '.');
    assert(is_mantissa(m));
    assert(all_digits(int_part));
    assert(!is_sign(int_part[0]));
    assert(!is_sign(m[0]));
    let neg = seq!['-'] + m;
    assert(neg.drop_first() =~= m);
    let pos = seq!['+'] + int_part;
    assert(pos.drop_first() =~= int_part);
    assert(seq!['-'] + int_part + seq!['.'] + frac =~= neg);
}

/// Numbers in exponent notation, and `inf`, `infinity`, `nan` in any ASCII
/// case, with or without a sign, are accepted too (as float parsing does).
pub proof fn law_exponents_and_specials_are_numbers(int_part: Seq<char>, exp: Seq<char>)
    requires
        int_part.len() > 0,
        exp.len() > 0,
        forall|i: int| 0 <= i < int_part.len() ==> 48 <= (#[trigger] int_part[i] as u32) <= 57,
        forall|i: int| 0 <= i < exp.len() ==> 48 <= (#[trigger] exp[i] as u32) <= 57,
    ensures
        is_float_literal(int_part + seq!['e'] + exp),
        is_float_literal(int_part + seq!['E', '-'] + exp),
        is_float_literal(seq!['i', 'n', 'f']),
        is_float_literal(seq!['-', 'I', 'n', 'F']),
        is_float_literal(seq!['+', 'I', 'N', 'F', 'I', 'N', 'I', 'T', 'Y']),
        is_float_literal(seq!['N', 'a', 'N']),
{
    let s1 = int_part + seq!['e'] + exp;
    let s2 = int_part + seq!['E', '-'] + exp;
    let k = int_part.len() as int;
    assert(s1.take(k) =~= int_part);
    assert(s2.take(k) =~= int_part);
    assert(s1.skip(k + 1) =~= exp);
    assert(s2.skip(k + 1) =~= seq!['-'] + exp);
    assert((seq!['-'] + exp).drop_first() =~= exp);
    assert(all_digits(int_part));
    assert(all_digits(exp));
    assert(is_exp_mark(s1[k]) && is_exp_mark(s2[k]));
    assert(is_mantissa(s1.take(k)));
    assert(is_mantissa(s2.take(k)));
    assert(!is_sign(s1[0]) && !is_sign(s2[0]));
    let a = seq!['-', 'I', 'n', 'F'];
    assert(a.drop_first() =~= seq!['I', 'n', 'F']);
    let b = seq!['+', 'I', 'N', 'F', 'I', 'N', 'I', 'T', 'Y'];
    assert(b.drop_first() =~= seq!['I', 'N', 'F', 'I', 'N', 'I', 'T', 'Y']);
    assert(spells(seq!['I', 'n', 'F'], seq!['i', 'n', 'f']));
    assert(spells(seq!['i', 'n', 'f'], seq!['i', 'n', 'f']));
    assert(spells(seq!['N', 'a', 'N'], seq!['n', 'a', 'n']));
    assert(spells(
        seq!['I', 'N', 'F', 'I', 'N', 'I', 'T', 'Y'],
        seq!['i', 'n', 'f', 'i', 'n', 'i', 't', 'y'],
    ));
}

/// The reading of a line comes from the first word that ends in `bits/sec`:
/// when that word is `bits/sec`, `Kbits/sec`, `kbits/sec`, `Mbits/sec`,
/// `Gbits/sec` or `Tbits/sec` and the word before it is a number, the reading
/// is that number in the matching unit.
pub proof fn law_reading_of_a_line(line: Seq<char>, k: int, prefix: Seq<char>, unit: RateUnit)
    requires
        1 <= k < words(line).len(),
        forall|i: int|
            0 <= i < k ==> !ends_with(
                #[trigger] words(line)[i],
                seq!['b', 'i', 't', 's', '/', 's', 'e', 'c'],
            ),
        words(line)[k] == prefix + seq!['b', 'i', 't', 's', '/', 's', 'e', 'c'],
        is_float_literal(words(line)[k - 1]),
        (prefix.len() == 0 && unit == RateUnit::Bits) || ((prefix == seq!['K'] || prefix
            == seq!['k']) && unit == RateUnit::Kilobits) || (prefix == seq!['M'] && unit
            == RateUnit::Megabits) || (prefix == seq!['G'] && unit == RateUnit::Gigabits) || (
        prefix == seq!['T'] && unit == RateUnit::Terabits),
    ensures
        line_rate(line) == Some(RateView { number: words(line)[k - 1], unit }),
{
    let w = words(line);
    let word = w[k];
    assert(word.skip(word.len() - 8) =~= rate_suffix());
    assert(word.take(word.len() - 8) =~= prefix);
    assert(seq!['K'][0] == 'K' && seq!['k'][0] == 'k' && seq!['M'][0] == 'M' && seq!['G'][0]
        == 'G' && seq!['T'][0] == 'T');
    assert(unit_of_prefix(prefix) == Some(unit));
    lemma_first_rate_word(w, 0);
    assert(first_rate_word(w, 0) == Some(k)) by {
        lemma_first_rate_word_is(w, 0, k);
    }
}

proof fn lemma_first_rate_word_is(w: Seq<Seq<char>>, j: int, k: int)
    requires
        0 <= j <= k < w.len(),
        ends_with(w[k], rate_suffix()),
        forall|i: int| j <= i < k ==> !ends_with(#[trigger] w[i], rate_suffix()),
    ensures
        first_rate_word(w, j) == Some(k),
    decreases k - j,
{
    if j < k {
        lemma_first_rate_word_is(w, j + 1, k);
    }
}

/// `first_rate_word` finds a word that ends in `bits/sec`, and the first one.
pub proof fn lemma_first_rate_word(w: Seq<Seq<char>>, k: int)
    requires
        0 <= k,
    ensures
        first_rate_word(w, k) matches Some(j) ==> k <= j < w.len() && ends_with(w[j], rate_suffix())
            && forall|i: int| k <= i < j ==> !ends_with(#[trigger] w[i], rate_suffix()),
    decreases w.len() - k,
{
    if k < w.len() && !ends_with(w[k], rate_suffix()) {
        lemma_first_rate_word(w, k + 1);
    }
}

} // verus!
