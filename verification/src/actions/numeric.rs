//! The text that `str::parse::<f64>` accepts, as a grammar:
//! `[+-]? ( inf | infinity | nan | Number )`, the words in any case, where
//! `Number = ( Digit+ | Digit+ '.' Digit* | Digit* '.' Digit+ ) ( [eE] [+-]? Digit+ )?`.
use vstd::prelude::*;
use crate::text::chars_of;

verus! {

pub open spec fn is_digit(c: char) -> bool {
    '0' <= c && c <= '9'
}

pub open spec fn all_digits(s: Seq<char>) -> bool {
    forall|i: int| 0 <= i < s.len() ==> is_digit(#[trigger] s[i])
}

/// ASCII lower-casing of one character.
pub open spec fn ascii_lower(c: char) -> char {
    if 'A' <= c && c <= 'Z' { ((c as u32) + 32) as char } else { c }
}

/// `s` equals `word` ignoring ASCII case (`word` is lower case).
pub open spec fn eq_ignore_case(s: Seq<char>, word: Seq<char>) -> bool {
    s.len() == word.len() && forall|i: int| 0 <= i < s.len() ==> ascii_lower(#[trigger] s[i]) == word[i]
}

/// Position of the first `e` or `E`, or the length when there is none.
pub open spec fn exp_pos(s: Seq<char>) -> int
    decreases s.len(),
{
    if s.len() == 0 {
        0
    } else if s[0] == 'e' || s[0] == 'E' {
        0
    } else {
        1 + exp_pos(s.drop_first())
    }
}

/// Position of the first `.`, or the length when there is none.
pub open spec fn dot_pos(s: Seq<char>) -> int
    decreases s.len(),
{
    if s.len() == 0 {
        0
    } else if s[0] == '.' {
        0
    } else {
        1 + dot_pos(s.drop_first())
    }
}

/// Digits with at most one `.`, and at least one digit.
pub open spec fn valid_mantissa(m: Seq<char>) -> bool {
    let d = dot_pos(m);
    if d == m.len() {
        m.len() > 0 && all_digits(m)
    } else {
        let int_part = m.take(d);
        let frac = m.skip(d + 1);
        all_digits(int_part) && all_digits(frac) && (int_part.len() > 0 || frac.len() > 0)
    }
}

/// `e` or `E`, an optional sign, then at least one digit.
pub open spec fn valid_exponent(x: Seq<char>) -> bool {
    x.len() > 0 && (x[0] == 'e' || x[0] == 'E') && {
        let r = x.drop_first();
        let digits = if r.len() > 0 && (r[0] == '+' || r[0] == '-') { r.drop_first() } else { r };
        digits.len() > 0 && all_digits(digits)
    }
}

/// A decimal number: mantissa, then an optional exponent.
pub open spec fn valid_number(b: Seq<char>) -> bool {
    let p = exp_pos(b);
    valid_mantissa(b.take(p)) && (p == b.len() || valid_exponent(b.skip(p)))
}

/// Whether `s` is text that parses as an `f64`.
pub open spec fn is_float_text(s: Seq<char>) -> bool {
    let body = if s.len() > 0 && (s[0] == '+' || s[0] == '-') { s.drop_first() } else { s };
    eq_ignore_case(body, "inf"@) || eq_ignore_case(body, "infinity"@) || eq_ignore_case(body, "nan"@)
        || valid_number(body)
}

proof fn lemma_exp_pos(s: Seq<char>)
    ensures
        0 <= exp_pos(s) <= s.len(),
        exp_pos(s) < s.len() ==> (s[exp_pos(s)] == 'e' || s[exp_pos(s)] == 'E'),
        forall|k: int| 0 <= k < exp_pos(s) ==> !(s[k] == 'e' || s[k] == 'E'),
    decreases s.len(),
{
    if s.len() > 0 && !(s[0] == 'e' || s[0] == 'E') {
        lemma_exp_pos(s.drop_first());
        assert forall|k: int| 0 <= k < exp_pos(s) implies !(s[k] == 'e' || s[k] == 'E') by {
            if k > 0 {
                assert(s[k] == s.drop_first()[k - 1]);
            }
        }
    }
}

proof fn lemma_dot_pos(s: Seq<char>)
    ensures
        0 <= dot_pos(s) <= s.len(),
        dot_pos(s) < s.len() ==> s[dot_pos(s)] == '.',
        forall|k: int| 0 <= k < dot_pos(s) ==> s[k] != '.',
    decreases s.len(),
{
    if s.len() > 0 && s[0] != '.' {
        lemma_dot_pos(s.drop_first());
        assert forall|k: int| 0 <= k < dot_pos(s) implies s[k] != '.' by {
            if k > 0 {
                assert(s[k] == s.drop_first()[k - 1]);
            }
        }
    }
}

proof fn lemma_first_pos(s: Seq<char>, i: int, dot: bool)
    requires
        0 <= i <= s.len(),
        i < s.len() ==> (if dot { s[i] == '.' } else { s[i] == 'e' || s[i] == 'E' }),
        forall|k: int| 0 <= k < i ==> (if dot { s[k] != '.' } else { !(s[k] == 'e' || s[k] == 'E') }),
    ensures
        (if dot { dot_pos(s) } else { exp_pos(s) }) == i,
{
    lemma_exp_pos(s);
    lemma_dot_pos(s);
    let p = if dot { dot_pos(s) } else { exp_pos(s) };
    if p < i {
        assert(if dot { s[p] != '.' } else { !(s[p] == 'e' || s[p] == 'E') });
    } else if i < p {
        assert(i < s.len());
    }
}

fn digits_exec(v: &[char], lo: usize, hi: usize) -> (b: bool)
    requires
        lo <= hi <= v@.len(),
    ensures
        b == all_digits(v@.subrange(lo as int, hi as int)),
{
    let mut i = lo;
    while i < hi
        invariant
            lo <= i <= hi <= v@.len(),
            forall|k: int| lo <= k < i ==> is_digit(v@[k]),
        decreases hi - i,
    {
        if !(v[i] >= '0' && v[i] <= '9') {
            proof {
                assert(v@.subrange(lo as int, hi as int)[i - lo] == v@[i as int]);
            }
            return false;
        }
        i = i + 1;
    }
    proof {
        let sub = v@.subrange(lo as int, hi as int);
        assert forall|k: int| 0 <= k < sub.len() implies is_digit(#[trigger] sub[k]) by {
            assert(sub[k] == v@[lo + k]);
        }
    }
    true
}

fn ascii_lower_exec(c: char) -> (r: char)
    ensures
        r == ascii_lower(c),
{
    if c >= 'A' && c <= 'Z' { (((c as u32) + 32) as u8) as char } else { c }
}

fn word_exec(v: &[char], lo: usize, word: &str) -> (b: bool)
    requires
        lo <= v@.len(),
    ensures
        b == eq_ignore_case(v@.skip(lo as int), word@),
{
    let w = chars_of(word);
    if v.len() - lo != w.len() {
        return false;
    }
    let mut i: usize = 0;
    while i < w.len()
        invariant
            w@ == word@,
            lo + w@.len() == v@.len(),
            i <= w@.len(),
            forall|k: int| 0 <= k < i ==> ascii_lower(v@[lo + k]) == w@[k],
        decreases w@.len() - i,
    {
        assert(lo + i < v.len());
        if ascii_lower_exec(v[lo + i]) != w[i] {
            proof {
                assert(v@.skip(lo as int)[i as int] == v@[lo + i]);
            }
            return false;
        }
        i = i + 1;
    }
    proof {
        let sk = v@.skip(lo as int);
        assert forall|k: int| 0 <= k < sk.len() implies ascii_lower(#[trigger] sk[k]) == word@[k] by {
            assert(sk[k] == v@[lo + k]);
        }
    }
    true
}

fn mantissa_exec(v: &[char], lo: usize, p: usize) -> (b: bool)
    requires
        lo <= p <= v@.len(),
    ensures
        b == valid_mantissa(v@.subrange(lo as int, p as int)),
{
    let ghost m = v@.subrange(lo as int, p as int);
    let mut d = lo;
    while d < p && v[d] != '.'
        invariant
            lo <= d <= p <= v@.len(),
            forall|k: int| lo <= k < d ==> v@[k] != '.',
        decreases p - d,
    {
        d = d + 1;
    }
    proof {
        assert forall|k: int| 0 <= k < d - lo implies m[k] != '.' by {
            assert(m[k] == v@[lo + k]);
        }
        if d < p {
            assert(m[d - lo] == v@[d as int]);
        }
        lemma_first_pos(m, d - lo, true);
    }
    if d == p {
        p > lo && digits_exec(v, lo, p)
    } else {
        proof {
            assert(m.take(d - lo) =~= v@.subrange(lo as int, d as int));
            assert(m.skip(d - lo + 1) =~= v@.subrange(d + 1, p as int));
        }
        digits_exec(v, lo, d) && digits_exec(v, d + 1, p) && (d > lo || p > d + 1)
    }
}

fn exponent_exec(v: &[char], p: usize) -> (b: bool)
    requires
        p < v@.len(),
        v@[p as int] == 'e' || v@[p as int] == 'E',
    ensures
        b == valid_exponent(v@.skip(p as int)),
{
    let n = v.len();
    let ghost x = v@.skip(p as int);
    let mut q = p + 1;
    if q < n && (v[q] == '+' || v[q] == '-') {
        q = q + 1;
    }
    proof {
        let r = x.drop_first();
        let digits = if r.len() > 0 && (r[0] == '+' || r[0] == '-') { r.drop_first() } else { r };
        assert(digits =~= v@.subrange(q as int, n as int));
    }
    q < n && digits_exec(v, q, n)
}

fn number_exec(v: &[char], lo: usize) -> (b: bool)
    requires
        lo <= v@.len(),
    ensures
        b == valid_number(v@.skip(lo as int)),
{
    let n = v.len();
    let ghost body = v@.skip(lo as int);
    let mut p = lo;
    while p < n && v[p] != 'e' && v[p] != 'E'
        invariant
            lo <= p <= n,
            n == v@.len(),
            forall|k: int| lo <= k < p ==> !(v@[k] == 'e' || v@[k] == 'E'),
        decreases n - p,
    {
        p = p + 1;
    }
    proof {
        assert forall|k: int| 0 <= k < p - lo implies !(body[k] == 'e' || body[k] == 'E') by {
            assert(body[k] == v@[lo + k]);
        }
        if p < n {
            assert(body[p - lo] == v@[p as int]);
        }
        lemma_first_pos(body, p - lo, false);
        assert(body.take(p - lo) =~= v@.subrange(lo as int, p as int));
    }
    if !mantissa_exec(v, lo, p) {
        return false;
    }
    if p == n {
        return true;
    }
    proof {
        assert(body.skip(p - lo) =~= v@.skip(p as int));
    }
    exponent_exec(v, p)
}

/// Whether `s` parses as an `f64` (what `s.parse::<f64>().is_ok()` decides).
pub fn is_float_str(s: &str) -> (b: bool)
    ensures
        b == is_float_text(s@),
{
    let v = chars_of(s);
    let n = v.len();
    let lo: usize = if n > 0 && (v[0] == '+' || v[0] == '-') { 1 } else { 0 };
    let ghost body = if s@.len() > 0 && (s@[0] == '+' || s@[0] == '-') { s@.drop_first() } else { s@ };
    proof {
        assert(body =~= v@.skip(lo as int));
    }
    word_exec(v.as_slice(), lo, "inf") || word_exec(v.as_slice(), lo, "infinity")
        || word_exec(v.as_slice(), lo, "nan") || number_exec(v.as_slice(), lo)
}

} // verus!
