//! Character-level string helpers shared by the whole library: specifications of
//! searching, trimming and decimal formatting, with verified implementations.
use vstd::prelude::*;
use crate::actions::form::{char_pos, lemma_char_pos, lemma_char_pos_at};

verus! {

/// Appends one character to a string (`String::push`).
#[verifier::external_body]
pub(crate) fn push_char(s: &mut String, c: char)
    ensures
        final(s)@ == old(s)@.push(c),
{
    s.push(c);
}

/// Appends a string slice to a string (`String::push_str`).
#[verifier::external_body]
pub(crate) fn push_str(s: &mut String, t: &str)
    ensures
        final(s)@ == old(s)@ + t@,
{
    s.push_str(t);
}

/// Converts a string slice into an owned string (`str::to_string`).
#[verifier::external_body]
pub(crate) fn to_owned_string(s: &str) -> (r: String)
    ensures
        r@ == s@,
{
    s.to_string()
}

/// The characters of a string, in order.
pub fn chars_of(s: &str) -> (v: Vec<char>)
    ensures
        v@ == s@,
{
    let mut v: Vec<char> = Vec::new();
    for ch in it: s.chars()
        invariant
            it.seq() == s@,
            v@ == s@.take(it.index() as int),
    {
        v.push(ch);
        proof {
            assert(s@.take(it.index() + 1) == s@.take(it.index() as int).push(ch));
        }
    }
    proof {
        assert(s@.take(s@.len() as int) == s@);
    }
    v
}

/// Builds a string from a slice of characters.
pub fn string_of(v: &[char]) -> (s: String)
    ensures
        s@ == v@,
{
    let mut s = String::new();
    let mut i: usize = 0;
    while i < v.len()
        invariant
            i <= v@.len(),
            s@ == v@.take(i as int),
        decreases v@.len() - i,
    {
        push_char(&mut s, v[i]);
        proof {
            assert(v@.take(i + 1) == v@.take(i as int).push(v@[i as int]));
        }
        i = i + 1;
    }
    proof {
        assert(v@.take(v@.len() as int) == v@);
    }
    s
}

/// `n` occurs in `h` starting at position `i`.
pub open spec fn occurs_at(h: Seq<char>, n: Seq<char>, i: int) -> bool {
    0 <= i && i + n.len() <= h.len() && h.subrange(i, i + n.len()) == n
}

/// `n` occurs somewhere in `h` (`str::contains` with a string pattern).
pub open spec fn seq_contains(h: Seq<char>, n: Seq<char>) -> bool {
    exists|i: int| #[trigger] occurs_at(h, n, i)
}

/// `h` contains the character `c`.
pub open spec fn has_char(h: Seq<char>, c: char) -> bool {
    exists|i: int| 0 <= i < h.len() && h[i] == c
}

/// Checks whether `n` occurs in `h` at position `i`.
pub fn occurs_at_exec(h: &[char], n: &[char], i: usize) -> (b: bool)
    ensures
        b == occurs_at(h@, n@, i as int),
{
    if n.len() > h.len() || i > h.len() - n.len() {
        return false;
    }
    let mut j: usize = 0;
    while j < n.len()
        invariant
            i + n@.len() <= h@.len(),
            j <= n@.len(),
            n@.len() <= h@.len(),
            forall|k: int| 0 <= k < j ==> h@[i + k] == n@[k],
        decreases n@.len() - j,
    {
        assert(i + j < h.len());
        if h[i + j] != n[j] {
            proof {
                assert(h@.subrange(i as int, i + n@.len())[j as int] != n@[j as int]);
            }
            return false;
        }
        j = j + 1;
    }
    proof {
        assert(h@.subrange(i as int, i + n@.len()) =~= n@);
    }
    true
}

/// The position of the first occurrence of `n` in `h`.
pub fn find_chars(h: &[char], n: &[char]) -> (r: Option<usize>)
    ensures
        match r {
            Some(i) => occurs_at(h@, n@, i as int) && forall|j: int| 0 <= j < i ==> !occurs_at(h@, n@, j),
            None => !seq_contains(h@, n@),
        },
        r is Some <==> seq_contains(h@, n@),
{
    if n.len() > h.len() {
        proof {
            assert forall|k: int| !occurs_at(h@, n@, k) by {}
        }
        return None;
    }
    let last = h.len() - n.len();
    let mut i: usize = 0;
    while i < last
        invariant
            last == h@.len() - n@.len(),
            i <= last,
            forall|j: int| 0 <= j < i ==> !occurs_at(h@, n@, j),
        decreases last - i,
    {
        if occurs_at_exec(h, n, i) {
            return Some(i);
        }
        i = i + 1;
    }
    if occurs_at_exec(h, n, last) {
        return Some(last);
    }
    i = last + 0;
    assert(forall|j: int| 0 <= j <= i ==> !occurs_at(h@, n@, j));
    proof {
        assert forall|k: int| !occurs_at(h@, n@, k) by {
            if 0 <= k && k + n@.len() <= h@.len() {
                assert(k <= i);
            }
        }
    }
    None
}

/// Whether `n` occurs in `h` (`str::contains`).
pub fn contains_str(h: &str, n: &str) -> (b: bool)
    ensures
        b == seq_contains(h@, n@),
{
    let hv = chars_of(h);
    let nv = chars_of(n);
    find_chars(hv.as_slice(), nv.as_slice()).is_some()
}

/// Whether `h` contains the character `c` (`str::contains` with a `char` pattern).
pub fn contains_char(h: &str, c: char) -> (b: bool)
    ensures
        b == has_char(h@, c),
{
    for ch in it: h.chars()
        invariant
            it.seq() == h@,
            forall|k: int| 0 <= k < it.index() ==> h@[k] != c,
    {
        if ch == c {
            return true;
        }
    }
    false
}

/// `p` is a prefix of `s`.
pub open spec fn is_prefix(p: Seq<char>, s: Seq<char>) -> bool {
    p.len() <= s.len() && s.subrange(0, p.len() as int) == p
}

/// `p` is a suffix of `s`.
pub open spec fn is_suffix(p: Seq<char>, s: Seq<char>) -> bool {
    p.len() <= s.len() && s.subrange(s.len() - p.len(), s.len() as int) == p
}

/// Whether `s` starts with `p` (`str::starts_with`).
pub fn starts_with(s: &str, p: &str) -> (b: bool)
    ensures
        b == is_prefix(p@, s@),
{
    let sv = chars_of(s);
    let pv = chars_of(p);
    occurs_at_exec(sv.as_slice(), pv.as_slice(), 0)
}

/// Whether `s` ends with `p` (`str::ends_with`).
pub fn ends_with(s: &str, p: &str) -> (b: bool)
    ensures
        b == is_suffix(p@, s@),
{
    let sv = chars_of(s);
    let pv = chars_of(p);
    if pv.len() > sv.len() {
        return false;
    }
    occurs_at_exec(sv.as_slice(), pv.as_slice(), sv.len() - pv.len())
}

/// The Unicode `White_Space` property (what `char::is_whitespace` tests).
pub open spec fn is_ws(c: char) -> bool {
    let u = c as u32;
    (0x9 <= u && u <= 0xD) || u == 0x20 || u == 0x85 || u == 0xA0 || u == 0x1680
        || (0x2000 <= u && u <= 0x200A) || u == 0x2028 || u == 0x2029 || u == 0x202F
        || u == 0x205F || u == 0x3000
}

/// Whether `c` is white space (`char::is_whitespace`).
pub fn is_whitespace(c: char) -> (b: bool)
    ensures
        b == is_ws(c),
{
    let u = c as u32;
    (0x9 <= u && u <= 0xD) || u == 0x20 || u == 0x85 || u == 0xA0 || u == 0x1680
        || (0x2000 <= u && u <= 0x200A) || u == 0x2028 || u == 0x2029 || u == 0x202F
        || u == 0x205F || u == 0x3000
}

/// Every character of `s` is white space: `s.trim()` is empty.
pub open spec fn is_blank(s: Seq<char>) -> bool {
    forall|i: int| 0 <= i < s.len() ==> is_ws(#[trigger] s[i])
}

/// Whether `s.trim().is_empty()`.
pub fn is_blank_str(s: &str) -> (b: bool)
    ensures
        b == is_blank(s@),
{
    for ch in it: s.chars()
        invariant
            it.seq() == s@,
            forall|k: int| 0 <= k < it.index() ==> is_ws(#[trigger] s@[k]),
    {
        if !is_whitespace(ch) {
            return false;
        }
    }
    true
}

/// Number of leading white-space characters of `s`.
pub open spec fn lead_ws(s: Seq<char>) -> nat
    decreases s.len(),
{
    if s.len() == 0 {
        0
    } else if is_ws(s[0]) {
        1 + lead_ws(s.drop_first())
    } else {
        0
    }
}

/// Number of trailing white-space characters of `s`.
pub open spec fn trail_ws(s: Seq<char>) -> nat
    decreases s.len(),
{
    if s.len() == 0 {
        0
    } else if is_ws(s.last()) {
        1 + trail_ws(s.drop_last())
    } else {
        0
    }
}

/// `s` with leading and trailing white space removed (`str::trim`).
pub open spec fn trim_spec(s: Seq<char>) -> Seq<char> {
    let a = lead_ws(s);
    let rest = s.skip(a as int);
    rest.take(rest.len() - trail_ws(rest))
}

proof fn lemma_lead_ws_bound(s: Seq<char>)
    ensures
        lead_ws(s) <= s.len(),
        forall|k: int| 0 <= k < lead_ws(s) ==> is_ws(#[trigger] s[k]),
        lead_ws(s) < s.len() ==> !is_ws(s[lead_ws(s) as int]),
    decreases s.len(),
{
    if s.len() > 0 && is_ws(s[0]) {
        lemma_lead_ws_bound(s.drop_first());
        assert forall|k: int| 0 <= k < lead_ws(s) implies is_ws(#[trigger] s[k]) by {
            if k > 0 {
                assert(s[k] == s.drop_first()[k - 1]);
            }
        }
    }
}

proof fn lemma_trail_ws_bound(s: Seq<char>)
    ensures
        trail_ws(s) <= s.len(),
        forall|k: int| s.len() - trail_ws(s) <= k < s.len() ==> is_ws(#[trigger] s[k]),
        trail_ws(s) < s.len() ==> !is_ws(s[s.len() - trail_ws(s) - 1]),
    decreases s.len(),
{
    if s.len() > 0 && is_ws(s.last()) {
        lemma_trail_ws_bound(s.drop_last());
        assert forall|k: int| s.len() - trail_ws(s) <= k < s.len() implies is_ws(#[trigger] s[k]) by {
            if k < s.len() - 1 {
                assert(s[k] == s.drop_last()[k]);
            }
        }
    }
}

proof fn lemma_lead_ws_unique(s: Seq<char>, a: nat)
    requires
        a <= s.len(),
        forall|k: int| 0 <= k < a ==> is_ws(#[trigger] s[k]),
        a < s.len() ==> !is_ws(s[a as int]),
    ensures
        lead_ws(s) == a,
    decreases s.len(),
{
    if s.len() > 0 && a > 0 {
        assert(is_ws(s[0]));
        assert forall|k: int| 0 <= k < a - 1 implies is_ws(#[trigger] s.drop_first()[k]) by {
            assert(s.drop_first()[k] == s[k + 1]);
        }
        if a - 1 < s.len() - 1 {
            assert(s.drop_first()[a - 1] == s[a as int]);
        }
        lemma_lead_ws_unique(s.drop_first(), (a - 1) as nat);
    }
}

proof fn lemma_trail_ws_unique(s: Seq<char>, b: nat)
    requires
        b <= s.len(),
        forall|k: int| s.len() - b <= k < s.len() ==> is_ws(#[trigger] s[k]),
        b < s.len() ==> !is_ws(s[s.len() - b - 1]),
    ensures
        trail_ws(s) == b,
    decreases s.len(),
{
    if s.len() > 0 && b > 0 {
        assert(is_ws(s[s.len() - 1]));
        let t = s.drop_last();
        assert forall|k: int| t.len() - (b - 1) <= k < t.len() implies is_ws(#[trigger] t[k]) by {
            assert(t[k] == s[k]);
        }
        if b - 1 < t.len() {
            assert(t[t.len() - (b - 1) - 1] == s[s.len() - b - 1]);
        }
        lemma_trail_ws_unique(t, (b - 1) as nat);
    }
}

/// `s` with leading and trailing white space removed (`str::trim`).
pub fn trim(s: &str) -> (r: String)
    ensures
        r@ == trim_spec(s@),
{
    let v = chars_of(s);
    let n = v.len();
    let mut a: usize = 0;
    while a < n && is_whitespace(v[a])
        invariant
            n == v@.len(),
            a <= n,
            forall|k: int| 0 <= k < a ==> is_ws(#[trigger] v@[k]),
        decreases n - a,
    {
        a = a + 1;
    }
    let mut b: usize = n;
    while b > a && is_whitespace(v[b - 1])
        invariant
            n == v@.len(),
            a <= b <= n,
            forall|k: int| b <= k < n ==> is_ws(#[trigger] v@[k]),
        decreases b - a,
    {
        b = b - 1;
    }
    proof {
        lemma_lead_ws_unique(s@, a as nat);
        let rest = s@.skip(a as int);
        assert forall|k: int| rest.len() - (n - b) <= k < rest.len() implies is_ws(#[trigger] rest[k]) by {
            assert(rest[k] == s@[k + a]);
        }
        if n - b < rest.len() {
            assert(rest[rest.len() - (n - b) - 1] == s@[b - 1]);
        }
        lemma_trail_ws_unique(rest, (n - b) as nat);
    }
    let r = string_of(&v.as_slice()[a..b]);
    proof {
        assert(r@ =~= trim_spec(s@));
    }
    r
}

/// The length in bytes of the UTF-8 encoding of `s`, as `str::len` returns it.
pub open spec fn byte_len(s: Seq<char>) -> usize {
    vstd::utf8::encode_utf8(s).len() as usize
}

/// Decimal digits of a natural number, most significant first.
pub open spec fn decimal(n: nat) -> Seq<char>
    decreases n,
{
    if n < 10 {
        seq![digit_char(n)]
    } else {
        decimal(n / 10).push(digit_char(n % 10))
    }
}

/// The ASCII digit for a value below ten.
pub open spec fn digit_char(d: nat) -> char {
    if d == 0 { '0' } else if d == 1 { '1' } else if d == 2 { '2' } else if d == 3 { '3' }
    else if d == 4 { '4' } else if d == 5 { '5' } else if d == 6 { '6' } else if d == 7 { '7' }
    else if d == 8 { '8' } else { '9' }
}

fn digit(d: u64) -> (c: char)
    requires
        d < 10,
    ensures
        c == digit_char(d as nat),
{
    if d == 0 { '0' } else if d == 1 { '1' } else if d == 2 { '2' } else if d == 3 { '3' }
    else if d == 4 { '4' } else if d == 5 { '5' } else if d == 6 { '6' } else if d == 7 { '7' }
    else if d == 8 { '8' } else { '9' }
}

/// Decimal text of an unsigned integer (what `Display` prints).
pub fn u64_to_string(n: u64) -> (s: String)
    ensures
        s@ == decimal(n as nat),
    decreases n,
{
    if n < 10 {
        let mut s = String::new();
        push_char(&mut s, digit(n));
        s
    } else {
        let mut s = u64_to_string(n / 10);
        push_char(&mut s, digit(n % 10));
        s
    }
}

/// Decimal text of a signed integer (what `Display` prints).
pub open spec fn signed_decimal(n: int) -> Seq<char> {
    if n < 0 { seq!['-'] + decimal((-n) as nat) } else { decimal(n as nat) }
}

/// Decimal text of a signed integer.
pub fn i64_to_string(n: i64) -> (s: String)
    ensures
        s@ == signed_decimal(n as int),
{
    if n < 0 {
        let m: u64 = if n == i64::MIN { 9223372036854775808u64 } else { (-n) as u64 };
        let mut s = String::new();
        push_char(&mut s, '-');
        let t = u64_to_string(m);
        s.append(t.as_str());
        s
    } else {
        u64_to_string(n as u64)
    }
}

} // verus!

verus! {

/// An empty string with room reserved for `cap` bytes (`String::with_capacity`).
#[verifier::external_body]
pub(crate) fn string_with_capacity(cap: usize) -> (s: String)
    ensures
        s@ == Seq::<char>::empty(),
{
    String::with_capacity(cap)
}

/// Whether two string slices hold the same characters.
pub fn str_eq(a: &str, b: &str) -> (r: bool)
    ensures
        r == (a@ == b@),
{
    let av = chars_of(a);
    let bv = chars_of(b);
    if av.len() != bv.len() {
        return false;
    }
    let r = occurs_at_exec(av.as_slice(), bv.as_slice(), 0);
    proof {
        assert(a@ =~= a@.subrange(0, b@.len() as int));
    }
    r
}

} // verus!

verus! {

/// Lexicographic order of strings by character code, as `Ord` orders `String`s.
pub open spec fn str_lt(a: Seq<char>, b: Seq<char>) -> bool
    decreases a.len(),
{
    if a.len() == 0 {
        b.len() > 0
    } else if b.len() == 0 {
        false
    } else if a[0] != b[0] {
        a[0] < b[0]
    } else {
        str_lt(a.drop_first(), b.drop_first())
    }
}

/// Exactly one of `a < b`, `a == b`, `b < a` holds.
pub proof fn lemma_str_lt_total(a: Seq<char>, b: Seq<char>)
    ensures
        str_lt(a, b) || a == b || str_lt(b, a),
        !(str_lt(a, b) && str_lt(b, a)),
        !(str_lt(a, b) && a == b),
    decreases a.len(),
{
    if a.len() > 0 && b.len() > 0 {
        if a[0] == b[0] {
            lemma_str_lt_total(a.drop_first(), b.drop_first());
            if a.drop_first() == b.drop_first() {
                assert(a == seq![a[0]] + a.drop_first());
                assert(b == seq![b[0]] + b.drop_first());
            }
        } else {
        }
    } else if a.len() == 0 && b.len() == 0 {
        assert(a == b);
    }
}

/// The order is transitive.
pub proof fn lemma_str_lt_trans(a: Seq<char>, b: Seq<char>, c: Seq<char>)
    requires
        str_lt(a, b),
        str_lt(b, c),
    ensures
        str_lt(a, c),
    decreases a.len(),
{
    if a.len() > 0 && b.len() > 0 && c.len() > 0 {
        if a[0] == b[0] && b[0] == c[0] {
            lemma_str_lt_trans(a.drop_first(), b.drop_first(), c.drop_first());
        }
    }
}

/// Whether `a` orders before `b`.
pub fn str_less(a: &str, b: &str) -> (r: bool)
    ensures
        r == str_lt(a@, b@),
{
    let av = chars_of(a);
    let bv = chars_of(b);
    let mut i: usize = 0;
    proof {
        assert(a@.skip(0) == a@);
        assert(b@.skip(0) == b@);
    }
    while i < av.len() && i < bv.len()
        invariant
            i <= av@.len(),
            i <= bv@.len(),
            av@ == a@,
            bv@ == b@,
            str_lt(a@, b@) == str_lt(a@.skip(i as int), b@.skip(i as int)),
        decreases av@.len() - i,
    {
        proof {
            let x = a@.skip(i as int);
            let y = b@.skip(i as int);
            assert(x[0] == av@[i as int]);
            assert(y[0] == bv@[i as int]);
            assert(x.drop_first() == a@.skip(i + 1));
            assert(y.drop_first() == b@.skip(i + 1));
        }
        if av[i] != bv[i] {
            return av[i] < bv[i];
        }
        i = i + 1;
    }
    i < bv.len() && i >= av.len()
}

} // verus!

verus! {

/// The parts joined with `sep` between consecutive ones (`[String]::join`).
pub open spec fn join(parts: Seq<Seq<char>>, sep: Seq<char>) -> Seq<char>
    decreases parts.len(),
{
    if parts.len() == 0 {
        seq![]
    } else if parts.len() == 1 {
        parts[0]
    } else {
        join(parts.drop_last(), sep) + sep + parts.last()
    }
}

/// Joins strings with a separator.
pub fn join_strings(parts: &Vec<String>, sep: &str) -> (r: String)
    ensures
        r@ == join(parts@.map_values(|s: String| s@), sep@),
{
    let ghost pv = parts@.map_values(|s: String| s@);
    let mut r = String::new();
    let mut i: usize = 0;
    while i < parts.len()
        invariant
            i <= parts@.len(),
            pv == parts@.map_values(|s: String| s@),
            r@ == join(pv.take(i as int), sep@),
        decreases parts@.len() - i,
    {
        if i > 0 {
            push_str(&mut r, sep);
        }
        push_str(&mut r, parts[i].as_str());
        proof {
            assert(pv.take(i + 1).drop_last() == pv.take(i as int));
            assert(pv.take(i + 1).last() == parts@[i as int]@);
            if i == 0 {
                assert(pv.take(1)[0] == parts@[0]@);
            }
        }
        i = i + 1;
    }
    proof {
        assert(pv.take(parts@.len() as int) == pv);
    }
    r
}

} // verus!

verus! {

/// `m` with the first occurrence of `pat` replaced by `rep` (`str::replacen(_, _, 1)`).
pub open spec fn replace_first(m: Seq<char>, pat: Seq<char>, rep: Seq<char>) -> Seq<char> {
    if seq_contains(m, pat) {
        let i = choose|i: int| occurs_at(m, pat, i) && forall|j: int| 0 <= j < i ==> !occurs_at(m, pat, j);
        m.take(i) + rep + m.skip(i + pat.len())
    } else {
        m
    }
}

proof fn lemma_first_occurrence_unique(m: Seq<char>, pat: Seq<char>, i: int, k: int)
    requires
        occurs_at(m, pat, i) && forall|j: int| 0 <= j < i ==> !occurs_at(m, pat, j),
        occurs_at(m, pat, k) && forall|j: int| 0 <= j < k ==> !occurs_at(m, pat, j),
    ensures
        i == k,
{
    if i < k {
        assert(!occurs_at(m, pat, i));
    } else if k < i {
        assert(!occurs_at(m, pat, k));
    }
}

/// Replaces the first occurrence of `pat` in `m` by `rep`.
pub fn replace_first_str(m: &str, pat: &str, rep: &str) -> (r: String)
    ensures
        r@ == replace_first(m@, pat@, rep@),
{
    let mv = chars_of(m);
    let pv = chars_of(pat);
    match find_chars(mv.as_slice(), pv.as_slice()) {
        Some(i) => {
            let mut r = string_of(&mv.as_slice()[0..i]);
            push_str(&mut r, rep);
            assert(i + pv.len() <= mv.len());
            let tail = string_of(&mv.as_slice()[i + pv.len()..mv.len()]);
            push_str(&mut r, tail.as_str());
            proof {
                let c = choose|c: int| occurs_at(m@, pat@, c) && forall|j: int| 0 <= j < c ==> !occurs_at(m@, pat@, j);
                assert(occurs_at(m@, pat@, i as int));
                lemma_first_occurrence_unique(m@, pat@, i as int, c);
                assert(r@ =~= replace_first(m@, pat@, rep@));
            }
            r
        },
        None => to_owned_string(m),
    }
}


/// A line without the carriage return that ends it, if one does.
pub open spec fn strip_cr(line: Seq<char>) -> Seq<char> {
    if line.len() > 0 && line.last() == '\r' {
        line.drop_last()
    } else {
        line
    }
}

/// Each line of `s`, as `str::lines` splits it, after `prefix` and ended by a
/// newline.
pub open spec fn prefixed_lines(prefix: Seq<char>, s: Seq<char>) -> Seq<char>
    decreases s.len(),
{
    if s.len() == 0 {
        seq![]
    } else {
        let i = char_pos(s, '\n');
        if i < 0 {
            prefix + s + "\n"@
        } else {
            proof {
                lemma_char_pos(s, '\n');
            }
            prefix + strip_cr(s.take(i)) + "\n"@ + prefixed_lines(prefix, s.skip(i + 1))
        }
    }
}

proof fn lemma_lines_step(prefix: Seq<char>, s: Seq<char>, start: int, i: int)
    requires
        0 <= start <= i < s.len(),
        s[i] == '\n',
        forall|k: int| start <= k < i ==> s[k] != '\n',
    ensures
        prefixed_lines(prefix, s.skip(start)) == prefix + strip_cr(s.subrange(start, i)) + "\n"@ + prefixed_lines(prefix, s.skip(i + 1)),
{
    let t = s.skip(start);
    lemma_char_pos_at(t, '\n', i - start);
    assert(t.take(i - start) =~= s.subrange(start, i));
    assert(t.skip(i - start + 1) =~= s.skip(i + 1));
}

proof fn lemma_lines_last(prefix: Seq<char>, s: Seq<char>, start: int)
    requires
        0 <= start <= s.len(),
        forall|k: int| start <= k < s.len() ==> s[k] != '\n',
    ensures
        prefixed_lines(prefix, s.skip(start)) == if start < s.len() { prefix + s.skip(start) + "\n"@ } else { Seq::<char>::empty() },
{
    let t = s.skip(start);
    lemma_char_pos_at(t, '\n', t.len() as int);
}

/// Appends `chars[from..to]` to `out`.
fn push_range(out: &mut String, chars: &Vec<char>, from: usize, to: usize)
    requires
        from <= to <= chars@.len(),
    ensures
        final(out)@ == old(out)@ + chars@.subrange(from as int, to as int),
{
    let ghost s0 = out@;
    let mut j = from;
    while j < to
        invariant
            from <= j <= to,
            to <= chars@.len(),
            out@ == s0 + chars@.subrange(from as int, j as int),
        decreases to - j,
    {
        push_char(out, chars[j]);
        proof {
            assert(chars@.subrange(from as int, j + 1) =~= chars@.subrange(from as int, j as int).push(chars@[j as int]));
        }
        j = j + 1;
    }
}

/// Appends each line of `s` after `prefix`, each ended by a newline.
pub fn push_prefixed_lines(out: &mut String, prefix: &str, s: &str)
    ensures
        final(out)@ == old(out)@ + prefixed_lines(prefix@, s@),
{
    let ghost s0 = out@;
    let chars = chars_of(s);
    let ghost cs = chars@;
    let mut start: usize = 0;
    let mut i: usize = 0;
    proof {
        assert(cs.skip(0) =~= cs);
    }
    while i < chars.len()
        invariant
            start <= i <= chars@.len(),
            cs == chars@,
            cs == s@,
            forall|k: int| start <= k < i ==> cs[k] != '\n',
            s0 + prefixed_lines(prefix@, cs) == out@ + prefixed_lines(prefix@, cs.skip(start as int)),
        decreases chars@.len() - i,
    {
        if chars[i] == '\n' {
            proof {
                lemma_lines_step(prefix@, cs, start as int, i as int);
            }
            let ghost o0 = out@;
            push_str(out, prefix);
            let mut end = i;
            if end > start && chars[end - 1] == '\r' {
                end = end - 1;
            }
            push_range(out, &chars, start, end);
            push_char(out, '\n');
            proof {
                reveal_strlit("\n");
                assert(strip_cr(cs.subrange(start as int, i as int)) =~= cs.subrange(start as int, end as int));
                assert(out@ =~= o0 + (prefix@ + strip_cr(cs.subrange(start as int, i as int)) + "\n"@));
            }
            start = i + 1;
        }
        i = i + 1;
    }
    proof {
        lemma_lines_last(prefix@, cs, start as int);
    }
    if start < chars.len() {
        let ghost o0 = out@;
        push_str(out, prefix);
        push_range(out, &chars, start, chars.len());
        push_char(out, '\n');
        proof {
            reveal_strlit("\n");
            assert(cs.skip(start as int) =~= cs.subrange(start as int, cs.len() as int));
            assert(out@ =~= o0 + (prefix@ + cs.skip(start as int) + "\n"@));
        }
    }
    proof {
        assert(out@ =~= s0 + prefixed_lines(prefix@, cs));
    }
}

} // verus!

verus! {

/// The lower-case form of a text, as Unicode defines it.
pub uninterp spec fn lowercase(s: Seq<char>) -> Seq<char>;

/// The upper-case form of a text, as Unicode defines it.
pub uninterp spec fn uppercase(s: Seq<char>) -> Seq<char>;

/// `str::to_lowercase`: the text with every character in lower case.
#[verifier::external_body]
pub(crate) fn to_lower(s: &str) -> (r: String)
    ensures
        r@ == lowercase(s@),
{
    s.to_lowercase()
}

/// `str::to_uppercase`: the text with every character in upper case.
#[verifier::external_body]
pub(crate) fn to_upper(s: &str) -> (r: String)
    ensures
        r@ == uppercase(s@),
{
    s.to_uppercase()
}

} // verus!
