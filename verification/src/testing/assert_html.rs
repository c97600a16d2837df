//! Assertions on rendered HTML for tests: presence, absence, attributes and
//! script injection.
use vstd::prelude::*;
use vstd::utf8::encode_utf8;
use crate::testing::debug::{byte_prefix, char_boundary, debug_str, debug_text};
use crate::text::{chars_of, contains_str, decimal, find_chars, lowercase, occurs_at, push_char, push_str,
    seq_contains, string_with_capacity, to_lower, u64_to_string};

verus! {

/// How many bytes of the HTML a failure message shows.
pub open spec fn shown_bytes(html: Seq<char>) -> int {
    if encode_utf8(html).len() < 500 { encode_utf8(html).len() as int } else { 500 }
}

/// Whether `p` is the start of `html` a failure message shows.
pub open spec fn is_shown_head(html: Seq<char>, p: Seq<char>) -> bool {
    p.len() <= html.len() && p == html.take(p.len() as int) && encode_utf8(p).len() == shown_bytes(html)
}

/// Ok when `needle` occurs in `html`; else an error quoting the needle and
/// the first 500 bytes of the HTML, which must end on a character boundary.
pub fn assert_contains(html: &str, needle: &str) -> (r: Result<(), String>)
    requires
        !seq_contains(html@, needle@) && encode_utf8(html@).len() > 500 ==> char_boundary(html@, 500),
    ensures
        r is Ok <==> seq_contains(html@, needle@),
        r matches Err(m) ==> exists|p: Seq<char>| is_shown_head(html@, p)
            && m@ == "HTML does not contain: "@ + debug_str(needle@) + "\nHTML (first 500 chars): "@ + p,
{
    if contains_str(html, needle) {
        return Ok(());
    }
    let bl = html.as_bytes().len();
    let n = if bl < 500 { bl } else { 500 };
    proof {
        if encode_utf8(html@).len() < 500 {
            assert(html@.take(html@.len() as int) =~= html@);
            assert(encode_utf8(html@.take(html@.len() as int)).len() == n);
        }
    }
    let head = byte_prefix(html, n);
    let mut m = string_with_capacity(0);
    push_str(&mut m, "HTML does not contain: ");
    let q = debug_text(needle);
    push_str(&mut m, q.as_str());
    push_str(&mut m, "\nHTML (first 500 chars): ");
    push_str(&mut m, head);
    assert(is_shown_head(html@, head@));
    Err(m)
}

/// The first `i` characters as a string.
fn prefix_string(v: &Vec<char>, i: usize) -> (s: String)
    requires
        i <= v@.len(),
    ensures
        s@ == v@.take(i as int),
{
    let mut s = string_with_capacity(0);
    let mut k: usize = 0;
    while k < i
        invariant
            k <= i,
            i <= v@.len(),
            s@ == v@.take(k as int),
        decreases i - k,
    {
        push_char(&mut s, v[k]);
        proof {
            assert(v@.take(k + 1) =~= v@.take(k as int).push(v@[k as int]));
        }
        k = k + 1;
    }
    s
}

/// Ok when `needle` does not occur in `html`; else an error quoting it with
/// the byte position of its first occurrence.
pub fn assert_not_contains(html: &str, needle: &str) -> (r: Result<(), String>)
    ensures
        r is Ok <==> !seq_contains(html@, needle@),
        r matches Err(m) ==> exists|i: int| occurs_at(html@, needle@, i)
            && (forall|j: int| 0 <= j < i ==> !occurs_at(html@, needle@, j))
            && m@ == "HTML unexpectedly contains: "@ + debug_str(needle@) + " at position "@
                + decimal(encode_utf8(html@.take(i)).len()),
{
    let hv = chars_of(html);
    let nv = chars_of(needle);
    match find_chars(hv.as_slice(), nv.as_slice()) {
        None => Ok(()),
        Some(i) => {
            let before = prefix_string(&hv, i);
            let pos = before.as_str().as_bytes().len();
            let mut m = string_with_capacity(0);
            push_str(&mut m, "HTML unexpectedly contains: ");
            let q = debug_text(needle);
            push_str(&mut m, q.as_str());
            push_str(&mut m, " at position ");
            let ps = u64_to_string(pos as u64);
            push_str(&mut m, ps.as_str());
            assert(m@ == "HTML unexpectedly contains: "@ + debug_str(needle@) + " at position "@
                + decimal(encode_utf8(html@.take(i as int)).len()));
            Err(m)
        },
    }
}

/// Ok when the HTML holds `attr="value"` literally; else an error naming it.
pub fn assert_attr(html: &str, attr: &str, value: &str) -> (r: Result<(), String>)
    ensures
        r is Ok <==> seq_contains(html@, attr@ + "=\""@ + value@ + "\""@),
        r matches Err(m) ==> m@ == "HTML does not contain attribute "@ + attr@ + "="@ + debug_str(value@),
{
    let mut pattern = string_with_capacity(0);
    push_str(&mut pattern, attr);
    push_str(&mut pattern, "=\"");
    push_str(&mut pattern, value);
    push_str(&mut pattern, "\"");
    if contains_str(html, pattern.as_str()) {
        Ok(())
    } else {
        let mut m = string_with_capacity(0);
        push_str(&mut m, "HTML does not contain attribute ");
        push_str(&mut m, attr);
        push_str(&mut m, "=");
        let q = debug_text(value);
        push_str(&mut m, q.as_str());
        Err(m)
    }
}

/// The patterns that reveal a script injection, checked in this order.
pub open spec fn injection_patterns() -> Seq<Seq<char>> {
    seq!["<script"@, "javascript:"@, "onerror="@, "onload="@, "onclick="@, "onmouseover="@, "eval("@,
        "document.cookie"@]
}

/// The index of the first pattern that occurs in `text`.
pub open spec fn first_found(text: Seq<char>, pats: Seq<Seq<char>>) -> Option<int>
    decreases pats.len(),
{
    if pats.len() == 0 {
        None
    } else {
        match first_found(text, pats.drop_last()) {
            Some(i) => Some(i),
            None => if seq_contains(text, pats.last()) { Some(pats.len() - 1) } else { None },
        }
    }
}

proof fn lemma_first_found(text: Seq<char>, pats: Seq<Seq<char>>, i: int)
    requires
        0 <= i <= pats.len(),
        forall|j: int| 0 <= j < i ==> !seq_contains(text, pats[j]),
        i < pats.len() ==> seq_contains(text, pats[i]),
    ensures
        first_found(text, pats) == if i < pats.len() { Some(i) } else { None::<int> },
    decreases pats.len(),
{
    if pats.len() > 0 {
        let t = pats.drop_last();
        let k = if i < pats.len() - 1 { i } else { pats.len() - 1 };
        assert forall|j: int| 0 <= j < k implies !seq_contains(text, t[j]) by {
            assert(t[j] == pats[j]);
        }
        if i < pats.len() - 1 {
            assert(t[i] == pats[i]);
        }
        lemma_first_found(text, t, k);
    }
}

/// Ok when no injection pattern occurs in the lower-cased HTML; else an error
/// quoting the first pattern found.
pub fn assert_no_script_injection(html: &str) -> (r: Result<(), String>)
    ensures
        match first_found(lowercase(html@), injection_patterns()) {
            None => r is Ok,
            Some(i) => r matches Err(m) && m@ == "Potential script injection detected: "@
                + debug_str(injection_patterns()[i]) + " found in HTML"@,
        },
{
    let patterns = ["<script", "javascript:", "onerror=", "onload=", "onclick=", "onmouseover=", "eval(",
        "document.cookie"];
    proof {
        assert(patterns@.map_values(|p: &str| p@) =~= injection_patterns());
    }
    let lower = to_lower(html);
    let mut i: usize = 0;
    while i < 8
        invariant
            i <= 8,
            patterns@.len() == 8,
            patterns@.map_values(|p: &str| p@) == injection_patterns(),
            lower@ == lowercase(html@),
            forall|j: int| 0 <= j < i ==> !seq_contains(lower@, injection_patterns()[j]),
        decreases 8 - i,
    {
        let p = patterns[i];
        assert(p@ == injection_patterns()[i as int]);
        if contains_str(lower.as_str(), p) {
            proof {
                lemma_first_found(lower@, injection_patterns(), i as int);
            }
            let mut m = string_with_capacity(0);
            push_str(&mut m, "Potential script injection detected: ");
            let q = debug_text(p);
            push_str(&mut m, q.as_str());
            push_str(&mut m, " found in HTML");
            return Err(m);
        }
        i = i + 1;
    }
    proof {
        lemma_first_found(lower@, injection_patterns(), 8);
    }
    Ok(())
}

} // verus!
