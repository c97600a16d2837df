//! Debug renderings of values, as the standard formatter writes them.
use vstd::prelude::*;
use vstd::utf8::encode_utf8;
use crate::text::join;

verus! {

/// The `Debug` text of a string: quoted, with special characters escaped.
pub uninterp spec fn debug_str(s: Seq<char>) -> Seq<char>;

/// The `Debug` text of a list of strings: each item's `Debug` text, separated
/// by `, `, in square brackets.
pub open spec fn debug_strings(v: Seq<Seq<char>>) -> Seq<char> {
    "["@ + join(v.map_values(|s: Seq<char>| debug_str(s)), ", "@) + "]"@
}

/// The `Debug` text of an optional string: `None`, or `Some(` and the
/// string's `Debug` text and `)`.
pub open spec fn debug_opt_str(o: Option<Seq<char>>) -> Seq<char> {
    match o {
        Some(s) => "Some("@ + debug_str(s) + ")"@,
        None => "None"@,
    }
}

/// `format!("{:?}", s)` for a string slice.
#[verifier::external_body]
pub(crate) fn debug_text(s: &str) -> (r: String)
    ensures
        r@ == debug_str(s@),
{
    format!("{:?}", s)
}

/// `format!("{:?}", v)` for a list of strings.
#[verifier::external_body]
pub(crate) fn debug_list(v: &Vec<String>) -> (r: String)
    ensures
        r@ == debug_strings(v@.map_values(|s: String| s@)),
{
    format!("{:?}", v)
}

/// `format!("{:?}", o)` for an optional string.
#[verifier::external_body]
pub(crate) fn debug_option(o: &Option<String>) -> (r: String)
    ensures
        r@ == debug_opt_str(match o {
            Some(s) => Some(s@),
            None => None,
        }),
{
    format!("{:?}", o)
}

/// Whether `n` bytes into the UTF-8 text of `s` a character starts (or the
/// text ends).
pub open spec fn char_boundary(s: Seq<char>, n: int) -> bool {
    exists|k: int| 0 <= k <= s.len() && #[trigger] encode_utf8(s.take(k)).len() == n
}

/// `&s[..n]`: the characters of the first `n` bytes; `n` must fall on a
/// character boundary.
#[verifier::external_body]
pub(crate) fn byte_prefix(s: &str, n: usize) -> (r: &str)
    requires
        char_boundary(s@, n as int),
    ensures
        r@.len() <= s@.len(),
        r@ == s@.take(r@.len() as int),
        encode_utf8(r@).len() == n,
{
    &s[..n]
}

} // verus!
