//! Escaping of text for HTML content, HTML attributes and URL components.
use vstd::prelude::*;
use crate::text::{is_prefix, push_char};
use vstd::string::StringSliceAdditionalSpecFns;

verus! {

/// What one character becomes in HTML content.
pub open spec fn html_char_escape(c: char) -> Seq<char> {
    if c == '&' {
        "&amp;"@
    } else if c == '<' {
        "&lt;"@
    } else if c == '>' {
        "&gt;"@
    } else if c == '"' {
        "&quot;"@
    } else if c == '\'' {
        "&#x27;"@
    } else if c == '/' {
        "&#x2F;"@
    } else {
        seq![c]
    }
}

/// `s` escaped for HTML content: each character replaced by its escape.
pub open spec fn escape_html_spec(s: Seq<char>) -> Seq<char>
    decreases s.len(),
{
    if s.len() == 0 {
        seq![]
    } else {
        escape_html_spec(s.drop_last()) + html_char_escape(s.last())
    }
}

/// What one character becomes inside a double-quoted attribute value.
pub open spec fn attr_char_escape(c: char) -> Seq<char> {
    if c == '&' {
        "&amp;"@
    } else if c == '"' {
        "&quot;"@
    } else if c == '<' {
        "&lt;"@
    } else if c == '>' {
        "&gt;"@
    } else if c == '\'' {
        "&#x27;"@
    } else {
        seq![c]
    }
}

/// `s` escaped for a double-quoted HTML attribute value.
pub open spec fn escape_attr_spec(s: Seq<char>) -> Seq<char>
    decreases s.len(),
{
    if s.len() == 0 {
        seq![]
    } else {
        escape_attr_spec(s.drop_last()) + attr_char_escape(s.last())
    }
}

/// The characters that can end a tag, open one, or end a quoted attribute value.
pub open spec fn is_markup_char(c: char) -> bool {
    c == '<' || c == '>' || c == '"' || c == '\''
}

/// No character of `s` can open or close markup or a quoted attribute.
pub open spec fn markup_free(s: Seq<char>) -> bool {
    forall|i: int| 0 <= i < s.len() ==> !is_markup_char(#[trigger] s[i])
}

/// Appends `s`, escaped for HTML content, to `out`.
pub fn escape_html_into(s: &str, out: &mut String)
    ensures
        final(out)@ == old(out)@ + escape_html_spec(s@),
{
    let ghost start = out@;
    for ch in it: s.chars()
        invariant
            it.seq() == s@,
            out@ == start + escape_html_spec(s@.take(it.index() as int)),
    {
        proof {
            assert(s@.take(it.index() + 1).drop_last() == s@.take(it.index() as int));
        }
        if ch == '&' {
            out.append("&amp;");
        } else if ch == '<' {
            out.append("&lt;");
        } else if ch == '>' {
            out.append("&gt;");
        } else if ch == '"' {
            out.append("&quot;");
        } else if ch == '\'' {
            out.append("&#x27;");
        } else if ch == '/' {
            out.append("&#x2F;");
        } else {
            push_char(out, ch);
        }
        proof {
            assert(out@ == start + escape_html_spec(s@.take(it.index() as int)) + html_char_escape(ch));
        }
    }
    proof {
        assert(s@.take(s@.len() as int) == s@);
    }
}

/// Escapes text for safe insertion into HTML content.
pub fn escape_html(s: &str) -> (r: String)
    ensures
        r@ == escape_html_spec(s@),
{
    let mut out = String::new();
    escape_html_into(s, &mut out);
    out
}

/// Appends `s`, escaped for a double-quoted attribute value, to `out`.
pub fn escape_attr_into(s: &str, out: &mut String)
    ensures
        final(out)@ == old(out)@ + escape_attr_spec(s@),
{
    let ghost start = out@;
    for ch in it: s.chars()
        invariant
            it.seq() == s@,
            out@ == start + escape_attr_spec(s@.take(it.index() as int)),
    {
        proof {
            assert(s@.take(it.index() + 1).drop_last() == s@.take(it.index() as int));
        }
        if ch == '&' {
            out.append("&amp;");
        } else if ch == '"' {
            out.append("&quot;");
        } else if ch == '<' {
            out.append("&lt;");
        } else if ch == '>' {
            out.append("&gt;");
        } else if ch == '\'' {
            out.append("&#x27;");
        } else {
            push_char(out, ch);
        }
        proof {
            assert(out@ == start + escape_attr_spec(s@.take(it.index() as int)) + attr_char_escape(ch));
        }
    }
    proof {
        assert(s@.take(s@.len() as int) == s@);
    }
}

/// Escapes a value for use inside a double-quoted HTML attribute.
pub fn escape_attr(s: &str) -> (r: String)
    ensures
        r@ == escape_attr_spec(s@),
{
    let mut out = String::new();
    escape_attr_into(s, &mut out);
    out
}

/// Bytes that a URL component may hold as they are.
pub open spec fn is_unreserved(b: u8) -> bool {
    (0x41 <= b && b <= 0x5A) || (0x61 <= b && b <= 0x7A) || (0x30 <= b && b <= 0x39)
        || b == 0x2D || b == 0x5F || b == 0x2E || b == 0x7E
}

/// Upper-case hexadecimal digit of a value below sixteen.
pub open spec fn hex_upper(d: nat) -> char {
    if d < 10 {
        ((d + 0x30) as u8) as char
    } else {
        ((d - 10 + 0x41) as u8) as char
    }
}

/// What one byte becomes in a percent-encoded URL component.
pub open spec fn url_byte_escape(b: u8) -> Seq<char> {
    if is_unreserved(b) {
        seq![b as char]
    } else {
        seq!['%', hex_upper((b / 16) as nat), hex_upper((b % 16) as nat)]
    }
}

/// Percent-encoding of a byte sequence.
pub open spec fn escape_url_bytes(bs: Seq<u8>) -> Seq<char>
    decreases bs.len(),
{
    if bs.len() == 0 {
        seq![]
    } else {
        escape_url_bytes(bs.drop_last()) + url_byte_escape(bs.last())
    }
}

fn hex_digit_upper(d: u8) -> (c: char)
    requires
        d < 16,
    ensures
        c == hex_upper(d as nat),
{
    if d < 10 {
        (d + 0x30) as char
    } else {
        (d - 10 + 0x41) as char
    }
}

/// Percent-encodes a URL component: the UTF-8 bytes of `s`, each unreserved one
/// kept and every other one written as `%` and two upper-case hex digits.
pub fn escape_url(s: &str) -> (r: String)
    ensures
        r@ == escape_url_bytes(s.spec_bytes()),
{
    let bytes = s.as_bytes();
    let mut out = String::new();
    let mut i: usize = 0;
    while i < bytes.len()
        invariant
            bytes@ == s.spec_bytes(),
            i <= bytes@.len(),
            out@ == escape_url_bytes(bytes@.take(i as int)),
        decreases bytes@.len() - i,
    {
        let b = bytes[i];
        proof {
            assert(bytes@.take(i + 1).drop_last() == bytes@.take(i as int));
        }
        if (0x41 <= b && b <= 0x5A) || (0x61 <= b && b <= 0x7A) || (0x30 <= b && b <= 0x39)
            || b == 0x2D || b == 0x5F || b == 0x2E || b == 0x7E {
            push_char(&mut out, b as char);
        } else {
            push_char(&mut out, '%');
            push_char(&mut out, hex_digit_upper(b / 16));
            push_char(&mut out, hex_digit_upper(b % 16));
        }
        proof {
            assert(out@ =~= escape_url_bytes(bytes@.take(i as int)) + url_byte_escape(b));
        }
        i = i + 1;
    }
    proof {
        assert(bytes@.take(bytes@.len() as int) == bytes@);
    }
    out
}

/// Decoding of escaped HTML content: each of the six entities that
/// `escape_html` writes becomes its character again; every other character
/// stays.
pub open spec fn unescape_html_spec(t: Seq<char>) -> Seq<char>
    decreases t.len(),
{
    if t.len() == 0 {
        seq![]
    } else if is_prefix(seq!['&', 'a', 'm', 'p', ';'], t) {
        seq!['&'] + unescape_html_spec(t.skip(5))
    } else if is_prefix(seq!['&', 'l', 't', ';'], t) {
        seq!['<'] + unescape_html_spec(t.skip(4))
    } else if is_prefix(seq!['&', 'g', 't', ';'], t) {
        seq!['>'] + unescape_html_spec(t.skip(4))
    } else if is_prefix(seq!['&', 'q', 'u', 'o', 't', ';'], t) {
        seq!['"'] + unescape_html_spec(t.skip(6))
    } else if is_prefix(seq!['&', '#', 'x', '2', '7', ';'], t) {
        seq!['\''] + unescape_html_spec(t.skip(6))
    } else if is_prefix(seq!['&', '#', 'x', '2', 'F', ';'], t) {
        seq!['/'] + unescape_html_spec(t.skip(6))
    } else {
        seq![t[0]] + unescape_html_spec(t.skip(1))
    }
}

proof fn lemma_unescape_char(c: char, r: Seq<char>)
    ensures
        unescape_html_spec(html_char_escape(c) + r) == seq![c] + unescape_html_spec(r),
{
    reveal_strlit("&amp;");
    reveal_strlit("&lt;");
    reveal_strlit("&gt;");
    reveal_strlit("&quot;");
    reveal_strlit("&#x27;");
    reveal_strlit("&#x2F;");
    let e = html_char_escape(c);
    let t = e + r;
    assert(t.skip(e.len() as int) =~= r);
    assert(t.subrange(0, e.len() as int) =~= e);
    if c == '&' {
        assert(e =~= seq!['&', 'a', 'm', 'p', ';']);
    } else if c == '<' {
        assert(e =~= seq!['&', 'l', 't', ';']);
        assert(t[1] == 'l');
    } else if c == '>' {
        assert(e =~= seq!['&', 'g', 't', ';']);
        assert(t[1] == 'g');
    } else if c == '"' {
        assert(e =~= seq!['&', 'q', 'u', 'o', 't', ';']);
        assert(t[1] == 'q');
    } else if c == '\'' {
        assert(e =~= seq!['&', '#', 'x', '2', '7', ';']);
        assert(t[1] == '#' && t[4] == '7');
    } else if c == '/' {
        assert(e =~= seq!['&', '#', 'x', '2', 'F', ';']);
        assert(t[1] == '#' && t[4] == 'F');
    } else {
        assert(e =~= seq![c]);
        assert(t[0] == c);
    }
}

/// Escaping loses nothing: decoding escaped text gives back the text, so two
/// different texts never escape alike.
pub proof fn law_escape_html_decodes_back(s: Seq<char>)
    ensures
        unescape_html_spec(escape_html_spec(s)) == s,
    decreases s.len(),
{
    if s.len() > 0 {
        let head = seq![s[0]];
        let tail = s.skip(1);
        assert(head + tail =~= s);
        escape_html_concat(head, tail);
        assert(head.drop_last() =~= Seq::<char>::empty());
        assert(head.last() == s[0]);
        assert(escape_html_spec(Seq::<char>::empty()) == Seq::<char>::empty());
        assert(escape_html_spec(head) =~= html_char_escape(s[0]));
        lemma_unescape_char(s[0], escape_html_spec(tail));
        law_escape_html_decodes_back(tail);
    }
}

/// `t` begins with one of the six entities that HTML escaping writes.
pub open spec fn starts_entity(t: Seq<char>) -> bool {
    ||| is_prefix("&amp;"@, t)
    ||| is_prefix("&lt;"@, t)
    ||| is_prefix("&gt;"@, t)
    ||| is_prefix("&quot;"@, t)
    ||| is_prefix("&#x27;"@, t)
    ||| is_prefix("&#x2F;"@, t)
}

proof fn lemma_starts_entity_append(t: Seq<char>, u: Seq<char>)
    requires
        starts_entity(t),
    ensures
        starts_entity(t + u),
{
    assert forall|p: Seq<char>| is_prefix(p, t) implies is_prefix(p, t + u) by {
        assert((t + u).subrange(0, p.len() as int) =~= t.subrange(0, p.len() as int));
    }
}

/// Escaped HTML content holds no `/`, and every `&` in it begins one of the
/// six entities: `&amp;`, `&lt;`, `&gt;`, `&quot;`, `&#x27;` or `&#x2F;`.
pub proof fn law_escape_html_entities(s: Seq<char>)
    ensures
        forall|i: int| 0 <= i < escape_html_spec(s).len() ==> #[trigger] escape_html_spec(s)[i] != '/',
        forall|i: int| 0 <= i < escape_html_spec(s).len() && #[trigger] escape_html_spec(s)[i] == '&'
            ==> starts_entity(escape_html_spec(s).skip(i)),
    decreases s.len(),
{
    if s.len() > 0 {
        law_escape_html_entities(s.drop_last());
        let a = escape_html_spec(s.drop_last());
        let c = s.last();
        let b = html_char_escape(c);
        let e = escape_html_spec(s);
        assert(e == a + b);
        reveal_strlit("&amp;");
        reveal_strlit("&lt;");
        reveal_strlit("&gt;");
        reveal_strlit("&quot;");
        reveal_strlit("&#x27;");
        reveal_strlit("&#x2F;");
        assert forall|i: int| 0 <= i < e.len() implies #[trigger] e[i] != '/' by {
            if i < a.len() {
                assert(e[i] == a[i]);
            } else {
                assert(e[i] == b[i - a.len()]);
            }
        }
        assert forall|i: int| 0 <= i < e.len() && #[trigger] e[i] == '&' implies starts_entity(e.skip(i)) by {
            if i < a.len() {
                assert(e[i] == a[i]);
                lemma_starts_entity_append(a.skip(i), b);
                assert(e.skip(i) =~= a.skip(i) + b);
            } else {
                assert(e[i] == b[i - a.len()]);
                assert(i == a.len());
                assert(e.skip(i) =~= b);
                assert(b.subrange(0, b.len() as int) =~= b);
            }
        }
    }
}

/// Escaped HTML content holds no character that could open or close markup or a
/// quoted attribute value, whatever the input.
pub proof fn escape_html_is_markup_free(s: Seq<char>)
    ensures
        markup_free(escape_html_spec(s)),
    decreases s.len(),
{
    if s.len() > 0 {
        escape_html_is_markup_free(s.drop_last());
        let a = escape_html_spec(s.drop_last());
        let b = html_char_escape(s.last());
        reveal_strlit("&amp;");
        reveal_strlit("&lt;");
        reveal_strlit("&gt;");
        reveal_strlit("&quot;");
        reveal_strlit("&#x27;");
        reveal_strlit("&#x2F;");
        assert forall|i: int| 0 <= i < (a + b).len() implies !is_markup_char(#[trigger] (a + b)[i]) by {
            if i >= a.len() {
                assert((a + b)[i] == b[i - a.len()]);
            } else {
                assert((a + b)[i] == a[i]);
            }
        }
    }
}

/// An escaped attribute value holds no character that could end the quoted value
/// or open a tag, whatever the input.
pub proof fn escape_attr_is_markup_free(s: Seq<char>)
    ensures
        markup_free(escape_attr_spec(s)),
    decreases s.len(),
{
    if s.len() > 0 {
        escape_attr_is_markup_free(s.drop_last());
        let a = escape_attr_spec(s.drop_last());
        let b = attr_char_escape(s.last());
        reveal_strlit("&amp;");
        reveal_strlit("&lt;");
        reveal_strlit("&gt;");
        reveal_strlit("&quot;");
        reveal_strlit("&#x27;");
        assert forall|i: int| 0 <= i < (a + b).len() implies !is_markup_char(#[trigger] (a + b)[i]) by {
            if i >= a.len() {
                assert((a + b)[i] == b[i - a.len()]);
            } else {
                assert((a + b)[i] == a[i]);
            }
        }
    }
}

/// Escaping distributes over concatenation: escaping two pieces one after the
/// other gives the escape of the whole.
pub proof fn escape_html_concat(a: Seq<char>, b: Seq<char>)
    ensures
        escape_html_spec(a + b) == escape_html_spec(a) + escape_html_spec(b),
    decreases b.len(),
{
    if b.len() == 0 {
        assert(a + b == a);
    } else {
        escape_html_concat(a, b.drop_last());
        assert((a + b).drop_last() == a + b.drop_last());
        assert((a + b).last() == b.last());
    }
}

/// Text free of the six special characters is written unchanged.
pub proof fn escape_html_plain_identity(s: Seq<char>)
    requires
        forall|i: int| 0 <= i < s.len() ==> !(#[trigger] s[i] == '&' || s[i] == '<' || s[i] == '>'
            || s[i] == '"' || s[i] == '\'' || s[i] == '/'),
    ensures
        escape_html_spec(s) == s,
    decreases s.len(),
{
    if s.len() > 0 {
        assert(s[s.len() - 1] == s.last());
        escape_html_plain_identity(s.drop_last());
        assert(s.drop_last().push(s.last()) == s);
    }
}

/// Percent-encoding keeps the unreserved bytes (the letters `A`-`Z` and
/// `a`-`z`, the digits and `-`, `_`, `.`, `~`) as they are and writes every
/// other byte, `#`, `%`, `&`, `/`, `?` and space among them, as `%` followed by
/// its two upper-case hex digits; encoding a byte string appends each byte's
/// encoding in turn.
pub proof fn law_escape_url(bs: Seq<u8>, b: u8)
    ensures
        escape_url_bytes(Seq::<u8>::empty()) == Seq::<char>::empty(),
        escape_url_bytes(bs.push(b)) == escape_url_bytes(bs) + if ('A' as u8 <= b && b <= 'Z' as u8)
            || ('a' as u8 <= b && b <= 'z' as u8) || ('0' as u8 <= b && b <= '9' as u8) || b == '-' as u8
            || b == '_' as u8 || b == '.' as u8 || b == '~' as u8 {
            seq![b as char]
        } else {
            seq!['%', "0123456789ABCDEF"@[b as int / 16], "0123456789ABCDEF"@[b as int % 16]]
        },
{
    reveal_strlit("0123456789ABCDEF");
    assert(bs.push(b).drop_last() =~= bs);
    let hi = (b / 16) as nat;
    let lo = (b % 16) as nat;
    assert(hex_upper(hi) == "0123456789ABCDEF"@[b as int / 16]);
    assert(hex_upper(lo) == "0123456789ABCDEF"@[b as int % 16]);
}

/// Text without `&`, `<`, `>`, `"` or `'` is its own attribute escape.
pub proof fn escape_attr_plain_identity(s: Seq<char>)
    requires
        forall|i: int| 0 <= i < s.len() ==> !(#[trigger] s[i] == '&' || s[i] == '<' || s[i] == '>'
            || s[i] == '"' || s[i] == '\''),
    ensures
        escape_attr_spec(s) == s,
    decreases s.len(),
{
    if s.len() > 0 {
        assert(s[s.len() - 1] == s.last());
        escape_attr_plain_identity(s.drop_last());
        assert(s.drop_last().push(s.last()) == s);
    }
}

/// A percent-encoded component consists only of unreserved ASCII characters,
/// `%` and upper-case hex digits: it never holds `+`, `&`, `=` or white space.
pub proof fn escape_url_output_is_ascii(bs: Seq<u8>)
    ensures
        forall|i: int| 0 <= i < escape_url_bytes(bs).len() ==> {
            let c = #[trigger] escape_url_bytes(bs)[i];
            '\0' <= c <= '\u{7f}' && c != '+' && c != '&' && c != '=' && c != ' '
        },
    decreases bs.len(),
{
    if bs.len() > 0 {
        escape_url_output_is_ascii(bs.drop_last());
        let a = escape_url_bytes(bs.drop_last());
        let b = url_byte_escape(bs.last());
        assert forall|i: int| 0 <= i < (a + b).len() implies {
            let c = #[trigger] (a + b)[i];
            '\0' <= c <= '\u{7f}' && c != '+' && c != '&' && c != '=' && c != ' '
        } by {
            if i >= a.len() {
                assert((a + b)[i] == b[i - a.len()]);
            } else {
                assert((a + b)[i] == a[i]);
            }
        }
    }
}

} // verus!
