//! Decoding of `application/x-www-form-urlencoded` components.
use vstd::prelude::*;
use vstd::string::StringSliceAdditionalSpecFns;
use vstd::utf8::{encode_utf8, is_ascii_chars, is_ascii_chars_encode_utf8};
use crate::markup::escape::{escape_url_bytes, escape_url_output_is_ascii, hex_upper, is_unreserved, url_byte_escape};
use crate::text::push_char;

verus! {

/// `+` replaced by a space.
pub open spec fn plus_to_space(s: Seq<char>) -> Seq<char> {
    s.map_values(|c: char| if c == '+' { ' ' } else { c })
}

/// The value of an ASCII hex digit.
pub open spec fn hex_value(b: u8) -> Option<nat> {
    if 0x30 <= b && b <= 0x39 {
        Some((b - 0x30) as nat)
    } else if 0x61 <= b && b <= 0x66 {
        Some((b - 0x61 + 10) as nat)
    } else if 0x41 <= b && b <= 0x46 {
        Some((b - 0x41 + 10) as nat)
    } else {
        None
    }
}

/// What `u8::from_str_radix(_, 16)` gives for the two-byte text `h0 h1`: two hex
/// digits, or a `+` sign and one digit.
pub open spec fn hex_pair(h0: u8, h1: u8) -> Option<u8> {
    match (hex_value(h0), hex_value(h1)) {
        (Some(a), Some(b)) => Some((16 * a + b) as u8),
        (None, Some(b)) => if h0 == 0x2B { Some(b as u8) } else { None },
        _ => None,
    }
}

/// Decoding of a byte string: `%XX` becomes the byte `XX` as a character; a `%`
/// without a valid pair stays `%` and the two bytes after it are dropped; any
/// other byte becomes the character with that code.
pub open spec fn url_decode_bytes(b: Seq<u8>) -> Seq<char>
    decreases b.len(),
{
    if b.len() == 0 {
        seq![]
    } else if b[0] == 0x25 {
        let h0: u8 = if b.len() > 1 { b[1] } else { 0 };
        let h1: u8 = if b.len() > 2 { b[2] } else { 0 };
        let rest = b.skip(if b.len() >= 3 { 3 } else { b.len() as int });
        (match hex_pair(h0, h1) {
            Some(n) => seq![n as char],
            None => seq!['%'],
        }) + url_decode_bytes(rest)
    } else {
        seq![b[0] as char] + url_decode_bytes(b.drop_first())
    }
}

/// Decoding of a URL component given as text.
pub open spec fn url_decode_spec(s: Seq<char>) -> Seq<char> {
    url_decode_bytes(encode_utf8(plus_to_space(s)))
}

/// Each byte read as the character with that code (Latin-1).
pub open spec fn latin1(bs: Seq<u8>) -> Seq<char> {
    bs.map_values(|b: u8| b as char)
}

fn hex_value_exec(b: u8) -> (r: Option<u8>)
    ensures
        match hex_value(b) {
            Some(v) => r == Some(v as u8),
            None => r is None,
        },
{
    if 0x30 <= b && b <= 0x39 {
        Some(b - 0x30)
    } else if 0x61 <= b && b <= 0x66 {
        Some(b - 0x61 + 10)
    } else if 0x41 <= b && b <= 0x46 {
        Some(b - 0x41 + 10)
    } else {
        None
    }
}

fn hex_pair_exec(h0: u8, h1: u8) -> (r: Option<u8>)
    ensures
        r == hex_pair(h0, h1),
{
    match (hex_value_exec(h0), hex_value_exec(h1)) {
        (Some(a), Some(b)) => Some(16 * a + b),
        (None, Some(b)) => if h0 == 0x2B { Some(b) } else { None },
        _ => None,
    }
}

/// Decodes a URL component: `+` is a space and `%XX` a byte, each byte becoming
/// one character.
pub fn url_decode(s: &str) -> (r: String)
    ensures
        r@ == url_decode_spec(s@),
{
    let mut t = String::new();
    for ch in it: s.chars()
        invariant
            it.seq() == s@,
            t@ == plus_to_space(s@.take(it.index() as int)),
    {
        push_char(&mut t, if ch == '+' { ' ' } else { ch });
        proof {
            assert(plus_to_space(s@.take(it.index() + 1)) =~= plus_to_space(s@.take(it.index() as int)).push(if ch == '+' { ' ' } else { ch }));
        }
    }
    proof {
        assert(s@.take(s@.len() as int) == s@);
    }
    let bytes = t.as_str().as_bytes();
    let ghost b = bytes@;
    let mut out = String::new();
    let mut i: usize = 0;
    proof {
        assert(b.skip(0) == b);
    }
    while i < bytes.len()
        invariant
            b == bytes@,
            i <= b.len(),
            url_decode_bytes(b) == out@ + url_decode_bytes(b.skip(i as int)),
        decreases b.len() - i,
    {
        let x = bytes[i];
        let ghost cur = b.skip(i as int);
        if x == 0x25 {
            let left = bytes.len() - i;
            let h0: u8 = if left > 1 { bytes[i + 1] } else { 0 };
            let h1: u8 = if left > 2 { bytes[i + 2] } else { 0 };
            let step: usize = if left >= 3 { 3 } else { left };
            proof {
                assert(cur[0] == x);
                assert(h0 == if cur.len() > 1 { cur[1] } else { 0 });
                assert(h1 == if cur.len() > 2 { cur[2] } else { 0 });
                assert(cur.skip(step as int) == b.skip(i + step));
            }
            match hex_pair_exec(h0, h1) {
                Some(n) => push_char(&mut out, n as char),
                None => push_char(&mut out, '%'),
            }
            i = i + step;
        } else {
            proof {
                assert(cur[0] == x);
                assert(cur.drop_first() == b.skip(i + 1));
            }
            push_char(&mut out, x as char);
            i = i + 1;
        }
    }
    proof {
        assert(b.skip(b.len() as int) == Seq::<u8>::empty());
        assert(out@ =~= url_decode_bytes(b));
    }
    out
}

/// Decoding what `escape_url` encoded gives back the bytes of the original, each
/// as one character: for every input, `url_decode(escape_url(s))` is the
/// Latin-1 reading of the UTF-8 bytes of `s`.
pub proof fn url_decode_escape_url(s: Seq<char>)
    ensures
        url_decode_spec(escape_url_bytes(encode_utf8(s))) == latin1(encode_utf8(s)),
{
    let bs = encode_utf8(s);
    let e = escape_url_bytes(bs);
    escape_url_output_is_ascii(bs);
    assert(plus_to_space(e) =~= e);
    assert(is_ascii_chars(e));
    is_ascii_chars_encode_utf8(e);
    assert(encode_utf8(e) =~= e.map_values(|c: char| c as u8));
    lemma_decode_escaped(bs);
}

proof fn lemma_decode_escaped(bs: Seq<u8>)
    ensures
        url_decode_bytes(escape_url_bytes(bs).map_values(|c: char| c as u8)) == latin1(bs),
    decreases bs.len(),
{
    if bs.len() > 0 {
        let first = bs[0];
        let rest = bs.drop_first();
        lemma_escape_url_cons(first, rest);
        let piece = url_byte_escape(first).map_values(|c: char| c as u8);
        let tail = escape_url_bytes(rest).map_values(|c: char| c as u8);
        assert(bs == seq![first] + rest);
        assert(escape_url_bytes(bs) == url_byte_escape(first) + escape_url_bytes(rest));
        assert(escape_url_bytes(bs).map_values(|c: char| c as u8) =~= piece + tail);
        lemma_decode_escaped(rest);
        lemma_decode_piece(first, tail);
        assert(latin1(bs) =~= seq![first as char] + latin1(rest));
    }
}

proof fn lemma_escape_url_cons(first: u8, rest: Seq<u8>)
    ensures
        escape_url_bytes(seq![first] + rest) == url_byte_escape(first) + escape_url_bytes(rest),
    decreases rest.len(),
{
    if rest.len() == 0 {
        assert(seq![first] + rest == seq![first]);
        assert((seq![first]).drop_last() == Seq::<u8>::empty());
        assert(escape_url_bytes(Seq::<u8>::empty()) == Seq::<char>::empty());
        assert(escape_url_bytes(seq![first]) == escape_url_bytes(Seq::<u8>::empty()) + url_byte_escape(first));
        assert(escape_url_bytes(seq![first]) =~= url_byte_escape(first));
        assert(url_byte_escape(first) + escape_url_bytes(rest) =~= url_byte_escape(first));
    } else {
        lemma_escape_url_cons(first, rest.drop_last());
        let w = seq![first] + rest;
        assert(w.drop_last() == seq![first] + rest.drop_last());
        assert(w.last() == rest.last());
        assert(escape_url_bytes(w) == escape_url_bytes(w.drop_last()) + url_byte_escape(w.last()));
        assert(escape_url_bytes(rest) == escape_url_bytes(rest.drop_last()) + url_byte_escape(rest.last()));
        assert(escape_url_bytes(w) =~= url_byte_escape(first) + escape_url_bytes(rest));
    }
}

proof fn lemma_hex_round(d: nat)
    requires
        d < 16,
    ensures
        hex_value((hex_upper(d) as u32) as u8) == Some(d),
{
}

proof fn lemma_decode_piece(b: u8, tail: Seq<u8>)
    ensures
        url_decode_bytes(url_byte_escape(b).map_values(|c: char| c as u8) + tail)
            == seq![b as char] + url_decode_bytes(tail),
{
    let p = url_byte_escape(b).map_values(|c: char| c as u8);
    let whole = p + tail;
    if is_unreserved(b) {
        assert(whole[0] == b);
        assert(whole.drop_first() =~= tail);
    } else {
        let hi = (b / 16) as nat;
        let lo = (b % 16) as nat;
        lemma_hex_round(hi);
        lemma_hex_round(lo);
        assert(whole[0] == 0x25u8);
        assert(whole[1] == (hex_upper(hi) as u32) as u8);
        assert(whole[2] == (hex_upper(lo) as u32) as u8);
        assert(whole.skip(3) =~= tail);
        assert(hex_pair(whole[1], whole[2]) == Some(b));
    }
}

} // verus!
