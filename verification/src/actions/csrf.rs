//! Session-bound, time-limited, single-use CSRF tokens.
use vstd::prelude::*;
use vstd::string::StringSliceAdditionalSpecFns;
use vstd::utf8::encode_utf8;
use rand::Rng;
use sha2::Digest;
use crate::actions::action::now_timestamp;
use crate::text::{push_char, push_str, string_with_capacity};

verus! {

/// The character of a hex digit `n < 16`, lower case.
pub open spec fn hex_digit(n: u8) -> char {
    if n < 10 {
        (48 + n) as char
    } else {
        (87 + n) as char
    }
}

/// Each byte written as two lower-case hex digits, high nibble first.
pub open spec fn hex_text(b: Seq<u8>) -> Seq<char>
    decreases b.len(),
{
    if b.len() == 0 {
        seq![]
    } else {
        hex_text(b.drop_last()) + seq![hex_digit(b.last() / 16), hex_digit(b.last() % 16)]
    }
}

pub proof fn lemma_hex_text_len(b: Seq<u8>)
    ensures
        hex_text(b).len() == 2 * b.len(),
    decreases b.len(),
{
    if b.len() > 0 {
        lemma_hex_text_len(b.drop_last());
    }
}

/// The SHA-256 digest of a byte string.
pub uninterp spec fn sha256_digest(data: Seq<u8>) -> Seq<u8>;

/// 32 bytes from `rand::thread_rng()`. Which bytes come back is not stated.
#[verifier::external_body]
fn random_bytes_32() -> (r: Vec<u8>)
    ensures
        r@.len() == 32,
{
    let raw: [u8; 32] = rand::thread_rng().gen();
    raw.to_vec()
}

/// `hex::encode`: the bytes as lower-case hex, two digits per byte.
#[verifier::external_body]
fn hex_encode(data: &[u8]) -> (s: String)
    ensures
        s@ == hex_text(data@),
{
    hex::encode(data)
}

/// `sha2::Sha256::digest`: the SHA-256 digest of `data`, 32 bytes long.
#[verifier::external_body]
fn sha256(data: &[u8]) -> (r: Vec<u8>)
    ensures
        r@ == sha256_digest(data@),
        r@.len() == 32,
{
    sha2::Sha256::digest(data).to_vec()
}

/// A signed CSRF token (session-bound, time-limited).
#[derive(Clone, Debug)]
pub struct CsrfToken {
    pub value: String,
    pub expires_at: i64,
}

/// A reading of the clock: seconds since the epoch, below 10^13.
pub open spec fn clock_time(t: i64) -> bool {
    0 <= t < 10_000_000_000_000
}

/// Whether a token expiring at `exp` has expired at `now`.
pub open spec fn expired_at(exp: i64, now: i64) -> bool {
    now > exp
}

/// Whether `s` is the hex text of 32 bytes.
pub open spec fn is_hex32(s: Seq<char>) -> bool {
    exists|b: Seq<u8>| b.len() == 32 && s == #[trigger] hex_text(b)
}

/// How long a token lives, in seconds.
pub const TOKEN_LIFETIME: i64 = 3600;

impl CsrfToken {
    /// The token of the random bytes `raw` drawn at time `now`: their hex text,
    /// expiring an hour later.
    pub fn new_at(raw: &[u8], now: i64) -> (t: Self)
        requires
            now <= i64::MAX - TOKEN_LIFETIME,
        ensures
            t.value@ == hex_text(raw@),
            t.expires_at == now + TOKEN_LIFETIME,
    {
        CsrfToken { value: hex_encode(raw), expires_at: now + TOKEN_LIFETIME }
    }

    /// A fresh random token that expires an hour from now.
    pub fn new() -> (t: Self)
        ensures
            is_hex32(t.value@),
            TOKEN_LIFETIME <= t.expires_at < 10_000_000_000_000 + TOKEN_LIFETIME,
            exists|raw: Seq<u8>, now: i64| #![trigger hex_text(raw), clock_time(now)]
                raw.len() == 32 && clock_time(now) && t.value@ == hex_text(raw) && t.expires_at == now + TOKEN_LIFETIME,
    {
        let raw = random_bytes_32();
        let now = now_timestamp();
        let t = CsrfToken::new_at(raw.as_slice(), now);
        assert(raw@.len() == 32 && clock_time(now) && t.value@ == hex_text(raw@));
        t
    }

    /// Whether the token has expired at time `now`.
    pub fn is_expired_at(&self, now: i64) -> (b: bool)
        ensures
            b == (now > self.expires_at),
    {
        now > self.expires_at
    }

    /// Whether the token has expired at the current time.
    pub fn is_expired(&self) -> (b: bool)
        ensures
            exists|now: i64| clock_time(now) && b == #[trigger] expired_at(self.expires_at, now),
    {
        let now = now_timestamp();
        let b = self.is_expired_at(now);
        assert(b == expired_at(self.expires_at, now));
        b
    }
}

impl Default for CsrfToken {
    fn default() -> (t: Self)
        ensures
            is_hex32(t.value@),
            TOKEN_LIFETIME <= t.expires_at < 10_000_000_000_000 + TOKEN_LIFETIME,
    {
        CsrfToken::new()
    }
}

/// The expiry stored under `v`, from the first entry with that value.
pub open spec fn token_lookup(s: Seq<(Seq<char>, i64)>, v: Seq<char>) -> Option<i64>
    decreases s.len(),
{
    if s.len() == 0 {
        None
    } else {
        match token_lookup(s.drop_last(), v) {
            Some(e) => Some(e),
            None => if s.last().0 == v { Some(s.last().1) } else { None },
        }
    }
}

/// The entries whose value is not `v`, in order.
pub open spec fn token_without(s: Seq<(Seq<char>, i64)>, v: Seq<char>) -> Seq<(Seq<char>, i64)>
    decreases s.len(),
{
    if s.len() == 0 {
        s
    } else {
        let r = token_without(s.drop_last(), v);
        if s.last().0 == v { r } else { r.push(s.last()) }
    }
}

/// The entries not expired at `now`, in order.
pub open spec fn token_live(s: Seq<(Seq<char>, i64)>, now: i64) -> Seq<(Seq<char>, i64)>
    decreases s.len(),
{
    if s.len() == 0 {
        s
    } else {
        let r = token_live(s.drop_last(), now);
        if now > s.last().1 { r } else { r.push(s.last()) }
    }
}

/// Whether a token with value `v` is stored and not expired at `now`.
pub open spec fn token_valid(s: Seq<(Seq<char>, i64)>, v: Seq<char>, now: i64) -> bool {
    match token_lookup(s, v) {
        Some(e) => !(now > e),
        None => false,
    }
}

/// The entries after storing `(v, e)` and dropping what expired at `now`.
pub open spec fn token_stored(s: Seq<(Seq<char>, i64)>, v: Seq<char>, e: i64, now: i64) -> Seq<(Seq<char>, i64)> {
    token_live(token_without(s, v).push((v, e)), now)
}

pub open spec fn token_entry(t: CsrfToken) -> (Seq<char>, i64) {
    (t.value@, t.expires_at)
}

/// The text a token is signed over: the session id, a colon, the raw token.
pub open spec fn signing_input(session_id: Seq<char>, raw: Seq<char>) -> Seq<char> {
    session_id + seq![':'] + raw
}

/// The signed token value: hex of the SHA-256 of the UTF-8 signing input.
pub open spec fn signed_value(session_id: Seq<char>, raw: Seq<char>) -> Seq<char> {
    hex_text(sha256_digest(encode_utf8(signing_input(session_id, raw))))
}

/// Signs a raw token value for a session.
pub fn sign_token(session_id: &str, raw: &str) -> (r: String)
    ensures
        r@ == signed_value(session_id@, raw@),
{
    let mut combined = string_with_capacity(0);
    push_str(&mut combined, session_id);
    push_char(&mut combined, ':');
    push_str(&mut combined, raw);
    assert(combined@ == signing_input(session_id@, raw@));
    let bytes = combined.as_str().as_bytes();
    assert(bytes@ == encode_utf8(signing_input(session_id@, raw@)));
    let digest = sha256(bytes);
    hex_encode(digest.as_slice())
}

/// In-memory CSRF token store (single-use, time-limited).
pub struct CsrfStore {
    tokens: Vec<CsrfToken>,
}

impl CsrfStore {
    /// The stored (value, expiry) entries.
    pub closed spec fn entries(&self) -> Seq<(Seq<char>, i64)> {
        self.tokens@.map_values(|t: CsrfToken| token_entry(t))
    }

    pub fn new() -> (s: Self)
        ensures
            s.entries() == Seq::<(Seq<char>, i64)>::empty(),
    {
        let s = CsrfStore { tokens: Vec::new() };
        proof {
            assert(s.entries() =~= Seq::<(Seq<char>, i64)>::empty());
        }
        s
    }

    /// Removes every entry with value `v`.
    fn remove_value(&mut self, v: &str)
        ensures
            final(self).entries() == token_without(old(self).entries(), v@),
    {
        let ghost s = old(self).entries();
        let mut kept: Vec<CsrfToken> = Vec::new();
        let mut i: usize = 0;
        while i < self.tokens.len()
            invariant
                i <= self.tokens.len(),
                s == self.tokens@.map_values(|t: CsrfToken| token_entry(t)),
                kept@.map_values(|t: CsrfToken| token_entry(t)) == token_without(s.take(i as int), v@),
            decreases self.tokens.len() - i,
        {
            proof {
                assert(s.take(i + 1).drop_last() == s.take(i as int));
                assert(s.take(i + 1).last() == s[i as int]);
            }
            let t = &self.tokens[i];
            if !str_eq_tok(t.value.as_str(), v) {
                let ghost before = kept@;
                kept.push(CsrfToken { value: t.value.clone(), expires_at: t.expires_at });
                proof {
                    assert(kept@.map_values(|t: CsrfToken| token_entry(t)) =~= before.map_values(|t: CsrfToken| token_entry(t)).push(s[i as int]));
                }
            }
            i = i + 1;
        }
        proof {
            assert(s.take(s.len() as int) == s);
        }
        self.tokens = kept;
    }

    /// Drops every entry expired at `now`.
    fn prune(&mut self, now: i64)
        ensures
            final(self).entries() == token_live(old(self).entries(), now),
    {
        let ghost s = old(self).entries();
        let mut kept: Vec<CsrfToken> = Vec::new();
        let mut i: usize = 0;
        while i < self.tokens.len()
            invariant
                i <= self.tokens.len(),
                s == self.tokens@.map_values(|t: CsrfToken| token_entry(t)),
                kept@.map_values(|t: CsrfToken| token_entry(t)) == token_live(s.take(i as int), now),
            decreases self.tokens.len() - i,
        {
            proof {
                assert(s.take(i + 1).drop_last() == s.take(i as int));
                assert(s.take(i + 1).last() == s[i as int]);
            }
            let t = &self.tokens[i];
            if !t.is_expired_at(now) {
                let ghost before = kept@;
                kept.push(CsrfToken { value: t.value.clone(), expires_at: t.expires_at });
                proof {
                    assert(kept@.map_values(|t: CsrfToken| token_entry(t)) =~= before.map_values(|t: CsrfToken| token_entry(t)).push(s[i as int]));
                }
            }
            i = i + 1;
        }
        proof {
            assert(s.take(s.len() as int) == s);
        }
        self.tokens = kept;
    }

    /// The expiry stored under `v`.
    fn find(&self, v: &str) -> (r: Option<i64>)
        ensures
            r == token_lookup(self.entries(), v@),
    {
        let ghost s = self.entries();
        let mut i: usize = 0;
        while i < self.tokens.len()
            invariant
                i <= self.tokens.len(),
                s == self.tokens@.map_values(|t: CsrfToken| token_entry(t)),
                token_lookup(s.take(i as int), v@) is None,
            decreases self.tokens.len() - i,
        {
            proof {
                assert(s.take(i + 1).drop_last() == s.take(i as int));
                assert(s.take(i + 1).last() == s[i as int]);
            }
            if str_eq_tok(self.tokens[i].value.as_str(), v) {
                proof {
                    lemma_lookup_prefix(s, v@, i + 1);
                }
                return Some(self.tokens[i].expires_at);
            }
            i = i + 1;
        }
        proof {
            assert(s.take(s.len() as int) == s);
        }
        None
    }

    /// Stores `t` in place of any token with its value, then drops the tokens
    /// expired at `now`.
    pub fn store_at(&mut self, t: CsrfToken, now: i64)
        ensures
            final(self).entries() == token_stored(old(self).entries(), t.value@, t.expires_at, now),
    {
        self.remove_value(t.value.as_str());
        let ghost mid = self.tokens@;
        self.tokens.push(t);
        proof {
            assert(self.tokens@.map_values(|t: CsrfToken| token_entry(t)) =~= mid.map_values(|t: CsrfToken| token_entry(t)).push(token_entry(t)));
        }
        self.prune(now);
    }

    /// Issues a token for a session from the random bytes `raw` drawn at time
    /// `now`: their hex text signed for the session, expiring an hour later,
    /// stored, and the store pruned of what expired at `now`.
    pub fn issue_at(&mut self, session_id: &str, raw: &[u8], now: i64) -> (r: CsrfToken)
        requires
            now <= i64::MAX - TOKEN_LIFETIME,
        ensures
            r.value@ == signed_value(session_id@, hex_text(raw@)),
            r.expires_at == now + TOKEN_LIFETIME,
            final(self).entries() == token_stored(old(self).entries(), r.value@, r.expires_at, now),
    {
        let token = CsrfToken::new_at(raw, now);
        let signed_hex = sign_token(session_id, token.value.as_str());
        let signed = CsrfToken { value: signed_hex.clone(), expires_at: token.expires_at };
        self.store_at(signed, now);
        CsrfToken { value: signed_hex, expires_at: token.expires_at }
    }

    /// Issues a new token for a session: fresh random bytes and the current
    /// time, as `issue_at`.
    pub fn issue(&mut self, session_id: &str) -> (r: CsrfToken)
        ensures
            exists|raw: Seq<char>| is_hex32(raw) && r.value@ == #[trigger] signed_value(session_id@, raw),
            TOKEN_LIFETIME <= r.expires_at < 10_000_000_000_000 + TOKEN_LIFETIME,
            exists|now: i64| clock_time(now) && r.expires_at == now + TOKEN_LIFETIME
                && final(self).entries() == #[trigger] token_stored(old(self).entries(), r.value@, r.expires_at, now),
    {
        let raw = random_bytes_32();
        let now = now_timestamp();
        let r = self.issue_at(session_id, raw.as_slice(), now);
        proof {
            assert(raw@.len() == 32 && hex_text(raw@) == #[trigger] hex_text(raw@));
            assert(is_hex32(hex_text(raw@)));
            assert(r.value@ == signed_value(session_id@, hex_text(raw@)));
        }
        r
    }

    /// Validates and consumes a token at time `now` (single-use).
    pub fn validate_at(&mut self, token_value: &str, now: i64) -> (b: bool)
        ensures
            final(self).entries() == token_without(old(self).entries(), token_value@),
            b == token_valid(old(self).entries(), token_value@, now),
    {
        let found = self.find(token_value);
        self.remove_value(token_value);
        match found {
            Some(e) => !(now > e),
            None => false,
        }
    }

    /// Validates and consumes a token (single-use).
    pub fn validate(&mut self, token_value: &str) -> (b: bool)
        ensures
            final(self).entries() == token_without(old(self).entries(), token_value@),
            exists|now: i64| clock_time(now) && b == #[trigger] token_valid(old(self).entries(), token_value@, now),
    {
        let now = now_timestamp();
        self.validate_at(token_value, now)
    }

    /// Checks a token at time `now` without consuming it.
    pub fn check_at(&self, token_value: &str, now: i64) -> (b: bool)
        ensures
            b == token_valid(self.entries(), token_value@, now),
    {
        match self.find(token_value) {
            Some(e) => !(now > e),
            None => false,
        }
    }

    /// Checks a token without consuming it (for GET forms).
    pub fn check(&self, token_value: &str) -> (b: bool)
        ensures
            exists|now: i64| clock_time(now) && b == #[trigger] token_valid(self.entries(), token_value@, now),
    {
        let now = now_timestamp();
        self.check_at(token_value, now)
    }
}

impl Default for CsrfStore {
    fn default() -> (s: Self)
        ensures
            s.entries() == Seq::<(Seq<char>, i64)>::empty(),
    {
        CsrfStore::new()
    }
}

fn str_eq_tok(a: &str, b: &str) -> (r: bool)
    ensures
        r == (a@ == b@),
{
    crate::text::str_eq(a, b)
}

proof fn lemma_lookup_prefix(s: Seq<(Seq<char>, i64)>, v: Seq<char>, n: int)
    requires
        0 < n <= s.len(),
        token_lookup(s.take(n - 1), v) is None,
        s[n - 1].0 == v,
    ensures
        token_lookup(s, v) == Some(s[n - 1].1),
    decreases s.len(),
{
    if n == s.len() {
        assert(s.drop_last() == s.take(n - 1));
    } else {
        assert(s.drop_last().take(n - 1) == s.take(n - 1));
        lemma_lookup_prefix(s.drop_last(), v, n);
    }
}

pub proof fn lemma_without_lookup(s: Seq<(Seq<char>, i64)>, v: Seq<char>, w: Seq<char>)
    ensures
        token_lookup(token_without(s, v), w) == if w == v { None } else { token_lookup(s, w) },
    decreases s.len(),
{
    if s.len() > 0 {
        lemma_without_lookup(s.drop_last(), v, w);
        let r = token_without(s.drop_last(), v);
        if s.last().0 != v {
            assert(r.push(s.last()).drop_last() == r);
        }
    }
}

pub proof fn lemma_live_lookup_none(s: Seq<(Seq<char>, i64)>, v: Seq<char>, now: i64)
    requires
        token_lookup(s, v) is None,
    ensures
        token_lookup(token_live(s, now), v) is None,
    decreases s.len(),
{
    if s.len() > 0 {
        lemma_live_lookup_none(s.drop_last(), v, now);
        let r = token_live(s.drop_last(), now);
        if !(now > s.last().1) {
            assert(r.push(s.last()).drop_last() == r);
        }
    }
}

/// A token is single-use: once validated, a second validation of the same
/// value fails, whatever the time.
pub proof fn law_csrf_single_use(s: Seq<(Seq<char>, i64)>, v: Seq<char>, now: i64)
    ensures
        !token_valid(token_without(s, v), v, now),
{
    lemma_without_lookup(s, v, v);
}

/// A token just stored validates at any time up to its expiry.
pub proof fn law_csrf_issued_validates(s: Seq<(Seq<char>, i64)>, v: Seq<char>, e: i64, now: i64, later: i64)
    requires
        !(now > e),
        !(later > e),
    ensures
        token_valid(token_stored(s, v, e, now), v, later),
{
    let w = token_without(s, v);
    lemma_without_lookup(s, v, v);
    lemma_live_lookup_none(w, v, now);
    let lw = token_live(w, now);
    assert(w.push((v, e)).drop_last() == w);
    assert(token_live(w.push((v, e)), now) == lw.push((v, e)));
    assert(lw.push((v, e)).drop_last() == lw);
}

} // verus!
