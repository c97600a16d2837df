//! Parsing of form bodies and the typed form model.
use vstd::prelude::*;
use crate::actions::urlcode::{latin1, url_decode, url_decode_escape_url, url_decode_spec};
use crate::markup::escape::{escape_url_bytes, escape_url_output_is_ascii};
use vstd::utf8::encode_utf8;
use crate::strmap::StrMap;
use crate::text::{chars_of, string_of, to_owned_string};
use crate::actions::field::{Field, FieldMeta, same_meta};
use crate::actions::validator::{FieldErrors, Validator, msgs_view, rule_errors};
use crate::actions::action::{ActionResult, now_timestamp};
use crate::actions::error::ActionError;
use crate::actions::csrf::{CsrfStore, clock_time, lemma_without_lookup, token_lookup, token_valid, token_without};

verus! {

/// Position of the first `c` in `s`, or -1.
pub open spec fn char_pos(s: Seq<char>, c: char) -> int
    decreases s.len(),
{
    if s.len() == 0 {
        -1
    } else if s[0] == c {
        0
    } else {
        let r = char_pos(s.drop_first(), c);
        if r < 0 { -1 } else { r + 1 }
    }
}

pub proof fn lemma_char_pos(s: Seq<char>, c: char)
    ensures
        -1 <= char_pos(s, c) < s.len(),
        char_pos(s, c) >= 0 ==> s[char_pos(s, c)] == c,
        forall|k: int| 0 <= k < s.len() && (char_pos(s, c) < 0 || k < char_pos(s, c)) ==> s[k] != c,
    decreases s.len(),
{
    if s.len() > 0 && s[0] != c {
        lemma_char_pos(s.drop_first(), c);
        assert forall|k: int| 0 <= k < s.len() && (char_pos(s, c) < 0 || k < char_pos(s, c)) implies s[k] != c by {
            if k > 0 {
                assert(s[k] == s.drop_first()[k - 1]);
            }
        }
    }
}

pub proof fn lemma_char_pos_at(s: Seq<char>, c: char, i: int)
    requires
        0 <= i <= s.len(),
        i < s.len() ==> s[i] == c,
        forall|k: int| 0 <= k < i ==> s[k] != c,
    ensures
        char_pos(s, c) == if i < s.len() { i } else { -1 },
{
    lemma_char_pos(s, c);
    let p = char_pos(s, c);
    if p >= 0 && p < i {
        assert(s[p] != c);
    }
    if i < s.len() && (p < 0 || i < p) {
        assert(s[i] != c);
    }
}

/// The key/value pair a `&`-separated segment holds: split at the first `=`,
/// both sides decoded; a segment without `=` holds none.
pub open spec fn segment_pair(seg: Seq<char>) -> Seq<(Seq<char>, Seq<char>)> {
    let j = char_pos(seg, '=');
    if j < 0 {
        seq![]
    } else {
        seq![(url_decode_spec(seg.take(j)), url_decode_spec(seg.skip(j + 1)))]
    }
}

/// The pairs of a query string, in order (`split('&')` then `split_once('=')`).
pub open spec fn query_pairs(q: Seq<char>) -> Seq<(Seq<char>, Seq<char>)>
    decreases q.len(),
{
    let i = char_pos(q, '&');
    if i < 0 {
        segment_pair(q)
    } else {
        proof {
            lemma_char_pos(q, '&');
        }
        segment_pair(q.take(i)) + query_pairs(q.skip(i + 1))
    }
}

/// The value of the last pair with key `k`: what a map holds after inserting the
/// pairs in order.
pub open spec fn last_value(pairs: Seq<(Seq<char>, Seq<char>)>, k: Seq<char>) -> Option<Seq<char>>
    decreases pairs.len(),
{
    if pairs.len() == 0 {
        None
    } else if pairs.last().0 == k {
        Some(pairs.last().1)
    } else {
        last_value(pairs.drop_last(), k)
    }
}

/// The distinct keys of the pairs, in order of first appearance: the keys a
/// map holds after inserting the pairs in order.
pub open spec fn first_keys(pairs: Seq<(Seq<char>, Seq<char>)>) -> Seq<Seq<char>>
    decreases pairs.len(),
{
    if pairs.len() == 0 {
        seq![]
    } else {
        let r = first_keys(pairs.drop_last());
        if r.contains(pairs.last().0) { r } else { r.push(pairs.last().0) }
    }
}

/// No key is listed twice among the first keys.
pub proof fn law_first_keys_distinct(pairs: Seq<(Seq<char>, Seq<char>)>)
    ensures
        forall|i: int, j: int| 0 <= i < j < first_keys(pairs).len() ==> first_keys(pairs)[i] != first_keys(pairs)[j],
    decreases pairs.len(),
{
    if pairs.len() > 0 {
        law_first_keys_distinct(pairs.drop_last());
        let r = first_keys(pairs.drop_last());
        if !r.contains(pairs.last().0) {
            let f = r.push(pairs.last().0);
            assert forall|i: int, j: int| 0 <= i < j < f.len() implies f[i] != f[j] by {
                if j == r.len() {
                    assert(f[i] == r[i]);
                    assert(r.contains(r[i]));
                } else {
                    assert(f[i] == r[i] && f[j] == r[j]);
                }
            }
        }
    }
}

/// A query made of one pair, both sides percent-encoded with `escape_url`, reads
/// back as that pair: the key and the value come back as the bytes they were
/// (for ASCII text, the text itself).
pub proof fn query_roundtrip(k: Seq<char>, v: Seq<char>)
    ensures
        last_value(query_pairs(escape_url_bytes(encode_utf8(k)) + "="@ + escape_url_bytes(encode_utf8(v))),
            latin1(encode_utf8(k))) == Some(latin1(encode_utf8(v))),
{
    let ek = escape_url_bytes(encode_utf8(k));
    let ev = escape_url_bytes(encode_utf8(v));
    reveal_strlit("=");
    let q = ek + "="@ + ev;
    escape_url_output_is_ascii(encode_utf8(k));
    escape_url_output_is_ascii(encode_utf8(v));
    assert forall|i: int| 0 <= i < q.len() implies q[i] != '&' by {
        if i < ek.len() {
            assert(q[i] == ek[i]);
        } else if i > ek.len() {
            assert(q[i] == ev[i - ek.len() - 1]);
        }
    }
    lemma_char_pos_at(q, '&', q.len() as int);
    assert forall|i: int| 0 <= i < ek.len() implies q[i] != '=' by {
        assert(q[i] == ek[i]);
    }
    lemma_char_pos_at(q, '=', ek.len() as int);
    assert(q.take(ek.len() as int) =~= ek);
    assert(q.skip(ek.len() as int + 1) =~= ev);
    url_decode_escape_url(k);
    url_decode_escape_url(v);
    assert(query_pairs(q) =~= seq![(latin1(encode_utf8(k)), latin1(encode_utf8(v)))]);
}

/// Raw key→value map parsed from an HTTP form POST body.
pub struct ParsedForm(pub StrMap);

impl ParsedForm {
    /// The value posted under `k`.
    pub open spec fn value(&self, k: Seq<char>) -> Option<Seq<char>> {
        self.0.get_spec(k)
    }

    pub fn new() -> (f: Self)
        ensures
            forall|k: Seq<char>| f.value(k) is None,
    {
        ParsedForm(StrMap::new())
    }

    pub fn from_query(query: &str) -> (f: Self)
        ensures
            forall|k: Seq<char>| #[trigger] f.value(k) == last_value(query_pairs(query@), k),
            f.0.keys() == first_keys(query_pairs(query@)),
    {
        let v = chars_of(query);
        let n = v.len();
        let ghost q = query@;
        let mut map = StrMap::new();
        let ghost mut processed: Seq<(Seq<char>, Seq<char>)> = seq![];
        assert(map.keys() == first_keys(processed));
        let mut pos: usize = 0;
        proof {
            assert(q.skip(0) == q);
        }
        loop
            invariant_except_break
                query_pairs(q) == processed + query_pairs(q.skip(pos as int)),
            invariant
                v@ == q,
                n == q.len(),
                pos <= n,
                forall|k: Seq<char>| #[trigger] map.get_spec(k) == last_value(processed, k),
                map.keys() == first_keys(processed),
            ensures
                query_pairs(q) == processed,
            decreases n - pos,
        {
            let mut i: usize = pos;
            while i < n && v[i] != '&'
                invariant
                    v@ == q,
                    n == q.len(),
                    pos <= i <= n,
                    forall|k: int| pos <= k < i ==> q[k] != '&',
                decreases n - i,
            {
                i = i + 1;
            }
            let ghost rest = q.skip(pos as int);
            proof {
                assert forall|k: int| 0 <= k < i - pos implies rest[k] != '&' by {
                    assert(rest[k] == q[pos + k]);
                }
                if i < n {
                    assert(rest[i - pos] == q[i as int]);
                }
                lemma_char_pos_at(rest, '&', i - pos);
            }
            let seg = &v.as_slice()[pos..i];
            let ghost segv = seg@;
            proof {
                assert(segv =~= if i < n { rest.take(i - pos) } else { rest });
            }
            let mut j: usize = 0;
            while j < seg.len() && seg[j] != '='
                invariant
                    segv == seg@,
                    j <= segv.len(),
                    forall|k: int| 0 <= k < j ==> segv[k] != '=',
                decreases segv.len() - j,
            {
                j = j + 1;
            }
            proof {
                lemma_char_pos_at(segv, '=', j as int);
            }
            let ghost before = processed;
            if j < seg.len() {
                let ks = string_of(&seg[0..j]);
                let vs = string_of(&seg[j + 1..seg.len()]);
                let key = url_decode(ks.as_str());
                let val = url_decode(vs.as_str());
                proof {
                    assert(ks@ =~= segv.take(j as int));
                    assert(vs@ =~= segv.skip(j + 1));
                    processed = processed.push((key@, val@));
                    assert(segment_pair(segv) =~= seq![(key@, val@)]);
                }
                map.insert(key, val);
                proof {
                    assert forall|k: Seq<char>| #[trigger] map.get_spec(k) == last_value(processed, k) by {
                        assert(processed.drop_last() == before);
                    }
                    assert(processed.drop_last() == before);
                    assert(map.keys() == first_keys(processed));
                }
            } else {
                proof {
                    assert(segment_pair(segv) =~= Seq::<(Seq<char>, Seq<char>)>::empty());
                }
            }
            proof {
                assert(processed == before + segment_pair(segv));
            }
            if i == n {
                proof {
                    assert(query_pairs(rest) == segment_pair(segv));
                    assert(query_pairs(q) =~= processed);
                }
                break;
            }
            proof {
                assert(rest.skip(i - pos + 1) =~= q.skip(i + 1));
                assert(query_pairs(rest) == segment_pair(segv) + query_pairs(q.skip(i + 1)));
                assert(query_pairs(q) =~= processed + query_pairs(q.skip(i + 1)));
            }
            pos = i + 1;
        }
        ParsedForm(map)
    }

    pub fn get(&self, key: &str) -> (r: Option<&str>)
        ensures
            match r {
                Some(v) => self.value(key@) == Some(v@),
                None => self.value(key@) is None,
            },
    {
        self.0.get(key)
    }

    pub fn get_or_empty(&self, key: &str) -> (r: &str)
        ensures
            r@ == match self.value(key@) {
                Some(v) => v,
                None => Seq::<char>::empty(),
            },
    {
        match self.0.get(key) {
            Some(v) => v,
            None => {
                proof {
                    reveal_strlit("");
                }
                ""
            },
        }
    }

    pub fn insert(&mut self, key: &str, value: &str)
        ensures
            forall|k: Seq<char>| #[trigger] final(self).value(k) == if k == key@ { Some(value@) } else { old(self).value(k) },
    {
        self.0.insert(to_owned_string(key), to_owned_string(value));
    }

    pub fn csrf_token(&self) -> (r: Option<&str>)
        ensures
            match r {
                Some(v) => self.value("_csrf"@) == Some(v@),
                None => self.value("_csrf"@) is None,
            },
    {
        self.get("_csrf")
    }
}

/// A typed form definition — schema + runtime state.
pub struct Form {
    pub name: String,
    pub action: String,
    pub method: String,
    pub fields: Vec<FieldMeta>,
    pub values: StrMap,
    pub errors: FieldErrors,
    pub global_error: Option<String>,
    pub success: Option<String>,
}

/// The index of the first field schema named `name`, if any.
pub open spec fn first_named(fields: Seq<FieldMeta>, name: Seq<char>) -> Option<int>
    decreases fields.len(),
{
    if fields.len() == 0 {
        None
    } else {
        match first_named(fields.drop_last(), name) {
            Some(i) => Some(i),
            None => if fields.last().name@ == name { Some(fields.len() - 1) } else { None },
        }
    }
}

proof fn lemma_first_named(fields: Seq<FieldMeta>, name: Seq<char>, i: int)
    requires
        0 <= i <= fields.len(),
        forall|j: int| 0 <= j < i ==> fields[j].name@ != name,
    ensures
        i < fields.len() && fields[i].name@ == name ==> first_named(fields, name) == Some(i),
        i == fields.len() ==> first_named(fields, name) is None,
    decreases fields.len(),
{
    if fields.len() > 0 {
        if i < fields.len() {
            if i < fields.len() - 1 {
                assert forall|j: int| 0 <= j < i implies fields.drop_last()[j].name@ != name by {
                    assert(fields.drop_last()[j] == fields[j]);
                }
                lemma_first_named(fields.drop_last(), name, i);
                assert(fields.drop_last()[i] == fields[i]);
            } else {
                assert forall|j: int| 0 <= j < i implies fields.drop_last()[j].name@ != name by {
                    assert(fields.drop_last()[j] == fields[j]);
                }
                lemma_first_named(fields.drop_last(), name, i);
            }
        } else {
            assert forall|j: int| 0 <= j < i - 1 implies fields.drop_last()[j].name@ != name by {
                assert(fields.drop_last()[j] == fields[j]);
            }
            lemma_first_named(fields.drop_last(), name, i - 1);
        }
    }
}

impl Form {
    /// The value posted for `f`, or the empty text.
    pub open spec fn value_of(&self, f: Seq<char>) -> Seq<char> {
        match self.values.get_spec(f) {
            Some(v) => v,
            None => Seq::<char>::empty(),
        }
    }

    /// The error messages of `f`, or none.
    pub open spec fn errors_of(&self, f: Seq<char>) -> Seq<Seq<char>> {
        match self.errors.get_spec(f) {
            Some(ms) => ms,
            None => Seq::<Seq<char>>::empty(),
        }
    }

    pub fn new(name: &str, action: &str) -> (f: Self)
        ensures
            f.name@ == name@,
            f.action@ == action@,
            f.method@ == "POST"@,
            f.fields@.len() == 0,
            forall|k: Seq<char>| f.values.get_spec(k) is None,
            forall|k: Seq<char>| f.errors.get_spec(k) is None,
            f.errors.len_spec() == 0,
            f.global_error is None,
            f.success is None,
    {
        Form {
            name: to_owned_string(name),
            action: to_owned_string(action),
            method: to_owned_string("POST"),
            fields: Vec::new(),
            values: StrMap::new(),
            errors: FieldErrors::new(),
            global_error: None,
            success: None,
        }
    }

    pub fn field(self, meta: FieldMeta) -> (f: Self)
        ensures
            f == (Form { fields: f.fields, ..self }),
            f.fields@ == self.fields@.push(meta),
    {
        let mut f = self;
        f.fields.push(meta);
        f
    }

    pub fn with_values(self, vals: &ParsedForm) -> (f: Self)
        ensures
            f == (Form { values: f.values, ..self }),
            f.values.pairs() == vals.0.pairs(),
    {
        Form { values: vals.0.clone(), ..self }
    }

    pub fn with_errors(self, errs: FieldErrors) -> (f: Self)
        ensures
            f == (Form { errors: errs, ..self }),
    {
        Form { errors: errs, ..self }
    }

    pub fn with_global_error(self, e: &str) -> (f: Self)
        ensures
            f == (Form { global_error: f.global_error, ..self }),
            f.global_error is Some && f.global_error->0@ == e@,
    {
        Form { global_error: Some(to_owned_string(e)), ..self }
    }

    pub fn with_success(self, s: &str) -> (f: Self)
        ensures
            f == (Form { success: f.success, ..self }),
            f.success is Some && f.success->0@ == s@,
    {
        Form { success: Some(to_owned_string(s)), ..self }
    }

    pub fn get_value(&self, field: &str) -> (r: &str)
        ensures
            r@ == self.value_of(field@),
    {
        match self.values.get(field) {
            Some(v) => v,
            None => {
                proof {
                    reveal_strlit("");
                }
                ""
            },
        }
    }

    pub fn get_errors(&self, field: &str) -> (r: &[String])
        ensures
            r@.map_values(|s: String| s@) == self.errors_of(field@),
    {
        match self.errors.get(field) {
            Some(v) => v.as_slice(),
            None => {
                let r: &[String] = &[];
                assert(r@.map_values(|s: String| s@) =~= Seq::<Seq<char>>::empty());
                r
            },
        }
    }

    pub fn is_valid(&self) -> (b: bool)
        ensures
            b == (self.errors.len_spec() == 0 && self.global_error is None),
    {
        self.errors.is_empty() && self.global_error.is_none()
    }

    /// The schema of the first field named `name`, copied.
    fn find_meta(&self, name: &str) -> (r: Option<FieldMeta>)
        ensures
            match first_named(self.fields@, name@) {
                Some(i) => r is Some && same_meta(r->0, self.fields@[i]),
                None => r is None,
            },
    {
        let mut i: usize = 0;
        while i < self.fields.len()
            invariant
                i <= self.fields@.len(),
                forall|j: int| 0 <= j < i ==> self.fields@[j].name@ != name@,
            decreases self.fields@.len() - i,
        {
            if crate::text::str_eq(self.fields[i].name.as_str(), name) {
                proof {
                    lemma_first_named(self.fields@, name@, i as int);
                }
                return Some(self.fields[i].duplicate());
            }
            i = i + 1;
        }
        proof {
            lemma_first_named(self.fields@, name@, i as int);
        }
        None
    }

    /// The runtime state of field `name`: its value, its errors, its schema
    /// (the first field of that name) and whether any value was posted.
    pub fn runtime_field(&self, name: &str) -> (fld: Field)
        ensures
            fld.name@ == name@,
            fld.value@ == self.value_of(name@),
            msgs_view(fld.errors) == self.errors_of(name@),
            match first_named(self.fields@, name@) {
                Some(i) => fld.meta is Some && same_meta(fld.meta->0, self.fields@[i]),
                None => fld.meta is None,
            },
            fld.touched == (self.values.keys().len() > 0),
    {
        let value = to_owned_string(self.get_value(name));
        let errs = self.get_errors(name);
        let mut errors: Vec<String> = Vec::new();
        let mut i: usize = 0;
        while i < errs.len()
            invariant
                i <= errs@.len(),
                errors@.map_values(|s: String| s@) == errs@.map_values(|s: String| s@).take(i as int),
            decreases errs@.len() - i,
        {
            let e = errs[i].clone();
            let ghost before = errors@;
            errors.push(e);
            proof {
                assert(errors@ == before.push(e));
                assert(e@ == errs@[i as int]@);
                let ghost pre = errs@.map_values(|s: String| s@);
                assert(errors@.map_values(|s: String| s@) =~= before.map_values(|s: String| s@).push(e@));
                assert(pre.take(i + 1) =~= pre.take(i as int).push(pre[i as int]));
            }
            i = i + 1;
        }
        proof {
            assert(errs@.map_values(|s: String| s@).take(errs@.len() as int) =~= errs@.map_values(|s: String| s@));
        }
        Field {
            name: to_owned_string(name),
            value,
            errors,
            meta: self.find_meta(name),
            touched: !self.values.is_empty(),
        }
    }
}

impl Default for Form {
    fn default() -> (f: Self)
        ensures
            f.name@.len() == 0,
            f.action@.len() == 0,
            f.method@.len() == 0,
            f.fields@.len() == 0,
            forall|k: Seq<char>| f.values.get_spec(k) is None,
            f.errors.len_spec() == 0,
            f.global_error is None,
            f.success is None,
    {
        Form {
            name: String::new(),
            action: String::new(),
            method: String::new(),
            fields: Vec::new(),
            values: StrMap::new(),
            errors: FieldErrors::new(),
            global_error: None,
            success: None,
        }
    }
}

/// Runtime form state with full field list for rendering.
pub struct FormState {
    pub form: Form,
    pub is_submitted: bool,
}

impl FormState {
    pub fn new(form: Form) -> (s: Self)
        ensures
            s.form == form,
            !s.is_submitted,
    {
        FormState { form, is_submitted: false }
    }

    pub fn submitted(self) -> (s: Self)
        ensures
            s.form == self.form,
            s.is_submitted,
    {
        FormState { form: self.form, is_submitted: true }
    }
}

/// Whether `m` is the first message `validator` reports for some field of `form`.
pub open spec fn is_reported_first(validator: Validator, form: ParsedForm, m: Seq<char>) -> bool {
    exists|f: Seq<char>| match #[trigger] validator.report(form, f) {
        Some(ms) => ms.len() > 0 && ms[0] == m,
        None => false,
    }
}

/// Whether the pipeline hands the form to the handler: the CSRF token is
/// present and valid at `now` against `entries`, and no rule fails.
pub open spec fn pipeline_passes(parsed: ParsedForm, entries: Seq<(Seq<char>, i64)>, validator: Validator, now: i64) -> bool {
    match parsed.value("_csrf"@) {
        Some(t) => token_valid(entries, t, now) && rule_errors(validator.rules(), parsed).len() == 0,
        None => false,
    }
}

/// The result of a pipeline that stops before the handler.
pub open spec fn pipeline_stop(parsed: ParsedForm, entries: Seq<(Seq<char>, i64)>, validator: Validator, now: i64,
    r: Result<ActionResult, ActionError>) -> bool {
    match parsed.value("_csrf"@) {
        Some(t) => if !token_valid(entries, t, now) {
            r == Err::<ActionResult, ActionError>(ActionError::InvalidCsrf)
        } else {
            r matches Err(ActionError::InvalidInput(m)) && is_reported_first(validator, parsed, m@)
        },
        None => r == Err::<ActionResult, ActionError>(ActionError::InvalidCsrf),
    }
}

/// The CSRF entries after the pipeline: the posted token, if any, is consumed.
pub open spec fn pipeline_entries(parsed: ParsedForm, entries: Seq<(Seq<char>, i64)>) -> Seq<(Seq<char>, i64)> {
    match parsed.value("_csrf"@) {
        Some(t) => token_without(entries, t),
        None => entries,
    }
}

/// Whether the posted CSRF token is present and valid at `now`.
pub open spec fn csrf_ok(parsed: ParsedForm, entries: Seq<(Seq<char>, i64)>, now: i64) -> bool {
    match parsed.value("_csrf"@) {
        Some(t) => token_valid(entries, t, now),
        None => false,
    }
}

/// The pipeline ends in one of three ways: with `InvalidCsrf` exactly when
/// the posted token is missing or not valid, with `InvalidInput` when the
/// token is valid but a rule fails, and in the handler when the token is valid
/// and no rule fails. Whatever the outcome, the posted token is spent.
pub proof fn law_pipeline_outcomes(parsed: ParsedForm, entries: Seq<(Seq<char>, i64)>, validator: Validator, now: i64,
    r: Result<ActionResult, ActionError>)
    ensures
        pipeline_passes(parsed, entries, validator, now)
            <==> (csrf_ok(parsed, entries, now) && rule_errors(validator.rules(), parsed).len() == 0),
        pipeline_stop(parsed, entries, validator, now, r) ==> {
            &&& !csrf_ok(parsed, entries, now) ==> r == Err::<ActionResult, ActionError>(ActionError::InvalidCsrf)
            &&& csrf_ok(parsed, entries, now) ==> r matches Err(ActionError::InvalidInput(_))
        },
        match parsed.value("_csrf"@) {
            Some(t) => token_lookup(pipeline_entries(parsed, entries), t) is None,
            None => pipeline_entries(parsed, entries) == entries,
        },
{
    if let Some(t) = parsed.value("_csrf"@) {
        lemma_without_lookup(entries, t, t);
    }
}

/// The server-action pipeline at time `now`: CSRF check, then validation, then
/// the handler.
pub fn execute_pipeline_at<F>(parsed: &ParsedForm, csrf_store: &mut CsrfStore, validator: &Validator, handler: F, now: i64)
    -> (r: Result<ActionResult, ActionError>)
    where
        F: FnOnce(&ParsedForm) -> Result<ActionResult, ActionError>,
    requires
        call_requires(handler, (parsed,)),
    ensures
        final(csrf_store).entries() == pipeline_entries(*parsed, old(csrf_store).entries()),
        pipeline_passes(*parsed, old(csrf_store).entries(), *validator, now) ==> call_ensures(handler, (parsed,), r),
        !pipeline_passes(*parsed, old(csrf_store).entries(), *validator, now)
            ==> pipeline_stop(*parsed, old(csrf_store).entries(), *validator, now, r),
{
    let token = match parsed.csrf_token() {
        Some(t) => t,
        None => return Err(ActionError::InvalidCsrf),
    };
    if !csrf_store.validate_at(token, now) {
        return Err(ActionError::InvalidCsrf);
    }
    let errors = validator.validate(parsed);
    if !errors.is_empty() {
        let first = match errors.first_message() {
            Some(m) => {
                proof {
                    let g0 = errors.groups()[0].1;
                    let f = choose|f: Seq<char>| #[trigger] errors.get_spec(f) == Some(g0)
                        && g0.len() > 0 && g0[0] == m@;
                    assert(validator.report(*parsed, f) == Some(g0));
                }
                m
            },
            None => {
                proof {
                    let f = choose|f: Seq<char>| #[trigger] errors.get_spec(f) == Some(Seq::<Seq<char>>::empty());
                    assert(errors.get_spec(f) == validator.report(*parsed, f));
                    assert(false);
                }
                String::new()
            },
        };
        return Err(ActionError::InvalidInput(first));
    }
    handler(parsed)
}

/// The server-action pipeline: CSRF check, then validation, then the handler.
/// The token is checked against the clock at the time of the call.
pub fn execute_pipeline<F>(parsed: &ParsedForm, csrf_store: &mut CsrfStore, validator: &Validator, handler: F)
    -> (r: Result<ActionResult, ActionError>)
    where
        F: FnOnce(&ParsedForm) -> Result<ActionResult, ActionError>,
    requires
        call_requires(handler, (parsed,)),
    ensures
        final(csrf_store).entries() == pipeline_entries(*parsed, old(csrf_store).entries()),
        exists|now: i64| clock_time(now) && if #[trigger] pipeline_passes(*parsed, old(csrf_store).entries(), *validator, now) {
            call_ensures(handler, (parsed,), r)
        } else {
            pipeline_stop(*parsed, old(csrf_store).entries(), *validator, now, r)
        },
{
    let now = now_timestamp();
    let r = execute_pipeline_at(parsed, csrf_store, validator, handler, now);
    assert(clock_time(now));
    r
}

} // verus!
