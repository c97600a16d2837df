//! The OpenAPI 3.1 document of an API spec, written as JSON text.
use vstd::prelude::*;
use crate::docs::spec::{EndpointDoc, OpenApiSpec, ResponseDoc};
use indexmap::IndexMap;
use crate::text::{decimal, join, join_strings, lowercase, push_str, string_with_capacity, to_lower,
    to_owned_string, u64_to_string};

verus! {

/// A lower-case hex digit.
pub open spec fn hex_lower(n: int) -> char {
    if n < 10 { (48 + n) as char } else { (87 + n) as char }
}

/// How serde_json writes one character inside a JSON string: quotes, backslashes and
/// control characters escaped, everything else as it is.
pub open spec fn json_char_text(c: char) -> Seq<char> {
    if c == '"' {
        seq!['\\', '"']
    } else if c == '\\' {
        seq!['\\', '\\']
    } else if c == '\n' {
        seq!['\\', 'n']
    } else if c == '\r' {
        seq!['\\', 'r']
    } else if c == '\t' {
        seq!['\\', 't']
    } else if c == '\u{8}' {
        seq!['\\', 'b']
    } else if c == '\u{c}' {
        seq!['\\', 'f']
    } else if (c as int) < 32 {
        seq!['\\', 'u', '0', '0', hex_lower((c as int) / 16), hex_lower((c as int) % 16)]
    } else {
        seq![c]
    }
}

/// The body of a JSON string holding `s`.
pub open spec fn json_body(s: Seq<char>) -> Seq<char>
    decreases s.len(),
{
    if s.len() == 0 {
        seq![]
    } else {
        json_body(s.drop_last()) + json_char_text(s.last())
    }
}

/// The JSON string literal that `serde_json::to_string` writes for the
/// string `s`: the body in double quotes.
pub open spec fn json_string_text(s: Seq<char>) -> Seq<char> {
    seq!['"'] + json_body(s) + seq!['"']
}

/// What `serde_json::to_string` writes for a JSON text after reading it
/// into a `serde_json::Value`: compact, with the members of each object in
/// key order; `None` when the text does not parse or cannot be written.
pub uninterp spec fn json_reformat(text: Seq<char>) -> Option<Seq<char>>;

/// A JSON object of members whose values are already JSON texts.
pub open spec fn object_text(ms: Seq<(Seq<char>, Seq<char>)>) -> Seq<char> {
    "{"@ + join(ms.map_values(|m: (Seq<char>, Seq<char>)| json_string_text(m.0) + ":"@ + m.1), ","@) + "}"@
}

/// A JSON array of elements that are already JSON texts.
pub open spec fn array_text(es: Seq<Seq<char>>) -> Seq<char> {
    "["@ + join(es, ","@) + "]"@
}

/// The index of the first member with key `k`.
pub open spec fn key_index<V>(m: Seq<(Seq<char>, V)>, k: Seq<char>) -> Option<int>
    decreases m.len(),
{
    if m.len() == 0 {
        None
    } else {
        match key_index(m.drop_last(), k) {
            Some(i) => Some(i),
            None => if m.last().0 == k { Some(m.len() - 1) } else { None },
        }
    }
}

/// Sets member `k` to `v`: in place when it is present, else at the end.
pub open spec fn upsert<V>(m: Seq<(Seq<char>, V)>, k: Seq<char>, v: V) -> Seq<(Seq<char>, V)> {
    match key_index(m, k) {
        Some(i) => m.update(i, (k, v)),
        None => m.push((k, v)),
    }
}

/// The response members of an operation: status to description object.
pub open spec fn response_members(rs: Seq<ResponseDoc>) -> Seq<(Seq<char>, Seq<char>)>
    decreases rs.len(),
{
    if rs.len() == 0 {
        seq![]
    } else {
        upsert(
            response_members(rs.drop_last()),
            decimal(rs.last().status as nat),
            object_text(seq![("description"@, json_string_text(rs.last().description@))]),
        )
    }
}

/// The security requirement of an authenticated operation.
pub open spec fn bearer_security() -> Seq<char> {
    "[{\"bearerAuth\":[]}]"@
}

/// The operation object of an endpoint.
pub open spec fn operation_text(ep: EndpointDoc) -> Seq<char> {
    object_text(seq![
        ("summary"@, json_string_text(ep.summary@)),
        ("description"@, json_string_text(ep.description@)),
        ("tags"@, array_text(ep.tags@.map_values(|t: String| json_string_text(t@)))),
        ("deprecated"@, if ep.deprecated { "true"@ } else { "false"@ }),
        ("responses"@, object_text(response_members(ep.responses@))),
    ] + if ep.auth_required { seq![("security"@, bearer_security())] } else { seq![] })
}

/// The paths of the document: each path with its operations by lower-case
/// method; a later endpoint on the same path and method replaces the earlier.
pub open spec fn path_members(eps: Seq<EndpointDoc>) -> Seq<(Seq<char>, Seq<(Seq<char>, Seq<char>)>)>
    decreases eps.len(),
{
    if eps.len() == 0 {
        seq![]
    } else {
        let before = path_members(eps.drop_last());
        let ep = eps.last();
        let ops = match key_index(before, ep.path@) {
            Some(i) => before[i].1,
            None => seq![],
        };
        upsert(before, ep.path@, upsert(ops, lowercase(ep.method@), operation_text(ep)))
    }
}

/// The security schemes of the document.
pub open spec fn components_text() -> Seq<char> {
    "{\"securitySchemes\":{\"bearerAuth\":{\"type\":\"http\",\"scheme\":\"bearer\"}}}"@
}

/// The whole OpenAPI document of a spec, members in order of first insertion.
pub open spec fn openapi_text(s: OpenApiSpec) -> Seq<char> {
    object_text(seq![
        ("openapi"@, json_string_text("3.1.0"@)),
        ("info"@, object_text(seq![
            ("title"@, json_string_text(s.title@)),
            ("version"@, json_string_text(s.version@)),
            ("description"@, json_string_text(s.description@)),
        ])),
        ("servers"@, array_text(s.servers@.map_values(|u: String| object_text(seq![("url"@, json_string_text(u@))])))),
        ("paths"@, object_text(path_members(s.endpoints@).map_values(
            |p: (Seq<char>, Seq<(Seq<char>, Seq<char>)>)| (p.0, object_text(p.1)),
        ))),
        ("components"@, components_text()),
    ])
}

/// The keys of members, in order.
pub open spec fn member_keys<V>(m: Seq<(Seq<char>, V)>) -> Seq<Seq<char>> {
    m.map_values(|p: (Seq<char>, V)| p.0)
}

/// The value of the member with key `k`.
pub open spec fn member<V>(m: Seq<(Seq<char>, V)>, k: Seq<char>) -> Option<V> {
    match key_index(m, k) {
        Some(i) => Some(m[i].1),
        None => None,
    }
}

/// The distinct names, in order of first appearance.
pub open spec fn first_seen(ns: Seq<Seq<char>>) -> Seq<Seq<char>>
    decreases ns.len(),
{
    if ns.len() == 0 {
        seq![]
    } else {
        let r = first_seen(ns.drop_last());
        if r.contains(ns.last()) { r } else { r.push(ns.last()) }
    }
}

/// The operations of path `p`, method by method: each endpoint on `p`, in
/// order, sets its lower-case method; `None` when no endpoint is on `p`.
pub open spec fn path_ops(eps: Seq<EndpointDoc>, p: Seq<char>) -> Option<Seq<(Seq<char>, Seq<char>)>>
    decreases eps.len(),
{
    if eps.len() == 0 {
        None
    } else {
        let before = path_ops(eps.drop_last(), p);
        if eps.last().path@ == p {
            let ops = match before {
                Some(o) => o,
                None => seq![],
            };
            Some(upsert(ops, lowercase(eps.last().method@), operation_text(eps.last())))
        } else {
            before
        }
    }
}

/// The operation of the last endpoint on path `p` whose lower-case method is `m`.
pub open spec fn last_op(eps: Seq<EndpointDoc>, p: Seq<char>, m: Seq<char>) -> Option<Seq<char>>
    decreases eps.len(),
{
    if eps.len() == 0 {
        None
    } else if eps.last().path@ == p && lowercase(eps.last().method@) == m {
        Some(operation_text(eps.last()))
    } else {
        last_op(eps.drop_last(), p, m)
    }
}

proof fn lemma_key_index_push<V>(m: Seq<(Seq<char>, V)>, x: (Seq<char>, V), q: Seq<char>)
    ensures
        key_index(m.push(x), q) == match key_index(m, q) {
            Some(i) => Some(i),
            None => if x.0 == q { Some(m.len() as int) } else { None },
        },
{
    assert(m.push(x).drop_last() =~= m);
}

proof fn lemma_key_index_keys<V>(m1: Seq<(Seq<char>, V)>, m2: Seq<(Seq<char>, V)>, q: Seq<char>)
    requires
        m1.len() == m2.len(),
        forall|i: int| 0 <= i < m1.len() ==> m1[i].0 == m2[i].0,
    ensures
        key_index(m1, q) == key_index(m2, q),
    decreases m1.len(),
{
    if m1.len() > 0 {
        lemma_key_index_keys(m1.drop_last(), m2.drop_last(), q);
    }
}

proof fn lemma_key_index_none<V>(m: Seq<(Seq<char>, V)>, q: Seq<char>)
    ensures
        key_index(m, q) is None <==> !member_keys(m).contains(q),
    decreases m.len(),
{
    if m.len() > 0 {
        let t = m.drop_last();
        lemma_key_index_none(t, q);
        let km = member_keys(m);
        let kt = member_keys(t);
        assert(km =~= kt.push(m.last().0));
        if m.last().0 == q {
            assert(km[m.len() - 1] == q);
        }
        if kt.contains(q) {
            let j = choose|j: int| 0 <= j < kt.len() && kt[j] == q;
            assert(km[j] == q);
        }
        if km.contains(q) {
            let j = choose|j: int| 0 <= j < km.len() && km[j] == q;
            if j < t.len() {
                assert(kt[j] == q);
            }
        }
    }
}

proof fn lemma_upsert<V>(m: Seq<(Seq<char>, V)>, k: Seq<char>, v: V)
    ensures
        member_keys(upsert(m, k, v)) == if member_keys(m).contains(k) { member_keys(m) } else { member_keys(m).push(k) },
        forall|q: Seq<char>| #[trigger] member(upsert(m, k, v), q) == if q == k { Some(v) } else { member(m, q) },
{
    lemma_key_index_none(m, k);
    lemma_key_index_range(m, k);
    match key_index(m, k) {
        Some(i) => {
            let u = m.update(i, (k, v));
            assert(member_keys(u) =~= member_keys(m));
            assert forall|q: Seq<char>| #[trigger] member(u, q) == if q == k { Some(v) } else { member(m, q) } by {
                lemma_key_index_keys(u, m, q);
                lemma_key_index_range(m, q);
            }
        },
        None => {
            let u = m.push((k, v));
            assert(member_keys(u) =~= member_keys(m).push(k));
            assert forall|q: Seq<char>| #[trigger] member(u, q) == if q == k { Some(v) } else { member(m, q) } by {
                lemma_key_index_push(m, (k, v), q);
                lemma_key_index_range(m, q);
            }
        },
    }
}

/// The path table from which the OpenAPI document is written: each path
/// once, in order of first appearance among the endpoints; under each path, its operations by
/// lower-case method, each being the operation of the last endpoint on that
/// path and method.
pub proof fn law_openapi_paths(eps: Seq<EndpointDoc>)
    ensures
        member_keys(path_members(eps)) == first_seen(eps.map_values(|e: EndpointDoc| e.path@)),
        forall|p: Seq<char>| #[trigger] member(path_members(eps), p) == path_ops(eps, p),
        forall|p: Seq<char>, m: Seq<char>| path_ops(eps, p) is Some
            ==> member(path_ops(eps, p).unwrap(), m) == #[trigger] last_op(eps, p, m),
    decreases eps.len(),
{
    if eps.len() > 0 {
        let t = eps.drop_last();
        let ep = eps.last();
        law_openapi_paths(t);
        let before = path_members(t);
        let ops = match key_index(before, ep.path@) {
            Some(i) => before[i].1,
            None => seq![],
        };
        let lc = lowercase(ep.method@);
        let nops = upsert(ops, lc, operation_text(ep));
        lemma_upsert(before, ep.path@, nops);
        lemma_upsert(ops, lc, operation_text(ep));
        lemma_key_index_none(before, ep.path@);
        let ns = t.map_values(|e: EndpointDoc| e.path@);
        assert(eps.map_values(|e: EndpointDoc| e.path@) =~= ns.push(ep.path@));
        assert(ns.push(ep.path@).drop_last() =~= ns);
        assert(member(before, ep.path@) == path_ops(t, ep.path@));
        match path_ops(t, ep.path@) {
            Some(o) => { assert(ops == o); },
            None => { assert(ops == Seq::<(Seq<char>, Seq<char>)>::empty()); },
        }
        assert forall|p: Seq<char>, m: Seq<char>| path_ops(eps, p) is Some
            implies member(path_ops(eps, p).unwrap(), m) == #[trigger] last_op(eps, p, m) by {
            let lt = last_op(t, p, m);
            if p == ep.path@ {
                assert(path_ops(eps, p).unwrap() == nops);
                assert(member(nops, m) == if m == lc { Some(operation_text(ep)) } else { member(ops, m) });
                if m != lc {
                    assert(last_op(eps, p, m) == lt);
                    if path_ops(t, p) is None {
                        lemma_key_index_none(Seq::<(Seq<char>, Seq<char>)>::empty(), m);
                        lemma_last_op_none(t, p, m);
                    } else {
                        assert(member(path_ops(t, p).unwrap(), m) == lt);
                    }
                }
            } else {
                assert(last_op(eps, p, m) == lt);
                assert(path_ops(eps, p) == path_ops(t, p));
            }
        }
    }
}

proof fn lemma_last_op_none(eps: Seq<EndpointDoc>, p: Seq<char>, m: Seq<char>)
    requires
        path_ops(eps, p) is None,
    ensures
        last_op(eps, p, m) is None,
    decreases eps.len(),
{
    if eps.len() > 0 {
        lemma_last_op_none(eps.drop_last(), p, m);
    }
}

proof fn lemma_key_index_range<V>(m: Seq<(Seq<char>, V)>, k: Seq<char>)
    ensures
        key_index(m, k) matches Some(i) ==> 0 <= i < m.len() && m[i].0 == k,
    decreases m.len(),
{
    if m.len() > 0 {
        lemma_key_index_range(m.drop_last(), k);
        if let Some(i) = key_index(m.drop_last(), k) {
            assert(m.drop_last()[i] == m[i]);
        }
    }
}

/// `serde_json::to_string` on a string: the contract claims that it gives
/// `json_string_text` of the string, serde_json's escaping of quotes,
/// backslashes and control characters (writing a string cannot fail).
#[verifier::external_body]
fn json_quoted(s: &str) -> (r: String)
    ensures
        r@ == json_string_text(s@),
{
    serde_json::to_string(s).unwrap_or_default()
}

/// `serde_json::from_str` into a `serde_json::Value`, then
/// `serde_json::to_string`: the contract claims that the result is
/// `json_reformat` of the text.
#[verifier::external_body]
fn reformat_json(text: &str) -> (r: Option<String>)
    ensures
        match r {
            Some(t) => json_reformat(text@) == Some(t@),
            None => json_reformat(text@) is None,
        },
{
    match serde_json::from_str::<serde_json::Value>(text) {
        Ok(v) => serde_json::to_string(&v).ok(),
        Err(_) => None,
    }
}

/// The JSON text of an object whose members' values are JSON texts.
fn object_of(ms: &Vec<(String, String)>) -> (r: String)
    ensures
        r@ == object_text(ms@.map_values(|m: (String, String)| (m.0@, m.1@))),
{
    let ghost mv = ms@.map_values(|m: (String, String)| (m.0@, m.1@));
    let mut parts: Vec<String> = Vec::new();
    let mut i: usize = 0;
    while i < ms.len()
        invariant
            i <= ms@.len(),
            mv == ms@.map_values(|m: (String, String)| (m.0@, m.1@)),
            parts@.map_values(|p: String| p@)
                == mv.take(i as int).map_values(|m: (Seq<char>, Seq<char>)| json_string_text(m.0) + ":"@ + m.1),
        decreases ms@.len() - i,
    {
        let mut p = json_quoted(ms[i].0.as_str());
        push_str(&mut p, ":");
        push_str(&mut p, ms[i].1.as_str());
        let ghost before = parts@;
        proof {
            assert(p@ == json_string_text(mv[i as int].0) + ":"@ + mv[i as int].1);
        }
        parts.push(p);
        proof {
            assert(parts@.map_values(|p: String| p@) =~= before.map_values(|p: String| p@).push(
                json_string_text(mv[i as int].0) + ":"@ + mv[i as int].1,
            ));
            assert(mv.take(i + 1).map_values(|m: (Seq<char>, Seq<char>)| json_string_text(m.0) + ":"@ + m.1)
                =~= mv.take(i as int).map_values(|m: (Seq<char>, Seq<char>)| json_string_text(m.0) + ":"@ + m.1).push(
                json_string_text(mv[i as int].0) + ":"@ + mv[i as int].1,
            ));
        }
        i = i + 1;
    }
    proof {
        assert(mv.take(mv.len() as int) == mv);
    }
    let body = join_strings(&parts, ",");
    let mut r = string_with_capacity(0);
    push_str(&mut r, "{");
    push_str(&mut r, body.as_str());
    push_str(&mut r, "}");
    r
}

/// The JSON text of an array whose elements are JSON texts.
fn array_of(es: &Vec<String>) -> (r: String)
    ensures
        r@ == array_text(es@.map_values(|e: String| e@)),
{
    let body = join_strings(es, ",");
    let mut r = string_with_capacity(0);
    push_str(&mut r, "[");
    push_str(&mut r, body.as_str());
    push_str(&mut r, "]");
    r
}

/// An `indexmap::IndexMap`: entries in order of first insertion.
#[verifier::external_type_specification]
#[verifier::external_body]
#[verifier::reject_recursive_types(K)]
#[verifier::reject_recursive_types(V)]
#[verifier::reject_recursive_types(S)]
pub struct ExIndexMap<K, V, S>(indexmap::IndexMap<K, V, S>);

/// The entries of a map of member texts, key and value, in the map's order.
pub uninterp spec fn member_entries(m: IndexMap<String, String>) -> Seq<(Seq<char>, Seq<char>)>;

/// The entries of the path table, each path with the entries of its
/// operations, in the map's order.
pub uninterp spec fn path_entries(m: IndexMap<String, IndexMap<String, String>>) -> Seq<(Seq<char>, Seq<(Seq<char>, Seq<char>)>)>;

/// `IndexMap::new`: no entries.
#[verifier::external_body]
fn new_members() -> (m: IndexMap<String, String>)
    ensures
        member_entries(m) == Seq::<(Seq<char>, Seq<char>)>::empty(),
{
    IndexMap::new()
}

/// `IndexMap::insert`: an entry with an equal key keeps its place and takes
/// the new value; else the entry goes last.
#[verifier::external_body]
fn insert_member(m: &mut IndexMap<String, String>, k: String, v: String)
    ensures
        member_entries(*final(m)) == upsert(member_entries(*old(m)), k@, v@),
{
    m.insert(k, v);
}

/// The entries of a map of member texts, cloned out in the map's order.
#[verifier::external_body]
fn member_pairs(m: &IndexMap<String, String>) -> (r: Vec<(String, String)>)
    ensures
        r@.map_values(|p: (String, String)| (p.0@, p.1@)) == member_entries(*m),
{
    m.clone().into_iter().collect()
}

/// `IndexMap::new` for the path table: no entries.
#[verifier::external_body]
fn new_paths() -> (m: IndexMap<String, IndexMap<String, String>>)
    ensures
        path_entries(m) == Seq::<(Seq<char>, Seq<(Seq<char>, Seq<char>)>)>::empty(),
{
    IndexMap::new()
}

/// `IndexMap::insert` on the path table: an entry with an equal path keeps
/// its place and takes the new operations; else the entry goes last.
#[verifier::external_body]
fn insert_path(m: &mut IndexMap<String, IndexMap<String, String>>, k: String, v: IndexMap<String, String>)
    ensures
        path_entries(*final(m)) == upsert(path_entries(*old(m)), k@, member_entries(v)),
{
    m.insert(k, v);
}

/// `IndexMap::get` on the path table, the operations cloned out.
#[verifier::external_body]
fn get_path(m: &IndexMap<String, IndexMap<String, String>>, k: &str) -> (r: Option<IndexMap<String, String>>)
    ensures
        match r {
            Some(v) => member(path_entries(*m), k@) == Some(member_entries(v)),
            None => member(path_entries(*m), k@) is None,
        },
{
    m.get(k).cloned()
}

/// The entries of the path table, cloned out in the map's order.
#[verifier::external_body]
fn path_pairs(m: &IndexMap<String, IndexMap<String, String>>) -> (r: Vec<(String, IndexMap<String, String>)>)
    ensures
        r@.len() == path_entries(*m).len(),
        forall|i: int| 0 <= i < r@.len() ==> (#[trigger] r@[i]).0@ == path_entries(*m)[i].0
            && member_entries(r@[i].1) == path_entries(*m)[i].1,
{
    m.clone().into_iter().collect()
}

fn response_object(r: &ResponseDoc) -> (s: String)
    ensures
        s@ == object_text(seq![("description"@, json_string_text(r.description@))]),
{
    let mut ms: Vec<(String, String)> = Vec::new();
    ms.push((to_owned_string("description"), json_quoted(r.description.as_str())));
    let s = object_of(&ms);
    proof {
        assert(ms@.map_values(|m: (String, String)| (m.0@, m.1@)) =~= seq![("description"@, json_string_text(r.description@))]);
    }
    s
}

fn operation_of(ep: &EndpointDoc) -> (s: String)
    ensures
        s@ == operation_text(*ep),
{
    let mut responses = new_members();
    let mut i: usize = 0;
    while i < ep.responses.len()
        invariant
            i <= ep.responses@.len(),
            member_entries(responses) == response_members(ep.responses@.take(i as int)),
        decreases ep.responses@.len() - i,
    {
        let r = &ep.responses[i];
        let key = u64_to_string(r.status as u64);
        let val = response_object(r);
        insert_member(&mut responses, key, val);
        proof {
            assert(ep.responses@.take(i + 1).drop_last() == ep.responses@.take(i as int));
            assert(ep.responses@.take(i + 1).last() == ep.responses@[i as int]);
        }
        i = i + 1;
    }
    proof {
        assert(ep.responses@.take(ep.responses@.len() as int) == ep.responses@);
    }
    let response_pairs = member_pairs(&responses);
    let mut tags: Vec<String> = Vec::new();
    let mut k: usize = 0;
    while k < ep.tags.len()
        invariant
            k <= ep.tags@.len(),
            tags@.map_values(|e: String| e@) == ep.tags@.take(k as int).map_values(|t: String| json_string_text(t@)),
        decreases ep.tags@.len() - k,
    {
        let q = json_quoted(ep.tags[k].as_str());
        let ghost before = tags@;
        tags.push(q);
        proof {
            assert(tags@.map_values(|e: String| e@) =~= before.map_values(|e: String| e@).push(json_string_text(ep.tags@[k as int]@)));
            assert(ep.tags@.take(k + 1).map_values(|t: String| json_string_text(t@))
                =~= ep.tags@.take(k as int).map_values(|t: String| json_string_text(t@)).push(json_string_text(ep.tags@[k as int]@)));
        }
        k = k + 1;
    }
    proof {
        assert(ep.tags@.take(ep.tags@.len() as int) == ep.tags@);
    }
    let mut op: Vec<(String, String)> = Vec::new();
    op.push((to_owned_string("summary"), json_quoted(ep.summary.as_str())));
    op.push((to_owned_string("description"), json_quoted(ep.description.as_str())));
    op.push((to_owned_string("tags"), array_of(&tags)));
    op.push((to_owned_string("deprecated"), to_owned_string(if ep.deprecated { "true" } else { "false" })));
    op.push((to_owned_string("responses"), object_of(&response_pairs)));
    if ep.auth_required {
        op.push((to_owned_string("security"), to_owned_string("[{\"bearerAuth\":[]}]")));
    }
    let s = object_of(&op);
    proof {
        assert(op@.map_values(|m: (String, String)| (m.0@, m.1@)) =~= seq![
            ("summary"@, json_string_text(ep.summary@)),
            ("description"@, json_string_text(ep.description@)),
            ("tags"@, array_text(ep.tags@.map_values(|t: String| json_string_text(t@)))),
            ("deprecated"@, if ep.deprecated { "true"@ } else { "false"@ }),
            ("responses"@, object_text(response_members(ep.responses@))),
        ] + if ep.auth_required { seq![("security"@, bearer_security())] } else { seq![] });
    }
    s
}

/// Adds an endpoint's operation to the path table.
fn add_operation(paths: &mut IndexMap<String, IndexMap<String, String>>, ep: &EndpointDoc)
    ensures
        path_entries(*final(paths)) == {
            let before = path_entries(*old(paths));
            let ops = match key_index(before, ep.path@) {
                Some(i) => before[i].1,
                None => seq![],
            };
            upsert(before, ep.path@, upsert(ops, lowercase(ep.method@), operation_text(*ep)))
        },
{
    let method = to_lower(ep.method.as_str());
    let op = operation_of(ep);
    let mut ops = match get_path(paths, ep.path.as_str()) {
        Some(o) => o,
        None => new_members(),
    };
    insert_member(&mut ops, method, op);
    insert_path(paths, to_owned_string(ep.path.as_str()), ops);
}

/// The OpenAPI document as `to_openapi_json` gives it: the document text as
/// serde_json writes it back (members of each object in key order), or the
/// text itself should serde_json refuse it.
pub open spec fn openapi_json(s: OpenApiSpec) -> Seq<char> {
    match json_reformat(openapi_text(s)) {
        Some(t) => t,
        None => openapi_text(s),
    }
}

impl OpenApiSpec {
    /// The OpenAPI 3.1 document of the spec as compact JSON text, as
    /// serde_json writes its value: the members of each object in key order.
    pub fn to_openapi_json(&self) -> (s: String)
        ensures
            s@ == openapi_json(*self),
    {
        let text = self.openapi_document();
        match reformat_json(text.as_str()) {
            Some(t) => t,
            None => text,
        }
    }

    /// The OpenAPI 3.1 document of the spec as compact JSON text, members in
    /// order of first insertion.
    fn openapi_document(&self) -> (s: String)
        ensures
            s@ == openapi_text(*self),
    {
        let mut paths = new_paths();
        let mut i: usize = 0;
        while i < self.endpoints.len()
            invariant
                i <= self.endpoints@.len(),
                path_entries(paths) == path_members(self.endpoints@.take(i as int)),
            decreases self.endpoints@.len() - i,
        {
            add_operation(&mut paths, &self.endpoints[i]);
            proof {
                assert(self.endpoints@.take(i + 1).drop_last() == self.endpoints@.take(i as int));
                assert(self.endpoints@.take(i + 1).last() == self.endpoints@[i as int]);
            }
            i = i + 1;
        }
        proof {
            assert(self.endpoints@.take(self.endpoints@.len() as int) == self.endpoints@);
        }
        let table = path_pairs(&paths);
        let ghost pv = path_entries(paths);
        let mut path_objects: Vec<(String, String)> = Vec::new();
        let mut k: usize = 0;
        while k < table.len()
            invariant
                k <= table@.len(),
                table@.len() == pv.len(),
                forall|j: int| 0 <= j < table@.len() ==> (#[trigger] table@[j]).0@ == pv[j].0
                    && member_entries(table@[j].1) == pv[j].1,
                path_objects@.map_values(|m: (String, String)| (m.0@, m.1@)) == pv.take(k as int).map_values(
                    |p: (Seq<char>, Seq<(Seq<char>, Seq<char>)>)| (p.0, object_text(p.1)),
                ),
            decreases table@.len() - k,
        {
            let key = table[k].0.clone();
            let members = member_pairs(&table[k].1);
            let val = object_of(&members);
            let ghost before = path_objects@;
            proof {
                assert(table@[k as int].0@ == pv[k as int].0);
            }
            path_objects.push((key, val));
            proof {
                let f = |p: (Seq<char>, Seq<(Seq<char>, Seq<char>)>)| (p.0, object_text(p.1));
                assert(path_objects@.map_values(|m: (String, String)| (m.0@, m.1@))
                    =~= before.map_values(|m: (String, String)| (m.0@, m.1@)).push(f(pv[k as int])));
                assert(pv.take(k + 1).map_values(f) =~= pv.take(k as int).map_values(f).push(f(pv[k as int])));
            }
            k = k + 1;
        }
        proof {
            assert(pv.take(pv.len() as int) == pv);
        }
        let mut servers: Vec<String> = Vec::new();
        let mut j: usize = 0;
        while j < self.servers.len()
            invariant
                j <= self.servers@.len(),
                servers@.map_values(|e: String| e@) == self.servers@.take(j as int).map_values(
                    |u: String| object_text(seq![("url"@, json_string_text(u@))]),
                ),
            decreases self.servers@.len() - j,
        {
            let mut ms: Vec<(String, String)> = Vec::new();
            ms.push((to_owned_string("url"), json_quoted(self.servers[j].as_str())));
            proof {
                assert(ms@.map_values(|m: (String, String)| (m.0@, m.1@)) =~= seq![("url"@, json_string_text(self.servers@[j as int]@))]);
            }
            let o = object_of(&ms);
            let ghost before = servers@;
            servers.push(o);
            proof {
                let f = |u: String| object_text(seq![("url"@, json_string_text(u@))]);
                assert(servers@.map_values(|e: String| e@) =~= before.map_values(|e: String| e@).push(f(self.servers@[j as int])));
                assert(self.servers@.take(j + 1).map_values(f) =~= self.servers@.take(j as int).map_values(f).push(f(self.servers@[j as int])));
            }
            j = j + 1;
        }
        proof {
            assert(self.servers@.take(self.servers@.len() as int) == self.servers@);
        }
        let mut info: Vec<(String, String)> = Vec::new();
        info.push((to_owned_string("title"), json_quoted(self.title.as_str())));
        info.push((to_owned_string("version"), json_quoted(self.version.as_str())));
        info.push((to_owned_string("description"), json_quoted(self.description.as_str())));
        proof {
            assert(info@.map_values(|m: (String, String)| (m.0@, m.1@)) =~= seq![
                ("title"@, json_string_text(self.title@)),
                ("version"@, json_string_text(self.version@)),
                ("description"@, json_string_text(self.description@)),
            ]);
        }
        let mut doc: Vec<(String, String)> = Vec::new();
        doc.push((to_owned_string("openapi"), json_quoted("3.1.0")));
        doc.push((to_owned_string("info"), object_of(&info)));
        doc.push((to_owned_string("servers"), array_of(&servers)));
        doc.push((to_owned_string("paths"), object_of(&path_objects)));
        doc.push((to_owned_string("components"), to_owned_string(
            "{\"securitySchemes\":{\"bearerAuth\":{\"type\":\"http\",\"scheme\":\"bearer\"}}}",
        )));
        let s = object_of(&doc);
        proof {
            assert(doc@.map_values(|m: (String, String)| (m.0@, m.1@)) =~= seq![
                ("openapi"@, json_string_text("3.1.0"@)),
                ("info"@, object_text(seq![
                    ("title"@, json_string_text(self.title@)),
                    ("version"@, json_string_text(self.version@)),
                    ("description"@, json_string_text(self.description@)),
                ])),
                ("servers"@, array_text(self.servers@.map_values(|u: String| object_text(seq![("url"@, json_string_text(u@))])))),
                ("paths"@, object_text(path_members(self.endpoints@).map_values(
                    |p: (Seq<char>, Seq<(Seq<char>, Seq<char>)>)| (p.0, object_text(p.1)),
                ))),
                ("components"@, components_text()),
            ]);
        }
        s
    }
}

} // verus!
