//! Route responses for tests, and a client that stands in for HTTP.
use vstd::prelude::*;
use crate::testing::debug::{debug_str, debug_text};
use crate::text::{chars_of, contains_str, decimal, push_str, seq_contains, string_with_capacity, to_owned_string,
    u64_to_string};

verus! {

#[derive(Debug, Clone)]
pub struct RouteResponse {
    pub status: u16,
    pub headers: Vec<(String, String)>,
    pub body: String,
}

/// A character with ASCII letters folded to lower case.
pub open spec fn ascii_fold(c: char) -> char {
    if 'A' <= c && c <= 'Z' { ((c as int) + 32) as char } else { c }
}

/// Whether two texts are equal ignoring ASCII case (`str::eq_ignore_ascii_case`).
pub open spec fn eq_ignore_ascii_case(a: Seq<char>, b: Seq<char>) -> bool {
    a.len() == b.len() && forall|i: int| 0 <= i < a.len() ==> ascii_fold(#[trigger] a[i]) == ascii_fold(b[i])
}

fn fold_char(c: char) -> (r: char)
    ensures
        r == ascii_fold(c),
{
    if 'A' <= c && c <= 'Z' {
        let b = c as u8;
        ((b + 32) as u8) as char
    } else {
        c
    }
}

fn eq_ignore_case(a: &str, b: &str) -> (r: bool)
    ensures
        r == eq_ignore_ascii_case(a@, b@),
{
    let av = chars_of(a);
    let bv = chars_of(b);
    if av.len() != bv.len() {
        return false;
    }
    let mut i: usize = 0;
    while i < av.len()
        invariant
            i <= av@.len(),
            av@ == a@,
            bv@ == b@,
            av@.len() == bv@.len(),
            forall|j: int| 0 <= j < i ==> ascii_fold(#[trigger] av@[j]) == ascii_fold(bv@[j]),
        decreases av@.len() - i,
    {
        if fold_char(av[i]) != fold_char(bv[i]) {
            return false;
        }
        i = i + 1;
    }
    true
}

/// The index of the first header named `name`, ignoring ASCII case.
pub open spec fn header_index(hs: Seq<(String, String)>, name: Seq<char>) -> Option<int>
    decreases hs.len(),
{
    if hs.len() == 0 {
        None
    } else {
        match header_index(hs.drop_last(), name) {
            Some(i) => Some(i),
            None => if eq_ignore_ascii_case(hs.last().0@, name) { Some(hs.len() - 1) } else { None },
        }
    }
}

proof fn lemma_header_index(hs: Seq<(String, String)>, name: Seq<char>, i: int)
    requires
        0 <= i <= hs.len(),
        forall|j: int| 0 <= j < i ==> !eq_ignore_ascii_case(hs[j].0@, name),
        i < hs.len() ==> eq_ignore_ascii_case(hs[i].0@, name),
    ensures
        header_index(hs, name) == if i < hs.len() { Some(i) } else { None::<int> },
    decreases hs.len(),
{
    if hs.len() > 0 {
        let t = hs.drop_last();
        let k = if i < hs.len() - 1 { i } else { hs.len() - 1 };
        assert forall|j: int| 0 <= j < k implies !eq_ignore_ascii_case(t[j].0@, name) by {
            assert(t[j] == hs[j]);
        }
        if i < hs.len() - 1 {
            assert(t[i] == hs[i]);
        }
        lemma_header_index(t, name, k);
    }
}

impl RouteResponse {
    pub fn is_ok(&self) -> (b: bool)
        ensures
            b == (200 <= self.status < 300),
    {
        self.status >= 200 && self.status < 300
    }

    pub fn is_redirect(&self) -> (b: bool)
        ensures
            b == (300 <= self.status < 400),
    {
        self.status >= 300 && self.status < 400
    }

    /// The value of the first header named `name`, ignoring ASCII case.
    pub fn header(&self, name: &str) -> (r: Option<&str>)
        ensures
            match header_index(self.headers@, name@) {
                Some(i) => r matches Some(v) && v@ == self.headers@[i].1@,
                None => r is None,
            },
    {
        let mut i: usize = 0;
        while i < self.headers.len()
            invariant
                i <= self.headers@.len(),
                forall|j: int| 0 <= j < i ==> !eq_ignore_ascii_case(self.headers@[j].0@, name@),
            decreases self.headers@.len() - i,
        {
            if eq_ignore_case(self.headers[i].0.as_str(), name) {
                proof {
                    lemma_header_index(self.headers@, name@, i as int);
                }
                return Some(self.headers[i].1.as_str());
            }
            i = i + 1;
        }
        proof {
            lemma_header_index(self.headers@, name@, i as int);
        }
        None
    }

    pub fn content_type(&self) -> (r: Option<&str>)
        ensures
            match header_index(self.headers@, "content-type"@) {
                Some(i) => r matches Some(v) && v@ == self.headers@[i].1@,
                None => r is None,
            },
    {
        self.header("content-type")
    }

    pub fn assert_status(&self, expected: u16) -> (r: Result<(), String>)
        ensures
            r is Ok <==> self.status == expected,
            r matches Err(m) ==> m@ == "Expected status "@ + decimal(expected as nat) + ", got "@
                + decimal(self.status as nat),
    {
        if self.status == expected {
            Ok(())
        } else {
            let mut m = string_with_capacity(0);
            push_str(&mut m, "Expected status ");
            let e = u64_to_string(expected as u64);
            push_str(&mut m, e.as_str());
            push_str(&mut m, ", got ");
            let g = u64_to_string(self.status as u64);
            push_str(&mut m, g.as_str());
            Err(m)
        }
    }

    pub fn assert_contains(&self, text: &str) -> (r: Result<(), String>)
        ensures
            r is Ok <==> seq_contains(self.body@, text@),
            r matches Err(m) ==> m@ == "Response body does not contain: "@ + debug_str(text@),
    {
        if contains_str(self.body.as_str(), text) {
            Ok(())
        } else {
            let mut m = string_with_capacity(0);
            push_str(&mut m, "Response body does not contain: ");
            let d = debug_text(text);
            push_str(&mut m, d.as_str());
            Err(m)
        }
    }

    pub fn assert_not_contains(&self, text: &str) -> (r: Result<(), String>)
        ensures
            r is Ok <==> !seq_contains(self.body@, text@),
            r matches Err(m) ==> m@ == "Response body unexpectedly contains: "@ + debug_str(text@),
    {
        if !contains_str(self.body.as_str(), text) {
            Ok(())
        } else {
            let mut m = string_with_capacity(0);
            push_str(&mut m, "Response body unexpectedly contains: ");
            let d = debug_text(text);
            push_str(&mut m, d.as_str());
            Err(m)
        }
    }
}

/// A client for route tests. It makes no request: it answers every route with
/// a 200 HTML response whose body records the request.
pub struct RouteTestClient {
    pub base_url: String,
}

/// The headers of a stub response.
pub open spec fn stub_headers(hs: Seq<(String, String)>) -> bool {
    hs.len() == 1 && hs[0].0@ == "content-type"@ && hs[0].1@ == "text/html"@
}

fn stub_response(body: String) -> (r: RouteResponse)
    ensures
        r.status == 200,
        stub_headers(r.headers@),
        r.body == body,
{
    let mut headers: Vec<(String, String)> = Vec::new();
    headers.push((to_owned_string("content-type"), to_owned_string("text/html")));
    RouteResponse { status: 200, headers, body }
}

impl RouteTestClient {
    pub fn new(base_url: &str) -> (c: Self)
        ensures
            c.base_url@ == base_url@,
    {
        RouteTestClient { base_url: to_owned_string(base_url) }
    }

    pub fn get(&self, path: &str) -> (r: RouteResponse)
        ensures
            r.status == 200,
            stub_headers(r.headers@),
            r.body@ == "<!-- GET "@ + path@ + " -->"@,
    {
        let mut body = string_with_capacity(0);
        push_str(&mut body, "<!-- GET ");
        push_str(&mut body, path);
        push_str(&mut body, " -->");
        stub_response(body)
    }

    /// The stub response to a POST; its body records the body's length in bytes.
    pub fn post(&self, path: &str, body: &str) -> (r: RouteResponse)
        ensures
            r.status == 200,
            stub_headers(r.headers@),
            r.body@ == "<!-- POST "@ + path@ + " body_len="@ + decimal(vstd::utf8::encode_utf8(body@).len())
                + " -->"@,
    {
        let mut b = string_with_capacity(0);
        push_str(&mut b, "<!-- POST ");
        push_str(&mut b, path);
        push_str(&mut b, " body_len=");
        let n = u64_to_string(body.as_bytes().len() as u64);
        push_str(&mut b, n.as_str());
        push_str(&mut b, " -->");
        stub_response(b)
    }
}

} // verus!
