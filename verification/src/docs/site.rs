//! The structure of a documentation site: pages of sections, and the API spec.
use vstd::prelude::*;
use crate::docs::spec::{EndpointDoc, OpenApiSpec};
use crate::text::to_owned_string;

verus! {

#[derive(Debug)]
pub struct DocsSection {
    pub title: String,
    pub slug: String,
    pub content: String,
    pub sub: Vec<DocsSection>,
}

impl DocsSection {
    pub fn new(title: &str, slug: &str) -> (s: Self)
        ensures
            s.title@ == title@,
            s.slug@ == slug@,
            s.content@.len() == 0,
            s.sub@.len() == 0,
    {
        DocsSection { title: to_owned_string(title), slug: to_owned_string(slug), content: String::new(), sub: Vec::new() }
    }

    pub fn content(self, c: &str) -> (s: Self)
        ensures
            s == (DocsSection { content: s.content, ..self }),
            s.content@ == c@,
    {
        DocsSection { content: to_owned_string(c), ..self }
    }

    pub fn subsection(self, sub: DocsSection) -> (s: Self)
        ensures
            s.title == self.title,
            s.slug == self.slug,
            s.content == self.content,
            s.sub@ == self.sub@.push(sub),
    {
        let mut s = self;
        s.sub.push(sub);
        s
    }
}

#[derive(Debug)]
pub struct DocsPage {
    pub title: String,
    pub slug: String,
    pub sections: Vec<DocsSection>,
}

impl DocsPage {
    pub fn new(title: &str, slug: &str) -> (p: Self)
        ensures
            p.title@ == title@,
            p.slug@ == slug@,
            p.sections@.len() == 0,
    {
        DocsPage { title: to_owned_string(title), slug: to_owned_string(slug), sections: Vec::new() }
    }

    pub fn section(self, s: DocsSection) -> (p: Self)
        ensures
            p.title == self.title,
            p.slug == self.slug,
            p.sections@ == self.sections@.push(s),
    {
        let mut p = self;
        p.sections.push(s);
        p
    }
}

#[derive(Debug)]
pub struct DocsSite {
    pub title: String,
    pub description: String,
    pub version: String,
    pub base_url: String,
    pub pages: Vec<DocsPage>,
    pub spec: Option<OpenApiSpec>,
}

impl DocsSite {
    pub fn new(title: &str) -> (s: Self)
        ensures
            s.title@ == title@,
            s.description@.len() == 0,
            s.version@.len() == 0,
            s.base_url@.len() == 0,
            s.pages@.len() == 0,
            s.spec is None,
    {
        DocsSite {
            title: to_owned_string(title),
            description: String::new(),
            version: String::new(),
            base_url: String::new(),
            pages: Vec::new(),
            spec: None,
        }
    }

    pub fn description(self, d: &str) -> (s: Self)
        ensures
            s == (DocsSite { description: s.description, ..self }),
            s.description@ == d@,
    {
        DocsSite { description: to_owned_string(d), ..self }
    }

    pub fn version(self, v: &str) -> (s: Self)
        ensures
            s == (DocsSite { version: s.version, ..self }),
            s.version@ == v@,
    {
        DocsSite { version: to_owned_string(v), ..self }
    }

    pub fn base_url(self, u: &str) -> (s: Self)
        ensures
            s == (DocsSite { base_url: s.base_url, ..self }),
            s.base_url@ == u@,
    {
        DocsSite { base_url: to_owned_string(u), ..self }
    }

    pub fn page(self, p: DocsPage) -> (s: Self)
        ensures
            s == (DocsSite { pages: s.pages, ..self }),
            s.pages@ == self.pages@.push(p),
    {
        let mut s = self;
        s.pages.push(p);
        s
    }

    pub fn spec(self, spec: OpenApiSpec) -> (s: Self)
        ensures
            s == (DocsSite { spec: Some(spec), ..self }),
    {
        DocsSite { spec: Some(spec), ..self }
    }

    /// The endpoints of the site's API spec, if it has one.
    pub fn all_endpoints(&self) -> (v: Vec<&EndpointDoc>)
        ensures
            v@.map_values(|e: &EndpointDoc| *e) == match self.spec {
                Some(s) => s.endpoints@,
                None => Seq::<EndpointDoc>::empty(),
            },
    {
        let mut v: Vec<&EndpointDoc> = Vec::new();
        if let Some(s) = &self.spec {
            let mut i: usize = 0;
            while i < s.endpoints.len()
                invariant
                    i <= s.endpoints@.len(),
                    v@.map_values(|e: &EndpointDoc| *e) == s.endpoints@.take(i as int),
                decreases s.endpoints@.len() - i,
            {
                let ghost before = v@;
                v.push(&s.endpoints[i]);
                proof {
                    assert(v@.map_values(|e: &EndpointDoc| *e) =~= before.map_values(|e: &EndpointDoc| *e).push(s.endpoints@[i as int]));
                    assert(s.endpoints@.take(i + 1) =~= s.endpoints@.take(i as int).push(s.endpoints@[i as int]));
                }
                i = i + 1;
            }
            proof {
                assert(s.endpoints@.take(s.endpoints@.len() as int) =~= s.endpoints@);
            }
        } else {
            proof {
                assert(v@.map_values(|e: &EndpointDoc| *e) =~= Seq::<EndpointDoc>::empty());
            }
        }
        v
    }
}

impl Default for DocsSite {
    fn default() -> (s: Self)
        ensures
            s.title@.len() == 0,
            s.pages@.len() == 0,
            s.spec is None,
    {
        DocsSite {
            title: String::new(),
            description: String::new(),
            version: String::new(),
            base_url: String::new(),
            pages: Vec::new(),
            spec: None,
        }
    }
}

} // verus!
