//! The API description a documentation site is generated from.
use vstd::prelude::*;
use crate::text::to_owned_string;

verus! {

#[derive(Clone, Debug)]
pub struct ParamDoc {
    pub name: String,
    /// Where the parameter goes: `body`, `query`, `path` or `header`.
    pub location: String,
    pub description: String,
    pub required: bool,
    pub schema_type: String,
    pub example: Option<String>,
}

/// A documented response. The schema and example are JSON texts.
#[derive(Clone, Debug)]
pub struct ResponseDoc {
    pub status: u16,
    pub description: String,
    pub schema: Option<String>,
    pub example: Option<String>,
}

/// A documented endpoint. The example request is a JSON text.
#[derive(Clone, Debug)]
pub struct EndpointDoc {
    pub method: String,
    pub path: String,
    pub summary: String,
    pub description: String,
    pub tags: Vec<String>,
    pub auth_required: bool,
    pub params: Vec<ParamDoc>,
    pub responses: Vec<ResponseDoc>,
    pub example_request: Option<String>,
    pub deprecated: bool,
}

impl EndpointDoc {
    pub fn new(method: &str, path: &str, summary: &str) -> (e: Self)
        ensures
            e.method@ == method@,
            e.path@ == path@,
            e.summary@ == summary@,
            e.description@.len() == 0,
            e.tags@.len() == 0,
            e.auth_required,
            e.params@.len() == 0,
            e.responses@.len() == 0,
            e.example_request is None,
            !e.deprecated,
    {
        EndpointDoc {
            method: to_owned_string(method),
            path: to_owned_string(path),
            summary: to_owned_string(summary),
            description: String::new(),
            tags: Vec::new(),
            auth_required: true,
            params: Vec::new(),
            responses: Vec::new(),
            example_request: None,
            deprecated: false,
        }
    }

    pub fn description(self, d: &str) -> (e: Self)
        ensures
            e == (EndpointDoc { description: e.description, ..self }),
            e.description@ == d@,
    {
        EndpointDoc { description: to_owned_string(d), ..self }
    }

    pub fn tag(self, t: &str) -> (e: Self)
        ensures
            e == (EndpointDoc { tags: e.tags, ..self }),
            e.tags@.len() == self.tags@.len() + 1,
            e.tags@.drop_last() == self.tags@,
            e.tags@.last()@ == t@,
    {
        let mut e = self;
        e.tags.push(to_owned_string(t));
        proof {
            assert(e.tags@.drop_last() =~= self.tags@);
        }
        e
    }

    pub fn no_auth(self) -> (e: Self)
        ensures
            e == (EndpointDoc { auth_required: false, ..self }),
    {
        EndpointDoc { auth_required: false, ..self }
    }

    pub fn param(self, p: ParamDoc) -> (e: Self)
        ensures
            e == (EndpointDoc { params: e.params, ..self }),
            e.params@ == self.params@.push(p),
    {
        let mut e = self;
        e.params.push(p);
        e
    }

    pub fn response(self, r: ResponseDoc) -> (e: Self)
        ensures
            e == (EndpointDoc { responses: e.responses, ..self }),
            e.responses@ == self.responses@.push(r),
    {
        let mut e = self;
        e.responses.push(r);
        e
    }

    pub fn deprecated(self) -> (e: Self)
        ensures
            e == (EndpointDoc { deprecated: true, ..self }),
    {
        EndpointDoc { deprecated: true, ..self }
    }

    /// The method as it was given.
    pub fn method_lower(&self) -> (s: &str)
        ensures
            s@ == self.method@,
    {
        self.method.as_str()
    }
}

#[derive(Clone, Debug)]
pub struct SchemaField {
    pub name: String,
    pub field_type: String,
    pub required: bool,
    pub description: String,
    pub example: Option<String>,
}

#[derive(Clone, Debug)]
pub struct SchemaDoc {
    pub name: String,
    pub description: String,
    pub fields: Vec<SchemaField>,
}

impl Default for SchemaDoc {
    fn default() -> (s: Self)
        ensures
            s.name@.len() == 0,
            s.description@.len() == 0,
            s.fields@.len() == 0,
    {
        SchemaDoc { name: String::new(), description: String::new(), fields: Vec::new() }
    }
}

#[derive(Clone, Debug)]
pub struct OpenApiSpec {
    pub title: String,
    pub version: String,
    pub description: String,
    pub servers: Vec<String>,
    pub endpoints: Vec<EndpointDoc>,
    pub schemas: Vec<SchemaDoc>,
}

impl OpenApiSpec {
    pub fn new(title: &str, version: &str) -> (s: Self)
        ensures
            s.title@ == title@,
            s.version@ == version@,
            s.description@.len() == 0,
            s.servers@.len() == 0,
            s.endpoints@.len() == 0,
            s.schemas@.len() == 0,
    {
        OpenApiSpec {
            title: to_owned_string(title),
            version: to_owned_string(version),
            description: String::new(),
            servers: Vec::new(),
            endpoints: Vec::new(),
            schemas: Vec::new(),
        }
    }

    pub fn description(self, d: &str) -> (s: Self)
        ensures
            s == (OpenApiSpec { description: s.description, ..self }),
            s.description@ == d@,
    {
        OpenApiSpec { description: to_owned_string(d), ..self }
    }

    pub fn server(self, url: &str) -> (s: Self)
        ensures
            s == (OpenApiSpec { servers: s.servers, ..self }),
            s.servers@.len() == self.servers@.len() + 1,
            s.servers@.drop_last() == self.servers@,
            s.servers@.last()@ == url@,
    {
        let mut s = self;
        s.servers.push(to_owned_string(url));
        proof {
            assert(s.servers@.drop_last() =~= self.servers@);
        }
        s
    }

    pub fn endpoint(self, e: EndpointDoc) -> (s: Self)
        ensures
            s == (OpenApiSpec { endpoints: s.endpoints, ..self }),
            s.endpoints@ == self.endpoints@.push(e),
    {
        let mut s = self;
        s.endpoints.push(e);
        s
    }

    pub fn schema(self, d: SchemaDoc) -> (s: Self)
        ensures
            s == (OpenApiSpec { schemas: s.schemas, ..self }),
            s.schemas@ == self.schemas@.push(d),
    {
        let mut s = self;
        s.schemas.push(d);
        s
    }
}

} // verus!
