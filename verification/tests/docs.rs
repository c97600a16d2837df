use polish::docs::render::render_docs_page;
use polish::docs::site::{DocsPage, DocsSection, DocsSite};
use polish::docs::spec::{EndpointDoc, OpenApiSpec, ResponseDoc};
use polish::markup::context::RenderContext;

fn response(status: u16, description: &str) -> ResponseDoc {
    ResponseDoc { status, description: description.to_string(), schema: None, example: None }
}

fn spec() -> OpenApiSpec {
    OpenApiSpec::new("API", "1.0")
        .description("d")
        .server("https://x")
        .endpoint(
            EndpointDoc::new("POST", "/t", "Transfer")
                .tag("money")
                .response(response(200, "OK"))
                .response(response(422, "Bad \"input\"")),
        )
        .endpoint(EndpointDoc::new("Get", "/t", "List").no_auth().deprecated())
}

#[test]
fn openapi_document_is_exact() {
    assert_eq!(
        spec().to_openapi_json(),
        "{\"components\":{\"securitySchemes\":{\"bearerAuth\":{\"scheme\":\"bearer\",\"type\":\"http\"}}},\
\"info\":{\"description\":\"d\",\"title\":\"API\",\"version\":\"1.0\"},\
\"openapi\":\"3.1.0\",\
\"paths\":{\"/t\":{\"get\":{\"deprecated\":true,\"description\":\"\",\"responses\":{},\"summary\":\"List\",\"tags\":[]},\
\"post\":{\"deprecated\":false,\"description\":\"\",\
\"responses\":{\"200\":{\"description\":\"OK\"},\"422\":{\"description\":\"Bad \\\"input\\\"\"}},\
\"security\":[{\"bearerAuth\":[]}],\"summary\":\"Transfer\",\"tags\":[\"money\"]}}},\
\"servers\":[{\"url\":\"https://x\"}]}"
    );
}

#[test]
fn openapi_strings_are_escaped_by_serde_json() {
    let json = OpenApiSpec::new("a\nb\u{1}\\", "1").to_openapi_json();
    assert!(json.contains("\"title\":\"a\\nb\\u0001\\\\\""));
    let value: serde_json::Value = serde_json::from_str(&json).unwrap();
    assert_eq!(value["info"]["title"], "a\nb\u{1}\\");
}

#[test]
fn openapi_later_endpoint_replaces_same_method_and_path() {
    let s = OpenApiSpec::new("A", "1")
        .endpoint(EndpointDoc::new("GET", "/a", "first"))
        .endpoint(EndpointDoc::new("get", "/a", "second"));
    let json = s.to_openapi_json();
    assert!(json.contains("\"summary\":\"second\""));
    assert!(!json.contains("\"summary\":\"first\""));
}

#[test]
fn endpoint_method_lower_and_site_endpoints() {
    assert_eq!(EndpointDoc::new("DELETE", "/x", "s").method_lower(), "DELETE");
    let site = DocsSite::new("Docs").spec(spec());
    let eps: Vec<&str> = site.all_endpoints().iter().map(|e| e.summary.as_str()).collect();
    assert_eq!(eps, vec!["Transfer", "List"]);
    assert!(DocsSite::new("Docs").all_endpoints().is_empty());
}

#[test]
fn docs_page_renders_sections_of_the_chosen_page() {
    let site = DocsSite::new("My Docs").page(
        DocsPage::new("Guide", "guide")
            .section(DocsSection::new("Intro", "intro").content("Hello <world>"))
            .section(DocsSection::new("Empty", "empty")),
    );
    let html = render_docs_page(&site, "guide", &RenderContext::default());
    assert!(html.starts_with("<div class=\"p-docs-layout\"><nav class=\"p-docs-sidebar\">"));
    assert!(html.contains(
        "<main class=\"p-docs-content\"><h1 style=\"margin-bottom:24px\">Guide</h1>\
<section class=\"p-section\"><h2>Intro</h2><p>Hello &lt;world&gt;</p></section>\
<section class=\"p-section\"><h2>Empty</h2></section></main></div>"
    ));
    let missing = render_docs_page(&site, "nope", &RenderContext::default());
    assert!(missing.ends_with("<main class=\"p-docs-content\"></main></div>"));
}

#[test]
fn api_page_lists_endpoints_with_method_pills() {
    let site = DocsSite::new("D").spec(spec());
    let html = render_docs_page(&site, "api", &RenderContext::default());
    assert!(html.contains("<h1 style=\"margin-bottom:24px\">API Reference</h1>"));
    assert!(html.contains("<span class=\"p-method-pill p-method-post\">POST</span>"));
    assert!(html.contains("<span class=\"p-method-pill p-method-get\">GET</span>"));
    assert!(html.contains("auth required"));
}

#[test]
fn example_request_is_pretty_printed() {
    let mut ep = EndpointDoc::new("POST", "/t", "T");
    ep.example_request = Some("{\"a\":1}".to_string());
    let site = DocsSite::new("D").spec(OpenApiSpec::new("A", "1").endpoint(ep));
    let html = render_docs_page(&site, "api", &RenderContext::default());
    assert!(html.contains("<pre class=\"p-code\">{\n  &quot;a&quot;: 1\n}</pre>"));
    let mut raw = EndpointDoc::new("GET", "/r", "R");
    raw.example_request = Some("not json".to_string());
    let site = DocsSite::new("D").spec(OpenApiSpec::new("A", "1").endpoint(raw));
    let html = render_docs_page(&site, "api", &RenderContext::default());
    assert!(html.contains("<pre class=\"p-code\">not json</pre>"));
}
