//! The HTML of a documentation page: the sidebar, the API reference and the pages.
use vstd::prelude::*;
use crate::actions::components::tag_open;
use crate::docs::site::{DocsPage, DocsSection, DocsSite};
use crate::docs::spec::{EndpointDoc, ParamDoc, ResponseDoc};
use crate::markup::context::RenderContext;
use crate::markup::escape::{escape_html_plain_identity, escape_html_spec};
use crate::markup::html::{HtmlWriter, attr_text, close_tag, open_tag};
use crate::markup::render::Render;
use crate::text::{decimal, lowercase, push_str, str_eq, string_with_capacity, to_lower, to_upper, u64_to_string,
    uppercase};

verus! {

/// An element with one attribute around escaped text.
#[verifier::opaque]
pub open spec fn el1(tag: Seq<char>, n: Seq<char>, v: Seq<char>, text: Seq<char>) -> Seq<char> {
    tag_open(tag, attr_text(n, v)) + escape_html_spec(text) + close_tag(tag)
}

/// An element with two attributes around escaped text.
#[verifier::opaque]
pub open spec fn el2(tag: Seq<char>, n1: Seq<char>, v1: Seq<char>, n2: Seq<char>, v2: Seq<char>, text: Seq<char>) -> Seq<char> {
    tag_open(tag, attr_text(n1, v1) + attr_text(n2, v2)) + escape_html_spec(text) + close_tag(tag)
}

/// An element without attributes around escaped text.
#[verifier::opaque]
pub open spec fn el0(tag: Seq<char>, text: Seq<char>) -> Seq<char> {
    open_tag(tag) + escape_html_spec(text) + close_tag(tag)
}

fn write_el1(out: &mut HtmlWriter, tag: &'static str, n: &str, v: &str, text: &str)
    ensures
        final(out).html() == old(out).html() + el1(tag@, n@, v@, text@),
{
    let ghost s0 = out.html();
    out.open_tag_start(tag);
    out.attr(n, v);
    out.tag_end(tag);
    out.text(text);
    out.close(tag);
    proof {
        reveal(el1);
        assert(out.html() =~= s0 + el1(tag@, n@, v@, text@));
    }
}

fn write_el2(out: &mut HtmlWriter, tag: &'static str, n1: &str, v1: &str, n2: &str, v2: &str, text: &str)
    ensures
        final(out).html() == old(out).html() + el2(tag@, n1@, v1@, n2@, v2@, text@),
{
    let ghost s0 = out.html();
    out.open_tag_start(tag);
    out.attr(n1, v1);
    out.attr(n2, v2);
    out.tag_end(tag);
    out.text(text);
    out.close(tag);
    proof {
        reveal(el2);
        assert(out.html() =~= s0 + el2(tag@, n1@, v1@, n2@, v2@, text@));
    }
}

fn write_el0(out: &mut HtmlWriter, tag: &'static str, text: &str)
    ensures
        final(out).html() == old(out).html() + el0(tag@, text@),
{
    let ghost s0 = out.html();
    out.open(tag);
    out.text(text);
    out.close(tag);
    proof {
        reveal(el0);
        assert(out.html() =~= s0 + el0(tag@, text@));
    }
}

fn write_open1(out: &mut HtmlWriter, tag: &'static str, n: &str, v: &str)
    ensures
        final(out).html() == old(out).html() + tag_open(tag@, attr_text(n@, v@)),
{
    let ghost s0 = out.html();
    out.open_tag_start(tag);
    out.attr(n, v);
    out.tag_end(tag);
    assert(out.html() =~= s0 + tag_open(tag@, attr_text(n@, v@)));
}

// ---------------------------------------------------------------- sidebar

/// The class of a navigation link.
pub open spec fn nav_class(active: bool) -> Seq<char> {
    (if active { "p-link"@ } else { "p-muted"@ }) + " p-nav-item"@
}

/// A link of the sidebar, highlighted when it is the current page.
pub open spec fn nav_item_html(label: Seq<char>, href: Seq<char>, active: bool) -> Seq<char> {
    tag_open(
        "a"@,
        attr_text("href"@, href) + attr_text("class"@, nav_class(active))
            + attr_text("style"@, "display:block;padding:6px 0;text-decoration:none;font-size:13px"@),
    ) + escape_html_spec(label) + close_tag("a"@)
}

/// The links of the pages, in order.
pub open spec fn page_links(pages: Seq<DocsPage>, current: Seq<char>) -> Seq<char>
    decreases pages.len(),
{
    if pages.len() == 0 {
        seq![]
    } else {
        page_links(pages.drop_last(), current) + nav_item_html(
            pages.last().title@,
            "/docs/"@ + pages.last().slug@,
            current == pages.last().slug@,
        )
    }
}

/// The sidebar: the site title, the API link when there is a spec, the pages.
pub open spec fn sidebar_html(site: DocsSite, current: Seq<char>) -> Seq<char> {
    tag_open("nav"@, attr_text("class"@, "p-docs-sidebar"@))
        + el2("div"@, "class"@, "p-header-title"@, "style"@, "margin-bottom:16px"@, site.title@)
        + (if site.spec is Some { nav_item_html("API Reference"@, "/docs/api"@, current == "api"@) } else { seq![] })
        + page_links(site.pages@, current) + close_tag("nav"@)
}

fn render_nav_item(out: &mut HtmlWriter, label: &str, href: &str, active: bool)
    ensures
        final(out).html() == old(out).html() + nav_item_html(label@, href@, active),
{
    let ghost s0 = out.html();
    out.open_tag_start("a");
    out.attr("href", href);
    let mut cls = string_with_capacity(0);
    push_str(&mut cls, if active { "p-link" } else { "p-muted" });
    push_str(&mut cls, " p-nav-item");
    assert(cls@ =~= nav_class(active));
    out.attr("class", cls.as_str());
    out.attr("style", "display:block;padding:6px 0;text-decoration:none;font-size:13px");
    out.tag_end("a");
    out.text(label);
    out.close("a");
    assert(out.html() =~= s0 + nav_item_html(label@, href@, active));
}

fn write_page_links(out: &mut HtmlWriter, pages: &Vec<DocsPage>, current: &str)
    ensures
        final(out).html() == old(out).html() + page_links(pages@, current@),
{
    let ghost s2 = out.html();
    let mut i: usize = 0;
    while i < pages.len()
        invariant
            i <= pages@.len(),
            out.html() == s2 + page_links(pages@.take(i as int), current@),
        decreases pages@.len() - i,
    {
        let page = &pages[i];
        let mut href = string_with_capacity(0);
        push_str(&mut href, "/docs/");
        push_str(&mut href, page.slug.as_str());
        render_nav_item(out, page.title.as_str(), href.as_str(), str_eq(current, page.slug.as_str()));
        proof {
            assert(pages@.take(i + 1).drop_last() == pages@.take(i as int));
            assert(pages@.take(i + 1).last() == pages@[i as int]);
        }
        i = i + 1;
    }
    proof {
        assert(pages@.take(pages@.len() as int) == pages@);
    }
}

/// The sidebar navigation of a documentation site.
pub struct SidebarNav<'a> {
    pub site: &'a DocsSite,
    pub current_slug: &'a str,
}

impl<'a> Render for SidebarNav<'a> {
    open spec fn rendered(&self, ctx: RenderContext) -> Seq<char> {
        sidebar_html(*self.site, self.current_slug@)
    }

    #[verifier::spinoff_prover]
    fn render(&self, out: &mut HtmlWriter, _ctx: &RenderContext) {
        let ghost s0 = out.html();
        write_open1(out, "nav", "class", "p-docs-sidebar");
        write_el2(out, "div", "class", "p-header-title", "style", "margin-bottom:16px", self.site.title.as_str());
        let ghost s1 = out.html();
        if self.site.spec.is_some() {
            render_nav_item(out, "API Reference", "/docs/api", str_eq(self.current_slug, "api"));
        }
        let ghost api = if self.site.spec is Some {
            nav_item_html("API Reference"@, "/docs/api"@, self.current_slug@ == "api"@)
        } else {
            seq![]
        };
        assert(out.html() =~= s1 + api);
        write_page_links(out, &self.site.pages, self.current_slug);
        out.close("nav");
        proof {
            let a = tag_open("nav"@, attr_text("class"@, "p-docs-sidebar"@));
            let b = el2("div"@, "class"@, "p-header-title"@, "style"@, "margin-bottom:16px"@, self.site.title@);
            let c = page_links(self.site.pages@, self.current_slug@);
            assert(out.html() == s0 + a + b + api + c + close_tag("nav"@));
            assert(s0 + a + b + api + c + close_tag("nav"@) =~= s0 + (a + b + api + c + close_tag("nav"@)));
        }
    }
}

// ---------------------------------------------------------------- endpoints

/// The method pill of an endpoint: its class carries the lower-case method,
/// its text the upper-case method.
pub open spec fn method_pill(method: Seq<char>) -> Seq<char> {
    el1("span"@, "class"@, "p-method-pill p-method-"@ + lowercase(method), uppercase(method))
}

/// The header of an endpoint block: method, path and the auth marker.
pub open spec fn endpoint_header(ep: EndpointDoc) -> Seq<char> {
    tag_open("div"@, attr_text("class"@, "p-endpoint-header"@)) + method_pill(ep.method@)
        + el1("code"@, "class"@, "p-mono"@, ep.path@)
        + (if ep.auth_required {
            el2("span"@, "class"@, "p-pill p-pill-warn"@, "style"@, "margin-left:auto"@, "auth required"@)
        } else {
            seq![]
        }) + close_tag("div"@)
}

/// A small heading of an endpoint block.
pub open spec fn h4_html(text: Seq<char>) -> Seq<char> {
    el1("h4"@, "style"@, "margin:12px 0 6px"@, text)
}

/// The header row of the parameter table.
pub open spec fn param_head() -> Seq<char> {
    open_tag("thead"@) + open_tag("tr"@) + el0("th"@, "Name"@) + el0("th"@, "In"@) + el0("th"@, "Type"@)
        + el0("th"@, "Required"@) + el0("th"@, "Description"@) + close_tag("tr"@) + close_tag("thead"@)
}

/// One row of the parameter table.
pub open spec fn param_row(p: ParamDoc) -> Seq<char> {
    open_tag("tr"@) + el1("td"@, "class"@, "p-mono"@, p.name@) + el0("td"@, p.location@)
        + el1("td"@, "class"@, "p-mono"@, p.schema_type@) + el0("td"@, if p.required { "yes"@ } else { "no"@ })
        + el0("td"@, p.description@) + close_tag("tr"@)
}

/// The Required column of a parameter's row reads `yes` for a required
/// parameter and `no` for an optional one: the row holds the name, location
/// and type cells, then `<td>yes</td>` or `<td>no</td>`, then the description
/// cell.
pub proof fn law_param_required_cell(p: ParamDoc)
    ensures
        param_row(p) == open_tag("tr"@) + el1("td"@, "class"@, "p-mono"@, p.name@) + el0("td"@, p.location@)
            + el1("td"@, "class"@, "p-mono"@, p.schema_type@)
            + (if p.required { "<td>yes</td>"@ } else { "<td>no</td>"@ })
            + el0("td"@, p.description@) + close_tag("tr"@),
{
    reveal(el0);
    reveal_strlit("yes");
    reveal_strlit("no");
    reveal_strlit("td");
    reveal_strlit("<");
    reveal_strlit(">");
    reveal_strlit("</");
    reveal_strlit("<td>yes</td>");
    reveal_strlit("<td>no</td>");
    escape_html_plain_identity("yes"@);
    escape_html_plain_identity("no"@);
    assert(el0("td"@, "yes"@) =~= "<td>yes</td>"@);
    assert(el0("td"@, "no"@) =~= "<td>no</td>"@);
}

/// The rows of the parameter table, in order.
pub open spec fn param_rows(ps: Seq<ParamDoc>) -> Seq<char>
    decreases ps.len(),
{
    if ps.len() == 0 {
        seq![]
    } else {
        param_rows(ps.drop_last()) + param_row(ps.last())
    }
}

/// The parameter section, when the endpoint has parameters.
pub open spec fn params_html(ps: Seq<ParamDoc>) -> Seq<char> {
    if ps.len() == 0 {
        seq![]
    } else {
        h4_html("Parameters"@) + tag_open("table"@, attr_text("class"@, "p-table"@)) + param_head() + open_tag("tbody"@)
            + param_rows(ps) + close_tag("tbody"@) + close_tag("table"@)
    }
}

/// The inline style of a response strip: green below 300, red otherwise.
pub open spec fn response_style(status: u16) -> Seq<char> {
    if status < 300 {
        "background:rgba(34,197,94,0.06);border-left-color:#22c55e"@
    } else {
        "background:rgba(239,68,68,0.06);border-left-color:#ef4444"@
    }
}

/// One response of an endpoint: its status and description.
pub open spec fn response_html(r: ResponseDoc) -> Seq<char> {
    tag_open("div"@, attr_text("class"@, "p-result-strip"@) + attr_text("style"@, response_style(r.status)))
        + el1("strong"@, "class"@, "p-mono"@, decimal(r.status as nat)) + escape_html_spec(" — "@)
        + escape_html_spec(r.description@) + close_tag("div"@)
}

/// The responses of an endpoint, in order.
pub open spec fn response_list(rs: Seq<ResponseDoc>) -> Seq<char>
    decreases rs.len(),
{
    if rs.len() == 0 {
        seq![]
    } else {
        response_list(rs.drop_last()) + response_html(rs.last())
    }
}

/// The responses section, when the endpoint has responses.
pub open spec fn responses_html(rs: Seq<ResponseDoc>) -> Seq<char> {
    if rs.len() == 0 {
        seq![]
    } else {
        h4_html("Responses"@) + response_list(rs)
    }
}

/// The pretty-printed form of a JSON text (`serde_json::to_string_pretty` of
/// the parsed value), or `None` when the text is not JSON.
pub uninterp spec fn pretty_json(text: Seq<char>) -> Option<Seq<char>>;

/// `serde_json::from_str` into a `serde_json::Value`, then
/// `serde_json::to_string_pretty`: the JSON laid out over lines with two-space
/// indents; `None` when the text does not parse or cannot be written.
#[verifier::external_body]
fn pretty_print_json(text: &str) -> (r: Option<String>)
    ensures
        match r {
            Some(p) => pretty_json(text@) == Some(p@),
            None => pretty_json(text@) is None,
        },
{
    match serde_json::from_str::<serde_json::Value>(text) {
        Ok(v) => serde_json::to_string_pretty(&v).ok(),
        Err(_) => None,
    }
}

/// The text shown for an example request: pretty-printed when it is JSON,
/// else as given.
pub open spec fn example_text(e: Seq<char>) -> Seq<char> {
    match pretty_json(e) {
        Some(p) => p,
        None => e,
    }
}

/// The example section, when the endpoint has an example request.
pub open spec fn example_html(ex: Option<String>) -> Seq<char> {
    match ex {
        Some(e) => h4_html("Example"@) + el1("pre"@, "class"@, "p-code"@, example_text(e@)),
        None => seq![],
    }
}

/// The body of an endpoint block: summary, description, parameters,
/// responses and example.
pub open spec fn endpoint_body(ep: EndpointDoc) -> Seq<char> {
    tag_open("div"@, attr_text("style"@, "padding:12px 16px"@))
        + el1("p"@, "style"@, "font-weight:600;margin-bottom:4px"@, ep.summary@)
        + (if ep.description@.len() > 0 { el0("p"@, ep.description@) } else { seq![] })
        + params_html(ep.params@) + responses_html(ep.responses@) + example_html(ep.example_request)
        + close_tag("div"@)
}

/// A whole endpoint block.
pub open spec fn endpoint_html(ep: EndpointDoc) -> Seq<char> {
    tag_open("div"@, attr_text("class"@, "p-endpoint-block"@)) + endpoint_header(ep) + endpoint_body(ep)
        + close_tag("div"@)
}

/// The structure of an endpoint block: a header with the method pill (class
/// from the lower-case method, text the upper-case method), the path and, when
/// the endpoint needs authentication and only then, the `auth required` pill;
/// then a body with the summary, the description when there is one, the
/// parameter table (one row per parameter, in order) exactly when there are
/// parameters, the responses exactly when there are some, and the example
/// exactly when there is one.
#[verifier::spinoff_prover]
pub proof fn law_endpoint_structure(ep: EndpointDoc)
    ensures
        endpoint_html(ep) == tag_open("div"@, attr_text("class"@, "p-endpoint-block"@))
            + tag_open("div"@, attr_text("class"@, "p-endpoint-header"@))
            + el1("span"@, "class"@, "p-method-pill p-method-"@ + lowercase(ep.method@), uppercase(ep.method@))
            + el1("code"@, "class"@, "p-mono"@, ep.path@)
            + (if ep.auth_required {
                el2("span"@, "class"@, "p-pill p-pill-warn"@, "style"@, "margin-left:auto"@, "auth required"@)
            } else {
                seq![]
            }) + close_tag("div"@)
            + endpoint_body(ep) + close_tag("div"@),
        (params_html(ep.params@).len() > 0 <==> ep.params@.len() > 0),
        ep.params@.len() > 0 ==> forall|i: int| 0 <= i <= ep.params@.len()
            ==> #[trigger] param_rows(ep.params@.take(i)) + param_rows(ep.params@.skip(i)) == param_rows(ep.params@),
        (responses_html(ep.responses@).len() > 0 <==> ep.responses@.len() > 0),
        (example_html(ep.example_request).len() > 0 <==> ep.example_request is Some),
{
    lemma_h4_nonempty("Parameters"@);
    lemma_h4_nonempty("Responses"@);
    lemma_h4_nonempty("Example"@);
    assert forall|i: int| 0 <= i <= ep.params@.len() implies
        #[trigger] param_rows(ep.params@.take(i)) + param_rows(ep.params@.skip(i)) == param_rows(ep.params@) by {
        lemma_rows_split(ep.params@, i);
    }
}

proof fn lemma_h4_nonempty(text: Seq<char>)
    ensures
        h4_html(text).len() > 0,
{
    reveal(el1);
    reveal_strlit("</");
    assert(close_tag("h4"@).len() > 0);
}

proof fn lemma_rows_split(ps: Seq<ParamDoc>, i: int)
    requires
        0 <= i <= ps.len(),
    ensures
        param_rows(ps.take(i)) + param_rows(ps.skip(i)) == param_rows(ps),
    decreases ps.len() - i,
{
    if i == ps.len() {
        assert(ps.take(i) =~= ps);
        assert(ps.skip(i) =~= Seq::<ParamDoc>::empty());
        assert(param_rows(ps.skip(i)) =~= Seq::<char>::empty());
    } else {
        lemma_rows_split(ps, i + 1);
        lemma_rows_prepend(ps.skip(i));
        assert(ps.skip(i).drop_first() =~= ps.skip(i + 1));
        assert(ps.take(i + 1).drop_last() =~= ps.take(i));
        assert(ps.take(i + 1).last() == ps[i]);
        assert(ps.skip(i)[0] == ps[i]);
    }
}

proof fn lemma_rows_prepend(ps: Seq<ParamDoc>)
    requires
        ps.len() > 0,
    ensures
        param_rows(ps) == param_row(ps[0]) + param_rows(ps.drop_first()),
    decreases ps.len(),
{
    if ps.len() == 1 {
        assert(ps.drop_first() =~= Seq::<ParamDoc>::empty());
        assert(ps.drop_last() =~= Seq::<ParamDoc>::empty());
        assert(param_rows(Seq::<ParamDoc>::empty()) =~= Seq::<char>::empty());
    } else {
        lemma_rows_prepend(ps.drop_last());
        assert(ps.drop_last().drop_first() =~= ps.drop_first().drop_last());
        assert(ps.drop_first().last() == ps.last());
    }
}

fn write_endpoint_header(out: &mut HtmlWriter, ep: &EndpointDoc)
    ensures
        final(out).html() == old(out).html() + endpoint_header(*ep),
{
    let ghost s0 = out.html();
    write_open1(out, "div", "class", "p-endpoint-header");
    let method_lc = to_lower(ep.method.as_str());
    let mut cls = string_with_capacity(0);
    push_str(&mut cls, "p-method-pill p-method-");
    push_str(&mut cls, method_lc.as_str());
    let method_uc = to_upper(ep.method.as_str());
    write_el1(out, "span", "class", cls.as_str(), method_uc.as_str());
    write_el1(out, "code", "class", "p-mono", ep.path.as_str());
    let ghost s1 = out.html();
    if ep.auth_required {
        write_el2(out, "span", "class", "p-pill p-pill-warn", "style", "margin-left:auto", "auth required");
    }
    let ghost auth = if ep.auth_required {
        el2("span"@, "class"@, "p-pill p-pill-warn"@, "style"@, "margin-left:auto"@, "auth required"@)
    } else {
        seq![]
    };
    assert(out.html() =~= s1 + auth);
    out.close("div");
    proof {
        let a = tag_open("div"@, attr_text("class"@, "p-endpoint-header"@));
        let b = method_pill(ep.method@);
        let c = el1("code"@, "class"@, "p-mono"@, ep.path@);
        assert(cls@ =~= "p-method-pill p-method-"@ + lowercase(ep.method@));
        assert(out.html() == s0 + a + b + c + auth + close_tag("div"@));
        assert(s0 + a + b + c + auth + close_tag("div"@) =~= s0 + (a + b + c + auth + close_tag("div"@)));
    }
}

fn write_param_head(out: &mut HtmlWriter)
    ensures
        final(out).html() == old(out).html() + param_head(),
{
    let ghost s0 = out.html();
    out.open("thead");
    out.open("tr");
    let ghost s1 = out.html();
    write_el0(out, "th", "Name");
    write_el0(out, "th", "In");
    write_el0(out, "th", "Type");
    write_el0(out, "th", "Required");
    write_el0(out, "th", "Description");
    out.close("tr");
    out.close("thead");
    assert(out.html() =~= s0 + param_head());
}

fn write_param_row(out: &mut HtmlWriter, p: &ParamDoc)
    ensures
        final(out).html() == old(out).html() + param_row(*p),
{
    let ghost s0 = out.html();
    out.open("tr");
    write_el1(out, "td", "class", "p-mono", p.name.as_str());
    write_el0(out, "td", p.location.as_str());
    write_el1(out, "td", "class", "p-mono", p.schema_type.as_str());
    write_el0(out, "td", if p.required { "yes" } else { "no" });
    write_el0(out, "td", p.description.as_str());
    out.close("tr");
    assert(out.html() =~= s0 + param_row(*p));
}

#[verifier::spinoff_prover]
fn write_params(out: &mut HtmlWriter, ps: &Vec<ParamDoc>)
    ensures
        final(out).html() == old(out).html() + params_html(ps@),
{
    let ghost s0 = out.html();
    if ps.len() == 0 {
        assert(out.html() =~= s0 + params_html(ps@));
        return;
    }
    write_el1(out, "h4", "style", "margin:12px 0 6px", "Parameters");
    write_open1(out, "table", "class", "p-table");
    write_param_head(out);
    out.open("tbody");
    let ghost s1 = out.html();
    let mut i: usize = 0;
    while i < ps.len()
        invariant
            i <= ps@.len(),
            out.html() == s1 + param_rows(ps@.take(i as int)),
        decreases ps@.len() - i,
    {
        write_param_row(out, &ps[i]);
        proof {
            assert(ps@.take(i + 1).drop_last() == ps@.take(i as int));
            assert(ps@.take(i + 1).last() == ps@[i as int]);
        }
        i = i + 1;
    }
    proof {
        assert(ps@.take(ps@.len() as int) == ps@);
    }
    out.close("tbody");
    out.close("table");
    proof {
        let a = h4_html("Parameters"@);
        let b = tag_open("table"@, attr_text("class"@, "p-table"@));
        let c = param_head();
        let d = param_rows(ps@);
        assert(out.html() =~= s0 + (a + b + c + open_tag("tbody"@) + d + close_tag("tbody"@) + close_tag("table"@)));
    }
}

fn write_response(out: &mut HtmlWriter, r: &ResponseDoc)
    ensures
        final(out).html() == old(out).html() + response_html(*r),
{
    let ghost s0 = out.html();
    out.open_tag_start("div");
    out.attr("class", "p-result-strip");
    let style = if r.status < 300 {
        "background:rgba(34,197,94,0.06);border-left-color:#22c55e"
    } else {
        "background:rgba(239,68,68,0.06);border-left-color:#ef4444"
    };
    out.attr("style", style);
    out.tag_end("div");
    let ghost s1 = out.html();
    let st = u64_to_string(r.status as u64);
    write_el1(out, "strong", "class", "p-mono", st.as_str());
    out.text(" — ");
    out.text(r.description.as_str());
    out.close("div");
    proof {
        assert(s1 =~= s0 + tag_open("div"@, attr_text("class"@, "p-result-strip"@) + attr_text("style"@, response_style(r.status))));
        assert(out.html() =~= s0 + response_html(*r));
    }
}

fn write_responses(out: &mut HtmlWriter, rs: &Vec<ResponseDoc>)
    ensures
        final(out).html() == old(out).html() + responses_html(rs@),
{
    let ghost s0 = out.html();
    if rs.len() == 0 {
        assert(out.html() =~= s0 + responses_html(rs@));
        return;
    }
    write_el1(out, "h4", "style", "margin:12px 0 6px", "Responses");
    let ghost s1 = out.html();
    let mut i: usize = 0;
    while i < rs.len()
        invariant
            i <= rs@.len(),
            out.html() == s1 + response_list(rs@.take(i as int)),
        decreases rs@.len() - i,
    {
        write_response(out, &rs[i]);
        proof {
            assert(rs@.take(i + 1).drop_last() == rs@.take(i as int));
            assert(rs@.take(i + 1).last() == rs@[i as int]);
        }
        i = i + 1;
    }
    proof {
        assert(rs@.take(rs@.len() as int) == rs@);
        assert(out.html() =~= s0 + responses_html(rs@));
    }
}

fn write_example(out: &mut HtmlWriter, ex: &Option<String>)
    ensures
        final(out).html() == old(out).html() + example_html(*ex),
{
    let ghost s0 = out.html();
    if let Some(e) = ex {
        write_el1(out, "h4", "style", "margin:12px 0 6px", "Example");
        match pretty_print_json(e.as_str()) {
            Some(p) => write_el1(out, "pre", "class", "p-code", p.as_str()),
            None => write_el1(out, "pre", "class", "p-code", e.as_str()),
        }
    }
    assert(out.html() =~= s0 + example_html(*ex));
}

#[verifier::spinoff_prover]
#[verifier::rlimit(60)]
fn write_endpoint_body(out: &mut HtmlWriter, ep: &EndpointDoc)
    ensures
        final(out).html() == old(out).html() + endpoint_body(*ep),
{
    let ghost s0 = out.html();
    write_open1(out, "div", "style", "padding:12px 16px");
    write_el1(out, "p", "style", "font-weight:600;margin-bottom:4px", ep.summary.as_str());
    let ghost s1 = out.html();
    if !ep.description.as_str().is_empty() {
        write_el0(out, "p", ep.description.as_str());
    }
    let ghost d = if ep.description@.len() > 0 { el0("p"@, ep.description@) } else { seq![] };
    assert(out.html() =~= s1 + d);
    write_params(out, &ep.params);
    write_responses(out, &ep.responses);
    write_example(out, &ep.example_request);
    out.close("div");
    proof {
        let a = tag_open("div"@, attr_text("style"@, "padding:12px 16px"@));
        let b = el1("p"@, "style"@, "font-weight:600;margin-bottom:4px"@, ep.summary@);
        let p = params_html(ep.params@);
        let r = responses_html(ep.responses@);
        let e = example_html(ep.example_request);
        assert(out.html() == s0 + a + b + d + p + r + e + close_tag("div"@));
        assert(s0 + a + b + d + p + r + e + close_tag("div"@) =~= s0 + (a + b + d + p + r + e + close_tag("div"@)));
    }
}

/// The documentation block of one endpoint.
pub struct EndpointBlock<'a> {
    pub ep: &'a EndpointDoc,
}

impl<'a> Render for EndpointBlock<'a> {
    open spec fn rendered(&self, ctx: RenderContext) -> Seq<char> {
        endpoint_html(*self.ep)
    }

    #[verifier::spinoff_prover]
    fn render(&self, out: &mut HtmlWriter, _ctx: &RenderContext) {
        let ghost s0 = out.html();
        write_open1(out, "div", "class", "p-endpoint-block");
        write_endpoint_header(out, self.ep);
        write_endpoint_body(out, self.ep);
        out.close("div");
        proof {
            let a = tag_open("div"@, attr_text("class"@, "p-endpoint-block"@));
            let b = endpoint_header(*self.ep);
            let c = endpoint_body(*self.ep);
            assert(out.html() == s0 + a + b + c + close_tag("div"@));
            assert(s0 + a + b + c + close_tag("div"@) =~= s0 + (a + b + c + close_tag("div"@)));
        }
    }
}

// ---------------------------------------------------------------- pages

/// A page heading.
pub open spec fn h1_html(text: Seq<char>) -> Seq<char> {
    el1("h1"@, "style"@, "margin-bottom:24px"@, text)
}

/// One section of a page: its title and, when it has any, its content.
pub open spec fn section_html(s: DocsSection) -> Seq<char> {
    tag_open("section"@, attr_text("class"@, "p-section"@)) + el0("h2"@, s.title@)
        + (if s.content@.len() > 0 { el0("p"@, s.content@) } else { seq![] }) + close_tag("section"@)
}

/// The sections of a page, in order.
pub open spec fn sections_html(ss: Seq<DocsSection>) -> Seq<char>
    decreases ss.len(),
{
    if ss.len() == 0 {
        seq![]
    } else {
        sections_html(ss.drop_last()) + section_html(ss.last())
    }
}

/// The endpoint blocks of the API reference, in order.
pub open spec fn endpoints_html(es: Seq<EndpointDoc>) -> Seq<char>
    decreases es.len(),
{
    if es.len() == 0 {
        seq![]
    } else {
        endpoints_html(es.drop_last()) + endpoint_html(es.last())
    }
}

/// The index of the first page with slug `slug`.
pub open spec fn page_index(pages: Seq<DocsPage>, slug: Seq<char>) -> Option<int>
    decreases pages.len(),
{
    if pages.len() == 0 {
        None
    } else {
        match page_index(pages.drop_last(), slug) {
            Some(i) => Some(i),
            None => if pages.last().slug@ == slug { Some(pages.len() - 1) } else { None },
        }
    }
}

/// The main content for `slug`: the API reference for `api` (when there is a
/// spec), else the first page with that slug, else nothing.
pub open spec fn main_content(site: DocsSite, slug: Seq<char>) -> Seq<char> {
    if slug == "api"@ {
        match site.spec {
            Some(s) => h1_html("API Reference"@) + endpoints_html(s.endpoints@),
            None => seq![],
        }
    } else {
        match page_index(site.pages@, slug) {
            Some(i) => h1_html(site.pages@[i].title@) + sections_html(site.pages@[i].sections@),
            None => seq![],
        }
    }
}

/// A whole documentation page.
pub open spec fn docs_page_html(site: DocsSite, slug: Seq<char>) -> Seq<char> {
    tag_open("div"@, attr_text("class"@, "p-docs-layout"@)) + sidebar_html(site, slug)
        + tag_open("main"@, attr_text("class"@, "p-docs-content"@)) + main_content(site, slug) + close_tag("main"@)
        + close_tag("div"@)
}

proof fn lemma_page_index(pages: Seq<DocsPage>, slug: Seq<char>, i: int)
    requires
        0 <= i <= pages.len(),
        forall|j: int| 0 <= j < i ==> pages[j].slug@ != slug,
        i < pages.len() ==> pages[i].slug@ == slug,
    ensures
        page_index(pages, slug) == if i < pages.len() { Some(i) } else { None::<int> },
    decreases pages.len(),
{
    if pages.len() > 0 {
        let t = pages.drop_last();
        let k = if i < pages.len() - 1 { i } else { pages.len() - 1 };
        assert forall|j: int| 0 <= j < k implies t[j].slug@ != slug by {
            assert(t[j] == pages[j]);
        }
        if i < pages.len() - 1 {
            assert(t[i] == pages[i]);
        }
        lemma_page_index(t, slug, k);
    }
}

fn write_section(out: &mut HtmlWriter, s: &DocsSection)
    ensures
        final(out).html() == old(out).html() + section_html(*s),
{
    let ghost s0 = out.html();
    write_open1(out, "section", "class", "p-section");
    write_el0(out, "h2", s.title.as_str());
    let ghost s1 = out.html();
    if !s.content.as_str().is_empty() {
        write_el0(out, "p", s.content.as_str());
    }
    let ghost c = if s.content@.len() > 0 { el0("p"@, s.content@) } else { seq![] };
    assert(out.html() =~= s1 + c);
    out.close("section");
    assert(out.html() =~= s0 + section_html(*s));
}

fn write_main(out: &mut HtmlWriter, site: &DocsSite, current_slug: &str, ctx: &RenderContext)
    ensures
        final(out).html() == old(out).html() + main_content(*site, current_slug@),
{
    let ghost s0 = out.html();
    if str_eq(current_slug, "api") {
        if let Some(spec) = &site.spec {
            write_el1(out, "h1", "style", "margin-bottom:24px", "API Reference");
            let ghost s1 = out.html();
            let es = &spec.endpoints;
            let mut i: usize = 0;
            while i < es.len()
                invariant
                    i <= es@.len(),
                    out.html() == s1 + endpoints_html(es@.take(i as int)),
                decreases es@.len() - i,
            {
                let block = EndpointBlock { ep: &es[i] };
                block.render(out, ctx);
                proof {
                    assert(es@.take(i + 1).drop_last() == es@.take(i as int));
                    assert(es@.take(i + 1).last() == es@[i as int]);
                }
                i = i + 1;
            }
            proof {
                assert(es@.take(es@.len() as int) == es@);
            }
        } else {
            assert(out.html() =~= s0 + main_content(*site, current_slug@));
        }
        return;
    }
    let pages = &site.pages;
    let mut i: usize = 0;
    while i < pages.len()
        invariant
            i <= pages@.len(),
            pages == &site.pages,
            current_slug@ != "api"@,
            forall|j: int| 0 <= j < i ==> pages@[j].slug@ != current_slug@,
            out.html() == s0,
            s0 == old(out).html(),
        decreases pages@.len() - i,
    {
        if str_eq(pages[i].slug.as_str(), current_slug) {
            proof {
                lemma_page_index(pages@, current_slug@, i as int);
            }
            let page = &pages[i];
            write_el1(out, "h1", "style", "margin-bottom:24px", page.title.as_str());
            let ghost s1 = out.html();
            let ss = &page.sections;
            let mut k: usize = 0;
            while k < ss.len()
                invariant
                    k <= ss@.len(),
                    out.html() == s1 + sections_html(ss@.take(k as int)),
                decreases ss@.len() - k,
            {
                write_section(out, &ss[k]);
                proof {
                    assert(ss@.take(k + 1).drop_last() == ss@.take(k as int));
                    assert(ss@.take(k + 1).last() == ss@[k as int]);
                }
                k = k + 1;
            }
            proof {
                assert(ss@.take(ss@.len() as int) == ss@);
                assert(out.html() =~= s0 + main_content(*site, current_slug@));
            }
            return;
        }
        i = i + 1;
    }
    proof {
        lemma_page_index(pages@, current_slug@, i as int);
        assert(out.html() =~= s0 + main_content(*site, current_slug@));
    }
}

/// The HTML of the documentation page `current_slug` of `site`.
pub fn render_docs_page(site: &DocsSite, current_slug: &str, ctx: &RenderContext) -> (s: String)
    ensures
        s@ == docs_page_html(*site, current_slug@),
{
    let mut w = HtmlWriter::with_capacity(32768);
    write_open1(&mut w, "div", "class", "p-docs-layout");
    let nav = SidebarNav { site, current_slug };
    nav.render(&mut w, ctx);
    write_open1(&mut w, "main", "class", "p-docs-content");
    write_main(&mut w, site, current_slug, ctx);
    w.close("main");
    w.close("div");
    proof {
        let a = tag_open("div"@, attr_text("class"@, "p-docs-layout"@));
        let b = sidebar_html(*site, current_slug@);
        let c = tag_open("main"@, attr_text("class"@, "p-docs-content"@));
        let d = main_content(*site, current_slug@);
        assert(w.html() =~= a + b + c + d + close_tag("main"@) + close_tag("div"@));
    }
    w.finish()
}

} // verus!
