//! The top-level page model: a full HTML document around a body.
use vstd::prelude::*;
use crate::markup::context::RenderContext;
use crate::markup::escape::escape_html_spec;
use crate::markup::html::{attr_text, close_tag, nl_text, open_tag, start_tag, HtmlWriter};
use crate::markup::render::{Fragment, Render};
use crate::text::{push_str, to_owned_string, trim, trim_spec};

verus! {

#[derive(Clone)]
pub struct PageMeta {
    pub title: String,
    pub description: String,
    pub lang: String,
    pub theme_class: String,
    pub charset: String,
    pub viewport: String,
    pub csp: Option<String>,
    pub canonical: Option<String>,
}

impl PageMeta {
    pub fn new(title: &str) -> (m: Self)
        ensures
            m.title@ == title@,
            m.lang@ == "en"@,
            m.charset@ == "utf-8"@,
            m.viewport@ == "width=device-width, initial-scale=1"@,
            m.description@.len() == 0,
            m.theme_class@.len() == 0,
            m.csp is None,
            m.canonical is None,
    {
        PageMeta {
            title: to_owned_string(title),
            description: String::new(),
            lang: to_owned_string("en"),
            theme_class: String::new(),
            charset: to_owned_string("utf-8"),
            viewport: to_owned_string("width=device-width, initial-scale=1"),
            csp: None,
            canonical: None,
        }
    }

    pub fn with_description(self, desc: &str) -> (m: Self)
        ensures
            m == (PageMeta { description: m.description, ..self }),
            m.description@ == desc@,
    {
        PageMeta { description: to_owned_string(desc), ..self }
    }

    pub fn with_theme(self, cls: &str) -> (m: Self)
        ensures
            m == (PageMeta { theme_class: m.theme_class, ..self }),
            m.theme_class@ == cls@,
    {
        PageMeta { theme_class: to_owned_string(cls), ..self }
    }

    pub fn with_lang(self, lang: &str) -> (m: Self)
        ensures
            m == (PageMeta { lang: m.lang, ..self }),
            m.lang@ == lang@,
    {
        PageMeta { lang: to_owned_string(lang), ..self }
    }

    pub fn with_csp(self, csp: &str) -> (m: Self)
        ensures
            m == (PageMeta { csp: m.csp, ..self }),
            m.csp is Some && m.csp->0@ == csp@,
    {
        PageMeta { csp: Some(to_owned_string(csp)), ..self }
    }

    pub fn with_canonical(self, url: &str) -> (m: Self)
        ensures
            m == (PageMeta { canonical: m.canonical, ..self }),
            m.canonical is Some && m.canonical->0@ == url@,
    {
        PageMeta { canonical: Some(to_owned_string(url)), ..self }
    }
}

/// The `<head>` extras, each followed by a newline.
pub open spec fn head_lines(extra: Seq<Seq<char>>) -> Seq<char>
    decreases extra.len(),
{
    if extra.len() == 0 {
        seq![]
    } else {
        head_lines(extra.drop_last()) + extra.last() + nl_text()
    }
}

/// A self-closed void tag with the given attribute text, and a newline.
pub open spec fn void_line(tag: Seq<char>, attrs: Seq<char>) -> Seq<char> {
    start_tag(tag) + attrs + " />"@ + nl_text()
}

/// The opening `<html>` line.
#[verifier::opaque]
pub open spec fn html_open(meta: PageMeta) -> Seq<char> {
    let lang = if meta.lang@.len() == 0 { "en"@ } else { meta.lang@ };
    start_tag("html"@) + attr_text("lang"@, lang)
        + (if meta.theme_class@.len() > 0 { attr_text("class"@, meta.theme_class@) } else { seq![] })
        + ">"@ + nl_text()
}

/// The `<meta>` and `<link>` lines of the `<head>` element.
pub open spec fn head_meta(meta: PageMeta) -> Seq<char> {
    void_line("meta"@, attr_text("charset"@, meta.charset@))
        + void_line("meta"@, attr_text("name"@, "viewport"@) + attr_text("content"@, meta.viewport@))
        + (if meta.description@.len() > 0 {
            void_line("meta"@, attr_text("name"@, "description"@) + attr_text("content"@, meta.description@))
        } else {
            seq![]
        })
        + (match meta.canonical {
            Some(url) => void_line("link"@, attr_text("rel"@, "canonical"@) + attr_text("href"@, url@)),
            None => seq![],
        })
}

/// The `<title>` line.
pub open spec fn title_line(meta: PageMeta) -> Seq<char> {
    open_tag("title"@) + escape_html_spec(meta.title@) + close_tag("title"@) + nl_text()
}

/// The `<head>` element and the newline after it.
#[verifier::opaque]
pub open spec fn head_section(meta: PageMeta, extra: Seq<Seq<char>>) -> Seq<char> {
    start_tag("head"@) + ">"@ + nl_text() + head_meta(meta) + title_line(meta)
        + head_lines(extra) + close_tag("head"@) + nl_text()
}

/// The opening `<body>` line.
pub open spec fn body_open(meta: PageMeta) -> Seq<char> {
    start_tag("body"@) + attr_text("class"@, trim_spec("p-body "@ + meta.theme_class@)) + ">"@ + nl_text()
}

/// What follows the body: the closing tags.
pub open spec fn doc_tail() -> Seq<char> {
    nl_text() + close_tag("body"@) + nl_text() + close_tag("html"@)
}

/// The full document for a page whose body renders as `body`.
pub open spec fn page_document(meta: PageMeta, extra: Seq<Seq<char>>, body: Seq<char>) -> Seq<char> {
    "<!DOCTYPE html>"@ + nl_text() + html_open(meta) + head_section(meta, extra)
        + body_open(meta) + body + doc_tail()
}

/// Top-level page model. Renders a full HTML document.
pub struct Page {
    pub meta: PageMeta,
    pub head_extra: Vec<String>,
    pub body: Box<dyn Render>,
}

impl Page {
    pub fn new(meta: PageMeta, body: Box<dyn Render>) -> (p: Self)
        ensures
            p.meta == meta,
            p.head_extra@.len() == 0,
            p.body == body,
    {
        // The body is moved in with `swap`, whose contract keeps the boxed value
        // itself; a struct literal would coerce the trait object.
        let mut p = Page { meta, head_extra: Vec::new(), body: Box::new(Fragment::new()) };
        let mut b = body;
        std::mem::swap(&mut p.body, &mut b);
        p
    }

    pub fn with_head(self, html: &str) -> (p: Self)
        ensures
            p.meta == self.meta,
            p.body == self.body,
            p.head_extra@.map_values(|s: String| s@) == self.head_extra@.map_values(|s: String| s@).push(html@),
    {
        let mut p = self;
        let ghost prev = p.head_extra@;
        p.head_extra.push(to_owned_string(html));
        proof {
            assert(p.head_extra@ == prev.push(p.head_extra@.last()));
            assert(p.head_extra@.map_values(|s: String| s@) =~= prev.map_values(|s: String| s@).push(html@));
        }
        p
    }

    pub fn render_full(&self, ctx: &RenderContext) -> (s: String)
        ensures
            s@ == page_document(self.meta, self.head_extra@.map_values(|s: String| s@), self.body.rendered(*ctx)),
    {
        let ghost ev = self.head_extra@.map_values(|s: String| s@);
        let mut w = HtmlWriter::with_capacity(16384);
        w.raw("<!DOCTYPE html>");
        w.nl();
        write_html_open(&mut w, &self.meta);
        write_head(&mut w, &self.meta, &self.head_extra);
        let ghost s3 = w.html();
        assert(s3 =~= "<!DOCTYPE html>"@ + nl_text() + html_open(self.meta) + head_section(self.meta, ev));
        write_body_open(&mut w, &self.meta);
        let ghost s4 = w.html();
        self.body.render(&mut w, ctx);
        let ghost s5 = w.html();
        w.nl();
        w.close("body");
        w.nl();
        w.close("html");
        proof {
            assert(w.html() =~= s5 + doc_tail());
            assert(w.html() =~= page_document(self.meta, ev, self.body.rendered(*ctx)));
        }
        w.finish()
    }
}

fn write_body_open(w: &mut HtmlWriter, meta: &PageMeta)
    ensures
        final(w).html() == old(w).html() + body_open(*meta),
{
    let ghost s0 = w.html();
    let mut body_class = String::new();
    body_class.append("p-body ");
    push_str(&mut body_class, meta.theme_class.as_str());
    let trimmed = trim(body_class.as_str());
    w.open_tag_start("body");
    w.attr("class", trimmed.as_str());
    w.tag_end("body");
    w.nl();
    assert(body_class@ =~= "p-body "@ + meta.theme_class@);
    assert(w.html() =~= s0 + body_open(*meta));
}

fn write_html_open(w: &mut HtmlWriter, meta: &PageMeta)
    ensures
        final(w).html() == old(w).html() + html_open(*meta),
{
    let ghost s0 = w.html();
    w.open_tag_start("html");
    let lang = if meta.lang.as_str().is_empty() { "en" } else { meta.lang.as_str() };
    w.attr("lang", lang);
    let ghost langv = if meta.lang@.len() == 0 { "en"@ } else { meta.lang@ };
    assert(lang@ == langv);
    let ghost sa = w.html();
    if !meta.theme_class.as_str().is_empty() {
        w.attr("class", meta.theme_class.as_str());
        assert(w.html() == sa + attr_text("class"@, meta.theme_class@));
    } else {
        assert(w.html() =~= sa + Seq::<char>::empty());
    }
    let ghost themev = if meta.theme_class@.len() > 0 { attr_text("class"@, meta.theme_class@) } else { seq![] };
    assert(w.html() == sa + themev);
    w.tag_end("html");
    w.nl();
    proof {
        reveal(html_open);
        assert(w.html() =~= s0 + html_open(*meta));
    }
}

fn write_void_line1(w: &mut HtmlWriter, tag: &str, n1: &str, v1: &str)
    ensures
        final(w).html() == old(w).html() + void_line(tag@, attr_text(n1@, v1@)),
{
    let ghost s0 = w.html();
    w.open_tag_start(tag);
    w.attr(n1, v1);
    w.tag_self_close();
    w.nl();
    assert(w.html() =~= s0 + void_line(tag@, attr_text(n1@, v1@)));
}

fn write_void_line2(w: &mut HtmlWriter, tag: &str, n1: &str, v1: &str, n2: &str, v2: &str)
    ensures
        final(w).html() == old(w).html() + void_line(tag@, attr_text(n1@, v1@) + attr_text(n2@, v2@)),
{
    let ghost s0 = w.html();
    w.open_tag_start(tag);
    w.attr(n1, v1);
    w.attr(n2, v2);
    w.tag_self_close();
    w.nl();
    assert(w.html() =~= s0 + void_line(tag@, attr_text(n1@, v1@) + attr_text(n2@, v2@)));
}

fn write_head_meta(w: &mut HtmlWriter, meta: &PageMeta)
    ensures
        final(w).html() == old(w).html() + head_meta(*meta),
{
    let ghost s0 = w.html();
    write_void_line1(w, "meta", "charset", meta.charset.as_str());
    let ghost p1 = void_line("meta"@, attr_text("charset"@, meta.charset@));
    write_void_line2(w, "meta", "name", "viewport", "content", meta.viewport.as_str());
    let ghost p2 = void_line("meta"@, attr_text("name"@, "viewport"@) + attr_text("content"@, meta.viewport@));
    let ghost sb = w.html();
    assert(sb == s0 + p1 + p2);
    let ghost descv = if meta.description@.len() > 0 {
        void_line("meta"@, attr_text("name"@, "description"@) + attr_text("content"@, meta.description@))
    } else {
        seq![]
    };
    if !meta.description.as_str().is_empty() {
        write_void_line2(w, "meta", "name", "description", "content", meta.description.as_str());
    } else {
        assert(w.html() =~= sb + descv);
    }
    let ghost sc = w.html();
    assert(sc == sb + descv);
    let ghost canv = match &meta.canonical {
        Some(url) => void_line("link"@, attr_text("rel"@, "canonical"@) + attr_text("href"@, url@)),
        None => seq![],
    };
    if let Some(url) = &meta.canonical {
        write_void_line2(w, "link", "rel", "canonical", "href", url.as_str());
    } else {
        assert(w.html() =~= sc + canv);
    }
    assert(w.html() == sc + canv);
    assert(head_meta(*meta) == p1 + p2 + descv + canv);
    assert(w.html() =~= s0 + head_meta(*meta));
}

fn write_head_lines(w: &mut HtmlWriter, extra: &Vec<String>)
    ensures
        final(w).html() == old(w).html() + head_lines(extra@.map_values(|s: String| s@)),
{
    let ghost s2 = w.html();
    let ghost ev = extra@.map_values(|s: String| s@);
    let mut i: usize = 0;
    while i < extra.len()
        invariant
            i <= extra@.len(),
            ev == extra@.map_values(|s: String| s@),
            w.html() == s2 + head_lines(ev.take(i as int)),
        decreases extra@.len() - i,
    {
        let ghost before = w.html();
        w.raw(extra[i].as_str());
        w.nl();
        proof {
            assert(ev[i as int] == extra@[i as int]@);
            assert(ev.take(i + 1).last() == ev[i as int]);
            assert(w.html() =~= before + ev[i as int] + nl_text());
            assert(ev.take(i + 1).drop_last() == ev.take(i as int));
            assert(w.html() =~= s2 + head_lines(ev.take(i + 1)));
        }
        i = i + 1;
    }
    proof {
        assert(ev.take(extra@.len() as int) == ev);
    }
}

fn write_title(w: &mut HtmlWriter, meta: &PageMeta)
    ensures
        final(w).html() == old(w).html() + title_line(*meta),
{
    let ghost s1 = w.html();
    w.open("title");
    w.text(meta.title.as_str());
    w.close("title");
    w.nl();
    assert(w.html() =~= s1 + title_line(*meta));
}

fn write_head(w: &mut HtmlWriter, meta: &PageMeta, extra: &Vec<String>)
    ensures
        final(w).html() == old(w).html() + head_section(*meta, extra@.map_values(|s: String| s@)),
{
    let ghost s0 = w.html();
    w.open_tag_start("head");
    w.tag_end("head");
    w.nl();
    let ghost sh = w.html();
    assert(sh =~= s0 + (start_tag("head"@) + ">"@ + nl_text()));
    write_head_meta(w, meta);
    write_title(w, meta);
    write_head_lines(w, extra);
    let ghost s4 = w.html();
    w.close("head");
    w.nl();
    let ghost ev = extra@.map_values(|s: String| s@);
    proof {
        assert(w.html() =~= s4 + (close_tag("head"@) + nl_text()));
        reveal(head_section);
        assert(w.html() =~= s0 + head_section(*meta, ev));
    }
}

/// A named content slot for layout composition.
pub struct Slot {
    pub name: &'static str,
    pub content: Option<Box<dyn Render>>,
}

impl Slot {
    pub fn new(name: &'static str) -> (s: Self)
        ensures
            s.name == name,
            s.content is None,
    {
        Slot { name, content: None }
    }

    pub fn fill(self, content: Box<dyn Render>) -> (s: Self)
        ensures
            s.name == self.name,
            s.content == Some(content),
    {
        // Moved in with `swap`, as in `Page::new`.
        let mut s = Slot { name: self.name, content: None };
        let mut c = Some(content);
        std::mem::swap(&mut s.content, &mut c);
        s
    }

    pub fn is_filled(&self) -> (b: bool)
        ensures
            b == self.content is Some,
    {
        self.content.is_some()
    }
}

impl Render for Slot {
    open spec fn rendered(&self, ctx: RenderContext) -> Seq<char> {
        match self.content {
            Some(c) => c.rendered(ctx),
            None => seq![],
        }
    }

    fn render(&self, out: &mut HtmlWriter, ctx: &RenderContext) {
        if let Some(c) = &self.content {
            c.render(out, ctx);
        } else {
            proof {
                assert(out.html() =~= out.html() + Seq::<char>::empty());
            }
        }
    }
}

} // verus!
