use polish::markup::attrs::Attrs;
use polish::markup::context::RenderContext;
use polish::markup::escape::{escape_attr, escape_html, escape_url};
use polish::markup::html::{HtmlWriter, SafeHtml};
use polish::markup::page::{Page, PageMeta, Slot};
use polish::markup::render::{Fragment, Render, RenderExt};

struct TextBody(String);

impl Render for TextBody {
    fn render(&self, out: &mut HtmlWriter, _ctx: &RenderContext) {
        out.open("main");
        out.text(&self.0);
        out.close("main");
    }
}

#[test]
fn escape_html_covers_every_special_character() {
    assert_eq!(escape_html("&<>\"'/"), "&amp;&lt;&gt;&quot;&#x27;&#x2F;");
    let out = escape_html("<a href='x'>\"q\"</a>");
    assert!(!out.contains('<') && !out.contains('>') && !out.contains('"') && !out.contains('\''));
}

#[test]
fn escape_html_leaves_plain_text_and_distributes_over_concatenation() {
    assert_eq!(escape_html("plain text 123 ü"), "plain text 123 ü");
    let a = "x<y";
    let b = "&z/";
    assert_eq!(escape_html(&format!("{a}{b}")), format!("{}{}", escape_html(a), escape_html(b)));
}

#[test]
fn escape_attr_keeps_slash() {
    assert_eq!(escape_attr("a/b <'&'>"), "a/b &lt;&#x27;&amp;&#x27;&gt;");
}

#[test]
fn escape_url_percent_encodes_reserved_and_utf8() {
    assert_eq!(escape_url("a-b_c.d~e"), "a-b_c.d~e");
    assert_eq!(escape_url("a/b?c=d&e"), "a%2Fb%3Fc%3Dd%26e");
    assert_eq!(escape_url("é"), "%C3%A9");
    assert!(escape_url("any ünïcode ✓").is_ascii());
}

#[test]
fn writer_comment_nl_and_append() {
    let mut w = HtmlWriter::new();
    w.comment("note");
    w.nl();
    let mut other = HtmlWriter::new();
    other.raw("<b>raw</b>");
    w.append(other);
    w.open_tag_start("div");
    w.data_attr("id", "a\"b");
    w.attr_bool("hidden");
    w.tag_end("div");
    w.close("div");
    assert_eq!(w.as_str(), "<!-- note -->\n<b>raw</b><div data-id=\"a&quot;b\" hidden></div>");
}

#[test]
fn attrs_write_classes_sorted_attributes_data_and_flags() {
    let a = Attrs::new()
        .attr("id", "x")
        .attr("aria-label", "y")
        .attr("id", "z")
        .class("a")
        .class("b")
        .data("k", "v")
        .bool_attr("disabled")
        .maybe_attr("title", None)
        .maybe_class("c", false)
        .maybe_class("d", true);
    assert!(a.has_class("d"));
    assert!(!a.has_class("c"));
    let mut w = HtmlWriter::new();
    a.write_into(&mut w);
    assert_eq!(w.finish(), " class=\"a b d\" aria-label=\"y\" id=\"z\" data-k=\"v\" disabled");
}

#[test]
fn context_values_permissions_and_language() {
    let mut ctx = RenderContext::new().with_user("u1".to_string(), vec!["read".to_string()]);
    assert!(ctx.is_authenticated());
    assert!(ctx.has_permission("read"));
    assert!(!ctx.has_permission("write"));
    ctx.set("theme", "dark".to_string());
    ctx.set("theme", "light".to_string());
    assert_eq!(ctx.get("theme"), Some("light"));
    assert_eq!(ctx.get("missing"), None);
    assert_eq!(RenderContext::default().lang_or_default(), "en");
    assert_eq!(RenderContext::default().with_lang("de".to_string()).lang_or_default(), "de");
}

#[test]
fn page_document_is_exact() {
    let page = Page::new(PageMeta::new("T & Co"), Box::new(TextBody("x".into())));
    assert_eq!(
        page.render_full(&RenderContext::default()),
        "<!DOCTYPE html>\n<html lang=\"en\">\n<head>\n<meta charset=\"utf-8\" />\n\
<meta name=\"viewport\" content=\"width=device-width, initial-scale=1\" />\n<title>T &amp; Co</title>\n\
</head>\n<body class=\"p-body\">\n<main>x</main>\n</body>\n</html>"
    );
}

#[test]
fn page_with_theme_description_canonical_and_head_extra() {
    let meta = PageMeta::new("P")
        .with_description("d")
        .with_theme("dark")
        .with_canonical("https://x.test/p");
    let page = Page::new(meta, Box::new(TextBody("b".into()))).with_head("<link rel=\"icon\" href=\"/i\" />");
    let html = page.render_full(&RenderContext::default());
    assert!(html.contains("<html lang=\"en\" class=\"dark\">"));
    assert!(html.contains("<meta name=\"description\" content=\"d\" />"));
    assert!(html.contains("<link rel=\"canonical\" href=\"https://x.test/p\" />"));
    assert!(html.contains("<link rel=\"icon\" href=\"/i\" />\n</head>"));
    assert!(html.contains("<body class=\"p-body dark\">"));
}

#[test]
fn slot_and_fragment_render_their_content() {
    let empty = Slot::new("aside");
    assert!(!empty.is_filled());
    assert_eq!(empty.render_to_string(), "");
    let filled = Slot::new("aside").fill(Box::new("a<b"));
    assert!(filled.is_filled());
    assert_eq!(filled.render_to_string(), "a&lt;b");
    let f = Fragment::new().with(Box::new("1")).with(Box::new(String::from("<2>")));
    assert_eq!(f.len(), 2);
    assert!(!f.is_empty());
    assert_eq!(f.render_to_string(), "1&lt;2&gt;");
}

#[test]
fn safe_html_renders_unescaped() {
    let mut h = SafeHtml::empty();
    assert!(h.is_empty());
    h.push_str(&"<i>ok</i>".to_safe_html(&RenderContext::default()));
    assert_eq!(h.as_str(), "&lt;i&gt;ok&lt;&#x2F;i&gt;");
    let raw = SafeHtml::from_rendered("<b>x</b>".to_string());
    assert_eq!(raw.render_to_string(), "<b>x</b>");
    assert_eq!(raw.to_string(), "<b>x</b>");
}

#[test]
fn attrs_write_each_name_once() {
    let a = Attrs::new()
        .bool_attr("disabled")
        .bool_attr("disabled")
        .attr("class", "x")
        .class("a")
        .data("k", "1")
        .data("k", "2")
        .attr("data-k", "0");
    let mut w = HtmlWriter::new();
    a.write_into(&mut w);
    assert_eq!(w.finish(), " class=\"a\" data-k=\"0\" disabled");
}

struct ContextProbe;

impl Render for ContextProbe {
    fn render(&self, out: &mut HtmlWriter, ctx: &RenderContext) {
        out.text(if ctx.nonce.is_none() { "no-nonce" } else { "nonce" });
        out.text(&ctx.lang);
        out.text(if ctx.debug { "debug" } else { "plain" });
        out.text(if ctx.user_id.is_none() { "anon" } else { "user" });
    }
}

#[test]
fn render_to_string_uses_the_default_context() {
    assert_eq!(ContextProbe.render_to_string(), "no-nonceplainanon");
}
