use polish::markup::context::RenderContext;
use polish::markup::escape::{escape_attr, escape_html, escape_url};
use polish::markup::html::HtmlWriter;
use polish::markup::page::{Page, PageMeta};
use polish::markup::render::{Fragment, Render, RenderExt};

struct TextBody(String);

impl Render for TextBody {
    fn render(&self, out: &mut HtmlWriter, _ctx: &RenderContext) {
        out.open("main");
        out.text(&self.0);
        out.close("main");
    }
}

struct Span {
    text: String,
}

impl Render for Span {
    fn render(&self, out: &mut HtmlWriter, _ctx: &RenderContext) {
        out.open_tag_start("span");
        out.tag_end("span");
        out.text(&self.text);
        out.close("span");
    }
}

#[test]
fn html_escapes_special_chars() {
    assert_eq!(
        escape_html("<script>alert('xss')</script>"),
        "&lt;script&gt;alert(&#x27;xss&#x27;)&lt;&#x2F;script&gt;"
    );
}

#[test]
fn attr_escapes_quotes() {
    assert_eq!(escape_attr(r#"foo"bar"#), "foo&quot;bar");
}

#[test]
fn url_encodes_spaces() {
    assert_eq!(escape_url("hello world"), "hello%20world");
}

#[test]
fn text_is_escaped() {
    let mut w = HtmlWriter::new();
    w.open("p");
    w.text("<script>xss</script>");
    w.close("p");
    assert_eq!(w.finish(), "<p>&lt;script&gt;xss&lt;&#x2F;script&gt;</p>");
}

#[test]
fn attr_is_escaped() {
    let mut w = HtmlWriter::new();
    w.open_tag_start("input");
    w.attr("value", r#""><img onerror=alert(1)>"#);
    w.tag_self_close();
    let html = w.finish();
    assert!(!html.contains("<img"), "XSS via attr not escaped");
}

#[test]
fn void_element() {
    let mut w = HtmlWriter::new();
    w.void_element("input", &[("type", "text"), ("name", "q")]);
    assert_eq!(w.finish(), r#"<input type="text" name="q" />"#);
}

#[test]
fn page_renders_full_document() {
    let meta = PageMeta::new("Test Page");
    let page = Page::new(meta, Box::new(TextBody("Hello, World!".into())));
    let html = page.render_full(&RenderContext::default());
    assert!(html.starts_with("<!DOCTYPE html>"));
    assert!(html.contains("<title>Test Page</title>"));
    assert!(html.contains("<main>Hello, World!</main>"));
    assert!(html.contains("</html>"));
}

#[test]
fn fragment_renders_items() {
    let mut f = Fragment::new();
    f.push(Box::new(Span { text: "hello".into() }));
    f.push(Box::new(Span { text: "world".into() }));
    let html = f.render_to_string();
    assert!(html.contains("<span>hello</span>"));
    assert!(html.contains("<span>world</span>"));
}

#[test]
fn str_render_escapes() {
    let s = "<danger>";
    let html = s.render_to_string();
    assert_eq!(html, "&lt;danger&gt;");
}
