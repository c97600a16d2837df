//! Renderable pieces that carry a theme into a page.
use vstd::prelude::*;
use crate::markup::context::RenderContext;
use crate::markup::html::{HtmlWriter, attr_text, close_tag};
use crate::markup::render::Render;

verus! {

/// Renders a full <style> tag containing theme CSS.
pub struct StyleTag {
    pub css: String,
    pub nonce: Option<String>,
}

/// The nonce attribute, when a nonce is set.
pub open spec fn nonce_attr(nonce: Option<String>) -> Seq<char> {
    match nonce {
        Some(n) => attr_text("nonce"@, n@),
        None => seq![],
    }
}

/// The `<style>` element: the nonce attribute when set, the CSS as it is.
pub open spec fn style_tag_html(css: Seq<char>, nonce: Option<String>) -> Seq<char> {
    "<"@ + "style"@ + nonce_attr(nonce) + ">"@ + css + close_tag("style"@)
}

impl Render for StyleTag {
    open spec fn rendered(&self, ctx: RenderContext) -> Seq<char> {
        style_tag_html(self.css@, self.nonce)
    }

    fn render(&self, out: &mut HtmlWriter, _ctx: &RenderContext) {
        let ghost s0 = out.html();
        out.open_tag_start("style");
        let ghost s1 = out.html();
        if let Some(n) = &self.nonce {
            out.attr("nonce", n.as_str());
        }
        assert(out.html() =~= s1 + nonce_attr(self.nonce));
        out.tag_end("style");
        out.raw(self.css.as_str());
        out.close("style");
        assert(out.html() =~= s0 + style_tag_html(self.css@, self.nonce));
    }
}

/// Renders a Google Fonts preconnect + load snippet.
pub struct FontPreload;

/// The font preconnect and stylesheet links.
pub open spec fn font_preload_html() -> Seq<char> {
    "<link rel=\"preconnect\" href=\"https://fonts.googleapis.com\" />"@
        + "<link rel=\"preconnect\" href=\"https://fonts.gstatic.com\" crossorigin />"@
        + "<link href=\"https://fonts.googleapis.com/css2?family=Inter:wght@400;500;600;700&family=JetBrains+Mono:wght@400;500&display=swap\" rel=\"stylesheet\" />"@
}

impl Render for FontPreload {
    open spec fn rendered(&self, ctx: RenderContext) -> Seq<char> {
        font_preload_html()
    }

    fn render(&self, out: &mut HtmlWriter, _ctx: &RenderContext) {
        out.raw("<link rel=\"preconnect\" href=\"https://fonts.googleapis.com\" />");
        out.raw("<link rel=\"preconnect\" href=\"https://fonts.gstatic.com\" crossorigin />");
        out.raw("<link href=\"https://fonts.googleapis.com/css2?family=Inter:wght@400;500;600;700&family=JetBrains+Mono:wght@400;500&display=swap\" rel=\"stylesheet\" />");
    }
}

} // verus!
