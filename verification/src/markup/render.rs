//! The rendering interface and the built-in renderable types.
use vstd::prelude::*;
use crate::markup::context::{is_default_context, RenderContext};
use crate::markup::escape::escape_html_spec;
use crate::markup::html::{HtmlWriter, SafeHtml};

verus! {

/// The fundamental rendering interface. All renderable types implement this.
pub trait Render {
    /// The HTML this value writes in the context `ctx`. An implementation
    /// that writes anything says what here; by default it writes nothing.
    open spec fn rendered(&self, ctx: RenderContext) -> Seq<char> {
        seq![]
    }

    fn render(&self, out: &mut HtmlWriter, ctx: &RenderContext)
        ensures
            final(out).html() == old(out).html() + self.rendered(*ctx);

    /// Convenience: render to a String.
    fn to_html(&self, ctx: &RenderContext) -> (s: String)
        ensures
            s@ == self.rendered(*ctx),
    {
        let mut w = HtmlWriter::new();
        self.render(&mut w, ctx);
        w.finish()
    }

    /// Convenience: render to SafeHtml (output of Render is always safe).
    fn to_safe_html(&self, ctx: &RenderContext) -> (h: SafeHtml)
        ensures
            h.html() == self.rendered(*ctx),
    {
        SafeHtml::from_rendered(self.to_html(ctx))
    }
}

/// The concatenated output of a list of renderable items.
pub open spec fn items_rendered(items: Seq<Box<dyn Render>>, ctx: RenderContext) -> Seq<char>
    decreases items.len(),
{
    if items.len() == 0 {
        seq![]
    } else {
        items_rendered(items.drop_last(), ctx) + items.last().rendered(ctx)
    }
}

/// A lazy sequence of renderable items.
pub struct Fragment {
    items: Vec<Box<dyn Render>>,
}

impl Fragment {
    /// The items, in order.
    pub closed spec fn items(&self) -> Seq<Box<dyn Render>> {
        self.items@
    }

    pub fn new() -> (f: Self)
        ensures
            f.items().len() == 0,
    {
        Fragment { items: Vec::new() }
    }

    pub fn push(&mut self, item: Box<dyn Render>)
        ensures
            final(self).items() == old(self).items().push(item),
    {
        self.items.push(item);
    }

    pub fn with(self, item: Box<dyn Render>) -> (f: Self)
        ensures
            f.items() == self.items().push(item),
    {
        let mut f = self;
        f.items.push(item);
        f
    }

    pub fn is_empty(&self) -> (b: bool)
        ensures
            b == (self.items().len() == 0),
    {
        self.items.len() == 0
    }

    pub fn len(&self) -> (n: usize)
        ensures
            n == self.items().len(),
    {
        self.items.len()
    }
}

impl Default for Fragment {
    fn default() -> (f: Self)
        ensures
            f.items().len() == 0,
    {
        Fragment::new()
    }
}

impl Render for Fragment {
    closed spec fn rendered(&self, ctx: RenderContext) -> Seq<char> {
        items_rendered(self.items@, ctx)
    }

    fn render(&self, out: &mut HtmlWriter, ctx: &RenderContext) {
        let ghost start = out.html();
        let mut i: usize = 0;
        while i < self.items.len()
            invariant
                i <= self.items@.len(),
                out.html() == start + items_rendered(self.items@.take(i as int), *ctx),
            decreases self.items@.len() - i,
        {
            self.items[i].render(out, ctx);
            proof {
                assert(self.items@.take(i + 1).drop_last() == self.items@.take(i as int));
            }
            i = i + 1;
        }
        proof {
            assert(self.items@.take(self.items@.len() as int) == self.items@);
        }
    }
}

/// SafeHtml renders as it is: it is already escaped.
impl Render for SafeHtml {
    open spec fn rendered(&self, ctx: RenderContext) -> Seq<char> {
        self.html()
    }

    fn render(&self, out: &mut HtmlWriter, _ctx: &RenderContext) {
        out.raw(self.as_str());
    }
}

/// A string slice renders as escaped text.
impl<'a> Render for &'a str {
    open spec fn rendered(&self, ctx: RenderContext) -> Seq<char> {
        escape_html_spec((*self)@)
    }

    fn render(&self, out: &mut HtmlWriter, _ctx: &RenderContext) {
        out.text(self);
    }
}

/// A string renders as escaped text.
impl Render for String {
    open spec fn rendered(&self, ctx: RenderContext) -> Seq<char> {
        escape_html_spec(self@)
    }

    fn render(&self, out: &mut HtmlWriter, _ctx: &RenderContext) {
        out.text(self.as_str());
    }
}

/// Extension trait for ergonomic rendering.
pub trait RenderExt: Render {
    /// Renders in the default context.
    fn render_to_string(&self) -> (s: String)
        ensures
            exists|ctx: RenderContext| is_default_context(ctx) && s@ == self.rendered(ctx),
    {
        let ctx = RenderContext::default();
        self.to_html(&ctx)
    }
}

impl<T: Render> RenderExt for T {}

} // verus!

verus! {

/// Extends Render with component metadata.
pub trait Component: Render {
    fn component_name(&self) -> &'static str;

    fn is_visible(&self) -> bool {
        true
    }
}

} // verus!
