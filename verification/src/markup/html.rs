//! The HTML output buffer. Text and attribute values are escaped on the way in.
use vstd::prelude::*;
use crate::markup::escape::{escape_attr_into, escape_attr_spec, escape_html_into, escape_html_spec};
use crate::text::{push_char, push_str, str_eq, string_with_capacity};

verus! {

/// Removes the last occurrence of `t` from `tags`, if there is one.
pub open spec fn remove_last(tags: Seq<Seq<char>>, t: Seq<char>) -> Seq<Seq<char>>
    decreases tags.len(),
{
    if tags.len() == 0 {
        tags
    } else if tags.last() == t {
        tags.drop_last()
    } else {
        remove_last(tags.drop_last(), t).push(tags.last())
    }
}

/// The text of one `name="value"` attribute, with its leading space.
pub open spec fn attr_text(name: Seq<char>, value: Seq<char>) -> Seq<char> {
    " "@ + name + "=\""@ + escape_attr_spec(value) + "\""@
}

/// `<tag` : what `open_tag_start` writes.
pub open spec fn start_tag(tag: Seq<char>) -> Seq<char> {
    "<"@ + tag
}

/// `<tag>` : what `open` writes.
pub open spec fn open_tag(tag: Seq<char>) -> Seq<char> {
    "<"@ + tag + ">"@
}

/// `</tag>` : what `close` writes.
pub open spec fn close_tag(tag: Seq<char>) -> Seq<char> {
    "</"@ + tag + ">"@
}

/// The newline `nl` writes.
pub open spec fn nl_text() -> Seq<char> {
    seq!['\n']
}

/// The text of a list of attributes, in order.
pub open spec fn attrs_text(attrs: Seq<(Seq<char>, Seq<char>)>) -> Seq<char>
    decreases attrs.len(),
{
    if attrs.len() == 0 {
        seq![]
    } else {
        attrs_text(attrs.drop_last()) + attr_text(attrs.last().0, attrs.last().1)
    }
}

/// Core HTML output buffer. All text content is escaped by default.
/// Raw HTML injection requires explicit SafeHtml.
pub struct HtmlWriter {
    buf: String,
    open_tags: Vec<&'static str>,
}

impl HtmlWriter {
    /// The HTML written so far.
    pub closed spec fn html(&self) -> Seq<char> {
        self.buf@
    }

    /// The tags opened and not yet closed, oldest first.
    pub closed spec fn open_tags(&self) -> Seq<Seq<char>> {
        self.open_tags@.map_values(|t: &'static str| t@)
    }

    pub fn new() -> (w: Self)
        ensures
            w.html() == Seq::<char>::empty(),
            w.open_tags() == Seq::<Seq<char>>::empty(),
    {
        let w = Self { buf: string_with_capacity(4096), open_tags: Vec::new() };
        proof { assert(w.open_tags() =~= Seq::<Seq<char>>::empty()); }
        w
    }

    pub fn with_capacity(cap: usize) -> (w: Self)
        ensures
            w.html() == Seq::<char>::empty(),
            w.open_tags() == Seq::<Seq<char>>::empty(),
    {
        let w = Self { buf: string_with_capacity(cap), open_tags: Vec::new() };
        proof { assert(w.open_tags() =~= Seq::<Seq<char>>::empty()); }
        w
    }

    /// Write raw trusted HTML — only use with SafeHtml or known-safe content.
    pub fn raw(&mut self, s: &str)
        ensures
            final(self).html() == old(self).html() + s@,
            final(self).open_tags() == old(self).open_tags(),
    {
        push_str(&mut self.buf, s);
    }

    /// Write HTML-escaped text content.
    pub fn text(&mut self, s: &str)
        ensures
            final(self).html() == old(self).html() + escape_html_spec(s@),
            final(self).open_tags() == old(self).open_tags(),
    {
        escape_html_into(s, &mut self.buf);
    }

    /// Open a tag. Must be closed with `close()`.
    pub fn open(&mut self, tag: &'static str)
        ensures
            final(self).html() == old(self).html() + "<"@ + tag@ + ">"@,
            final(self).open_tags() == old(self).open_tags().push(tag@),
    {
        self.buf.append("<");
        push_str(&mut self.buf, tag);
        self.buf.append(">");
        self.open_tags.push(tag);
        proof {
            assert(self.open_tags() =~= old(self).open_tags().push(tag@));
        }
    }

    /// Open a tag with attributes (call attr() after open_tag_start, then tag_end).
    pub fn open_tag_start(&mut self, tag: &str)
        ensures
            final(self).html() == old(self).html() + "<"@ + tag@,
            final(self).open_tags() == old(self).open_tags(),
    {
        self.buf.append("<");
        push_str(&mut self.buf, tag);
    }

    /// Write an attribute. Must be called between open_tag_start and tag_end.
    pub fn attr(&mut self, name: &str, value: &str)
        ensures
            final(self).html() == old(self).html() + attr_text(name@, value@),
            final(self).open_tags() == old(self).open_tags(),
    {
        self.buf.append(" ");
        push_str(&mut self.buf, name);
        self.buf.append("=\"");
        escape_attr_into(value, &mut self.buf);
        self.buf.append("\"");
        proof {
            assert(self.buf@ =~= old(self).buf@ + attr_text(name@, value@));
        }
    }

    /// Write a boolean attribute (e.g. disabled, checked).
    pub fn attr_bool(&mut self, name: &str)
        ensures
            final(self).html() == old(self).html() + " "@ + name@,
            final(self).open_tags() == old(self).open_tags(),
    {
        self.buf.append(" ");
        push_str(&mut self.buf, name);
    }

    /// Write a data attribute.
    pub fn data_attr(&mut self, key: &str, value: &str)
        ensures
            final(self).html() == old(self).html() + " data-"@ + key@ + "=\""@
                + escape_attr_spec(value@) + "\""@,
            final(self).open_tags() == old(self).open_tags(),
    {
        self.buf.append(" data-");
        push_str(&mut self.buf, key);
        self.buf.append("=\"");
        escape_attr_into(value, &mut self.buf);
        self.buf.append("\"");
    }

    /// Finish opening tag (close the `<tag ...` part).
    pub fn tag_end(&mut self, tag: &'static str)
        ensures
            final(self).html() == old(self).html() + ">"@,
            final(self).open_tags() == old(self).open_tags().push(tag@),
    {
        self.buf.append(">");
        self.open_tags.push(tag);
        proof {
            assert(self.open_tags() =~= old(self).open_tags().push(tag@));
        }
    }

    /// Self-closing tag end (for void elements or explicit self-close).
    pub fn tag_self_close(&mut self)
        ensures
            final(self).html() == old(self).html() + " />"@,
            final(self).open_tags() == old(self).open_tags(),
    {
        self.buf.append(" />");
    }

    /// Close the most recently opened tag of this name.
    pub fn close(&mut self, tag: &str)
        ensures
            final(self).html() == old(self).html() + "</"@ + tag@ + ">"@,
            final(self).open_tags() == remove_last(old(self).open_tags(), tag@),
    {
        self.buf.append("</");
        push_str(&mut self.buf, tag);
        self.buf.append(">");
        let ghost tags = self.open_tags();
        let ghost buf = self.buf@;
        let mut i: usize = self.open_tags.len();
        proof {
            assert(tags.take(tags.len() as int) == tags);
            assert(tags.skip(tags.len() as int) == Seq::<Seq<char>>::empty());
        }
        while i > 0
            invariant
                buf == self.buf@,
                buf == old(self).html() + "</"@ + tag@ + ">"@,
                tags == old(self).open_tags(),
                i <= self.open_tags@.len(),
                tags == self.open_tags(),
                tags.len() == self.open_tags@.len(),
                remove_last(tags, tag@) == remove_last(tags.take(i as int), tag@) + tags.skip(i as int),
                forall|k: int| i <= k < tags.len() ==> tags[k] != tag@,
            decreases i,
        {
            proof {
                let t = tags.take(i as int);
                assert(t.drop_last() == tags.take(i - 1));
                assert(t.last() == tags[i - 1]);
            }
            if str_eq(self.open_tags[i - 1], tag) {
                proof {
                    assert(tags.take(i as int).last() == tag@);
                    assert(tags.skip(i - 1) == seq![tags[i - 1]] + tags.skip(i as int));
                }
                self.open_tags.remove(i - 1);
                proof {
                    assert(self.open_tags() =~= tags.take(i - 1) + tags.skip(i as int));
                }
                return;
            }
            proof {
                let t = tags.take(i as int);
                assert(remove_last(t, tag@) == remove_last(t.drop_last(), tag@).push(t.last()));
                assert(tags.skip(i - 1) == seq![tags[i - 1]] + tags.skip(i as int));
                assert(remove_last(tags.take(i - 1), tag@).push(tags[i - 1]) + tags.skip(i as int)
                    == remove_last(tags.take(i - 1), tag@) + tags.skip(i - 1));
            }
            i = i - 1;
        }
        proof {
            assert(tags.take(0) == Seq::<Seq<char>>::empty());
            assert(tags.skip(0) == tags);
        }
    }

    /// Void element (no closing tag): <tag attrs />
    pub fn void_element(&mut self, tag: &str, attrs: &[(&str, &str)])
        ensures
            final(self).html() == old(self).html() + "<"@ + tag@
                + attrs_text(attrs@.map_values(|p: (&str, &str)| (p.0@, p.1@))) + " />"@,
            final(self).open_tags() == old(self).open_tags(),
    {
        self.buf.append("<");
        push_str(&mut self.buf, tag);
        let ghost start = self.buf@;
        let ghost pairs = attrs@.map_values(|p: (&str, &str)| (p.0@, p.1@));
        let mut i: usize = 0;
        while i < attrs.len()
            invariant
                i <= attrs@.len(),
                pairs == attrs@.map_values(|p: (&str, &str)| (p.0@, p.1@)),
                self.buf@ == start + attrs_text(pairs.take(i as int)),
                self.open_tags() == old(self).open_tags(),
            decreases attrs@.len() - i,
        {
            let (k, v) = attrs[i];
            self.buf.append(" ");
            push_str(&mut self.buf, k);
            self.buf.append("=\"");
            escape_attr_into(v, &mut self.buf);
            self.buf.append("\"");
            proof {
                assert(pairs.take(i + 1).drop_last() == pairs.take(i as int));
                assert(self.buf@ =~= start + attrs_text(pairs.take(i + 1)));
            }
            i = i + 1;
        }
        proof {
            assert(pairs.take(attrs@.len() as int) == pairs);
        }
        self.buf.append(" />");
    }

    /// Write an HTML comment (content is not escaped, caller must ensure safety).
    pub fn comment(&mut self, text: &str)
        ensures
            final(self).html() == old(self).html() + "<!-- "@ + text@ + " -->"@,
            final(self).open_tags() == old(self).open_tags(),
    {
        self.buf.append("<!-- ");
        push_str(&mut self.buf, text);
        self.buf.append(" -->");
    }

    /// Write a newline (for readability in debug output).
    pub fn nl(&mut self)
        ensures
            final(self).html() == old(self).html().push('\n'),
            final(self).open_tags() == old(self).open_tags(),
    {
        push_char(&mut self.buf, '\n');
    }

    /// Consume writer and return the HTML string.
    pub fn finish(self) -> (s: String)
        ensures
            s@ == self.html(),
    {
        self.buf
    }

    /// Borrow the buffer (for appending sub-renders).
    pub fn as_str(&self) -> (s: &str)
        ensures
            s@ == self.html(),
    {
        self.buf.as_str()
    }

    /// Append from another writer.
    pub fn append(&mut self, other: HtmlWriter)
        ensures
            final(self).html() == old(self).html() + other.html(),
            final(self).open_tags() == old(self).open_tags(),
    {
        push_str(&mut self.buf, other.buf.as_str());
    }
}

impl Default for HtmlWriter {
    fn default() -> (w: Self)
        ensures
            w.html() == Seq::<char>::empty(),
            w.open_tags() == Seq::<Seq<char>>::empty(),
    {
        Self::new()
    }
}

/// Pre-escaped / trusted HTML fragment. The only safe constructors are from
/// already-escaped sources.
#[derive(Clone, Default)]
pub struct SafeHtml(pub(crate) String);

impl SafeHtml {
    /// The HTML held.
    pub closed spec fn html(&self) -> Seq<char> {
        self.0@
    }

    /// Create from a known-safe string (e.g. from Render::to_html()).
    pub fn from_rendered(s: String) -> (r: Self)
        ensures
            r.html() == s@,
    {
        Self(s)
    }

    pub fn empty() -> (r: Self)
        ensures
            r.html() == Seq::<char>::empty(),
    {
        Self(String::new())
    }

    pub fn as_str(&self) -> (s: &str)
        ensures
            s@ == self.html(),
    {
        self.0.as_str()
    }

    pub fn is_empty(&self) -> (b: bool)
        ensures
            b == (self.html().len() == 0),
    {
        self.0.as_str().is_empty()
    }

    pub fn push_str(&mut self, s: &SafeHtml)
        ensures
            final(self).html() == old(self).html() + s.html(),
    {
        push_str(&mut self.0, s.0.as_str());
    }

    /// The HTML held, as a string (what `Display` prints).
    pub fn to_string(&self) -> (s: String)
        ensures
            s@ == self.html(),
    {
        self.0.clone()
    }
}

} // verus!
