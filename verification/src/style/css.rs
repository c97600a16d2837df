//! A small CSS writer and the stylesheet generated from a theme.
use vstd::prelude::*;
use crate::style::theme::Theme;
use crate::text::{decimal, is_prefix, prefixed_lines, push_char, push_prefixed_lines, push_str, string_with_capacity, to_owned_string, u64_to_string};

verus! {

/// The text of `(name, value)` pairs as (name, value) character sequences.
pub open spec fn props_view(p: Seq<(&str, &str)>) -> Seq<(Seq<char>, Seq<char>)> {
    p.map_values(|q: (&str, &str)| (q.0@, q.1@))
}

/// The declarations of a rule, one per line, indented by two spaces.
pub open spec fn props_text(p: Seq<(Seq<char>, Seq<char>)>) -> Seq<char>
    decreases p.len(),
{
    if p.len() == 0 {
        seq![]
    } else {
        props_text(p.drop_last()) + "  "@ + p.last().0 + ": "@ + p.last().1 + ";\n"@
    }
}

/// A rule: the selector, its declarations in braces, and a newline.
pub open spec fn rule_text(selector: Seq<char>, p: Seq<(Seq<char>, Seq<char>)>) -> Seq<char> {
    selector + " {\n"@ + props_text(p) + "}\n"@
}

/// A media block around already written rules.
pub open spec fn media_text(query: Seq<char>, inner: Seq<char>) -> Seq<char> {
    "@media "@ + query + " {\n"@ + prefixed_lines("  "@, inner) + "}\n"@
}

pub struct ClassName(pub String);

impl ClassName {
    pub fn new(s: &str) -> (c: Self)
        ensures
            c.0@ == s@,
    {
        ClassName(to_owned_string(s))
    }

    pub fn as_str(&self) -> (s: &str)
        ensures
            s@ == self.0@,
    {
        self.0.as_str()
    }
}

pub struct CssWriter {
    buf: String,
}

impl CssWriter {
    /// The CSS written so far.
    pub closed spec fn css(&self) -> Seq<char> {
        self.buf@
    }

    pub fn new() -> (w: Self)
        ensures
            w.css() == Seq::<char>::empty(),
    {
        CssWriter { buf: string_with_capacity(8192) }
    }

    /// Writes a rule with its declarations in order.
    pub fn rule(&mut self, selector: &str, props: &[(&str, &str)])
        ensures
            final(self).css() == old(self).css() + rule_text(selector@, props_view(props@)),
    {
        let ghost s0 = self.buf@;
        let ghost pv = props_view(props@);
        push_str(&mut self.buf, selector);
        push_str(&mut self.buf, " {\n");
        let ghost s1 = self.buf@;
        let mut i: usize = 0;
        while i < props.len()
            invariant
                i <= props@.len(),
                pv == props_view(props@),
                self.buf@ == s1 + props_text(pv.take(i as int)),
            decreases props@.len() - i,
        {
            let (k, v) = props[i];
            push_str(&mut self.buf, "  ");
            push_str(&mut self.buf, k);
            push_str(&mut self.buf, ": ");
            push_str(&mut self.buf, v);
            push_str(&mut self.buf, ";\n");
            proof {
                assert(pv.take(i + 1).drop_last() == pv.take(i as int));
                assert(pv.take(i + 1).last() == (k@, v@));
            }
            i = i + 1;
        }
        proof {
            assert(pv.take(props@.len() as int) == pv);
        }
        push_str(&mut self.buf, "}\n");
    }

    /// Writes a media block holding the rules written into `inner`, each of
    /// their lines indented by two spaces.
    pub fn media(&mut self, query: &str, inner: CssWriter)
        ensures
            final(self).css() == old(self).css() + media_text(query@, inner.css()),
    {
        let ghost s0 = self.buf@;
        push_str(&mut self.buf, "@media ");
        push_str(&mut self.buf, query);
        push_str(&mut self.buf, " {\n");
        let ghost s1 = self.buf@;
        push_prefixed_lines(&mut self.buf, "  ", inner.buf.as_str());
        push_str(&mut self.buf, "}\n");
    }

    /// Writes raw CSS and a newline.
    pub fn raw(&mut self, s: &str)
        ensures
            final(self).css() == old(self).css() + s@ + "\n"@,
    {
        push_str(&mut self.buf, s);
        push_char(&mut self.buf, '\n');
        proof {
            reveal_strlit("\n");
        }
    }

    pub fn finish(self) -> (s: String)
        ensures
            s@ == self.css(),
    {
        self.buf
    }
}

impl Default for CssWriter {
    fn default() -> (w: Self)
        ensures
            w.css() == Seq::<char>::empty(),
    {
        CssWriter::new()
    }
}

/// The full stylesheet of a theme: its custom properties on the theme's body
/// class, then the component rules, in order.
pub open spec fn stylesheet_css(theme: Theme) -> Seq<char> {
    css_part1(theme) + css_part2(theme) + css_part3(theme) + css_part4(theme) + css_part5(theme) + css_part6(theme) + css_part7(theme) + css_part8(theme) + css_part9(theme) + css_part10(theme) + css_part11(theme) + css_part12(theme) + css_part13(theme) + css_part14(theme) + css_part15(theme)
}

pub struct StyleSheet {
    pub theme_class: String,
    pub css: String,
}

impl StyleSheet {
    /// Generate the full CSS stylesheet for a theme.
    pub fn generate(theme: &Theme) -> (s: Self)
        ensures
            s.theme_class@ == theme.body_class@,
            s.css@ == stylesheet_css(*theme),
    {
        let mut w = CssWriter::new();
        let ghost s0 = w.css();
        write_part1(&mut w, theme);
        write_part2(&mut w, theme);
        write_part3(&mut w, theme);
        write_part4(&mut w, theme);
        write_part5(&mut w, theme);
        write_part6(&mut w, theme);
        write_part7(&mut w, theme);
        write_part8(&mut w, theme);
        write_part9(&mut w, theme);
        write_part10(&mut w, theme);
        write_part11(&mut w, theme);
        write_part12(&mut w, theme);
        write_part13(&mut w, theme);
        write_part14(&mut w, theme);
        write_part15(&mut w, theme);
        proof {
            assert(w.css() =~= stylesheet_css(*theme));
        }
        StyleSheet { theme_class: to_owned_string(theme.body_class), css: w.finish() }
    }
}

/// `decls` set the property `name` to `value`.
pub open spec fn sets_property(decls: Seq<(Seq<char>, Seq<char>)>, name: Seq<char>, value: Seq<char>) -> bool {
    exists|i: int| 0 <= i < decls.len() && decls[i] == (name, value)
}

/// Every stylesheet opens with the rule of the theme's body class, which sets
/// each custom property from the theme token of the same meaning: colours
/// (`--p-ok` from the success colour, `--p-err` from the error colour, ...),
/// spacing, radii, typography, motion and shadows.
pub proof fn law_theme_properties(theme: Theme)
    ensures
        exists|decls: Seq<(Seq<char>, Seq<char>)>| {
            &&& #[trigger] is_prefix(rule_text("."@ + theme.body_class@, decls), stylesheet_css(theme))
            &&& sets_property(decls, "--p-bg"@, theme.colors.bg_primary@)
            &&& sets_property(decls, "--p-bg2"@, theme.colors.bg_secondary@)
            &&& sets_property(decls, "--p-bg-card"@, theme.colors.bg_card@)
            &&& sets_property(decls, "--p-border"@, theme.colors.border@)
            &&& sets_property(decls, "--p-border-sub"@, theme.colors.border_subtle@)
            &&& sets_property(decls, "--p-text"@, theme.colors.text_primary@)
            &&& sets_property(decls, "--p-text2"@, theme.colors.text_secondary@)
            &&& sets_property(decls, "--p-muted"@, theme.colors.text_muted@)
            &&& sets_property(decls, "--p-accent"@, theme.colors.accent@)
            &&& sets_property(decls, "--p-accent-h"@, theme.colors.accent_hover@)
            &&& sets_property(decls, "--p-ok"@, theme.colors.success@)
            &&& sets_property(decls, "--p-warn"@, theme.colors.warning@)
            &&& sets_property(decls, "--p-err"@, theme.colors.error@)
            &&& sets_property(decls, "--p-link"@, theme.colors.link@)
            &&& sets_property(decls, "--p-sp-xs"@, theme.spacing.xs@)
            &&& sets_property(decls, "--p-sp-sm"@, theme.spacing.sm@)
            &&& sets_property(decls, "--p-sp-md"@, theme.spacing.md@)
            &&& sets_property(decls, "--p-sp-lg"@, theme.spacing.lg@)
            &&& sets_property(decls, "--p-sp-xl"@, theme.spacing.xl@)
            &&& sets_property(decls, "--p-sp-xxl"@, theme.spacing.xxl@)
            &&& sets_property(decls, "--p-r-sm"@, theme.radius.sm@)
            &&& sets_property(decls, "--p-r-md"@, theme.radius.md@)
            &&& sets_property(decls, "--p-r-lg"@, theme.radius.lg@)
            &&& sets_property(decls, "--p-font"@, theme.typography.font_family@)
            &&& sets_property(decls, "--p-font-mono"@, theme.typography.font_mono@)
            &&& sets_property(decls, "--p-text-base"@, theme.typography.size_base@)
            &&& sets_property(decls, "--p-lh"@, theme.typography.line_height@)
            &&& sets_property(decls, "--p-dur-fast"@, theme.motion.fast@)
            &&& sets_property(decls, "--p-dur-base"@, theme.motion.base@)
            &&& sets_property(decls, "--p-easing"@, theme.motion.easing@)
            &&& sets_property(decls, "--p-sh-sm"@, theme.shadow.sm@)
            &&& sets_property(decls, "--p-sh-md"@, theme.shadow.md@)
            &&& sets_property(decls, "--p-sh-lg"@, theme.shadow.lg@)
            &&& sets_property(decls, "--p-sh-glass"@, theme.shadow.glass@)
        },
{
    reveal(css_part1);
    let decls = seq![
        ("--p-bg"@, theme.colors.bg_primary@),
        ("--p-bg2"@, theme.colors.bg_secondary@),
        ("--p-bg-card"@, theme.colors.bg_card@),
        ("--p-border"@, theme.colors.border@),
        ("--p-border-sub"@, theme.colors.border_subtle@),
        ("--p-text"@, theme.colors.text_primary@),
        ("--p-text2"@, theme.colors.text_secondary@),
        ("--p-muted"@, theme.colors.text_muted@),
        ("--p-accent"@, theme.colors.accent@),
        ("--p-accent-h"@, theme.colors.accent_hover@),
        ("--p-ok"@, theme.colors.success@),
        ("--p-warn"@, theme.colors.warning@),
        ("--p-err"@, theme.colors.error@),
        ("--p-link"@, theme.colors.link@),
        ("--p-sp-xs"@, theme.spacing.xs@),
        ("--p-sp-sm"@, theme.spacing.sm@),
        ("--p-sp-md"@, theme.spacing.md@),
        ("--p-sp-lg"@, theme.spacing.lg@),
        ("--p-sp-xl"@, theme.spacing.xl@),
        ("--p-sp-xxl"@, theme.spacing.xxl@),
        ("--p-r-sm"@, theme.radius.sm@),
        ("--p-r-md"@, theme.radius.md@),
        ("--p-r-lg"@, theme.radius.lg@),
        ("--p-font"@, theme.typography.font_family@),
        ("--p-font-mono"@, theme.typography.font_mono@),
        ("--p-text-base"@, theme.typography.size_base@),
        ("--p-lh"@, theme.typography.line_height@),
        ("--p-dur-fast"@, theme.motion.fast@),
        ("--p-dur-base"@, theme.motion.base@),
        ("--p-easing"@, theme.motion.easing@),
        ("--p-sh-sm"@, theme.shadow.sm@),
        ("--p-sh-md"@, theme.shadow.md@),
        ("--p-sh-lg"@, theme.shadow.lg@),
        ("--p-sh-glass"@, theme.shadow.glass@),
        ("background"@, "var(--p-bg)"@),
        ("color"@, "var(--p-text)"@),
        ("font-family"@, "var(--p-font)"@),
        ("font-size"@, "var(--p-text-base)"@),
        ("line-height"@, "var(--p-lh)"@),
    ];
    let r = rule_text("."@ + theme.body_class@, decls);
    assert(r == css_part1(theme));
    let css = stylesheet_css(theme);
    assert(css.subrange(0, r.len() as int) =~= r);
    assert(decls[0] == ("--p-bg"@, theme.colors.bg_primary@));
    assert(decls[1] == ("--p-bg2"@, theme.colors.bg_secondary@));
    assert(decls[2] == ("--p-bg-card"@, theme.colors.bg_card@));
    assert(decls[3] == ("--p-border"@, theme.colors.border@));
    assert(decls[4] == ("--p-border-sub"@, theme.colors.border_subtle@));
    assert(decls[5] == ("--p-text"@, theme.colors.text_primary@));
    assert(decls[6] == ("--p-text2"@, theme.colors.text_secondary@));
    assert(decls[7] == ("--p-muted"@, theme.colors.text_muted@));
    assert(decls[8] == ("--p-accent"@, theme.colors.accent@));
    assert(decls[9] == ("--p-accent-h"@, theme.colors.accent_hover@));
    assert(decls[10] == ("--p-ok"@, theme.colors.success@));
    assert(decls[11] == ("--p-warn"@, theme.colors.warning@));
    assert(decls[12] == ("--p-err"@, theme.colors.error@));
    assert(decls[13] == ("--p-link"@, theme.colors.link@));
    assert(decls[14] == ("--p-sp-xs"@, theme.spacing.xs@));
    assert(decls[15] == ("--p-sp-sm"@, theme.spacing.sm@));
    assert(decls[16] == ("--p-sp-md"@, theme.spacing.md@));
    assert(decls[17] == ("--p-sp-lg"@, theme.spacing.lg@));
    assert(decls[18] == ("--p-sp-xl"@, theme.spacing.xl@));
    assert(decls[19] == ("--p-sp-xxl"@, theme.spacing.xxl@));
    assert(decls[20] == ("--p-r-sm"@, theme.radius.sm@));
    assert(decls[21] == ("--p-r-md"@, theme.radius.md@));
    assert(decls[22] == ("--p-r-lg"@, theme.radius.lg@));
    assert(decls[23] == ("--p-font"@, theme.typography.font_family@));
    assert(decls[24] == ("--p-font-mono"@, theme.typography.font_mono@));
    assert(decls[25] == ("--p-text-base"@, theme.typography.size_base@));
    assert(decls[26] == ("--p-lh"@, theme.typography.line_height@));
    assert(decls[27] == ("--p-dur-fast"@, theme.motion.fast@));
    assert(decls[28] == ("--p-dur-base"@, theme.motion.base@));
    assert(decls[29] == ("--p-easing"@, theme.motion.easing@));
    assert(decls[30] == ("--p-sh-sm"@, theme.shadow.sm@));
    assert(decls[31] == ("--p-sh-md"@, theme.shadow.md@));
    assert(decls[32] == ("--p-sh-lg"@, theme.shadow.lg@));
    assert(decls[33] == ("--p-sh-glass"@, theme.shadow.glass@));
    assert(is_prefix(r, css));
}

#[verifier::opaque]
pub open spec fn css_part1(theme: Theme) -> Seq<char> {
    rule_text(("."@ + theme.body_class@), seq![
            ("--p-bg"@, theme.colors.bg_primary@),
            ("--p-bg2"@, theme.colors.bg_secondary@),
            ("--p-bg-card"@, theme.colors.bg_card@),
            ("--p-border"@, theme.colors.border@),
            ("--p-border-sub"@, theme.colors.border_subtle@),
            ("--p-text"@, theme.colors.text_primary@),
            ("--p-text2"@, theme.colors.text_secondary@),
            ("--p-muted"@, theme.colors.text_muted@),
            ("--p-accent"@, theme.colors.accent@),
            ("--p-accent-h"@, theme.colors.accent_hover@),
            ("--p-ok"@, theme.colors.success@),
            ("--p-warn"@, theme.colors.warning@),
            ("--p-err"@, theme.colors.error@),
            ("--p-link"@, theme.colors.link@),
            ("--p-sp-xs"@, theme.spacing.xs@),
            ("--p-sp-sm"@, theme.spacing.sm@),
            ("--p-sp-md"@, theme.spacing.md@),
            ("--p-sp-lg"@, theme.spacing.lg@),
            ("--p-sp-xl"@, theme.spacing.xl@),
            ("--p-sp-xxl"@, theme.spacing.xxl@),
            ("--p-r-sm"@, theme.radius.sm@),
            ("--p-r-md"@, theme.radius.md@),
            ("--p-r-lg"@, theme.radius.lg@),
            ("--p-font"@, theme.typography.font_family@),
            ("--p-font-mono"@, theme.typography.font_mono@),
            ("--p-text-base"@, theme.typography.size_base@),
            ("--p-lh"@, theme.typography.line_height@),
            ("--p-dur-fast"@, theme.motion.fast@),
            ("--p-dur-base"@, theme.motion.base@),
            ("--p-easing"@, theme.motion.easing@),
            ("--p-sh-sm"@, theme.shadow.sm@),
            ("--p-sh-md"@, theme.shadow.md@),
            ("--p-sh-lg"@, theme.shadow.lg@),
            ("--p-sh-glass"@, theme.shadow.glass@),
            ("background"@, "var(--p-bg)"@),
            ("color"@, "var(--p-text)"@),
            ("font-family"@, "var(--p-font)"@),
            ("font-size"@, "var(--p-text-base)"@),
            ("line-height"@, "var(--p-lh)"@),
        ])
}

#[verifier::spinoff_prover]
#[verifier::rlimit(30)]
fn write_part1(w: &mut CssWriter, theme: &Theme)
    ensures
        final(w).css() == old(w).css() + css_part1(*theme),
{
    let ghost s0 = w.css();
    let mut f1 = string_with_capacity(0);
    push_str(&mut f1, ".");
    push_str(&mut f1, theme.body_class);
    assert(f1@ =~= ("."@ + theme.body_class@));
    let p2 = [("--p-bg", theme.colors.bg_primary), ("--p-bg2", theme.colors.bg_secondary), ("--p-bg-card", theme.colors.bg_card), ("--p-border", theme.colors.border), ("--p-border-sub", theme.colors.border_subtle), ("--p-text", theme.colors.text_primary), ("--p-text2", theme.colors.text_secondary), ("--p-muted", theme.colors.text_muted), ("--p-accent", theme.colors.accent), ("--p-accent-h", theme.colors.accent_hover), ("--p-ok", theme.colors.success), ("--p-warn", theme.colors.warning), ("--p-err", theme.colors.error), ("--p-link", theme.colors.link), ("--p-sp-xs", theme.spacing.xs), ("--p-sp-sm", theme.spacing.sm), ("--p-sp-md", theme.spacing.md), ("--p-sp-lg", theme.spacing.lg), ("--p-sp-xl", theme.spacing.xl), ("--p-sp-xxl", theme.spacing.xxl), ("--p-r-sm", theme.radius.sm), ("--p-r-md", theme.radius.md), ("--p-r-lg", theme.radius.lg), ("--p-font", theme.typography.font_family), ("--p-font-mono", theme.typography.font_mono), ("--p-text-base", theme.typography.size_base), ("--p-lh", theme.typography.line_height), ("--p-dur-fast", theme.motion.fast), ("--p-dur-base", theme.motion.base), ("--p-easing", theme.motion.easing), ("--p-sh-sm", theme.shadow.sm), ("--p-sh-md", theme.shadow.md), ("--p-sh-lg", theme.shadow.lg), ("--p-sh-glass", theme.shadow.glass), ("background", "var(--p-bg)"), ("color", "var(--p-text)"), ("font-family", "var(--p-font)"), ("font-size", "var(--p-text-base)"), ("line-height", "var(--p-lh)")];
    assert(props_view(p2@) =~= seq![("--p-bg"@, theme.colors.bg_primary@), ("--p-bg2"@, theme.colors.bg_secondary@), ("--p-bg-card"@, theme.colors.bg_card@), ("--p-border"@, theme.colors.border@), ("--p-border-sub"@, theme.colors.border_subtle@), ("--p-text"@, theme.colors.text_primary@), ("--p-text2"@, theme.colors.text_secondary@), ("--p-muted"@, theme.colors.text_muted@), ("--p-accent"@, theme.colors.accent@), ("--p-accent-h"@, theme.colors.accent_hover@), ("--p-ok"@, theme.colors.success@), ("--p-warn"@, theme.colors.warning@), ("--p-err"@, theme.colors.error@), ("--p-link"@, theme.colors.link@), ("--p-sp-xs"@, theme.spacing.xs@), ("--p-sp-sm"@, theme.spacing.sm@), ("--p-sp-md"@, theme.spacing.md@), ("--p-sp-lg"@, theme.spacing.lg@), ("--p-sp-xl"@, theme.spacing.xl@), ("--p-sp-xxl"@, theme.spacing.xxl@), ("--p-r-sm"@, theme.radius.sm@), ("--p-r-md"@, theme.radius.md@), ("--p-r-lg"@, theme.radius.lg@), ("--p-font"@, theme.typography.font_family@), ("--p-font-mono"@, theme.typography.font_mono@), ("--p-text-base"@, theme.typography.size_base@), ("--p-lh"@, theme.typography.line_height@), ("--p-dur-fast"@, theme.motion.fast@), ("--p-dur-base"@, theme.motion.base@), ("--p-easing"@, theme.motion.easing@), ("--p-sh-sm"@, theme.shadow.sm@), ("--p-sh-md"@, theme.shadow.md@), ("--p-sh-lg"@, theme.shadow.lg@), ("--p-sh-glass"@, theme.shadow.glass@), ("background"@, "var(--p-bg)"@), ("color"@, "var(--p-text)"@), ("font-family"@, "var(--p-font)"@), ("font-size"@, "var(--p-text-base)"@), ("line-height"@, "var(--p-lh)"@)]);
    w.rule(f1.as_str(), &p2);
    proof {
        reveal(css_part1);
        assert(w.css() =~= s0 + css_part1(*theme));
    }
}

#[verifier::opaque]
pub open spec fn css_part2(theme: Theme) -> Seq<char> {
    "*, *::before, *::after { box-sizing: border-box; margin: 0; padding: 0; }"@ + "\n"@ + rule_text(".p-app-shell"@, seq![
            ("min-height"@, "100vh"@),
            ("display"@, "flex"@),
            ("flex-direction"@, "column"@),
        ]) + rule_text(".p-main"@, seq![
            ("flex"@, "1"@),
            ("padding"@, "var(--p-sp-lg)"@),
            ("max-width"@, "1200px"@),
            ("margin"@, "0 auto"@),
            ("width"@, "100%"@),
        ]) + rule_text(".p-header"@, seq![
            ("background"@, "var(--p-bg2)"@),
            ("border-bottom"@, "1px solid var(--p-border)"@),
            ("padding"@, "var(--p-sp-md) var(--p-sp-lg)"@),
            ("display"@, "flex"@),
            ("align-items"@, "center"@),
            ("gap"@, "var(--p-sp-md)"@),
        ])
}

#[verifier::spinoff_prover]
#[verifier::rlimit(30)]
fn write_part2(w: &mut CssWriter, theme: &Theme)
    ensures
        final(w).css() == old(w).css() + css_part2(*theme),
{
    let ghost s0 = w.css();
    w.raw("*, *::before, *::after { box-sizing: border-box; margin: 0; padding: 0; }");
    let p1 = [("min-height", "100vh"), ("display", "flex"), ("flex-direction", "column")];
    assert(props_view(p1@) =~= seq![("min-height"@, "100vh"@), ("display"@, "flex"@), ("flex-direction"@, "column"@)]);
    w.rule(".p-app-shell", &p1);
    let p2 = [("flex", "1"), ("padding", "var(--p-sp-lg)"), ("max-width", "1200px"), ("margin", "0 auto"), ("width", "100%")];
    assert(props_view(p2@) =~= seq![("flex"@, "1"@), ("padding"@, "var(--p-sp-lg)"@), ("max-width"@, "1200px"@), ("margin"@, "0 auto"@), ("width"@, "100%"@)]);
    w.rule(".p-main", &p2);
    let p3 = [("background", "var(--p-bg2)"), ("border-bottom", "1px solid var(--p-border)"), ("padding", "var(--p-sp-md) var(--p-sp-lg)"), ("display", "flex"), ("align-items", "center"), ("gap", "var(--p-sp-md)")];
    assert(props_view(p3@) =~= seq![("background"@, "var(--p-bg2)"@), ("border-bottom"@, "1px solid var(--p-border)"@), ("padding"@, "var(--p-sp-md) var(--p-sp-lg)"@), ("display"@, "flex"@), ("align-items"@, "center"@), ("gap"@, "var(--p-sp-md)"@)]);
    w.rule(".p-header", &p3);
    proof {
        reveal(css_part2);
        assert(w.css() =~= s0 + css_part2(*theme));
    }
}

#[verifier::opaque]
pub open spec fn css_part3(theme: Theme) -> Seq<char> {
    rule_text(".p-header-title"@, seq![
            ("font-size"@, theme.typography.size_lg@),
            ("font-weight"@, theme.typography.weight_semibold@),
            ("color"@, "var(--p-text)"@),
        ]) + rule_text(".p-card"@, seq![
            ("background"@, "var(--p-bg-card)"@),
            ("border"@, "1px solid var(--p-border)"@),
            ("border-radius"@, "var(--p-r-lg)"@),
            ("padding"@, "var(--p-sp-lg)"@),
            ("box-shadow"@, "var(--p-sh-md)"@),
        ]) + rule_text(".p-glass-card"@, seq![
            ("background"@, "var(--p-bg-card)"@),
            ("border"@, "1px solid var(--p-border)"@),
            ("border-radius"@, "var(--p-r-lg)"@),
            ("padding"@, "var(--p-sp-lg)"@),
            ("box-shadow"@, "var(--p-sh-glass)"@),
            ("backdrop-filter"@, "blur(12px)"@),
            ("-webkit-backdrop-filter"@, "blur(12px)"@),
        ]) + rule_text(".p-form"@, seq![
            ("display"@, "flex"@),
            ("flex-direction"@, "column"@),
            ("gap"@, "var(--p-sp-md)"@),
        ])
}

#[verifier::spinoff_prover]
#[verifier::rlimit(30)]
fn write_part3(w: &mut CssWriter, theme: &Theme)
    ensures
        final(w).css() == old(w).css() + css_part3(*theme),
{
    let ghost s0 = w.css();
    let p1 = [("font-size", theme.typography.size_lg), ("font-weight", theme.typography.weight_semibold), ("color", "var(--p-text)")];
    assert(props_view(p1@) =~= seq![("font-size"@, theme.typography.size_lg@), ("font-weight"@, theme.typography.weight_semibold@), ("color"@, "var(--p-text)"@)]);
    w.rule(".p-header-title", &p1);
    let p2 = [("background", "var(--p-bg-card)"), ("border", "1px solid var(--p-border)"), ("border-radius", "var(--p-r-lg)"), ("padding", "var(--p-sp-lg)"), ("box-shadow", "var(--p-sh-md)")];
    assert(props_view(p2@) =~= seq![("background"@, "var(--p-bg-card)"@), ("border"@, "1px solid var(--p-border)"@), ("border-radius"@, "var(--p-r-lg)"@), ("padding"@, "var(--p-sp-lg)"@), ("box-shadow"@, "var(--p-sh-md)"@)]);
    w.rule(".p-card", &p2);
    let p3 = [("background", "var(--p-bg-card)"), ("border", "1px solid var(--p-border)"), ("border-radius", "var(--p-r-lg)"), ("padding", "var(--p-sp-lg)"), ("box-shadow", "var(--p-sh-glass)"), ("backdrop-filter", "blur(12px)"), ("-webkit-backdrop-filter", "blur(12px)")];
    assert(props_view(p3@) =~= seq![("background"@, "var(--p-bg-card)"@), ("border"@, "1px solid var(--p-border)"@), ("border-radius"@, "var(--p-r-lg)"@), ("padding"@, "var(--p-sp-lg)"@), ("box-shadow"@, "var(--p-sh-glass)"@), ("backdrop-filter"@, "blur(12px)"@), ("-webkit-backdrop-filter"@, "blur(12px)"@)]);
    w.rule(".p-glass-card", &p3);
    let p4 = [("display", "flex"), ("flex-direction", "column"), ("gap", "var(--p-sp-md)")];
    assert(props_view(p4@) =~= seq![("display"@, "flex"@), ("flex-direction"@, "column"@), ("gap"@, "var(--p-sp-md)"@)]);
    w.rule(".p-form", &p4);
    proof {
        reveal(css_part3);
        assert(w.css() =~= s0 + css_part3(*theme));
    }
}

#[verifier::opaque]
pub open spec fn css_part4(theme: Theme) -> Seq<char> {
    rule_text(".p-field"@, seq![
            ("display"@, "flex"@),
            ("flex-direction"@, "column"@),
            ("gap"@, "var(--p-sp-xs)"@),
        ]) + rule_text(".p-label"@, seq![
            ("font-size"@, theme.typography.size_sm@),
            ("font-weight"@, theme.typography.weight_medium@),
            ("color"@, "var(--p-text2)"@),
        ]) + rule_text(".p-input"@, seq![
            ("background"@, "var(--p-bg2)"@),
            ("border"@, "1px solid var(--p-border)"@),
            ("border-radius"@, "var(--p-r-md)"@),
            ("padding"@, (theme.spacing.sm@ + " "@ + theme.spacing.md@)),
            ("color"@, "var(--p-text)"@),
            ("font-family"@, "var(--p-font)"@),
            ("font-size"@, "var(--p-text-base)"@),
            ("width"@, "100%"@),
            ("transition"@, "border-color var(--p-dur-fast) var(--p-easing)"@),
            ("outline"@, "none"@),
        ]) + rule_text(".p-input:focus"@, seq![
            ("border-color"@, "var(--p-accent)"@),
            ("box-shadow"@, "0 0 0 3px rgba(34,167,224,0.15)"@),
        ])
}

#[verifier::spinoff_prover]
#[verifier::rlimit(30)]
fn write_part4(w: &mut CssWriter, theme: &Theme)
    ensures
        final(w).css() == old(w).css() + css_part4(*theme),
{
    let ghost s0 = w.css();
    let p1 = [("display", "flex"), ("flex-direction", "column"), ("gap", "var(--p-sp-xs)")];
    assert(props_view(p1@) =~= seq![("display"@, "flex"@), ("flex-direction"@, "column"@), ("gap"@, "var(--p-sp-xs)"@)]);
    w.rule(".p-field", &p1);
    let p2 = [("font-size", theme.typography.size_sm), ("font-weight", theme.typography.weight_medium), ("color", "var(--p-text2)")];
    assert(props_view(p2@) =~= seq![("font-size"@, theme.typography.size_sm@), ("font-weight"@, theme.typography.weight_medium@), ("color"@, "var(--p-text2)"@)]);
    w.rule(".p-label", &p2);
    let mut f3 = string_with_capacity(0);
    push_str(&mut f3, theme.spacing.sm);
    push_str(&mut f3, " ");
    push_str(&mut f3, theme.spacing.md);
    assert(f3@ =~= (theme.spacing.sm@ + " "@ + theme.spacing.md@));
    let p4 = [("background", "var(--p-bg2)"), ("border", "1px solid var(--p-border)"), ("border-radius", "var(--p-r-md)"), ("padding", f3.as_str()), ("color", "var(--p-text)"), ("font-family", "var(--p-font)"), ("font-size", "var(--p-text-base)"), ("width", "100%"), ("transition", "border-color var(--p-dur-fast) var(--p-easing)"), ("outline", "none")];
    assert(props_view(p4@) =~= seq![("background"@, "var(--p-bg2)"@), ("border"@, "1px solid var(--p-border)"@), ("border-radius"@, "var(--p-r-md)"@), ("padding"@, (theme.spacing.sm@ + " "@ + theme.spacing.md@)), ("color"@, "var(--p-text)"@), ("font-family"@, "var(--p-font)"@), ("font-size"@, "var(--p-text-base)"@), ("width"@, "100%"@), ("transition"@, "border-color var(--p-dur-fast) var(--p-easing)"@), ("outline"@, "none"@)]);
    w.rule(".p-input", &p4);
    let p5 = [("border-color", "var(--p-accent)"), ("box-shadow", "0 0 0 3px rgba(34,167,224,0.15)")];
    assert(props_view(p5@) =~= seq![("border-color"@, "var(--p-accent)"@), ("box-shadow"@, "0 0 0 3px rgba(34,167,224,0.15)"@)]);
    w.rule(".p-input:focus", &p5);
    proof {
        reveal(css_part4);
        assert(w.css() =~= s0 + css_part4(*theme));
    }
}

#[verifier::opaque]
pub open spec fn css_part5(theme: Theme) -> Seq<char> {
    rule_text(".p-input.p-error"@, seq![
            ("border-color"@, "var(--p-err)"@),
        ]) + rule_text(".p-field-error"@, seq![
            ("color"@, "var(--p-err)"@),
            ("font-size"@, theme.typography.size_sm@),
        ]) + rule_text(".p-btn"@, seq![
            ("display"@, "inline-flex"@),
            ("align-items"@, "center"@),
            ("justify-content"@, "center"@),
            ("gap"@, "var(--p-sp-xs)"@),
            ("padding"@, (theme.spacing.sm@ + " "@ + theme.spacing.lg@)),
            ("border-radius"@, "var(--p-r-md)"@),
            ("font-family"@, "var(--p-font)"@),
            ("font-size"@, "var(--p-text-base)"@),
            ("font-weight"@, theme.typography.weight_medium@),
            ("cursor"@, "pointer"@),
            ("border"@, "none"@),
            ("text-decoration"@, "none"@),
            ("transition"@, "all var(--p-dur-fast) var(--p-easing)"@),
            ("user-select"@, "none"@),
        ])
}

#[verifier::spinoff_prover]
#[verifier::rlimit(30)]
fn write_part5(w: &mut CssWriter, theme: &Theme)
    ensures
        final(w).css() == old(w).css() + css_part5(*theme),
{
    let ghost s0 = w.css();
    let p1 = [("border-color", "var(--p-err)")];
    assert(props_view(p1@) =~= seq![("border-color"@, "var(--p-err)"@)]);
    w.rule(".p-input.p-error", &p1);
    let p2 = [("color", "var(--p-err)"), ("font-size", theme.typography.size_sm)];
    assert(props_view(p2@) =~= seq![("color"@, "var(--p-err)"@), ("font-size"@, theme.typography.size_sm@)]);
    w.rule(".p-field-error", &p2);
    let mut f3 = string_with_capacity(0);
    push_str(&mut f3, theme.spacing.sm);
    push_str(&mut f3, " ");
    push_str(&mut f3, theme.spacing.lg);
    assert(f3@ =~= (theme.spacing.sm@ + " "@ + theme.spacing.lg@));
    let p4 = [("display", "inline-flex"), ("align-items", "center"), ("justify-content", "center"), ("gap", "var(--p-sp-xs)"), ("padding", f3.as_str()), ("border-radius", "var(--p-r-md)"), ("font-family", "var(--p-font)"), ("font-size", "var(--p-text-base)"), ("font-weight", theme.typography.weight_medium), ("cursor", "pointer"), ("border", "none"), ("text-decoration", "none"), ("transition", "all var(--p-dur-fast) var(--p-easing)"), ("user-select", "none")];
    assert(props_view(p4@) =~= seq![("display"@, "inline-flex"@), ("align-items"@, "center"@), ("justify-content"@, "center"@), ("gap"@, "var(--p-sp-xs)"@), ("padding"@, (theme.spacing.sm@ + " "@ + theme.spacing.lg@)), ("border-radius"@, "var(--p-r-md)"@), ("font-family"@, "var(--p-font)"@), ("font-size"@, "var(--p-text-base)"@), ("font-weight"@, theme.typography.weight_medium@), ("cursor"@, "pointer"@), ("border"@, "none"@), ("text-decoration"@, "none"@), ("transition"@, "all var(--p-dur-fast) var(--p-easing)"@), ("user-select"@, "none"@)]);
    w.rule(".p-btn", &p4);
    proof {
        reveal(css_part5);
        assert(w.css() =~= s0 + css_part5(*theme));
    }
}

#[verifier::opaque]
pub open spec fn css_part6(theme: Theme) -> Seq<char> {
    rule_text(".p-btn-primary"@, seq![
            ("background"@, "var(--p-accent)"@),
            ("color"@, "#fff"@),
        ]) + rule_text(".p-btn-primary:hover:not(:disabled)"@, seq![
            ("background"@, "var(--p-accent-h)"@),
            ("transform"@, "translateY(-1px)"@),
        ]) + rule_text(".p-btn-secondary"@, seq![
            ("background"@, "var(--p-bg2)"@),
            ("color"@, "var(--p-text)"@),
            ("border"@, "1px solid var(--p-border)"@),
        ]) + rule_text(".p-btn-secondary:hover:not(:disabled)"@, seq![
            ("background"@, "var(--p-bg)"@),
            ("border-color"@, "var(--p-accent)"@),
        ]) + rule_text(".p-btn-danger"@, seq![
            ("background"@, "var(--p-err)"@),
            ("color"@, "#fff"@),
        ]) + rule_text(".p-btn:disabled"@, seq![
            ("opacity"@, "0.5"@),
            ("cursor"@, "not-allowed"@),
        ]) + rule_text(".p-result-strip"@, seq![
            ("padding"@, (theme.spacing.md@ + " "@ + theme.spacing.lg@)),
            ("border-radius"@, "var(--p-r-md)"@),
            ("border-left"@, "3px solid transparent"@),
        ])
}

#[verifier::spinoff_prover]
#[verifier::rlimit(30)]
fn write_part6(w: &mut CssWriter, theme: &Theme)
    ensures
        final(w).css() == old(w).css() + css_part6(*theme),
{
    let ghost s0 = w.css();
    let p1 = [("background", "var(--p-accent)"), ("color", "#fff")];
    assert(props_view(p1@) =~= seq![("background"@, "var(--p-accent)"@), ("color"@, "#fff"@)]);
    w.rule(".p-btn-primary", &p1);
    let p2 = [("background", "var(--p-accent-h)"), ("transform", "translateY(-1px)")];
    assert(props_view(p2@) =~= seq![("background"@, "var(--p-accent-h)"@), ("transform"@, "translateY(-1px)"@)]);
    w.rule(".p-btn-primary:hover:not(:disabled)", &p2);
    let p3 = [("background", "var(--p-bg2)"), ("color", "var(--p-text)"), ("border", "1px solid var(--p-border)")];
    assert(props_view(p3@) =~= seq![("background"@, "var(--p-bg2)"@), ("color"@, "var(--p-text)"@), ("border"@, "1px solid var(--p-border)"@)]);
    w.rule(".p-btn-secondary", &p3);
    let p4 = [("background", "var(--p-bg)"), ("border-color", "var(--p-accent)")];
    assert(props_view(p4@) =~= seq![("background"@, "var(--p-bg)"@), ("border-color"@, "var(--p-accent)"@)]);
    w.rule(".p-btn-secondary:hover:not(:disabled)", &p4);
    let p5 = [("background", "var(--p-err)"), ("color", "#fff")];
    assert(props_view(p5@) =~= seq![("background"@, "var(--p-err)"@), ("color"@, "#fff"@)]);
    w.rule(".p-btn-danger", &p5);
    let p6 = [("opacity", "0.5"), ("cursor", "not-allowed")];
    assert(props_view(p6@) =~= seq![("opacity"@, "0.5"@), ("cursor"@, "not-allowed"@)]);
    w.rule(".p-btn:disabled", &p6);
    let mut f7 = string_with_capacity(0);
    push_str(&mut f7, theme.spacing.md);
    push_str(&mut f7, " ");
    push_str(&mut f7, theme.spacing.lg);
    assert(f7@ =~= (theme.spacing.md@ + " "@ + theme.spacing.lg@));
    let p8 = [("padding", f7.as_str()), ("border-radius", "var(--p-r-md)"), ("border-left", "3px solid transparent")];
    assert(props_view(p8@) =~= seq![("padding"@, (theme.spacing.md@ + " "@ + theme.spacing.lg@)), ("border-radius"@, "var(--p-r-md)"@), ("border-left"@, "3px solid transparent"@)]);
    w.rule(".p-result-strip", &p8);
    proof {
        reveal(css_part6);
        assert(w.css() =~= s0 + css_part6(*theme));
    }
}

#[verifier::opaque]
pub open spec fn css_part7(theme: Theme) -> Seq<char> {
    rule_text(".p-result-strip.p-ok"@, seq![
            ("background"@, "rgba(34,197,94,0.08)"@),
            ("border-left-color"@, "var(--p-ok)"@),
            ("color"@, "var(--p-ok)"@),
        ]) + rule_text(".p-result-strip.p-err"@, seq![
            ("background"@, "rgba(239,68,68,0.08)"@),
            ("border-left-color"@, "var(--p-err)"@),
            ("color"@, "var(--p-err)"@),
        ]) + rule_text(".p-pill"@, seq![
            ("display"@, "inline-flex"@),
            ("align-items"@, "center"@),
            ("padding"@, ("2px "@ + theme.spacing.sm@)),
            ("border-radius"@, "var(--p-r-full, 9999px)"@),
            ("font-size"@, theme.typography.size_xs@),
            ("font-weight"@, theme.typography.weight_medium@),
        ]) + rule_text(".p-pill-ok"@, seq![
            ("background"@, "rgba(34,197,94,0.12)"@),
            ("color"@, "var(--p-ok)"@),
        ]) + rule_text(".p-pill-warn"@, seq![
            ("background"@, "rgba(245,158,11,0.12)"@),
            ("color"@, "var(--p-warn)"@),
        ]) + rule_text(".p-pill-err"@, seq![
            ("background"@, "rgba(239,68,68,0.12)"@),
            ("color"@, "var(--p-err)"@),
        ])
}

#[verifier::spinoff_prover]
#[verifier::rlimit(30)]
fn write_part7(w: &mut CssWriter, theme: &Theme)
    ensures
        final(w).css() == old(w).css() + css_part7(*theme),
{
    let ghost s0 = w.css();
    let p1 = [("background", "rgba(34,197,94,0.08)"), ("border-left-color", "var(--p-ok)"), ("color", "var(--p-ok)")];
    assert(props_view(p1@) =~= seq![("background"@, "rgba(34,197,94,0.08)"@), ("border-left-color"@, "var(--p-ok)"@), ("color"@, "var(--p-ok)"@)]);
    w.rule(".p-result-strip.p-ok", &p1);
    let p2 = [("background", "rgba(239,68,68,0.08)"), ("border-left-color", "var(--p-err)"), ("color", "var(--p-err)")];
    assert(props_view(p2@) =~= seq![("background"@, "rgba(239,68,68,0.08)"@), ("border-left-color"@, "var(--p-err)"@), ("color"@, "var(--p-err)"@)]);
    w.rule(".p-result-strip.p-err", &p2);
    let mut f3 = string_with_capacity(0);
    push_str(&mut f3, "2px ");
    push_str(&mut f3, theme.spacing.sm);
    assert(f3@ =~= ("2px "@ + theme.spacing.sm@));
    let p4 = [("display", "inline-flex"), ("align-items", "center"), ("padding", f3.as_str()), ("border-radius", "var(--p-r-full, 9999px)"), ("font-size", theme.typography.size_xs), ("font-weight", theme.typography.weight_medium)];
    assert(props_view(p4@) =~= seq![("display"@, "inline-flex"@), ("align-items"@, "center"@), ("padding"@, ("2px "@ + theme.spacing.sm@)), ("border-radius"@, "var(--p-r-full, 9999px)"@), ("font-size"@, theme.typography.size_xs@), ("font-weight"@, theme.typography.weight_medium@)]);
    w.rule(".p-pill", &p4);
    let p5 = [("background", "rgba(34,197,94,0.12)"), ("color", "var(--p-ok)")];
    assert(props_view(p5@) =~= seq![("background"@, "rgba(34,197,94,0.12)"@), ("color"@, "var(--p-ok)"@)]);
    w.rule(".p-pill-ok", &p5);
    let p6 = [("background", "rgba(245,158,11,0.12)"), ("color", "var(--p-warn)")];
    assert(props_view(p6@) =~= seq![("background"@, "rgba(245,158,11,0.12)"@), ("color"@, "var(--p-warn)"@)]);
    w.rule(".p-pill-warn", &p6);
    let p7 = [("background", "rgba(239,68,68,0.12)"), ("color", "var(--p-err)")];
    assert(props_view(p7@) =~= seq![("background"@, "rgba(239,68,68,0.12)"@), ("color"@, "var(--p-err)"@)]);
    w.rule(".p-pill-err", &p7);
    proof {
        reveal(css_part7);
        assert(w.css() =~= s0 + css_part7(*theme));
    }
}

#[verifier::opaque]
pub open spec fn css_part8(theme: Theme) -> Seq<char> {
    rule_text(".p-pill-neutral"@, seq![
            ("background"@, "rgba(140,160,176,0.12)"@),
            ("color"@, "var(--p-text2)"@),
        ]) + rule_text(".p-table"@, seq![
            ("width"@, "100%"@),
            ("border-collapse"@, "collapse"@),
        ]) + rule_text(".p-table th, .p-table td"@, seq![
            ("padding"@, (theme.spacing.sm@ + " "@ + theme.spacing.md@)),
            ("text-align"@, "left"@),
            ("border-bottom"@, "1px solid var(--p-border-sub)"@),
        ]) + rule_text(".p-table th"@, seq![
            ("font-size"@, theme.typography.size_sm@),
            ("font-weight"@, theme.typography.weight_semibold@),
            ("color"@, "var(--p-text2)"@),
            ("background"@, "var(--p-bg2)"@),
        ]) + rule_text(".p-metric"@, seq![
            ("display"@, "flex"@),
            ("flex-direction"@, "column"@),
            ("gap"@, "var(--p-sp-xs)"@),
        ]) + rule_text(".p-metric-label"@, seq![
            ("font-size"@, theme.typography.size_xs@),
            ("color"@, "var(--p-muted)"@),
            ("text-transform"@, "uppercase"@),
            ("letter-spacing"@, "0.06em"@),
        ])
}

#[verifier::spinoff_prover]
#[verifier::rlimit(30)]
fn write_part8(w: &mut CssWriter, theme: &Theme)
    ensures
        final(w).css() == old(w).css() + css_part8(*theme),
{
    let ghost s0 = w.css();
    let p1 = [("background", "rgba(140,160,176,0.12)"), ("color", "var(--p-text2)")];
    assert(props_view(p1@) =~= seq![("background"@, "rgba(140,160,176,0.12)"@), ("color"@, "var(--p-text2)"@)]);
    w.rule(".p-pill-neutral", &p1);
    let p2 = [("width", "100%"), ("border-collapse", "collapse")];
    assert(props_view(p2@) =~= seq![("width"@, "100%"@), ("border-collapse"@, "collapse"@)]);
    w.rule(".p-table", &p2);
    let mut f3 = string_with_capacity(0);
    push_str(&mut f3, theme.spacing.sm);
    push_str(&mut f3, " ");
    push_str(&mut f3, theme.spacing.md);
    assert(f3@ =~= (theme.spacing.sm@ + " "@ + theme.spacing.md@));
    let p4 = [("padding", f3.as_str()), ("text-align", "left"), ("border-bottom", "1px solid var(--p-border-sub)")];
    assert(props_view(p4@) =~= seq![("padding"@, (theme.spacing.sm@ + " "@ + theme.spacing.md@)), ("text-align"@, "left"@), ("border-bottom"@, "1px solid var(--p-border-sub)"@)]);
    w.rule(".p-table th, .p-table td", &p4);
    let p5 = [("font-size", theme.typography.size_sm), ("font-weight", theme.typography.weight_semibold), ("color", "var(--p-text2)"), ("background", "var(--p-bg2)")];
    assert(props_view(p5@) =~= seq![("font-size"@, theme.typography.size_sm@), ("font-weight"@, theme.typography.weight_semibold@), ("color"@, "var(--p-text2)"@), ("background"@, "var(--p-bg2)"@)]);
    w.rule(".p-table th", &p5);
    let p6 = [("display", "flex"), ("flex-direction", "column"), ("gap", "var(--p-sp-xs)")];
    assert(props_view(p6@) =~= seq![("display"@, "flex"@), ("flex-direction"@, "column"@), ("gap"@, "var(--p-sp-xs)"@)]);
    w.rule(".p-metric", &p6);
    let p7 = [("font-size", theme.typography.size_xs), ("color", "var(--p-muted)"), ("text-transform", "uppercase"), ("letter-spacing", "0.06em")];
    assert(props_view(p7@) =~= seq![("font-size"@, theme.typography.size_xs@), ("color"@, "var(--p-muted)"@), ("text-transform"@, "uppercase"@), ("letter-spacing"@, "0.06em"@)]);
    w.rule(".p-metric-label", &p7);
    proof {
        reveal(css_part8);
        assert(w.css() =~= s0 + css_part8(*theme));
    }
}

#[verifier::opaque]
pub open spec fn css_part9(theme: Theme) -> Seq<char> {
    rule_text(".p-metric-value"@, seq![
            ("font-size"@, theme.typography.size_2xl@),
            ("font-weight"@, theme.typography.weight_semibold@),
            ("font-variant-numeric"@, "tabular-nums"@),
            ("letter-spacing"@, "-0.01em"@),
        ]) + rule_text(".p-stack"@, seq![
            ("display"@, "flex"@),
            ("flex-direction"@, "column"@),
            ("gap"@, "var(--p-sp-md)"@),
        ]) + rule_text(".p-inline"@, seq![
            ("display"@, "flex"@),
            ("align-items"@, "center"@),
            ("gap"@, "var(--p-sp-md)"@),
        ]) + rule_text(".p-grid-2"@, seq![
            ("display"@, "grid"@),
            ("grid-template-columns"@, "repeat(2,1fr)"@),
            ("gap"@, "var(--p-sp-md)"@),
        ]) + rule_text(".p-grid-3"@, seq![
            ("display"@, "grid"@),
            ("grid-template-columns"@, "repeat(3,1fr)"@),
            ("gap"@, "var(--p-sp-md)"@),
        ])
}

#[verifier::spinoff_prover]
#[verifier::rlimit(30)]
fn write_part9(w: &mut CssWriter, theme: &Theme)
    ensures
        final(w).css() == old(w).css() + css_part9(*theme),
{
    let ghost s0 = w.css();
    let p1 = [("font-size", theme.typography.size_2xl), ("font-weight", theme.typography.weight_semibold), ("font-variant-numeric", "tabular-nums"), ("letter-spacing", "-0.01em")];
    assert(props_view(p1@) =~= seq![("font-size"@, theme.typography.size_2xl@), ("font-weight"@, theme.typography.weight_semibold@), ("font-variant-numeric"@, "tabular-nums"@), ("letter-spacing"@, "-0.01em"@)]);
    w.rule(".p-metric-value", &p1);
    let p2 = [("display", "flex"), ("flex-direction", "column"), ("gap", "var(--p-sp-md)")];
    assert(props_view(p2@) =~= seq![("display"@, "flex"@), ("flex-direction"@, "column"@), ("gap"@, "var(--p-sp-md)"@)]);
    w.rule(".p-stack", &p2);
    let p3 = [("display", "flex"), ("align-items", "center"), ("gap", "var(--p-sp-md)")];
    assert(props_view(p3@) =~= seq![("display"@, "flex"@), ("align-items"@, "center"@), ("gap"@, "var(--p-sp-md)"@)]);
    w.rule(".p-inline", &p3);
    let p4 = [("display", "grid"), ("grid-template-columns", "repeat(2,1fr)"), ("gap", "var(--p-sp-md)")];
    assert(props_view(p4@) =~= seq![("display"@, "grid"@), ("grid-template-columns"@, "repeat(2,1fr)"@), ("gap"@, "var(--p-sp-md)"@)]);
    w.rule(".p-grid-2", &p4);
    let p5 = [("display", "grid"), ("grid-template-columns", "repeat(3,1fr)"), ("gap", "var(--p-sp-md)")];
    assert(props_view(p5@) =~= seq![("display"@, "grid"@), ("grid-template-columns"@, "repeat(3,1fr)"@), ("gap"@, "var(--p-sp-md)"@)]);
    w.rule(".p-grid-3", &p5);
    proof {
        reveal(css_part9);
        assert(w.css() =~= s0 + css_part9(*theme));
    }
}

#[verifier::opaque]
pub open spec fn css_part10(theme: Theme) -> Seq<char> {
    rule_text(".p-code"@, seq![
            ("font-family"@, "var(--p-font-mono)"@),
            ("font-size"@, theme.typography.size_sm@),
            ("background"@, "var(--p-bg2)"@),
            ("border"@, "1px solid var(--p-border)"@),
            ("border-radius"@, "var(--p-r-md)"@),
            ("padding"@, "var(--p-sp-md)"@),
            ("overflow-x"@, "auto"@),
            ("white-space"@, "pre"@),
        ]) + media_text(("(max-width: "@ + decimal(theme.breakpoints.md as nat) + "px)"@), rule_text(".p-main"@, seq![
            ("padding"@, theme.spacing.md@),
        ]) + rule_text(".p-grid-2, .p-grid-3"@, seq![
            ("grid-template-columns"@, "1fr"@),
        ]) + rule_text(".p-header"@, seq![
            ("padding"@, (theme.spacing.sm@ + " "@ + theme.spacing.md@)),
        ])) + rule_text(".p-mono"@, seq![
            ("font-family"@, "var(--p-font-mono)"@),
            ("font-size"@, theme.typography.size_sm@),
            ("color"@, "var(--p-text2)"@),
        ])
}

#[verifier::spinoff_prover]
#[verifier::rlimit(30)]
fn write_part10(w: &mut CssWriter, theme: &Theme)
    ensures
        final(w).css() == old(w).css() + css_part10(*theme),
{
    let ghost s0 = w.css();
    let p1 = [("font-family", "var(--p-font-mono)"), ("font-size", theme.typography.size_sm), ("background", "var(--p-bg2)"), ("border", "1px solid var(--p-border)"), ("border-radius", "var(--p-r-md)"), ("padding", "var(--p-sp-md)"), ("overflow-x", "auto"), ("white-space", "pre")];
    assert(props_view(p1@) =~= seq![("font-family"@, "var(--p-font-mono)"@), ("font-size"@, theme.typography.size_sm@), ("background"@, "var(--p-bg2)"@), ("border"@, "1px solid var(--p-border)"@), ("border-radius"@, "var(--p-r-md)"@), ("padding"@, "var(--p-sp-md)"@), ("overflow-x"@, "auto"@), ("white-space"@, "pre"@)]);
    w.rule(".p-code", &p1);
    let mut f2 = string_with_capacity(0);
    push_str(&mut f2, "(max-width: ");
    let n3 = u64_to_string(theme.breakpoints.md as u64);
    push_str(&mut f2, n3.as_str());
    push_str(&mut f2, "px)");
    assert(f2@ =~= ("(max-width: "@ + decimal(theme.breakpoints.md as nat) + "px)"@));
    let mut mw = CssWriter::new();
    let p4 = [("padding", theme.spacing.md)];
    assert(props_view(p4@) =~= seq![("padding"@, theme.spacing.md@)]);
    mw.rule(".p-main", &p4);
    let p5 = [("grid-template-columns", "1fr")];
    assert(props_view(p5@) =~= seq![("grid-template-columns"@, "1fr"@)]);
    mw.rule(".p-grid-2, .p-grid-3", &p5);
    let mut f6 = string_with_capacity(0);
    push_str(&mut f6, theme.spacing.sm);
    push_str(&mut f6, " ");
    push_str(&mut f6, theme.spacing.md);
    assert(f6@ =~= (theme.spacing.sm@ + " "@ + theme.spacing.md@));
    let p7 = [("padding", f6.as_str())];
    assert(props_view(p7@) =~= seq![("padding"@, (theme.spacing.sm@ + " "@ + theme.spacing.md@))]);
    mw.rule(".p-header", &p7);
    assert(mw.css() =~= rule_text(".p-main"@, seq![
            ("padding"@, theme.spacing.md@),
        ]) + rule_text(".p-grid-2, .p-grid-3"@, seq![
            ("grid-template-columns"@, "1fr"@),
        ]) + rule_text(".p-header"@, seq![
            ("padding"@, (theme.spacing.sm@ + " "@ + theme.spacing.md@)),
        ]));
    w.media(f2.as_str(), mw);
    let p8 = [("font-family", "var(--p-font-mono)"), ("font-size", theme.typography.size_sm), ("color", "var(--p-text2)")];
    assert(props_view(p8@) =~= seq![("font-family"@, "var(--p-font-mono)"@), ("font-size"@, theme.typography.size_sm@), ("color"@, "var(--p-text2)"@)]);
    w.rule(".p-mono", &p8);
    proof {
        reveal(css_part10);
        assert(w.css() =~= s0 + css_part10(*theme));
    }
}

#[verifier::opaque]
pub open spec fn css_part11(theme: Theme) -> Seq<char> {
    rule_text(".p-loading"@, seq![
            ("display"@, "inline-block"@),
            ("width"@, "20px"@),
            ("height"@, "20px"@),
            ("border"@, "2px solid var(--p-border)"@),
            ("border-top-color"@, "var(--p-accent)"@),
            ("border-radius"@, "50%"@),
            ("animation"@, "p-spin 0.8s linear infinite"@),
        ]) + "@keyframes p-spin { to { transform: rotate(360deg); } }"@ + "\n"@ + rule_text(".p-section"@, seq![
            ("margin-bottom"@, "var(--p-sp-xl)"@),
        ]) + rule_text(".p-section-title"@, seq![
            ("font-size"@, theme.typography.size_lg@),
            ("font-weight"@, theme.typography.weight_semibold@),
            ("margin-bottom"@, "var(--p-sp-md)"@),
            ("padding-bottom"@, "var(--p-sp-sm)"@),
            ("border-bottom"@, "1px solid var(--p-border-sub)"@),
        ])
}

#[verifier::spinoff_prover]
#[verifier::rlimit(30)]
fn write_part11(w: &mut CssWriter, theme: &Theme)
    ensures
        final(w).css() == old(w).css() + css_part11(*theme),
{
    let ghost s0 = w.css();
    let p1 = [("display", "inline-block"), ("width", "20px"), ("height", "20px"), ("border", "2px solid var(--p-border)"), ("border-top-color", "var(--p-accent)"), ("border-radius", "50%"), ("animation", "p-spin 0.8s linear infinite")];
    assert(props_view(p1@) =~= seq![("display"@, "inline-block"@), ("width"@, "20px"@), ("height"@, "20px"@), ("border"@, "2px solid var(--p-border)"@), ("border-top-color"@, "var(--p-accent)"@), ("border-radius"@, "50%"@), ("animation"@, "p-spin 0.8s linear infinite"@)]);
    w.rule(".p-loading", &p1);
    w.raw("@keyframes p-spin { to { transform: rotate(360deg); } }");
    let p2 = [("margin-bottom", "var(--p-sp-xl)")];
    assert(props_view(p2@) =~= seq![("margin-bottom"@, "var(--p-sp-xl)"@)]);
    w.rule(".p-section", &p2);
    let p3 = [("font-size", theme.typography.size_lg), ("font-weight", theme.typography.weight_semibold), ("margin-bottom", "var(--p-sp-md)"), ("padding-bottom", "var(--p-sp-sm)"), ("border-bottom", "1px solid var(--p-border-sub)")];
    assert(props_view(p3@) =~= seq![("font-size"@, theme.typography.size_lg@), ("font-weight"@, theme.typography.weight_semibold@), ("margin-bottom"@, "var(--p-sp-md)"@), ("padding-bottom"@, "var(--p-sp-sm)"@), ("border-bottom"@, "1px solid var(--p-border-sub)"@)]);
    w.rule(".p-section-title", &p3);
    proof {
        reveal(css_part11);
        assert(w.css() =~= s0 + css_part11(*theme));
    }
}

#[verifier::opaque]
pub open spec fn css_part12(theme: Theme) -> Seq<char> {
    rule_text(".p-command-bar"@, seq![
            ("display"@, "flex"@),
            ("align-items"@, "center"@),
            ("gap"@, "var(--p-sp-sm)"@),
            ("padding"@, "var(--p-sp-sm) var(--p-sp-md)"@),
            ("background"@, "var(--p-bg2)"@),
            ("border-bottom"@, "1px solid var(--p-border)"@),
        ]) + rule_text(".p-footer"@, seq![
            ("padding"@, "var(--p-sp-lg)"@),
            ("border-top"@, "1px solid var(--p-border)"@),
            ("color"@, "var(--p-muted)"@),
            ("font-size"@, theme.typography.size_sm@),
            ("text-align"@, "center"@),
        ]) + rule_text(".p-docs-sidebar"@, seq![
            ("width"@, "240px"@),
            ("min-width"@, "240px"@),
            ("border-right"@, "1px solid var(--p-border)"@),
            ("padding"@, "var(--p-sp-lg)"@),
            ("overflow-y"@, "auto"@),
        ])
}

#[verifier::spinoff_prover]
#[verifier::rlimit(30)]
fn write_part12(w: &mut CssWriter, theme: &Theme)
    ensures
        final(w).css() == old(w).css() + css_part12(*theme),
{
    let ghost s0 = w.css();
    let p1 = [("display", "flex"), ("align-items", "center"), ("gap", "var(--p-sp-sm)"), ("padding", "var(--p-sp-sm) var(--p-sp-md)"), ("background", "var(--p-bg2)"), ("border-bottom", "1px solid var(--p-border)")];
    assert(props_view(p1@) =~= seq![("display"@, "flex"@), ("align-items"@, "center"@), ("gap"@, "var(--p-sp-sm)"@), ("padding"@, "var(--p-sp-sm) var(--p-sp-md)"@), ("background"@, "var(--p-bg2)"@), ("border-bottom"@, "1px solid var(--p-border)"@)]);
    w.rule(".p-command-bar", &p1);
    let p2 = [("padding", "var(--p-sp-lg)"), ("border-top", "1px solid var(--p-border)"), ("color", "var(--p-muted)"), ("font-size", theme.typography.size_sm), ("text-align", "center")];
    assert(props_view(p2@) =~= seq![("padding"@, "var(--p-sp-lg)"@), ("border-top"@, "1px solid var(--p-border)"@), ("color"@, "var(--p-muted)"@), ("font-size"@, theme.typography.size_sm@), ("text-align"@, "center"@)]);
    w.rule(".p-footer", &p2);
    let p3 = [("width", "240px"), ("min-width", "240px"), ("border-right", "1px solid var(--p-border)"), ("padding", "var(--p-sp-lg)"), ("overflow-y", "auto")];
    assert(props_view(p3@) =~= seq![("width"@, "240px"@), ("min-width"@, "240px"@), ("border-right"@, "1px solid var(--p-border)"@), ("padding"@, "var(--p-sp-lg)"@), ("overflow-y"@, "auto"@)]);
    w.rule(".p-docs-sidebar", &p3);
    proof {
        reveal(css_part12);
        assert(w.css() =~= s0 + css_part12(*theme));
    }
}

#[verifier::opaque]
pub open spec fn css_part13(theme: Theme) -> Seq<char> {
    rule_text(".p-docs-content"@, seq![
            ("flex"@, "1"@),
            ("padding"@, "var(--p-sp-xl)"@),
            ("max-width"@, "800px"@),
            ("overflow-y"@, "auto"@),
        ]) + rule_text(".p-docs-layout"@, seq![
            ("display"@, "flex"@),
            ("height"@, "100vh"@),
        ]) + rule_text(".p-endpoint-block"@, seq![
            ("border"@, "1px solid var(--p-border)"@),
            ("border-radius"@, "var(--p-r-md)"@),
            ("overflow"@, "hidden"@),
            ("margin-bottom"@, "var(--p-sp-lg)"@),
        ]) + rule_text(".p-endpoint-header"@, seq![
            ("display"@, "flex"@),
            ("align-items"@, "center"@),
            ("gap"@, "var(--p-sp-sm)"@),
            ("padding"@, "var(--p-sp-sm) var(--p-sp-md)"@),
            ("background"@, "var(--p-bg2)"@),
            ("border-bottom"@, "1px solid var(--p-border)"@),
        ])
}

#[verifier::spinoff_prover]
#[verifier::rlimit(30)]
fn write_part13(w: &mut CssWriter, theme: &Theme)
    ensures
        final(w).css() == old(w).css() + css_part13(*theme),
{
    let ghost s0 = w.css();
    let p1 = [("flex", "1"), ("padding", "var(--p-sp-xl)"), ("max-width", "800px"), ("overflow-y", "auto")];
    assert(props_view(p1@) =~= seq![("flex"@, "1"@), ("padding"@, "var(--p-sp-xl)"@), ("max-width"@, "800px"@), ("overflow-y"@, "auto"@)]);
    w.rule(".p-docs-content", &p1);
    let p2 = [("display", "flex"), ("height", "100vh")];
    assert(props_view(p2@) =~= seq![("display"@, "flex"@), ("height"@, "100vh"@)]);
    w.rule(".p-docs-layout", &p2);
    let p3 = [("border", "1px solid var(--p-border)"), ("border-radius", "var(--p-r-md)"), ("overflow", "hidden"), ("margin-bottom", "var(--p-sp-lg)")];
    assert(props_view(p3@) =~= seq![("border"@, "1px solid var(--p-border)"@), ("border-radius"@, "var(--p-r-md)"@), ("overflow"@, "hidden"@), ("margin-bottom"@, "var(--p-sp-lg)"@)]);
    w.rule(".p-endpoint-block", &p3);
    let p4 = [("display", "flex"), ("align-items", "center"), ("gap", "var(--p-sp-sm)"), ("padding", "var(--p-sp-sm) var(--p-sp-md)"), ("background", "var(--p-bg2)"), ("border-bottom", "1px solid var(--p-border)")];
    assert(props_view(p4@) =~= seq![("display"@, "flex"@), ("align-items"@, "center"@), ("gap"@, "var(--p-sp-sm)"@), ("padding"@, "var(--p-sp-sm) var(--p-sp-md)"@), ("background"@, "var(--p-bg2)"@), ("border-bottom"@, "1px solid var(--p-border)"@)]);
    w.rule(".p-endpoint-header", &p4);
    proof {
        reveal(css_part13);
        assert(w.css() =~= s0 + css_part13(*theme));
    }
}

#[verifier::opaque]
pub open spec fn css_part14(theme: Theme) -> Seq<char> {
    rule_text(".p-method-pill"@, seq![
            ("font-family"@, "var(--p-font-mono)"@),
            ("font-size"@, theme.typography.size_xs@),
            ("font-weight"@, theme.typography.weight_bold@),
            ("padding"@, ("2px "@ + theme.spacing.sm@)),
            ("border-radius"@, theme.radius.sm@),
        ]) + rule_text(".p-method-get"@, seq![
            ("background"@, "rgba(34,197,94,0.15)"@),
            ("color"@, "var(--p-ok)"@),
        ]) + rule_text(".p-method-post"@, seq![
            ("background"@, "rgba(34,167,224,0.15)"@),
            ("color"@, "var(--p-accent)"@),
        ]) + rule_text(".p-method-put"@, seq![
            ("background"@, "rgba(245,158,11,0.15)"@),
            ("color"@, "var(--p-warn)"@),
        ]) + rule_text(".p-method-delete"@, seq![
            ("background"@, "rgba(239,68,68,0.15)"@),
            ("color"@, "var(--p-err)"@),
        ]) + rule_text(".p-live-indicator"@, seq![
            ("display"@, "inline-flex"@),
            ("align-items"@, "center"@),
            ("gap"@, "var(--p-sp-xs)"@),
            ("font-size"@, theme.typography.size_xs@),
            ("color"@, "var(--p-ok)"@),
        ])
}

#[verifier::spinoff_prover]
#[verifier::rlimit(30)]
fn write_part14(w: &mut CssWriter, theme: &Theme)
    ensures
        final(w).css() == old(w).css() + css_part14(*theme),
{
    let ghost s0 = w.css();
    let mut f1 = string_with_capacity(0);
    push_str(&mut f1, "2px ");
    push_str(&mut f1, theme.spacing.sm);
    assert(f1@ =~= ("2px "@ + theme.spacing.sm@));
    let p2 = [("font-family", "var(--p-font-mono)"), ("font-size", theme.typography.size_xs), ("font-weight", theme.typography.weight_bold), ("padding", f1.as_str()), ("border-radius", theme.radius.sm)];
    assert(props_view(p2@) =~= seq![("font-family"@, "var(--p-font-mono)"@), ("font-size"@, theme.typography.size_xs@), ("font-weight"@, theme.typography.weight_bold@), ("padding"@, ("2px "@ + theme.spacing.sm@)), ("border-radius"@, theme.radius.sm@)]);
    w.rule(".p-method-pill", &p2);
    let p3 = [("background", "rgba(34,197,94,0.15)"), ("color", "var(--p-ok)")];
    assert(props_view(p3@) =~= seq![("background"@, "rgba(34,197,94,0.15)"@), ("color"@, "var(--p-ok)"@)]);
    w.rule(".p-method-get", &p3);
    let p4 = [("background", "rgba(34,167,224,0.15)"), ("color", "var(--p-accent)")];
    assert(props_view(p4@) =~= seq![("background"@, "rgba(34,167,224,0.15)"@), ("color"@, "var(--p-accent)"@)]);
    w.rule(".p-method-post", &p4);
    let p5 = [("background", "rgba(245,158,11,0.15)"), ("color", "var(--p-warn)")];
    assert(props_view(p5@) =~= seq![("background"@, "rgba(245,158,11,0.15)"@), ("color"@, "var(--p-warn)"@)]);
    w.rule(".p-method-put", &p5);
    let p6 = [("background", "rgba(239,68,68,0.15)"), ("color", "var(--p-err)")];
    assert(props_view(p6@) =~= seq![("background"@, "rgba(239,68,68,0.15)"@), ("color"@, "var(--p-err)"@)]);
    w.rule(".p-method-delete", &p6);
    let p7 = [("display", "inline-flex"), ("align-items", "center"), ("gap", "var(--p-sp-xs)"), ("font-size", theme.typography.size_xs), ("color", "var(--p-ok)")];
    assert(props_view(p7@) =~= seq![("display"@, "inline-flex"@), ("align-items"@, "center"@), ("gap"@, "var(--p-sp-xs)"@), ("font-size"@, theme.typography.size_xs@), ("color"@, "var(--p-ok)"@)]);
    w.rule(".p-live-indicator", &p7);
    proof {
        reveal(css_part14);
        assert(w.css() =~= s0 + css_part14(*theme));
    }
}

#[verifier::opaque]
pub open spec fn css_part15(theme: Theme) -> Seq<char> {
    rule_text(".p-live-dot"@, seq![
            ("width"@, "6px"@),
            ("height"@, "6px"@),
            ("border-radius"@, "50%"@),
            ("background"@, "var(--p-ok)"@),
            ("animation"@, "p-pulse 2s ease-in-out infinite"@),
        ]) + "@keyframes p-pulse { 0%, 100% { opacity: 1; } 50% { opacity: 0.3; } }"@ + "\n"@
}

#[verifier::spinoff_prover]
#[verifier::rlimit(30)]
fn write_part15(w: &mut CssWriter, theme: &Theme)
    ensures
        final(w).css() == old(w).css() + css_part15(*theme),
{
    let ghost s0 = w.css();
    let p1 = [("width", "6px"), ("height", "6px"), ("border-radius", "50%"), ("background", "var(--p-ok)"), ("animation", "p-pulse 2s ease-in-out infinite")];
    assert(props_view(p1@) =~= seq![("width"@, "6px"@), ("height"@, "6px"@), ("border-radius"@, "50%"@), ("background"@, "var(--p-ok)"@), ("animation"@, "p-pulse 2s ease-in-out infinite"@)]);
    w.rule(".p-live-dot", &p1);
    w.raw("@keyframes p-pulse { 0%, 100% { opacity: 1; } 50% { opacity: 0.3; } }");
    proof {
        reveal(css_part15);
        assert(w.css() =~= s0 + css_part15(*theme));
    }
}

} // verus!
