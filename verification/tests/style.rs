use polish::markup::context::RenderContext;
use polish::markup::render::{Render, RenderExt};
use polish::style::components::{FontPreload, StyleTag};
use polish::style::css::{ClassName, CssWriter, StyleSheet};
use polish::style::theme::BuiltinTheme;

#[test]
fn css_writer_rules_media_and_raw() {
    let mut inner = CssWriter::new();
    inner.rule(".a", &[("color", "red")]);
    let mut w = CssWriter::new();
    w.rule("body", &[("margin", "0"), ("padding", "0")]);
    w.media("(max-width: 600px)", inner);
    w.raw("/* end */");
    assert_eq!(
        w.finish(),
        "body {\n  margin: 0;\n  padding: 0;\n}\n@media (max-width: 600px) {\n  .a {\n    color: red;\n  }\n}\n/* end */\n"
    );
    assert_eq!(ClassName::new("p-btn").as_str(), "p-btn");
}

#[test]
fn stylesheet_starts_with_theme_custom_properties() {
    for b in [BuiltinTheme::GlassHud, BuiltinTheme::Clean, BuiltinTheme::Enterprise] {
        let theme = b.theme();
        let sheet = StyleSheet::generate(&theme);
        assert_eq!(sheet.theme_class, theme.body_class);
        let head = format!(".{} {{\n  --p-bg: {};\n", theme.body_class, theme.colors.bg_primary);
        assert!(sheet.css.starts_with(&head));
        assert!(sheet.css.ends_with("}\n"));
    }
}

#[test]
fn builtin_themes_differ() {
    let a = BuiltinTheme::GlassHud.theme();
    let b = BuiltinTheme::Clean.theme();
    assert_ne!(a.body_class, b.body_class);
    assert_ne!(StyleSheet::generate(&a).css, StyleSheet::generate(&b).css);
}

#[test]
fn style_tag_and_font_preload() {
    let tag = StyleTag { css: "a{}".to_string(), nonce: Some("n\"1".to_string()) };
    assert_eq!(tag.to_html(&RenderContext::default()), "<style nonce=\"n&quot;1\">a{}</style>");
    let bare = StyleTag { css: "b{}".to_string(), nonce: None };
    assert_eq!(bare.render_to_string(), "<style>b{}</style>");
    assert!(FontPreload.render_to_string().starts_with("<link rel=\"preconnect\" href=\"https://fonts.googleapis.com\" />"));
}
