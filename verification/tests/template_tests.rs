use dashboard_server::escape::escape_html;
use dashboard_server::template::{RenderContext, RenderError, Template, TemplateError};

fn ctx(pairs: &[(&str, &str)]) -> RenderContext {
    let mut c = RenderContext::new();
    for (k, v) in pairs {
        c.insert(k.to_string(), v.to_string());
    }
    c
}

#[test]
fn literal_only_template_renders_verbatim() {
    let t = Template::compile("plain text, no placeholders").unwrap();
    let out = t.render(&ctx(&[])).unwrap();
    assert_eq!(out, "plain text, no placeholders");
}

#[test]
fn placeholder_substitutes_value() {
    let t = Template::compile("Hello {{name}}!").unwrap();
    let out = t.render(&ctx(&[("name", "alice")])).unwrap();
    assert_eq!(out, "Hello alice!");
}

#[test]
fn placeholder_allows_spaces() {
    let t = Template::compile("Hello {{  name  }}!").unwrap();
    let out = t.render(&ctx(&[("name", "bob")])).unwrap();
    assert_eq!(out, "Hello bob!");
}

#[test]
fn later_binding_overrides_earlier() {
    let t = Template::compile("{{k}}").unwrap();
    let out = t.render(&ctx(&[("k", "first"), ("k", "second")])).unwrap();
    assert_eq!(out, "second");
}

#[test]
fn unclosed_placeholder_is_syntax_error() {
    assert_eq!(Template::compile("oops {{name").unwrap_err(), TemplateError::Syntax);
}

#[test]
fn empty_placeholder_is_syntax_error() {
    assert_eq!(Template::compile("{{}}").unwrap_err(), TemplateError::Syntax);
}

#[test]
fn bad_name_character_is_syntax_error() {
    assert_eq!(Template::compile("{{na-me}}").unwrap_err(), TemplateError::Syntax);
}

#[test]
fn lone_braces_are_literal_text() {
    let t = Template::compile("a { b } c }} d").unwrap();
    let out = t.render(&ctx(&[])).unwrap();
    assert_eq!(out, "a { b } c }} d");
}

#[test]
fn missing_variable_is_render_error() {
    let t = Template::compile("{{name}}").unwrap();
    assert_eq!(t.render(&ctx(&[("other", "x")])).unwrap_err(), RenderError::MissingVariable);
}

#[test]
fn substituted_values_are_escaped() {
    let t = Template::compile("{{v}}").unwrap();
    let out = t.render(&ctx(&[("v", "<b>&\"'</b>")])).unwrap();
    assert_eq!(out, "&lt;b&gt;&amp;&quot;&#x27;&lt;/b&gt;");
}

#[test]
fn escape_html_replaces_special_characters() {
    assert_eq!(escape_html("a&b<c>d\"e'f"), "a&amp;b&lt;c&gt;d&quot;e&#x27;f");
    assert_eq!(escape_html("plain"), "plain");
    assert_eq!(escape_html(""), "");
}
