use dashboard_server::config::AppState;
use dashboard_server::pages::{dashboard_source, handle_response, render_page, respond, ContentType};
use dashboard_server::template::{RenderContext, Template};

fn state() -> AppState {
    AppState::new("localhost".to_string(), "8000".to_string())
}

#[test]
fn dashboard_source_compiles() {
    assert!(Template::compile(dashboard_source()).is_ok());
}

#[test]
fn handle_renders_captured_name() {
    let body = handle_response(&state(), Some("alice".to_string()));
    assert_eq!(
        body,
        "<html><body><h1>Hello, alice</h1><p><a href=\"//localhost:8000\">dashboard</a></p></body></html>"
    );
}

#[test]
fn handle_without_param_renders_sentinel() {
    let body = handle_response(&state(), None);
    assert!(body.contains("Hello, INCOGNITO</h1>"));
}

#[test]
fn get_handle_and_trailing_slash_render_sentinel() {
    for path in ["/handle", "/handle/"] {
        let resp = respond(&state(), "GET", path).unwrap();
        assert_eq!(resp.status, 200);
        assert_eq!(resp.content_type, ContentType::Html);
        assert!(resp.body.contains("Hello, INCOGNITO</h1>"));
    }
}

#[test]
fn get_handle_alice_and_trailing_slash_render_identically() {
    let a = respond(&state(), "GET", "/handle/alice").unwrap();
    let b = respond(&state(), "GET", "/handle/alice/").unwrap();
    assert_eq!(a.status, 200);
    assert!(a.body.contains("Hello, alice</h1>"));
    assert_eq!(a.body, b.body);
    assert_eq!(a.status, b.status);
}

#[test]
fn root_page_is_fixed() {
    let resp = respond(&state(), "GET", "/").unwrap();
    assert_eq!(resp.status, 200);
    assert_eq!(resp.content_type, ContentType::Html);
    assert_eq!(resp.body, "<h1>ROOT</h1>");
}

#[test]
fn unregistered_path_is_not_found() {
    let resp = respond(&state(), "GET", "/nope").unwrap();
    assert_eq!(resp.status, 404);
    assert_eq!(resp.content_type, ContentType::Text);
    assert_eq!(resp.body, "nothing to see here");
}

#[test]
fn not_found_regardless_of_method() {
    for method in ["POST", "PUT", "DELETE", "PATCH"] {
        let resp = respond(&state(), method, "/handle/alice").unwrap();
        assert_eq!(resp.status, 404);
        assert_eq!(resp.body, "nothing to see here");
    }
}

#[test]
fn assets_are_left_to_the_static_collaborator() {
    assert!(respond(&state(), "GET", "/assets/logo.png").is_none());
}

#[test]
fn url_text_appears_exactly_once() {
    let body = handle_response(&state(), Some("n".to_string()));
    assert_eq!(body.matches("//localhost:8000").count(), 1);
    let other = AppState::new("example.org".to_string(), "9001".to_string());
    let body2 = handle_response(&other, Some("n".to_string()));
    assert_eq!(body2.matches("//example.org:9001").count(), 1);
}

#[test]
fn incomplete_context_yields_500_page() {
    let t = Template::compile(dashboard_source()).unwrap();
    let mut ctx = RenderContext::new();
    ctx.insert("name".to_string(), "alice".to_string());
    let resp = render_page(&t, &ctx);
    assert_eq!(resp.status, 500);
    assert_eq!(resp.content_type, ContentType::Text);
    assert_eq!(resp.body, "internal render error");
}

#[test]
fn complete_context_yields_200_page() {
    let t = Template::compile(dashboard_source()).unwrap();
    let mut ctx = RenderContext::new();
    ctx.insert("name".to_string(), "alice".to_string());
    ctx.insert("url".to_string(), "//localhost:8000".to_string());
    let resp = render_page(&t, &ctx);
    assert_eq!(resp.status, 200);
    assert_eq!(resp.content_type, ContentType::Html);
    assert!(resp.body.contains("Hello, alice</h1>"));
}

#[test]
fn script_name_appears_only_escaped() {
    let body = handle_response(&state(), Some("<script>alert(1)</script>".to_string()));
    assert!(!body.contains("<script>"));
    assert!(body.contains("&lt;script&gt;alert(1)&lt;/script&gt;"));
}
