use dashboard_server::router::{match_route, HandlerRef};

#[test]
fn root_matches_root_handler() {
    let m = match_route("GET", "/");
    assert_eq!(m.handler, HandlerRef::Root);
    assert_eq!(m.param, None);
}

#[test]
fn handle_without_name() {
    let m = match_route("GET", "/handle");
    assert_eq!(m.handler, HandlerRef::Handle);
    assert_eq!(m.param, None);
}

#[test]
fn handle_trailing_slash_no_empty_param() {
    let m = match_route("GET", "/handle/");
    assert_eq!(m.handler, HandlerRef::Handle);
    assert_eq!(m.param, None);
}

#[test]
fn handle_with_name() {
    let m = match_route("GET", "/handle/alice");
    assert_eq!(m.handler, HandlerRef::Handle);
    assert_eq!(m.param, Some("alice".to_string()));
}

#[test]
fn handle_with_name_trailing_slash() {
    let m = match_route("GET", "/handle/alice/");
    assert_eq!(m.handler, HandlerRef::Handle);
    assert_eq!(m.param, Some("alice".to_string()));
}

#[test]
fn trailing_slash_idempotent_across_routes() {
    for path in ["/handle", "/handle/alice", "/nope", "/assets/logo.png"] {
        let with_slash = format!("{}/", path);
        let a = match_route("GET", path);
        let b = match_route("GET", &with_slash);
        assert_eq!(a.handler, b.handler);
        assert_eq!(a.param, b.param);
    }
}

#[test]
fn deeper_path_does_not_match_parameterized_route() {
    let m = match_route("GET", "/handle/a/b");
    assert_eq!(m.handler, HandlerRef::NotFound);
    assert_eq!(m.param, None);
}

#[test]
fn assets_prefix_goes_to_static_collaborator() {
    let m = match_route("GET", "/assets/css/site.css");
    assert_eq!(m.handler, HandlerRef::Assets);
    assert_eq!(m.param, None);
}

#[test]
fn unregistered_path_falls_through() {
    let m = match_route("GET", "/nope");
    assert_eq!(m.handler, HandlerRef::NotFound);
    assert_eq!(m.param, None);
}

#[test]
fn non_get_method_is_not_found() {
    for method in ["POST", "PUT", "DELETE", "HEAD", "get"] {
        let m = match_route(method, "/handle/alice");
        assert_eq!(m.handler, HandlerRef::NotFound);
        assert_eq!(m.param, None);
    }
}
