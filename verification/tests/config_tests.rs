use dashboard_server::config::AppState;

#[test]
fn defaults_when_unset() {
    let s = AppState::load_from(None, None);
    assert_eq!(s.hostname, "localhost");
    assert_eq!(s.port, "8000");
}

#[test]
fn values_taken_verbatim() {
    let s = AppState::load_from(Some("example.org".to_string()), Some("9001".to_string()));
    assert_eq!(s.hostname, "example.org");
    assert_eq!(s.port, "9001");
}

#[test]
fn empty_values_fall_back() {
    let s = AppState::load_from(Some(String::new()), Some(String::new()));
    assert_eq!(s.hostname, "localhost");
    assert_eq!(s.port, "8000");
}

#[test]
fn new_keeps_fields() {
    let s = AppState::new("h".to_string(), "1".to_string());
    assert_eq!(s.hostname, "h");
    assert_eq!(s.port, "1");
}

#[test]
fn bind_address_localhost_is_wildcard() {
    let s = AppState::new("localhost".to_string(), "8000".to_string());
    assert_eq!(s.bind_address(), "0.0.0.0");
}

#[test]
fn bind_address_other_hostname_unchanged() {
    let s = AppState::new("example.org".to_string(), "8000".to_string());
    assert_eq!(s.bind_address(), "example.org");
}

#[test]
fn bind_target_joins_address_and_port() {
    let s = AppState::new("localhost".to_string(), "8000".to_string());
    assert_eq!(s.bind_target(), "0.0.0.0:8000");
    let t = AppState::new("box".to_string(), "81".to_string());
    assert_eq!(t.bind_target(), "box:81");
}
