use echokit::server_url::{parse_server_url, resolved_server_url, Endpoint, Scheme};

fn endpoint(scheme: Scheme, host: &str, port: u16, path: &str) -> Option<Endpoint> {
    Some(Endpoint { scheme, host: host.to_string(), port, path: path.to_string() })
}

#[test]
fn a_url_without_a_port_has_the_port_of_its_scheme() {
    assert_eq!(
        parse_server_url("ws://echo.local/chat"),
        endpoint(Scheme::Ws, "echo.local", 80, "/chat")
    );
    assert_eq!(parse_server_url("wss://echo.local"), endpoint(Scheme::Wss, "echo.local", 443, ""));
}

#[test]
fn a_port_follows_the_last_colon() {
    assert_eq!(parse_server_url("ws://h:8080/a:b/"), endpoint(Scheme::Ws, "h", 8080, "/a:b/"));
    assert_eq!(parse_server_url("ws://[::1]:9000"), endpoint(Scheme::Ws, "[::1]", 9000, ""));
    assert_eq!(parse_server_url("ws://h:+65535"), endpoint(Scheme::Ws, "h", 65535, ""));
}

#[test]
fn what_is_no_port_belongs_to_the_host() {
    assert_eq!(parse_server_url("ws://[::1]"), endpoint(Scheme::Ws, "[::1]", 80, ""));
    assert_eq!(parse_server_url("wss://h:65536/x"), endpoint(Scheme::Wss, "h:65536", 443, "/x"));
    assert_eq!(parse_server_url("ws://h:"), endpoint(Scheme::Ws, "h:", 80, ""));
    assert_eq!(parse_server_url("ws://"), endpoint(Scheme::Ws, "", 80, ""));
}

#[test]
fn other_urls_name_nothing() {
    assert_eq!(parse_server_url("http://h"), None);
    assert_eq!(parse_server_url("WS://h"), None);
    assert_eq!(parse_server_url(""), None);
}

#[test]
fn the_found_address_takes_the_place_of_the_host() {
    assert_eq!(
        resolved_server_url("wss://echo.local/ws", Some(("10.0.0.7".to_string(), 443))),
        "wss://10.0.0.7:443/ws"
    );
    assert_eq!(
        resolved_server_url("ws://h:8080", Some(("::1".to_string(), 8080))),
        "ws://::1:8080"
    );
}

#[test]
fn a_url_that_is_not_resolved_stays() {
    assert_eq!(resolved_server_url("ws://h:8080/a", None), "ws://h:8080/a");
    assert_eq!(resolved_server_url("tcp://h", Some(("1.2.3.4".to_string(), 1))), "tcp://h");
}

#[test]
fn a_resolved_url_keeps_scheme_and_path() {
    let url = resolved_server_url("wss://h/ws/é?q=1", Some(("fe80::2".to_string(), 4430)));
    assert_eq!(parse_server_url(&url), endpoint(Scheme::Wss, "fe80::2", 4430, "/ws/é?q=1"));
}
