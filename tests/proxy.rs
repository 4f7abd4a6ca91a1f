use keepalive_proxy::dispatch::{dispatch, RequestHead, Route};
use keepalive_proxy::headers::{client_headers, name_matches, outbound_headers, Header};
use keepalive_proxy::reply::{
    error_response, BUILD_FAILED, CONNECTION_FAILED, INVALID_CONNECT_URI, INVALID_SCHEME,
    METHOD_NOT_SUPPORTED,
};
use keepalive_proxy::tunnel::{step, TunnelAction, TunnelEvent, TunnelState};

fn header(name: &str, value: &str) -> Header {
    Header::new(name.as_bytes().to_vec(), value.as_bytes().to_vec())
}

fn pairs(hs: &[Header]) -> Vec<(String, String)> {
    hs.iter()
        .map(|h| {
            (
                String::from_utf8(h.name.clone()).unwrap(),
                String::from_utf8(h.value.clone()).unwrap(),
            )
        })
        .collect()
}

fn expected(list: &[(&str, &str)]) -> Vec<(String, String)> {
    list.iter().map(|(n, v)| (n.to_string(), v.to_string())).collect()
}

fn request(
    method: &str,
    scheme: Option<&str>,
    host: Option<&str>,
    port: Option<u16>,
    headers: Vec<Header>,
) -> RequestHead {
    RequestHead {
        method: method.as_bytes().to_vec(),
        scheme: scheme.map(|s| s.as_bytes().to_vec()),
        host: host.map(|h| h.to_string()),
        port,
        headers,
    }
}

fn respond_of(r: Route) -> (u16, &'static str) {
    match r {
        Route::Respond(reply) => (reply.status, reply.body),
        Route::Forward { .. } => panic!("forwarded"),
        Route::Tunnel { .. } => panic!("tunneled"),
    }
}

#[test]
fn other_methods_are_refused() {
    for m in ["POST", "PUT", "DELETE", "HEAD", "get", "OPTIONS"] {
        let r = dispatch(request(m, Some("http"), Some("example.com"), None, vec![]));
        assert_eq!(respond_of(r), (400, METHOD_NOT_SUPPORTED));
    }
}

#[test]
fn non_http_schemes_are_refused() {
    for scheme in [Some("https"), Some("HTTP"), Some("ftp"), None] {
        let r = dispatch(request("GET", scheme, Some("example.com"), None, vec![]));
        assert_eq!(respond_of(r), (400, INVALID_SCHEME));
    }
}

#[test]
fn forwarded_get_rewrites_headers() {
    let incoming = vec![
        header("Host", "example.com"),
        header("Connection", "keep-alive"),
        header("X-Test", "1"),
    ];
    let r = dispatch(request("GET", Some("http"), Some("example.com"), None, incoming));
    match r {
        Route::Forward { headers } => assert_eq!(
            pairs(&headers),
            expected(&[("Host", "example.com"), ("X-Test", "1"), ("Connection", "Keep-Alive")])
        ),
        _ => panic!("not forwarded"),
    }
    let origin = vec![header("Connection", "keep-alive"), header("Content-Type", "text/plain")];
    assert_eq!(
        pairs(&client_headers(&origin)),
        expected(&[("Content-Type", "text/plain"), ("Connection", "close")])
    );
}

#[test]
fn proxy_connection_and_mixed_case_are_stripped() {
    let incoming = vec![
        header("proxy-connection", "keep-alive"),
        header("accept", "*/*"),
        header("CONNECTION", "Upgrade"),
        header("Proxy-Connection", "close"),
        header("connections", "x"),
    ];
    assert_eq!(
        pairs(&outbound_headers(&incoming)),
        expected(&[("accept", "*/*"), ("connections", "x"), ("Connection", "Keep-Alive")])
    );
}

#[test]
fn reply_gets_close_without_origin_connection() {
    assert_eq!(pairs(&client_headers(&vec![])), expected(&[("Connection", "close")]));
    let origin = vec![header("connection", "close"), header("Proxy-Connection", "x")];
    assert_eq!(
        pairs(&client_headers(&origin)),
        expected(&[("Proxy-Connection", "x"), ("Connection", "close")])
    );
}

#[test]
fn invalid_header_value_fails_the_build() {
    let incoming = vec![header("X-Bad", "a\nb")];
    let r = dispatch(request("GET", Some("http"), Some("example.com"), None, incoming));
    assert_eq!(respond_of(r), (500, BUILD_FAILED));
}

#[test]
fn invalid_header_name_fails_the_build() {
    let incoming = vec![header("Bad Name", "v")];
    let r = dispatch(request("GET", Some("http"), Some("example.com"), None, incoming));
    assert_eq!(respond_of(r), (500, BUILD_FAILED));
}

#[test]
fn tab_and_high_bytes_are_valid_values() {
    let incoming = vec![Header::new(b"X-Tab".to_vec(), vec![b'a', b'\t', 0xC3, 0xA9])];
    let r = dispatch(request("GET", Some("http"), Some("example.com"), None, incoming));
    match r {
        Route::Forward { headers } => {
            assert_eq!(headers.len(), 2);
            assert_eq!(headers[0].value, vec![b'a', b'\t', 0xC3, 0xA9]);
        }
        _ => panic!("not forwarded"),
    }
}

#[test]
fn connect_with_host_and_port_tunnels() {
    let r = dispatch(request("CONNECT", None, Some("example.com"), Some(443), vec![]));
    match r {
        Route::Tunnel { host, port } => {
            assert_eq!(host, "example.com");
            assert_eq!(port, 443);
        }
        _ => panic!("not tunneled"),
    }
}

#[test]
fn connect_without_port_is_refused() {
    let r = dispatch(request("CONNECT", None, Some("example.com"), None, vec![]));
    assert_eq!(respond_of(r), (400, INVALID_CONNECT_URI));
    let r = dispatch(request("CONNECT", None, None, Some(443), vec![]));
    assert_eq!(respond_of(r), (400, INVALID_CONNECT_URI));
}

#[test]
fn failed_dial_answers_bad_gateway() {
    let (s, a) = step(TunnelState::Connecting, TunnelEvent::DialFailed);
    assert_eq!(s, TunnelState::Closed);
    match a {
        TunnelAction::Respond(reply) => {
            assert_eq!(reply.status, 502);
            assert_eq!(reply.body, CONNECTION_FAILED);
            assert_eq!(reply.body, "Connection to target failed");
        }
        _ => panic!("no reply"),
    }
    let (s, a) = step(s, TunnelEvent::Upgraded);
    assert_eq!(s, TunnelState::Closed);
    assert!(matches!(a, TunnelAction::Ignore));
}

#[test]
fn tunnel_answers_before_relaying() {
    let (s, a) = step(TunnelState::Connecting, TunnelEvent::Dialed);
    assert_eq!(s, TunnelState::Established);
    match a {
        TunnelAction::Respond(reply) => assert_eq!((reply.status, reply.body), (200, "")),
        _ => panic!("no reply"),
    }
    let (s, a) = step(s, TunnelEvent::Upgraded);
    assert_eq!(s, TunnelState::Relaying);
    assert!(matches!(a, TunnelAction::StartRelay));
    let (s, a) = step(s, TunnelEvent::RelayEnded);
    assert_eq!(s, TunnelState::Closed);
    assert!(matches!(a, TunnelAction::Close));
}

#[test]
fn relay_cannot_start_before_dial() {
    let (s, a) = step(TunnelState::Connecting, TunnelEvent::Upgraded);
    assert_eq!(s, TunnelState::Connecting);
    assert!(matches!(a, TunnelAction::Ignore));
}

#[test]
fn failed_upgrade_closes() {
    let (s, a) = step(TunnelState::Established, TunnelEvent::UpgradeFailed);
    assert_eq!(s, TunnelState::Closed);
    assert!(matches!(a, TunnelAction::Close));
}

#[test]
fn names_compare_ignoring_ascii_case() {
    assert!(name_matches(b"connection", b"Connection"));
    assert!(name_matches(b"PROXY-CONNECTION", b"Proxy-Connection"));
    assert!(!name_matches(b"connection", b"Connection "));
    assert!(!name_matches(b"connectioN1", b"Connection"));
}

#[test]
fn error_response_keeps_status_and_body() {
    let r = error_response(METHOD_NOT_SUPPORTED, 400);
    assert_eq!(r.status, 400);
    assert_eq!(r.body, "Method not supported (keepalive-proxy)");
}
