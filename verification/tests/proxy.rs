use axum::http::{HeaderMap, HeaderValue};
use http_proxy::proxy::{
    check_handshake, connect_upstream_ws, proxy_handler, proxy_response, response_built, ws_proxy,
    Dispatch, Failure, HandshakeRequest,
};
use http_proxy::target::AppState;

fn state() -> AppState {
    AppState::new("https://example.com/").unwrap()
}

#[test]
fn plain_requests_are_forwarded() {
    let mut headers = HeaderMap::new();
    headers.insert("host", HeaderValue::from_static("127.0.0.1:18080"));
    headers.insert("accept", HeaderValue::from_static("text/html"));
    match proxy_handler(&state(), "GET", Some("/api/test?q=1"), &headers) {
        Ok(Dispatch::Forward(request)) => {
            assert_eq!(request.method, "GET");
            assert_eq!(request.url, "https://example.com/api/test?q=1");
            let names: Vec<&str> = request.headers.iter().map(|f| f.name.as_str()).collect();
            assert_eq!(names, ["accept", "host"]);
            assert_eq!(request.headers[1].value, b"example.com");
        }
        other => panic!("{other:?}"),
    }
}

#[test]
fn extension_methods_are_forwarded_as_they_are() {
    for method in ["PROPFIND", "x-get", "!#$%&'*+-.^_`|~09", "A-METHOD-LONGER-THAN-INLINE"] {
        match proxy_handler(&state(), method, None, &HeaderMap::new()) {
            Ok(Dispatch::Forward(request)) => {
                assert_eq!(request.method, method);
                assert_eq!(request.url, "https://example.com/");
            }
            other => panic!("{other:?}"),
        }
    }
}

#[test]
fn methods_that_are_no_tokens_are_refused() {
    for method in ["", "GET ", "G\u{e9}T", "A/B", "A\"B", "(", "\u{7f}", "{}"] {
        match proxy_handler(&state(), method, Some("/"), &HeaderMap::new()) {
            Err(failure) => {
                assert_eq!(failure, Failure::InvalidMethod);
                assert_eq!(failure.status(), 405);
            }
            other => panic!("{method}: {other:?}"),
        }
    }
}

#[test]
fn websocket_requests_are_upgraded_before_anything_else() {
    let mut headers = HeaderMap::new();
    headers.insert("upgrade", HeaderValue::from_static("WEBSOCKET"));
    assert!(matches!(
        proxy_handler(&state(), "not a method", None, &headers),
        Ok(Dispatch::Upgrade)
    ));
}

#[test]
fn answers_keep_their_status() {
    let mut headers = HeaderMap::new();
    headers.insert("location", HeaderValue::from_static("https://elsewhere.example/"));
    headers.insert("connection", HeaderValue::from_static("close"));
    for status in [200, 204, 301, 302, 404, 503] {
        let head = proxy_response(Some((status, &headers))).unwrap();
        assert_eq!(head.status, status);
        assert_eq!(head.headers.len(), 1);
        assert_eq!(head.headers[0].name, "location");
        assert_eq!(head.headers[0].value, b"https://elsewhere.example/");
    }
}

#[test]
fn a_silent_target_is_a_bad_gateway() {
    let failure = proxy_response(None).unwrap_err();
    assert_eq!(failure, Failure::UpstreamFailed);
    assert_eq!(failure.status(), 502);
}

#[test]
fn websocket_requests_get_their_url() {
    assert_eq!(ws_proxy(&state(), true, Some("/ws?a=b")).unwrap(), "wss://example.com/ws?a=b");
    assert_eq!(ws_proxy(&state(), true, None).unwrap(), "wss://example.com/");
    let failure = ws_proxy(&state(), false, Some("/ws")).unwrap_err();
    assert_eq!(failure, Failure::UpgradeRejected);
    assert_eq!(failure.status(), 400);
}

#[test]
fn every_handshake_has_a_key_of_its_own() {
    let mut headers = HeaderMap::new();
    headers.insert("sec-websocket-key", HeaderValue::from_static("client"));
    let first = connect_upstream_ws("wss://example.com/ws", &headers, "example.com").unwrap();
    let second = connect_upstream_ws("wss://example.com/ws", &headers, "example.com").unwrap();
    assert_eq!(first.url, "wss://example.com/ws");
    assert_eq!(first.headers.len(), 5);
    let key = &first.headers[4];
    assert_eq!(key.name, "sec-websocket-key");
    assert_eq!(key.value.len(), 24);
    assert!(key.value[..22]
        .iter()
        .all(|b| b.is_ascii_alphanumeric() || *b == b'+' || *b == b'/'));
    assert_eq!(&key.value[22..], b"==");
    assert_ne!(key.value, second.headers[4].value);
}

#[test]
fn handshakes_that_make_no_request_are_refused() {
    let headers = HeaderMap::new();
    for (url, host) in [
        ("wss://exa mple.com/", "example.com"),
        ("", "example.com"),
        ("wss://example.com/", "example.com\n"),
    ] {
        let refused = connect_upstream_ws(url, &headers, host).unwrap_err();
        assert!(!refused.cause.is_empty());
    }
    let refused = connect_upstream_ws("wss://exa mple.com/", &headers, "h").unwrap_err();
    assert_eq!(refused.cause, "invalid uri character");
    assert!(connect_upstream_ws("ws://example.com:81/a?b", &headers, "example.com:81").is_ok());
}

#[test]
fn handshakes_pass_unless_something_is_wrong_with_them() {
    let request = || HandshakeRequest { url: "ws://h/".to_string(), headers: Vec::new() };
    assert_eq!(check_handshake(request(), None).unwrap().url, "ws://h/");
    let refused = check_handshake(request(), Some("no good".to_string())).unwrap_err();
    assert_eq!(refused.cause, "no good");
}

#[test]
fn responses_that_cannot_be_built_are_server_errors() {
    assert_eq!(response_built(Some(7)), Ok(7));
    assert_eq!(response_built::<u8>(None), Err(Failure::InvalidResponse));
    assert_eq!(Failure::InvalidResponse.status(), 500);
}
