use axum::http::{HeaderMap, HeaderName, HeaderValue};
use http_proxy::forward::{
    forward_request_headers, forward_response_headers, handshake_headers, pick_fields, Journey,
};
use http_proxy::headers::{
    collect_listed, connection_listed_headers, is_hop_by_hop, is_hop_by_hop_exact,
    is_websocket_upgrade, says_websocket, HeaderField,
};

fn map(fields: &[(&str, &str)]) -> HeaderMap {
    let mut out = HeaderMap::new();
    for (name, value) in fields {
        out.append(
            HeaderName::from_bytes(name.as_bytes()).unwrap(),
            HeaderValue::from_bytes(value.as_bytes()).unwrap(),
        );
    }
    out
}

fn pairs(fields: &[HeaderField]) -> Vec<(String, Vec<u8>)> {
    fields.iter().map(|f| (f.name.clone(), f.value.clone())).collect()
}

fn texts(fields: &[(&str, &str)]) -> Vec<(String, Vec<u8>)> {
    fields.iter().map(|(n, v)| (n.to_string(), v.as_bytes().to_vec())).collect()
}

#[test]
fn connection_lists_are_split_trimmed_and_lowered() {
    let headers = map(&[
        ("Connection", "Keep-Alive, \tX-One ,x-TWO"),
        ("X-Other", "x-three"),
        ("connection", "x-four"),
    ]);
    let listed = connection_listed_headers(&headers);
    for name in ["keep-alive", "x-one", "x-two", "x-four"] {
        assert!(listed.contains(name), "{name}");
    }
    for name in ["x-three", "X-One", "x-other", "connection", ""] {
        assert!(!listed.contains(name), "{name}");
    }
    assert_eq!(listed.len(), 4);
}

#[test]
fn empty_items_of_a_connection_list_are_no_names() {
    let listed = connection_listed_headers(&map(&[("connection", "a,,b, ")]));
    assert!(!listed.contains(""));
    assert!(listed.contains("a"));
    assert!(listed.contains("b"));
    assert_eq!(listed.len(), 2);
    assert!(connection_listed_headers(&map(&[("connection", "")])).is_empty());
    assert!(connection_listed_headers(&map(&[("connection", " ,\t, ")])).is_empty());

    let headers = map(&[
        ("connection", "close, , X-Foo"),
        ("connection", " x-FOO ,Bar"),
        ("x-other", "baz"),
    ]);
    let listed = connection_listed_headers(&headers);
    for name in ["close", "x-foo", "bar"] {
        assert!(listed.contains(name), "{name}");
    }
    assert_eq!(listed.len(), 3);
}

#[test]
fn no_connection_field_lists_nothing() {
    assert!(connection_listed_headers(&HeaderMap::new()).is_empty());
}

#[test]
fn connection_values_that_are_not_visible_are_skipped() {
    let mut headers = map(&[("connection", "x-seen")]);
    headers.append("connection", HeaderValue::from_bytes(b"x-hidden\xe9").unwrap());
    let listed = connection_listed_headers(&headers);
    assert!(listed.contains("x-seen"));
    assert_eq!(listed.len(), 1);
}

#[test]
fn hop_by_hop_names_in_any_case() {
    let none = connection_listed_headers(&HeaderMap::new());
    for name in [
        "connection",
        "Keep-Alive",
        "PROXY-AUTHENTICATE",
        "proxy-authorization",
        "TE",
        "Trailers",
        "transfer-encoding",
        "Upgrade",
        "Proxy-Connection",
    ] {
        assert!(is_hop_by_hop(name, &none), "{name}");
    }
    for name in ["host", "content-encoding", "trailer", "x-te", "", "connection "] {
        assert!(!is_hop_by_hop(name, &none), "{name}");
    }
}

#[test]
fn hop_by_hop_names_fold_by_unicode() {
    let none = connection_listed_headers(&HeaderMap::new());
    assert!(is_hop_by_hop("\u{212a}eep-alive", &none));
    assert!(!is_hop_by_hop_exact("\u{212a}eep-alive", &none));
    assert!(!is_hop_by_hop_exact("Keep-Alive", &none));
    assert!(is_hop_by_hop_exact("keep-alive", &none));
}

#[test]
fn listed_names_are_hop_by_hop() {
    let listed = connection_listed_headers(&map(&[("connection", "close, X-Mine")]));
    assert!(is_hop_by_hop("x-mine", &listed));
    assert!(is_hop_by_hop("X-MINE", &listed));
    assert!(!is_hop_by_hop("x-yours", &listed));
}

#[test]
fn websocket_upgrade_is_read_from_the_first_upgrade_field() {
    assert!(is_websocket_upgrade(&map(&[("upgrade", "websocket")])));
    assert!(is_websocket_upgrade(&map(&[("Upgrade", "WebSocket")])));
    assert!(is_websocket_upgrade(&map(&[("upgrade", "websocket"), ("upgrade", "h2c")])));
    assert!(!is_websocket_upgrade(&map(&[("upgrade", "h2c"), ("upgrade", "websocket")])));
    assert!(!is_websocket_upgrade(&map(&[("upgrade", "websocket2")])));
    assert!(!is_websocket_upgrade(&map(&[("upgrade", " websocket, h2c")])));
    assert!(!is_websocket_upgrade(&map(&[("connection", "websocket")])));
    assert!(!is_websocket_upgrade(&HeaderMap::new()));
    let mut odd = HeaderMap::new();
    odd.insert("upgrade", HeaderValue::from_bytes(b"websocket\xff").unwrap());
    assert!(!is_websocket_upgrade(&odd));
}

#[test]
fn request_fields_travel_on_with_the_target_host_last() {
    let headers = map(&[
        ("host", "127.0.0.1:18080"),
        ("accept", "*/*"),
        ("Connection", "keep-alive, X-Secret"),
        ("x-secret", "1"),
        ("keep-alive", "timeout=5"),
        ("cookie", "a=1"),
        ("te", "trailers"),
        ("cookie", "b=2"),
    ]);
    let out = forward_request_headers(&headers, "example.com");
    assert_eq!(
        pairs(&out),
        texts(&[("accept", "*/*"), ("cookie", "a=1"), ("cookie", "b=2"), ("host", "example.com")])
    );
}

#[test]
fn request_values_travel_on_byte_for_byte() {
    let mut headers = HeaderMap::new();
    headers.insert("x-raw", HeaderValue::from_bytes(b"\xe3\x81\x82\xff").unwrap());
    let out = forward_request_headers(&headers, "h:8443");
    assert_eq!(
        pairs(&out),
        vec![
            ("x-raw".to_string(), b"\xe3\x81\x82\xff".to_vec()),
            ("host".to_string(), b"h:8443".to_vec())
        ]
    );
}

#[test]
fn names_that_only_http2_allows_travel_on() {
    let mut headers = map(&[("connection", "x-hop"), ("x-hop", "1")]);
    headers.append(HeaderName::from_static("a\"b"), HeaderValue::from_static("odd"));
    let long = "x".repeat(80);
    headers.append(
        HeaderName::from_bytes(long.as_bytes()).unwrap(),
        HeaderValue::from_static("long"),
    );
    assert_eq!(
        pairs(&forward_response_headers(&headers)),
        texts(&[("a\"b", "odd"), (long.as_str(), "long")])
    );
}

#[test]
fn response_fields_travel_on() {
    let headers = map(&[
        ("content-encoding", "gzip"),
        ("connection", "close, set-cookie2"),
        ("set-cookie", "a=1"),
        ("set-cookie", "b=2"),
        ("set-cookie2", "gone"),
        ("transfer-encoding", "chunked"),
        ("host", "kept"),
    ]);
    let out = forward_response_headers(&headers);
    assert_eq!(
        pairs(&out),
        texts(&[
            ("content-encoding", "gzip"),
            ("set-cookie", "a=1"),
            ("set-cookie", "b=2"),
            ("host", "kept"),
        ])
    );
    // A second hop finds nothing more to drop.
    let mut again = HeaderMap::new();
    for field in &out {
        again.append(
            HeaderName::from_bytes(field.name.as_bytes()).unwrap(),
            HeaderValue::from_bytes(&field.value).unwrap(),
        );
    }
    assert_eq!(forward_response_headers(&again), out);
}

#[test]
fn a_second_hop_changes_nothing_but_the_host() {
    let headers = map(&[
        ("accept", "*/*"),
        ("connection", "x-hop"),
        ("x-hop", "1"),
        ("host", "first"),
        ("cookie", "a"),
    ]);
    let once = forward_request_headers(&headers, "second");
    let mut again = HeaderMap::new();
    for field in &once {
        again.append(
            HeaderName::from_bytes(field.name.as_bytes()).unwrap(),
            HeaderValue::from_bytes(&field.value).unwrap(),
        );
    }
    assert_eq!(
        forward_request_headers(&again, "third"),
        forward_request_headers(&headers, "third")
    );
}

#[test]
fn handshake_fields_are_made_anew() {
    let mut headers = map(&[
        ("host", "127.0.0.1:18080"),
        ("connection", "Upgrade, x-hop"),
        ("upgrade", "websocket"),
        ("sec-websocket-key", "client"),
        ("sec-websocket-version", "8"),
        ("sec-websocket-accept", "nonsense"),
        ("sec-websocket-protocol", "chat"),
        ("sec-websocket-protocol", "superchat"),
        ("sec-websocket-extensions", "permessage-deflate"),
        ("x-hop", "1"),
        ("origin", "http://localhost"),
    ]);
    headers.append("x-raw", HeaderValue::from_bytes(b"\xff").unwrap());
    let out = handshake_headers(&headers, "example.com", "a2V5");
    assert_eq!(
        pairs(&out),
        texts(&[
            ("host", "example.com"),
            ("connection", "Upgrade"),
            ("upgrade", "websocket"),
            ("sec-websocket-version", "13"),
            ("sec-websocket-key", "a2V5"),
            ("sec-websocket-protocol", "chat"),
            ("sec-websocket-protocol", "superchat"),
            ("sec-websocket-extensions", "permessage-deflate"),
            ("origin", "http://localhost"),
        ])
    );
}

#[test]
fn fields_are_picked_by_journey() {
    let field = |name: &str, value: &[u8]| HeaderField {
        name: name.to_string(),
        value: value.to_vec(),
    };
    let fields = vec![
        field("Host", b"h"),
        field("X-Listed", b"1"),
        field("Transfer-Encoding", b"chunked"),
        field("Sec-WebSocket-Key", b"k"),
        field("X-Raw", b"\xff"),
        field("Accept", b"*/*"),
    ];
    let listed = collect_listed(&vec![b"x-listed".to_vec(), b"accept\xff".to_vec()]);
    let names = |journey: Journey| -> Vec<String> {
        pick_fields(&fields, &listed, journey).into_iter().map(|f| f.name).collect()
    };
    assert_eq!(names(Journey::Request), ["Sec-WebSocket-Key", "X-Raw", "Accept"]);
    assert_eq!(names(Journey::Response), ["Host", "Sec-WebSocket-Key", "X-Raw", "Accept"]);
    assert_eq!(names(Journey::Handshake), ["Accept"]);
}

#[test]
fn upgrade_values_are_compared_in_any_case() {
    assert!(says_websocket(b"websocket"));
    assert!(says_websocket(b"WEBsocket"));
    for value in [&b""[..], b"websocket ", b"web socket", b"websocke\x00", b"websoc\xe2\x84\xaaet"] {
        assert!(!says_websocket(value));
    }
}
