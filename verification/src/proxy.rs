//! What becomes of a request: the steps from its arrival to the answer.

use crate::forward::{
    forward_request_headers, forward_response_headers, handshake_entries, handshake_headers,
    request_entries, response_entries,
};
use crate::headers::{
    asks_for_websocket, fields_view, header_entries, is_websocket_upgrade, text_of, HeaderField,
};
use crate::target::{
    build_target_url, build_ws_url, opt_text, path_or_root, target_url, ws_url, AppState,
};
use axum::http::HeaderMap;
use vstd::prelude::*;
use vstd::utf8::encode_utf8;

verus! {

/// Why a request is not answered with a response of the target.
#[derive(Clone, Copy, Debug, PartialEq, Eq, Structural)]
pub enum Failure {
    /// The request has a method that cannot be sent on.
    InvalidMethod,
    /// The request asks for a WebSocket but is not a handshake.
    UpgradeRejected,
    /// The target did not answer.
    UpstreamFailed,
    /// No response could be made of the target's answer.
    InvalidResponse,
}

/// The status code that the client gets for a failure.
pub open spec fn failure_code(failure: Failure) -> u16 {
    match failure {
        Failure::InvalidMethod => 405,
        Failure::UpgradeRejected => 400,
        Failure::UpstreamFailed => 502,
        Failure::InvalidResponse => 500,
    }
}

impl Failure {
    /// The status code that the client gets for this failure.
    pub fn status(self) -> (code: u16)
        ensures
            code == failure_code(self),
            self is InvalidMethod ==> code == 405,
            self is UpgradeRejected ==> code == 400,
            self is UpstreamFailed ==> code == 502,
            self is InvalidResponse ==> code == 500,
    {
        match self {
            Failure::InvalidMethod => 405,
            Failure::UpgradeRejected => 400,
            Failure::UpstreamFailed => 502,
            Failure::InvalidResponse => 500,
        }
    }
}

/// Whether a byte may stand in a method: it is a letter, a digit or one of the
/// marks that a token allows.
pub open spec fn is_token_byte(b: u8) -> bool {
    ||| 48 <= b <= 57
    ||| 65 <= b <= 90
    ||| 97 <= b <= 122
    ||| b == 33
    ||| 35 <= b <= 39
    ||| b == 42
    ||| b == 43
    ||| b == 45
    ||| b == 46
    ||| 94 <= b <= 96
    ||| b == 124
    ||| b == 126
}

/// Whether bytes form a token: there are some, and all of them are allowed.
pub open spec fn is_token(bytes: Seq<u8>) -> bool {
    bytes.len() > 0 && forall|i: int| 0 <= i < bytes.len() ==> is_token_byte(#[trigger] bytes[i])
}

/// Calls `reqwest::Method::from_bytes`, which takes exactly the tokens, and gives
/// back the method's own text.
#[verifier::external_body]
fn parse_method(bytes: &[u8]) -> (method: Option<String>)
    ensures
        match method {
            Some(m) => is_token(bytes@) && m@ == text_of(bytes@),
            None => !is_token(bytes@),
        },
{
    reqwest::Method::from_bytes(bytes).ok().map(|m| m.as_str().to_owned())
}

/// A token is the UTF-8 form of its own text.
proof fn lemma_token_text(method: Seq<char>)
    requires
        is_token(encode_utf8(method)),
    ensures
        text_of(encode_utf8(method)) == method,
{
    let bytes = encode_utf8(method);
    let text = text_of(bytes);
    assert forall|i: int| 0 <= i < text.len() implies '\0' <= #[trigger] text[i] <= '\u{7f}' by {
        assert(is_token_byte(bytes[i]));
    }
    vstd::utf8::is_ascii_chars_encode_utf8(text);
    assert(encode_utf8(text) =~= bytes);
    vstd::utf8::encode_utf8_decode_utf8(text);
    vstd::utf8::encode_utf8_decode_utf8(method);
}

/// A request as it goes to the target.
#[derive(Debug)]
pub struct UpstreamRequest {
    pub method: String,
    pub url: String,
    pub headers: Vec<HeaderField>,
}

/// What is to be done with a request.
#[derive(Debug)]
pub enum Dispatch {
    /// Try to open a WebSocket tunnel.
    Upgrade,
    /// Send this request to the target, with the body of the client's.
    Forward(UpstreamRequest),
}

/// Decides what to do with a request.
pub fn proxy_handler(
    state: &AppState,
    method: &str,
    path_and_query: Option<&str>,
    headers: &HeaderMap,
) -> (outcome: Result<Dispatch, Failure>)
    ensures
        outcome matches Ok(Dispatch::Upgrade) <==> asks_for_websocket(header_entries(*headers)),
        outcome matches Ok(Dispatch::Forward(_)) <==> !asks_for_websocket(header_entries(*headers))
            && is_token(encode_utf8(method@)),
        outcome matches Ok(Dispatch::Forward(request)) ==> {
            &&& request.method@ == method@
            &&& request.url@ == target_url(state.target@, opt_text(path_and_query))
            &&& fields_view(request.headers@) == request_entries(
                header_entries(*headers),
                state.target_host@,
            )
        },
        outcome matches Err(failure) ==> failure is InvalidMethod,
        outcome matches Ok(Dispatch::Forward(request)) ==> match path_and_query {
            Some(pq) => request.url@ == state.target@ + pq@,
            None => request.url@ == state.target@.push('/'),
        },
{
    if is_websocket_upgrade(headers) {
        return Ok(Dispatch::Upgrade);
    }
    match parse_method(method.as_bytes()) {
        Some(m) => {
            proof {
                lemma_token_text(method@);
            }
            Ok(
                Dispatch::Forward(
                    UpstreamRequest {
                        method: m,
                        url: build_target_url(state.target.as_str(), path_and_query),
                        headers: forward_request_headers(headers, state.target_host.as_str()),
                    },
                ),
            )
        },
        None => Err(Failure::InvalidMethod),
    }
}

/// The head of the response that the client gets.
#[derive(Debug)]
pub struct ResponseHead {
    pub status: u16,
    pub headers: Vec<HeaderField>,
}

/// Decides what the client gets, given the target's answer: its status and its
/// header fields, or `None` where the target did not answer.
pub fn proxy_response(answer: Option<(u16, &HeaderMap)>) -> (outcome: Result<
    ResponseHead,
    Failure,
>)
    ensures
        match answer {
            Some((status, headers)) => outcome matches Ok(head) && head.status == status
                && fields_view(head.headers@) == response_entries(header_entries(*headers)),
            None => outcome matches Err(failure) && failure is UpstreamFailed,
        },
{
    match answer {
        Some((status, headers)) => Ok(
            ResponseHead { status, headers: forward_response_headers(headers) },
        ),
        None => Err(Failure::UpstreamFailed),
    }
}

/// Decides what the client gets once its response was put together. `built` is
/// that response, or `None` where none could be made of the head and the body.
pub fn response_built<T>(built: Option<T>) -> (outcome: Result<T, Failure>)
    ensures
        match built {
            Some(response) => outcome == Ok::<T, Failure>(response),
            None => outcome == Err::<T, Failure>(Failure::InvalidResponse),
        },
{
    match built {
        Some(response) => Ok(response),
        None => Err(Failure::InvalidResponse),
    }
}

/// Decides where a WebSocket request goes. `handshake` says whether the request
/// is a handshake that can be accepted.
pub fn ws_proxy(state: &AppState, handshake: bool, path_and_query: Option<&str>) -> (outcome:
    Result<String, Failure>)
    ensures
        match outcome {
            Ok(url) => handshake && url@ == ws_url(
                state.target@,
                path_or_root(opt_text(path_and_query)),
            ),
            Err(failure) => !handshake && failure is UpgradeRejected,
        },
        outcome matches Ok(url) ==> match path_and_query {
            Some(pq) => {
                &&& url@.len() >= pq@.len()
                &&& url@.skip(url@.len() - pq@.len()) == pq@
            },
            None => url@.len() > 0 && url@.last() == '/',
        },
        outcome matches Ok(url) ==> match path_and_query {
            Some(pq) => forall|rest: Seq<char>|
                state.target@ == #[trigger] ("https://"@ + rest) ==> url@ == "wss://"@ + rest
                    + pq@,
            None => forall|rest: Seq<char>|
                state.target@ == #[trigger] ("https://"@ + rest) ==> url@ == "wss://"@ + rest
                    + "/"@,
        },
        outcome matches Ok(url) ==> match path_and_query {
            Some(pq) => forall|rest: Seq<char>|
                state.target@ == #[trigger] ("http://"@ + rest) ==> url@ == "ws://"@ + rest + pq@,
            None => forall|rest: Seq<char>|
                state.target@ == #[trigger] ("http://"@ + rest) ==> url@ == "ws://"@ + rest
                    + "/"@,
        },
{
    proof {
        reveal_strlit("/");
    }
    if !handshake {
        return Err(Failure::UpgradeRejected);
    }
    let path = match path_and_query {
        Some(pq) => pq,
        None => "/",
    };
    Ok(build_ws_url(state.target.as_str(), path))
}

/// A WebSocket handshake as it goes to the target.
#[derive(Debug)]
pub struct HandshakeRequest {
    pub url: String,
    pub headers: Vec<HeaderField>,
}

/// Whether a character belongs to the Base64 alphabet.
pub open spec fn is_base64_char(c: char) -> bool {
    'A' <= c <= 'Z' || 'a' <= c <= 'z' || '0' <= c <= '9' || c == '+' || c == '/'
}

/// Whether a text is the Base64 form of sixteen bytes.
pub open spec fn is_ws_key(key: Seq<char>) -> bool {
    &&& key.len() == 24
    &&& forall|i: int| 0 <= i < 22 ==> is_base64_char(#[trigger] key[i])
    &&& key[22] == '=' && key[23] == '='
}

/// Calls `tungstenite::handshake::client::generate_key`, which gives sixteen
/// random bytes in Base64. Which bytes they are is left open.
#[verifier::external_body]
fn generate_ws_key() -> (key: String)
    ensures
        is_ws_key(key@),
{
    tokio_tungstenite::tungstenite::handshake::client::generate_key()
}

/// What keeps a URL and header fields from making an HTTP request, in words;
/// nothing where they make one.
pub uninterp spec fn request_fault(
    url: Seq<char>,
    fields: Seq<(Seq<char>, Seq<u8>)>,
) -> Option<Seq<char>>;

/// Calls `tungstenite::http::request::Builder` with a URL, all header fields and
/// an empty body, and gives the text of its error, if any. That depends on the
/// URL and the fields alone; how it does is only named.
#[verifier::external_body]
fn find_request_fault(url: &str, fields: &Vec<HeaderField>) -> (fault: Option<String>)
    ensures
        match fault {
            Some(text) => request_fault(url@, fields_view(fields@)) == Some(text@),
            None => request_fault(url@, fields_view(fields@)) is None,
        },
{
    let mut builder = tokio_tungstenite::tungstenite::http::Request::builder().uri(url);
    for field in fields {
        builder = builder.header(field.name.as_str(), field.value.as_slice());
    }
    builder.body(()).err().map(|e| e.to_string())
}

/// The handshake with the target cannot be put into an HTTP request.
#[derive(Debug, PartialEq, Eq)]
pub struct InvalidHandshake {
    /// What is wrong with it.
    pub cause: String,
}

/// Decides on a handshake with the target, given what is wrong with it, if
/// anything.
pub fn check_handshake(request: HandshakeRequest, fault: Option<String>) -> (outcome: Result<
    HandshakeRequest,
    InvalidHandshake,
>)
    ensures
        match fault {
            Some(text) => outcome matches Err(invalid) && invalid.cause == text,
            None => outcome == Ok::<HandshakeRequest, InvalidHandshake>(request),
        },
{
    match fault {
        Some(cause) => Err(InvalidHandshake { cause }),
        None => Ok(request),
    }
}

/// Builds the handshake with the target, with a new key of its own.
pub fn connect_upstream_ws(url: &str, req_headers: &HeaderMap, target_host: &str) -> (outcome:
    Result<HandshakeRequest, InvalidHandshake>)
    ensures
        exists|key: Seq<char>| #[trigger]
            is_ws_key(key) && {
                let fields = handshake_entries(header_entries(*req_headers), target_host@, key);
                match outcome {
                    Ok(request) => request_fault(url@, fields) is None && request.url@ == url@
                        && fields_view(request.headers@) == fields,
                    Err(invalid) => request_fault(url@, fields) == Some(invalid.cause@),
                }
            },
{
    let key = generate_ws_key();
    let headers = handshake_headers(req_headers, target_host, key.as_str());
    let fault = find_request_fault(url, &headers);
    check_handshake(HandshakeRequest { url: url.to_owned(), headers }, fault)
}

/// Each failure has a status code of its own: 405, 400, 502 and 500.
pub proof fn law_failure_codes()
    ensures
        failure_code(Failure::InvalidMethod) == 405,
        failure_code(Failure::UpgradeRejected) == 400,
        failure_code(Failure::UpstreamFailed) == 502,
        failure_code(Failure::InvalidResponse) == 500,
{
}

/// Bytes form a token exactly if there are some and each of them is an ASCII
/// letter, a digit or one of the fifteen marks.
pub proof fn law_tokens(bytes: Seq<u8>)
    ensures
        is_token(bytes) <==> bytes.len() >= 1 && forall|i: int|
            0 <= i < bytes.len() ==> 'a' <= #[trigger] bytes[i] as char <= 'z' || 'A'
                <= bytes[i] as char <= 'Z' || '0' <= bytes[i] as char <= '9'
                || "!#$%&'*+-.^_`|~"@.contains(bytes[i] as char),
{
    reveal_strlit("!#$%&'*+-.^_`|~");
    let marks = "!#$%&'*+-.^_`|~"@;
    assert forall|i: int| 0 <= i < bytes.len() implies is_token_byte(#[trigger] bytes[i]) == ('a'
        <= bytes[i] as char <= 'z' || 'A' <= bytes[i] as char <= 'Z' || '0' <= bytes[i] as char
        <= '9' || marks.contains(bytes[i] as char)) by {
        let c = bytes[i] as char;
        assert(marks[0] == '!' && marks[1] == '#' && marks[2] == '$' && marks[3] == '%');
        assert(marks[4] == '&' && marks[5] == '\'' && marks[6] == '*' && marks[7] == '+');
        assert(marks[8] == '-' && marks[9] == '.' && marks[10] == '^' && marks[11] == '_');
        assert(marks[12] == '`' && marks[13] == '|' && marks[14] == '~');
    }
    if forall|i: int|
        0 <= i < bytes.len() ==> 'a' <= #[trigger] bytes[i] as char <= 'z' || 'A'
            <= bytes[i] as char <= 'Z' || '0' <= bytes[i] as char <= '9' || marks.contains(
            bytes[i] as char,
        ) {
        assert forall|i: int| 0 <= i < bytes.len() implies is_token_byte(#[trigger] bytes[i]) by {
            assert('a' <= bytes[i] as char <= 'z' || 'A' <= bytes[i] as char <= 'Z' || '0'
                <= bytes[i] as char <= '9' || marks.contains(bytes[i] as char));
        }
    }
}

/// A key for a handshake has 24 characters: 22 of the Base64 alphabet and two
/// equals signs.
pub proof fn law_handshake_keys(key: Seq<char>)
    ensures
        is_ws_key(key) <==> key.len() == 24 && key[22] == '=' && key[23] == '=' && forall|i: int|
            0 <= i < 22
                ==> "ABCDEFGHIJKLMNOPQRSTUVWXYZabcdefghijklmnopqrstuvwxyz0123456789+/"@.contains(
                #[trigger] key[i],
            ),
{
    reveal_strlit("ABCDEFGHIJKLMNOPQRSTUVWXYZabcdefghijklmnopqrstuvwxyz0123456789+/");
    let all = "ABCDEFGHIJKLMNOPQRSTUVWXYZabcdefghijklmnopqrstuvwxyz0123456789+/"@;
    assert forall|i: int| 0 <= i < key.len() implies is_base64_char(#[trigger] key[i])
        == all.contains(key[i]) by {
        let c = key[i];
        if 'A' <= c <= 'Z' {
            assert(all[c as int - 'A' as int] == c);
        } else if 'a' <= c <= 'z' {
            assert(all[26 + (c as int - 'a' as int)] == c);
        } else if '0' <= c <= '9' {
            assert(all[52 + (c as int - '0' as int)] == c);
        } else if c == '+' {
            assert(all[62] == c);
        } else if c == '/' {
            assert(all[63] == c);
        }
    }
}

} // verus!
