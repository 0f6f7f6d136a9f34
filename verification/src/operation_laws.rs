//! What the operations give back, told of their arguments and results: whatever a
//! call returns has these properties.

use crate::cli::{
    build_client, plan_servers, Cli, ClientPolicy, ListenAddr, Servers, StartupError,
};
use crate::forward::{
    forward_request_headers, forward_response_headers, handshake_entries, handshake_headers,
    pick_fields, travels_on, Entry, Journey,
};
use crate::forward_laws::{
    law_fields_that_travel_on, law_handshake_own_fields, law_handshake_passes_the_rest,
    law_request_values, law_response_values, lemma_filter_alike, visible_values,
};
use crate::headers::{
    collect_listed, connection_listed_headers, connection_lists, fields_view, header_entries,
    is_hop_by_hop, is_hop_by_hop_exact, is_visible, is_websocket_upgrade, list_has,
    says_websocket, text_of, values_list, values_of, values_view, HeaderField,
};
use crate::headers_laws::{
    law_first_upgrade_field_decides, law_listing_depends_on_connection_values,
    law_no_upgrade_field_no_websocket,
    law_same_upgrade_values_same_decision,
};
use crate::lifecycle::{
    shutdown_handler, shutdown_signal, stdin_closed, wait_for_port, PortAction, PortEvent,
    PortWait, ShutdownEvent, ShutdownReply,
};
use crate::proxy::{
    check_handshake, connect_upstream_ws, is_ws_key, law_tokens, proxy_handler, proxy_response,
    request_fault, response_built, ws_proxy, Dispatch, Failure, HandshakeRequest, InvalidHandshake, ResponseHead,
};
use crate::target::{build_target_url, build_ws_url, extract_host, AppState};
use crate::target_laws::{
    law_host_is_found, law_path_is_taken_as_it_is, law_slashes_behind_base_do_not_matter,
    law_ws_url_keeps_path_and_query,
};
use crate::text::{ascii_lower, lower};
use crate::text_laws::law_lowering_by_characters;
use crate::tunnel::{
    axum_to_tung, tung_to_axum, tunnel_ws, ClientMessage, TunnelAction, TunnelEvent, TunnelState,
    UpstreamMessage,
};
use axum::http::HeaderMap;
use vstd::hash_set::StringHashSet;
use vstd::prelude::*;
use vstd::utf8::{encode_utf8, is_ascii_chars};

verus! {

/// A message of the client becomes the same message for the upstream leg, whatever
/// its payload, its code and its reason; only a pong becomes none.
pub proof fn law_client_message_turned(msg: ClientMessage, out: Option<UpstreamMessage>)
    requires
        call_ensures(axum_to_tung, (msg,), out),
    ensures
        out is None <==> msg is Pong,
        match msg {
            ClientMessage::Text(text) => out == Some(UpstreamMessage::Text(text)),
            ClientMessage::Binary(bytes) => out == Some(UpstreamMessage::Binary(bytes)),
            ClientMessage::Ping(payload) => out == Some(UpstreamMessage::Ping(payload)),
            ClientMessage::Pong(_) => true,
            ClientMessage::Close(frame) => out == Some(UpstreamMessage::Close(frame)),
        },
{
}

/// A message from upstream becomes the same message for the client leg, whatever
/// its payload, its code and its reason; only a pong and a raw frame become none.
pub proof fn law_upstream_message_turned(msg: UpstreamMessage, out: Option<ClientMessage>)
    requires
        call_ensures(tung_to_axum, (msg,), out),
    ensures
        out is None <==> msg is Pong || msg is Frame,
        match msg {
            UpstreamMessage::Text(text) => out == Some(ClientMessage::Text(text)),
            UpstreamMessage::Binary(bytes) => out == Some(ClientMessage::Binary(bytes)),
            UpstreamMessage::Ping(payload) => out == Some(ClientMessage::Ping(payload)),
            UpstreamMessage::Close(frame) => out == Some(ClientMessage::Close(frame)),
            _ => true,
        },
{
}

/// What went to the other leg comes back as it was: turning a message and turning
/// it back loses nothing.
pub proof fn law_turning_back_gives_the_message(
    msg: ClientMessage,
    there: UpstreamMessage,
    back: Option<ClientMessage>,
)
    requires
        call_ensures(axum_to_tung, (msg,), Some(there)),
        call_ensures(tung_to_axum, (there,), back),
    ensures
        back == Some(msg),
{
}

/// A waiting tunnel that gets a message from one leg sends that message to the
/// other leg, or goes on waiting where it is a pong or a raw frame; if it is a
/// Close message the tunnel will not wait again.
pub proof fn law_waiting_tunnel_sends_messages_on(
    from_client: ClientMessage,
    from_upstream: UpstreamMessage,
    up: Option<(TunnelState, TunnelAction)>,
    down: Option<(TunnelState, TunnelAction)>,
)
    requires
        call_ensures(tunnel_ws, (TunnelState::Relaying, TunnelEvent::FromClient(from_client)), up),
        call_ensures(
            tunnel_ws,
            (TunnelState::Relaying, TunnelEvent::FromUpstream(from_upstream)),
            down,
        ),
    ensures
        match from_client {
            ClientMessage::Text(text) => up == Some(
                (
                    TunnelState::SendingUpstream { closing: false },
                    TunnelAction::SendUpstream(UpstreamMessage::Text(text)),
                ),
            ),
            ClientMessage::Binary(bytes) => up == Some(
                (
                    TunnelState::SendingUpstream { closing: false },
                    TunnelAction::SendUpstream(UpstreamMessage::Binary(bytes)),
                ),
            ),
            ClientMessage::Ping(payload) => up == Some(
                (
                    TunnelState::SendingUpstream { closing: false },
                    TunnelAction::SendUpstream(UpstreamMessage::Ping(payload)),
                ),
            ),
            ClientMessage::Pong(_) => up == Some((TunnelState::Relaying, TunnelAction::Await)),
            ClientMessage::Close(frame) => up == Some(
                (
                    TunnelState::SendingUpstream { closing: true },
                    TunnelAction::SendUpstream(UpstreamMessage::Close(frame)),
                ),
            ),
        },
        match from_upstream {
            UpstreamMessage::Text(text) => down == Some(
                (
                    TunnelState::SendingClient { closing: false },
                    TunnelAction::SendClient(ClientMessage::Text(text)),
                ),
            ),
            UpstreamMessage::Binary(bytes) => down == Some(
                (
                    TunnelState::SendingClient { closing: false },
                    TunnelAction::SendClient(ClientMessage::Binary(bytes)),
                ),
            ),
            UpstreamMessage::Ping(payload) => down == Some(
                (
                    TunnelState::SendingClient { closing: false },
                    TunnelAction::SendClient(ClientMessage::Ping(payload)),
                ),
            ),
            UpstreamMessage::Pong(_) => down == Some((TunnelState::Relaying, TunnelAction::Await)),
            UpstreamMessage::Frame => down == Some((TunnelState::Relaying, TunnelAction::Await)),
            UpstreamMessage::Close(frame) => down == Some(
                (
                    TunnelState::SendingClient { closing: true },
                    TunnelAction::SendClient(ClientMessage::Close(frame)),
                ),
            ),
        },
{
}

/// What a tunnel does about a failure of the upstream leg: the client gets a Close
/// message with the code 1011 and a reason that tells how the leg failed.
pub proof fn law_tunnel_reports_failures(
    state: TunnelState,
    event: TunnelEvent,
    step: Option<(TunnelState, TunnelAction)>,
)
    requires
        call_ensures(tunnel_ws, (state, event), step),
        (state is Relaying && (event is UpstreamError || event is UpstreamEnded)) || (event
            is SendFailed && (state is SendingUpstream || state is PingingUpstream)),
    ensures
        match step {
            Some(
                (
                    TunnelState::NotifyingClient,
                    TunnelAction::SendClient(ClientMessage::Close(Some(frame))),
                ),
            ) => frame.code == 1011 && frame.reason@ == if event is UpstreamError {
                "upstream error"@
            } else if event is UpstreamEnded {
                "upstream closed"@
            } else if state is PingingUpstream {
                "upstream ping failed"@
            } else {
                "upstream send failed"@
            },
            _ => false,
        },
{
}

/// What a tunnel does about all other events: it answers the timer with pings to
/// both legs, waits again after a send unless it is closing, and otherwise closes
/// the upstream leg and ends.
pub proof fn law_tunnel_steps(
    state: TunnelState,
    event: TunnelEvent,
    step: Option<(TunnelState, TunnelAction)>,
)
    requires
        call_ensures(tunnel_ws, (state, event), step),
    ensures
        state is Relaying && event is KeepaliveTick ==> match step {
            Some(
                (
                    TunnelState::PingingUpstream,
                    TunnelAction::SendUpstream(UpstreamMessage::Ping(payload)),
                ),
            ) => payload@.len() == 0,
            _ => false,
        },
        state is PingingUpstream && event is Sent ==> match step {
            Some(
                (
                    TunnelState::PingingClient,
                    TunnelAction::SendClient(ClientMessage::Ping(payload)),
                ),
            ) => payload@.len() == 0,
            _ => false,
        },
        event is Sent && (state == TunnelState::SendingUpstream { closing: false } || state
            == TunnelState::SendingClient { closing: false } || state is PingingClient) ==> step
            == Some((TunnelState::Relaying, TunnelAction::Await)),
        event is Sent && (state == TunnelState::SendingUpstream { closing: true } || state
            == TunnelState::SendingClient { closing: true } || state is NotifyingClient) ==> step
            == Some((TunnelState::ClosingUpstream, TunnelAction::CloseUpstream)),
        event is SendFailed && (state is SendingClient || state is PingingClient || state
            is NotifyingClient) ==> step == Some(
            (TunnelState::ClosingUpstream, TunnelAction::CloseUpstream),
        ),
        event is ClientGone && state is Relaying ==> step == Some(
            (TunnelState::ClosingUpstream, TunnelAction::CloseUpstream),
        ),
        state is ClosingUpstream && (event is Sent || event is SendFailed) ==> step == Some(
            (TunnelState::Done, TunnelAction::Finish),
        ),
        step is None <==> state is Done || (state is Relaying) == (event is Sent || event
            is SendFailed),
{
}

/// A name stays on its hop exactly if it is one of nine or one of those listed.
pub proof fn law_nine_and_listed_names_stay(name: &str, extra: &StringHashSet, stays: bool)
    requires
        call_ensures(is_hop_by_hop_exact, (name, extra), stays),
    ensures
        stays <==> seq![
            "connection"@,
            "keep-alive"@,
            "proxy-authenticate"@,
            "proxy-authorization"@,
            "te"@,
            "trailers"@,
            "transfer-encoding"@,
            "upgrade"@,
            "proxy-connection"@,
        ].contains(name@) || extra@.contains(name@),
{
}

/// An ASCII name in any case stays on its hop exactly if the name with small
/// letters in place of its capital ones is one of nine or one of those listed.
pub proof fn law_names_stay_in_any_case(
    name: &str,
    small: Seq<char>,
    extra: &StringHashSet,
    stays: bool,
)
    requires
        call_ensures(is_hop_by_hop, (name, extra), stays),
        is_ascii_chars(name@),
        small.len() == name@.len(),
        forall|i: int|
            0 <= i < small.len() ==> if 'A' <= name@[i] <= 'Z' {
                #[trigger] small[i] as int == name@[i] as int + 32
            } else {
                small[i] == name@[i]
            },
    ensures
        stays <==> seq![
            "connection"@,
            "keep-alive"@,
            "proxy-authenticate"@,
            "proxy-authorization"@,
            "te"@,
            "trailers"@,
            "transfer-encoding"@,
            "upgrade"@,
            "proxy-connection"@,
        ].contains(small) || extra@.contains(small),
{
    assert forall|i: int| 0 <= i < small.len() implies small[i] == #[trigger] ascii_lower(
        name@,
    )[i] by {
        law_lowering_by_characters(name@);
    }
    assert(small =~= lower(name@));
}

/// A name is collected exactly if some visible value has it as an item of its
/// list.
pub proof fn law_listed_names_are_collected(
    values: &Vec<Vec<u8>>,
    listed: StringHashSet,
    name: Seq<char>,
)
    requires
        call_ensures(collect_listed, (values,), listed),
    ensures
        listed@.contains(name) <==> exists|k: int|
            {
                &&& 0 <= k < values@.len()
                &&& forall|j: int|
                    0 <= j < values@[k]@.len() ==> 32 <= #[trigger] values@[k]@[j] <= 126
                        || values@[k]@[j] == 9
                &&& list_has(text_of((#[trigger] values@[k])@), name)
            },
{
    let found = values_view(values@);
    assert(listed@.contains(name) <==> values_list(found, name));
    if values_list(found, name) {
        let k = choose|k: int|
            0 <= k < found.len() && is_visible(#[trigger] found[k]) && list_has(
                text_of(found[k]),
                name,
            );
        assert(found[k] == values@[k]@);
    }
    assert forall|k: int|
        {
            &&& 0 <= k < values@.len()
            &&& forall|j: int|
                0 <= j < values@[k]@.len() ==> 32 <= #[trigger] values@[k]@[j] <= 126
                    || values@[k]@[j] == 9
            &&& list_has(text_of((#[trigger] values@[k])@), name)
        } implies values_list(found, name) by {
        assert(found[k] == values@[k]@);
    }
}

/// Two header maps with the same values under `connection` have the same names
/// tied to the connection, and these are the names that one of these values has as
/// an item of its list.
pub proof fn law_connection_values_list_names(
    headers: &HeaderMap,
    others: &HeaderMap,
    listed: StringHashSet,
    listed_too: StringHashSet,
    name: Seq<char>,
)
    requires
        call_ensures(connection_listed_headers, (headers,), listed),
        call_ensures(connection_listed_headers, (others,), listed_too),
        values_of(header_entries(*headers), "connection"@) == values_of(
            header_entries(*others),
            "connection"@,
        ),
    ensures
        listed@.contains(name) == listed_too@.contains(name),
        listed@.contains(name) == connection_lists(header_entries(*headers), name),
{
    law_listing_depends_on_connection_values(
        header_entries(*headers),
        header_entries(*others),
        name,
    );
}

/// A value counts as `websocket` exactly if it is that word, letter by letter,
/// small or capital.
pub proof fn law_websocket_is_recognised(value: &[u8], says: bool)
    requires
        call_ensures(says_websocket, (value,), says),
    ensures
        says <==> value@.len() == 9 && forall|k: int|
            0 <= k < 9 ==> #[trigger] value@[k] as char == "websocket"@[k] || value@[k] as char
                == "WEBSOCKET"@[k],
{
}

/// A request is dispatched as an upgrade exactly if its first field named
/// `upgrade` says `websocket` in any case, whatever its method, its path and its
/// other fields; without such a field it is not.
pub proof fn law_upgrade_field_decides_dispatch(
    state: &AppState,
    method: &str,
    path_and_query: Option<&str>,
    headers: &HeaderMap,
    asks: bool,
    outcome: Result<Dispatch, Failure>,
    i: int,
)
    requires
        call_ensures(is_websocket_upgrade, (headers,), asks),
        call_ensures(proxy_handler, (state, method, path_and_query, headers), outcome),
        0 <= i <= header_entries(*headers).len(),
        forall|j: int| 0 <= j < i ==> (#[trigger] header_entries(*headers)[j]).0 != "upgrade"@,
        i < header_entries(*headers).len() ==> header_entries(*headers)[i].0 == "upgrade"@,
    ensures
        asks <==> outcome matches Ok(Dispatch::Upgrade),
        asks <==> i < header_entries(*headers).len() && {
            let value = header_entries(*headers)[i].1;
            value.len() == 9 && forall|k: int|
                0 <= k < 9 ==> #[trigger] value[k] as char == "websocket"@[k] || value[k] as char
                    == "WEBSOCKET"@[k]
        },
{
    let entries = header_entries(*headers);
    if i < entries.len() {
        law_first_upgrade_field_decides(entries, i);
    } else {
        law_no_upgrade_field_no_websocket(entries);
    }
}

/// Two requests with the same values under `upgrade` are decided alike, whatever
/// other fields they have.
pub proof fn law_upgrade_values_decide_alone(
    headers: &HeaderMap,
    others: &HeaderMap,
    asks: bool,
    asks_too: bool,
)
    requires
        call_ensures(is_websocket_upgrade, (headers,), asks),
        call_ensures(is_websocket_upgrade, (others,), asks_too),
        values_of(header_entries(*headers), "upgrade"@) == values_of(
            header_entries(*others),
            "upgrade"@,
        ),
    ensures
        asks == asks_too,
{
    law_same_upgrade_values_same_decision(header_entries(*headers), header_entries(*others));
}

/// A request that is no upgrade is sent on with its own method, at the base URL
/// followed by its whole path and query. It fails only where its method is no
/// token.
pub proof fn law_forwarded_request(
    state: &AppState,
    method: &str,
    path_and_query: Option<&str>,
    headers: &HeaderMap,
    asks: bool,
    outcome: Result<Dispatch, Failure>,
)
    requires
        call_ensures(is_websocket_upgrade, (headers,), asks),
        call_ensures(proxy_handler, (state, method, path_and_query, headers), outcome),
    ensures
        outcome is Err <==> !asks && !{
            let bytes = encode_utf8(method@);
            bytes.len() >= 1 && forall|i: int|
                0 <= i < bytes.len() ==> 'a' <= #[trigger] bytes[i] as char <= 'z' || 'A'
                    <= bytes[i] as char <= 'Z' || '0' <= bytes[i] as char <= '9'
                    || "!#$%&'*+-.^_`|~"@.contains(bytes[i] as char)
        },
        outcome matches Err(failure) ==> failure is InvalidMethod,
        outcome matches Ok(Dispatch::Forward(request)) ==> {
            &&& request.method@ == method@
            &&& request.url@.take(state.target@.len() as int) == state.target@
            &&& match path_and_query {
                Some(pq) => request.url@.skip(state.target@.len() as int) == pq@,
                None => request.url@.skip(state.target@.len() as int) == seq!['/'],
            }
        },
{
    law_tokens(encode_utf8(method@));
    if let Ok(Dispatch::Forward(request)) = outcome {
        let base = state.target@;
        assert(request.url@.take(base.len() as int) =~= base);
        match path_and_query {
            Some(pq) => {
                assert(request.url@.skip(base.len() as int) =~= pq@);
            },
            None => {
                assert(request.url@.skip(base.len() as int) =~= seq!['/']);
            },
        }
    }
}

/// What a request carries to the target under a name: all values that came with
/// it, in order, unless the name is `host`, one of the nine or listed by a
/// `Connection` field; under `host`, the target's host.
pub proof fn law_request_fields_sent_on(
    state: &AppState,
    method: &str,
    path_and_query: Option<&str>,
    headers: &HeaderMap,
    host: &str,
    outcome: Result<Dispatch, Failure>,
    out: Vec<HeaderField>,
    name: Seq<char>,
)
    requires
        call_ensures(proxy_handler, (state, method, path_and_query, headers), outcome),
        call_ensures(forward_request_headers, (headers, host), out),
        host@ == state.target_host@,
    ensures
        outcome matches Ok(Dispatch::Forward(request)) ==> fields_view(request.headers@)
            == fields_view(out@),
        values_of(fields_view(out@), name) == if name == "host"@ {
            seq![encode_utf8(state.target_host@)]
        } else if seq![
            "connection"@,
            "keep-alive"@,
            "proxy-authenticate"@,
            "proxy-authorization"@,
            "te"@,
            "trailers"@,
            "transfer-encoding"@,
            "upgrade"@,
            "proxy-connection"@,
        ].contains(name) || connection_lists(header_entries(*headers), name) {
            Seq::<Seq<u8>>::empty()
        } else {
            values_of(header_entries(*headers), name)
        },
{
    law_request_values(header_entries(*headers), state.target_host@, name);
}

/// What a response carries to the client: the target's status and, under every
/// name that is none of the nine and that no `Connection` field lists, all values
/// that came with it, in order. Without an answer of the target it fails.
pub proof fn law_response_sent_back(
    status: u16,
    headers: &HeaderMap,
    outcome: Result<ResponseHead, Failure>,
    unanswered: Result<ResponseHead, Failure>,
    out: Vec<HeaderField>,
    name: Seq<char>,
)
    requires
        call_ensures(proxy_response, (Some((status, headers)),), outcome),
        call_ensures(proxy_response, (None::<(u16, &HeaderMap)>,), unanswered),
        call_ensures(forward_response_headers, (headers,), out),
    ensures
        unanswered matches Err(failure) && failure is UpstreamFailed,
        outcome matches Ok(head) && head.status == status && fields_view(head.headers@)
            == fields_view(out@),
        values_of(fields_view(out@), name) == if seq![
            "connection"@,
            "keep-alive"@,
            "proxy-authenticate"@,
            "proxy-authorization"@,
            "te"@,
            "trailers"@,
            "transfer-encoding"@,
            "upgrade"@,
            "proxy-connection"@,
        ].contains(name) || connection_lists(header_entries(*headers), name) {
            Seq::<Seq<u8>>::empty()
        } else {
            values_of(header_entries(*headers), name)
        },
{
    law_response_values(header_entries(*headers), name);
}

/// What a handshake carries to the target: its own host, upgrade, version and key,
/// each once, and under every other name that is none of the nine and that no
/// `Connection` field lists, all visible values that came with the request.
pub proof fn law_handshake_fields_sent_on(
    headers: &HeaderMap,
    target_host: &str,
    key: &str,
    out: Vec<HeaderField>,
    name: Seq<char>,
)
    requires
        call_ensures(handshake_headers, (headers, target_host, key), out),
    ensures
        values_of(fields_view(out@), "host"@) == seq![encode_utf8(target_host@)],
        values_of(fields_view(out@), "connection"@) == seq![encode_utf8("Upgrade"@)],
        values_of(fields_view(out@), "upgrade"@) == seq![encode_utf8("websocket"@)],
        values_of(fields_view(out@), "sec-websocket-version"@) == seq![encode_utf8("13"@)],
        values_of(fields_view(out@), "sec-websocket-key"@) == seq![encode_utf8(key@)],
        values_of(fields_view(out@), "sec-websocket-accept"@) == Seq::<Seq<u8>>::empty(),
        name != "host"@ && name != "sec-websocket-key"@ && name != "sec-websocket-version"@ && name
            != "sec-websocket-accept"@ && !seq![
            "connection"@,
            "keep-alive"@,
            "proxy-authenticate"@,
            "proxy-authorization"@,
            "te"@,
            "trailers"@,
            "transfer-encoding"@,
            "upgrade"@,
            "proxy-connection"@,
        ].contains(name) && !connection_lists(header_entries(*headers), name) ==> values_of(
            fields_view(out@),
            name,
        ) == visible_values(header_entries(*headers), name),
{
    let entries = header_entries(*headers);
    law_handshake_own_fields(entries, target_host@, key@);
    if name != "host"@ && name != "sec-websocket-key"@ && name != "sec-websocket-version"@ && name
        != "sec-websocket-accept"@ && !seq![
        "connection"@,
        "keep-alive"@,
        "proxy-authenticate"@,
        "proxy-authorization"@,
        "te"@,
        "trailers"@,
        "transfer-encoding"@,
        "upgrade"@,
        "proxy-connection"@,
    ].contains(name) && !connection_lists(entries, name) {
        law_handshake_passes_the_rest(entries, target_host@, key@, name);
    }
}

/// The URL of a plain request is the base URL followed by the whole path and
/// query, so two requests with different ones get different URLs.
pub proof fn law_plain_url_holds_whole_path(
    target: &str,
    path_and_query: &str,
    other: &str,
    url: String,
    other_url: String,
    root: String,
)
    requires
        call_ensures(build_target_url, (target, Some(path_and_query)), url),
        call_ensures(build_target_url, (target, Some(other)), other_url),
        call_ensures(build_target_url, (target, None::<&str>), root),
    ensures
        url@.len() == target@.len() + path_and_query@.len(),
        url@.take(target@.len() as int) == target@,
        url@.skip(target@.len() as int) == path_and_query@,
        url@ == other_url@ ==> path_and_query@ == other@,
        root@ == target@.push('/'),
{
    let n = target@.len() as int;
    assert(url@.take(n) =~= target@);
    assert(url@.skip(n) =~= path_and_query@);
    assert(other_url@.skip(n) =~= other@);
}

/// The URL of a WebSocket request is the base URL with `wss` for `https` or `ws`
/// for `http`, followed by the whole path and query, so two requests with
/// different ones get different URLs.
pub proof fn law_ws_url_holds_whole_path(
    target: &str,
    path_and_query: &str,
    other: &str,
    url: String,
    other_url: String,
    rest: Seq<char>,
)
    requires
        call_ensures(build_ws_url, (target, path_and_query), url),
        call_ensures(build_ws_url, (target, other), other_url),
    ensures
        target@ == "https://"@ + rest ==> url@ == "wss://"@ + rest + path_and_query@,
        target@ == "http://"@ + rest ==> url@ == "ws://"@ + rest + path_and_query@,
        url@.len() >= path_and_query@.len(),
        url@.skip(url@.len() - path_and_query@.len()) == path_and_query@,
        url@ == other_url@ ==> path_and_query@ == other@,
{
    law_ws_url_keeps_path_and_query(target@, path_and_query@);
    law_ws_url_keeps_path_and_query(target@, other@);
}

/// A WebSocket request goes to the WebSocket URL of its own path and query, or of
/// the root where it has none, exactly if it is a handshake; otherwise it is
/// rejected.
pub proof fn law_ws_request_goes_to_its_url(
    state: &AppState,
    handshake: bool,
    path_and_query: Option<&str>,
    target: &str,
    path: &str,
    url: String,
    outcome: Result<String, Failure>,
)
    requires
        call_ensures(ws_proxy, (state, handshake, path_and_query), outcome),
        call_ensures(build_ws_url, (target, path), url),
        target@ == state.target@,
        match path_and_query {
            Some(pq) => path@ == pq@,
            None => path@ == seq!['/'],
        },
    ensures
        outcome is Ok <==> handshake,
        outcome matches Ok(got) ==> got@ == url@,
        outcome matches Err(failure) ==> failure is UpgradeRejected,
{
    law_path_is_taken_as_it_is(path@, path);
}

/// The host is read out of every URL that has one: behind the scheme and any user
/// information, up to what begins a path, a query or a fragment. No host is read
/// out of anything without the scheme of HTTP.
pub proof fn law_host_is_read(
    url: &str,
    found: Option<String>,
    scheme: Seq<char>,
    user: Seq<char>,
    host: Seq<char>,
    tail: Seq<char>,
)
    requires
        call_ensures(extract_host, (url,), found),
        scheme == "https://"@ || scheme == "http://"@,
        user.len() == 0 || user.last() == '@',
        forall|j: int|
            0 <= j < user.len() ==> #[trigger] user[j] != '/' && user[j] != '?' && user[j] != '#',
        forall|j: int|
            0 <= j < host.len() ==> #[trigger] host[j] != '/' && host[j] != '?' && host[j] != '#'
                && host[j] != '@',
        tail.len() == 0 || tail[0] == '/' || tail[0] == '?' || tail[0] == '#',
    ensures
        url@ == scheme + user + host + tail ==> found is Some && found.unwrap()@ == host,
        found is Some <==> "https://"@.is_prefix_of(url@) || "http://"@.is_prefix_of(url@),
{
    law_host_is_found(scheme, user, host, tail);
}

/// A base URL is used without the slashes behind it, and with the host in it,
/// whatever their number.
pub proof fn law_state_of_base_url(
    target: &str,
    base: &str,
    n: nat,
    state: Option<AppState>,
    host: Option<String>,
)
    requires
        call_ensures(AppState::new, (target,), state),
        call_ensures(extract_host, (base,), host),
        base@.len() == 0 || base@.last() != '/',
        target@ == base@ + Seq::new(n, |i: int| '/'),
    ensures
        state is Some <==> host is Some,
        state matches Some(s) ==> s.target@ == base@ && s.target_host@ == host.unwrap()@,
{
    law_slashes_behind_base_do_not_matter(base@, n);
}

/// Whenever servers are planned: the first one has the target and the listen
/// address of the command line. There is a second one exactly if a second target
/// is given, and that is its target, with or without a second listen address,
/// which is its address where it is given.
pub proof fn law_planned_servers(
    cli: &Cli,
    listen: Option<ListenAddr>,
    listen2: Option<ListenAddr>,
    plan: Result<Servers, StartupError>,
)
    requires
        call_ensures(plan_servers, (cli, listen, listen2), plan),
    ensures
        plan matches Ok(servers) ==> {
            &&& servers.primary.target@ == cli.target@
            &&& listen == Some(servers.primary.addr)
            &&& servers.secondary is Some <==> cli.target2 is Some
            &&& servers.secondary matches Some(server) ==> server.target@ == cli.target2.unwrap()@
            &&& servers.secondary matches Some(server) ==> cli.listen2 is Some ==> listen2 == Some(
                server.addr,
            )
        },
        listen is None ==> plan == Err::<Servers, StartupError>(StartupError::InvalidListen),
        listen is Some && cli.target2 is None ==> plan is Ok,
        listen is Some && cli.target2 is Some && cli.listen2 is Some ==> if listen2 is Some {
            plan is Ok
        } else {
            plan == Err::<Servers, StartupError>(StartupError::InvalidListen2)
        },
{
}

/// Without a second listen address the second server takes the next port on the
/// first one's host; servers cannot be planned where there is no next port.
pub proof fn law_planned_next_port(
    cli: &Cli,
    first: ListenAddr,
    listen2: Option<ListenAddr>,
    plan: Result<Servers, StartupError>,
    next: Option<ListenAddr>,
)
    requires
        cli.target2 is Some,
        cli.listen2 is None,
        call_ensures(plan_servers, (cli, Some(first), listen2), plan),
        call_ensures(ListenAddr::next_port, (&first,), next),
    ensures
        match plan {
            Ok(servers) => servers.secondary is Some && next == Some(
                servers.secondary.unwrap().addr,
            ),
            Err(error) => next is None && error == (StartupError::NoNextPort { port: 65535 }),
        },
        match (first, next) {
            (ListenAddr::V4 { ip, port }, Some(ListenAddr::V4 { ip: same, port: after })) => same
                == ip && after == port + 1,
            (
                ListenAddr::V6 { ip6, port, .. },
                Some(ListenAddr::V6 { ip6: same, port: after, flowinfo, scope_id }),
            ) => same == ip6 && after == port + 1 && flowinfo == 0 && scope_id == 0,
            (ListenAddr::V4 { port, .. }, None) => port == 65535,
            (ListenAddr::V6 { port, .. }, None) => port == 65535,
            _ => false,
        },
{
}

/// Requests to the first target have the timeout of the command line; those to the
/// second target, if there is one, have the second timeout where it is given, and
/// that of the first target where it is not. Zero stands for none.
pub proof fn law_timeouts_of_targets(
    cli: &Cli,
    policies: (ClientPolicy, Option<ClientPolicy>),
    secs: u64,
    policy: ClientPolicy,
)
    requires
        call_ensures(Cli::client_policies, (cli,), policies),
        call_ensures(build_client, (secs,), policy),
    ensures
        policy.timeout_secs is None <==> secs == 0,
        secs != 0 ==> policy.timeout_secs == Some(secs),
        !policy.follow_redirects && !policy.decompress,
        secs == cli.timeout ==> policies.0 == policy,
        policies.1 is Some <==> cli.target2 is Some,
        cli.target2 is Some && cli.timeout2 is None ==> policies.1 == Some(policies.0),
        cli.target2 is Some && cli.timeout2 == Some(secs) ==> policies.1 == Some(policy),
{
}

/// The wait for a port serves exactly when it gets the port, sleeps when the port
/// is in use and tries again after the pause. It leaves when standard input closes
/// or a shutdown is requested, and gives up when the port cannot be had. Only the
/// first pause and only a port that was in use before are announced.
pub proof fn law_wait_for_port_steps(
    state: PortWait,
    event: PortEvent,
    step: Option<(PortWait, PortAction)>,
)
    requires
        call_ensures(wait_for_port, (state, event), step),
    ensures
        state matches PortWait::Binding { dormant } ==> match event {
            PortEvent::Bound => step == Some(
                (PortWait::Over, PortAction::Serve { announce: dormant }),
            ),
            PortEvent::InUse => step == Some(
                (PortWait::Sleeping, PortAction::Sleep { announce: !dormant }),
            ),
            PortEvent::BindFailed => step == Some((PortWait::Over, PortAction::Abort)),
            _ => step is None,
        },
        state is Sleeping ==> match event {
            PortEvent::PauseOver => step == Some(
                (PortWait::Binding { dormant: true }, PortAction::Bind),
            ),
            PortEvent::StdinClosed => step == Some((PortWait::Over, PortAction::Leave)),
            PortEvent::ShutdownRequested => step == Some((PortWait::Over, PortAction::Leave)),
            _ => step is None,
        },
        state is Over ==> step is None,
{
}

/// Standard input counts as closed exactly if a read from it failed or gave
/// nothing. Every event but the lack of a way to watch for termination shuts a
/// serving proxy down, and a shutdown request is answered with success.
pub proof fn law_shutdown(
    read: Option<usize>,
    closed: bool,
    event: ShutdownEvent,
    stop: bool,
    reply: ShutdownReply,
)
    requires
        call_ensures(stdin_closed, (read,), closed),
        call_ensures(shutdown_signal, (event,), stop),
        call_ensures(shutdown_handler, (), reply),
    ensures
        read matches Some(n) ==> (closed <==> n == 0),
        read is None ==> closed,
        event is Interrupt || event is Terminate || event is Requested || event is StdinClosed
            ==> stop,
        event is TerminateUnavailable ==> !stop,
        reply.shut_down && reply.status == 200,
{
}

/// Each failure has its own status code, and a response that could not be put
/// together is one of them.
pub proof fn law_failures_are_answered(
    failure: Failure,
    code: u16,
    built: Option<u64>,
    outcome: Result<u64, Failure>,
)
    requires
        call_ensures(Failure::status, (failure,), code),
        call_ensures(response_built::<u64>, (built,), outcome),
    ensures
        failure is InvalidMethod ==> code == 405,
        failure is UpgradeRejected ==> code == 400,
        failure is UpstreamFailed ==> code == 502,
        failure is InvalidResponse ==> code == 500,
        built matches Some(response) ==> outcome == Ok::<u64, Failure>(response),
        built is None ==> outcome == Err::<u64, Failure>(Failure::InvalidResponse),
{
}

/// A handshake goes to the target as it is, or fails with what is wrong with it.
pub proof fn law_handshake_is_checked(
    request: HandshakeRequest,
    fault: Option<String>,
    outcome: Result<HandshakeRequest, InvalidHandshake>,
)
    requires
        call_ensures(check_handshake, (request, fault), outcome),
    ensures
        fault is None ==> outcome == Ok::<HandshakeRequest, InvalidHandshake>(request),
        fault matches Some(text) ==> outcome matches Err(invalid) && invalid.cause == text,
{
}

/// The handshake with the target goes to the URL that is asked for. It names the
/// target's host, asks for a WebSocket and has a key of sixteen bytes in Base64,
/// each once, and carries all visible values of the other fields on, unless they
/// belong to one hop.
pub proof fn law_upstream_handshake(
    url: &str,
    headers: &HeaderMap,
    target_host: &str,
    outcome: Result<HandshakeRequest, InvalidHandshake>,
    name: Seq<char>,
)
    requires
        call_ensures(connect_upstream_ws, (url, headers, target_host), outcome),
        outcome is Ok,
    ensures
        ({
            let request = outcome.unwrap();
            let fields = fields_view(request.headers@);
            let keys = values_of(fields, "sec-websocket-key"@);
            &&& request.url@ == url@
            &&& values_of(fields, "host"@) == seq![encode_utf8(target_host@)]
            &&& values_of(fields, "connection"@) == seq![encode_utf8("Upgrade"@)]
            &&& values_of(fields, "upgrade"@) == seq![encode_utf8("websocket"@)]
            &&& values_of(fields, "sec-websocket-version"@) == seq![encode_utf8("13"@)]
            &&& values_of(fields, "sec-websocket-accept"@) == Seq::<Seq<u8>>::empty()
            &&& keys.len() == 1
            &&& exists|key: Seq<char>| #[trigger] is_ws_key(key) && keys[0] == encode_utf8(key)
            &&& name != "host"@ && name != "sec-websocket-key"@ && name != "sec-websocket-version"@
                && name != "sec-websocket-accept"@ && !seq![
                    "connection"@,
                    "keep-alive"@,
                    "proxy-authenticate"@,
                    "proxy-authorization"@,
                    "te"@,
                    "trailers"@,
                    "transfer-encoding"@,
                    "upgrade"@,
                    "proxy-connection"@,
                ].contains(name) && !connection_lists(header_entries(*headers), name)
                ==> values_of(fields, name) == visible_values(header_entries(*headers), name)
        }),
{
    let entries = header_entries(*headers);
    let request = outcome.unwrap();
    let key = choose|key: Seq<char>| #[trigger]
        is_ws_key(key) && {
            let fields = handshake_entries(entries, target_host@, key);
            request_fault(url@, fields) is None && request.url@ == url@ && fields_view(
                request.headers@,
            ) == fields
        };
    law_handshake_own_fields(entries, target_host@, key);
    if name != "host"@ && name != "sec-websocket-key"@ && name != "sec-websocket-version"@ && name
        != "sec-websocket-accept"@ && !seq![
        "connection"@,
        "keep-alive"@,
        "proxy-authenticate"@,
        "proxy-authorization"@,
        "te"@,
        "trailers"@,
        "transfer-encoding"@,
        "upgrade"@,
        "proxy-connection"@,
    ].contains(name) && !connection_lists(entries, name) {
        law_handshake_passes_the_rest(entries, target_host@, key, name);
    }
}

/// The fields that are picked are, in order and unchanged, all those whose name in
/// lower case is none of the nine and is not listed; on the way to the target not
/// `host` either, and with a handshake only those with visible values that no
/// handshake makes for itself.
pub proof fn law_picked_fields(
    fields: &Vec<HeaderField>,
    listed: &StringHashSet,
    journey: Journey,
    out: Vec<HeaderField>,
)
    requires
        call_ensures(pick_fields, (fields, listed, journey), out),
    ensures
        fields_view(out@) == fields_view(fields@).filter(
            |e: Entry|
                {
                    let name = lower(e.0);
                    &&& !seq![
                        "connection"@,
                        "keep-alive"@,
                        "proxy-authenticate"@,
                        "proxy-authorization"@,
                        "te"@,
                        "trailers"@,
                        "transfer-encoding"@,
                        "upgrade"@,
                        "proxy-connection"@,
                    ].contains(name)
                    &&& !listed@.contains(name)
                    &&& journey is Request || journey is Handshake ==> name != "host"@
                    &&& journey is Handshake ==> name != "sec-websocket-key"@ && name
                        != "sec-websocket-version"@ && name != "sec-websocket-accept"@
                    &&& journey is Handshake ==> forall|j: int|
                        0 <= j < e.1.len() ==> 32 <= #[trigger] e.1[j] <= 126 || e.1[j] == 9
                },
        ),
{
    let told = |e: Entry|
        {
            let name = lower(e.0);
            &&& !seq![
                "connection"@,
                "keep-alive"@,
                "proxy-authenticate"@,
                "proxy-authorization"@,
                "te"@,
                "trailers"@,
                "transfer-encoding"@,
                "upgrade"@,
                "proxy-connection"@,
            ].contains(name)
            &&& !listed@.contains(name)
            &&& journey is Request || journey is Handshake ==> name != "host"@
            &&& journey is Handshake ==> name != "sec-websocket-key"@ && name
                != "sec-websocket-version"@ && name != "sec-websocket-accept"@
            &&& journey is Handshake ==> forall|j: int|
                0 <= j < e.1.len() ==> 32 <= #[trigger] e.1[j] <= 126 || e.1[j] == 9
        };
    let picks = |e: Entry| travels_on(journey, listed@, e);
    assert forall|e: Entry| #[trigger] picks(e) == told(e) by {
        law_fields_that_travel_on(journey, listed@, e);
    }
    lemma_filter_alike(fields_view(fields@), picks, told);
}

} // verus!
