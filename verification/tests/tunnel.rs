use http_proxy::tunnel::{
    axum_to_tung, tung_to_axum, tunnel_ws, ClientMessage, CloseFrame, TunnelAction, TunnelEvent,
    TunnelState, UpstreamMessage, KEEPALIVE_SECS,
};

fn frame(code: u16, reason: &str) -> Option<CloseFrame> {
    Some(CloseFrame { code, reason: reason.to_string() })
}

/// Runs a tunnel to the end of `events`.
fn run(events: Vec<TunnelEvent>) -> (TunnelState, Vec<TunnelAction>) {
    let mut state = TunnelState::Relaying;
    let mut actions = Vec::new();
    for event in events {
        let (next, action) = tunnel_ws(state, event).expect("the event fits");
        state = next;
        actions.push(action);
    }
    (state, actions)
}

fn notice(reason: &str) -> TunnelAction {
    TunnelAction::SendClient(ClientMessage::Close(frame(1011, reason)))
}

#[test]
fn client_messages_cross_upstream() {
    assert_eq!(
        axum_to_tung(ClientMessage::Text("hé".to_string())),
        Some(UpstreamMessage::Text("hé".to_string()))
    );
    assert_eq!(
        axum_to_tung(ClientMessage::Binary(vec![0, 255])),
        Some(UpstreamMessage::Binary(vec![0, 255]))
    );
    assert_eq!(axum_to_tung(ClientMessage::Ping(vec![1])), Some(UpstreamMessage::Ping(vec![1])));
    assert_eq!(axum_to_tung(ClientMessage::Pong(vec![1])), None);
    assert_eq!(axum_to_tung(ClientMessage::Close(None)), Some(UpstreamMessage::Close(None)));
    assert_eq!(
        axum_to_tung(ClientMessage::Close(frame(1001, "bye"))),
        Some(UpstreamMessage::Close(frame(1001, "bye")))
    );
}

#[test]
fn upstream_messages_cross_to_the_client() {
    assert_eq!(
        tung_to_axum(UpstreamMessage::Text("x".to_string())),
        Some(ClientMessage::Text("x".to_string()))
    );
    assert_eq!(
        tung_to_axum(UpstreamMessage::Binary(vec![7])),
        Some(ClientMessage::Binary(vec![7]))
    );
    assert_eq!(tung_to_axum(UpstreamMessage::Ping(vec![])), Some(ClientMessage::Ping(vec![])));
    assert_eq!(tung_to_axum(UpstreamMessage::Pong(vec![])), None);
    assert_eq!(tung_to_axum(UpstreamMessage::Frame), None);
    assert_eq!(
        tung_to_axum(UpstreamMessage::Close(frame(4000, "app"))),
        Some(ClientMessage::Close(frame(4000, "app")))
    );
}

#[test]
fn messages_are_relayed_in_order() {
    let (state, actions) = run(vec![
        TunnelEvent::FromClient(ClientMessage::Text("a".to_string())),
        TunnelEvent::Sent,
        TunnelEvent::FromUpstream(UpstreamMessage::Binary(vec![1])),
        TunnelEvent::Sent,
        TunnelEvent::FromClient(ClientMessage::Pong(vec![9])),
        TunnelEvent::FromUpstream(UpstreamMessage::Frame),
        TunnelEvent::FromClient(ClientMessage::Text("b".to_string())),
        TunnelEvent::Sent,
    ]);
    assert_eq!(state, TunnelState::Relaying);
    assert_eq!(
        actions,
        vec![
            TunnelAction::SendUpstream(UpstreamMessage::Text("a".to_string())),
            TunnelAction::Await,
            TunnelAction::SendClient(ClientMessage::Binary(vec![1])),
            TunnelAction::Await,
            TunnelAction::Await,
            TunnelAction::Await,
            TunnelAction::SendUpstream(UpstreamMessage::Text("b".to_string())),
            TunnelAction::Await,
        ]
    );
}

#[test]
fn keepalive_pings_both_legs() {
    assert_eq!(KEEPALIVE_SECS, 25);
    let (state, actions) =
        run(vec![TunnelEvent::KeepaliveTick, TunnelEvent::Sent, TunnelEvent::Sent]);
    assert_eq!(state, TunnelState::Relaying);
    assert_eq!(
        actions,
        vec![
            TunnelAction::SendUpstream(UpstreamMessage::Ping(vec![])),
            TunnelAction::SendClient(ClientMessage::Ping(vec![])),
            TunnelAction::Await,
        ]
    );
}

#[test]
fn a_close_from_either_end_ends_the_tunnel() {
    let (state, actions) = run(vec![
        TunnelEvent::FromClient(ClientMessage::Close(None)),
        TunnelEvent::Sent,
        TunnelEvent::SendFailed,
    ]);
    assert_eq!(state, TunnelState::Done);
    assert_eq!(
        actions,
        vec![
            TunnelAction::SendUpstream(UpstreamMessage::Close(None)),
            TunnelAction::CloseUpstream,
            TunnelAction::Finish,
        ]
    );
    let (state, actions) = run(vec![
        TunnelEvent::FromUpstream(UpstreamMessage::Close(frame(1011, "theirs"))),
        TunnelEvent::Sent,
        TunnelEvent::Sent,
    ]);
    assert_eq!(state, TunnelState::Done);
    assert_eq!(
        actions,
        vec![notice("theirs"), TunnelAction::CloseUpstream, TunnelAction::Finish]
    );
}

#[test]
fn upstream_failures_are_reported_to_the_client() {
    for (events, reason) in [
        (vec![TunnelEvent::UpstreamError], "upstream error"),
        (vec![TunnelEvent::UpstreamEnded], "upstream closed"),
        (
            vec![
                TunnelEvent::FromClient(ClientMessage::Text("a".to_string())),
                TunnelEvent::SendFailed,
            ],
            "upstream send failed",
        ),
        (
            vec![TunnelEvent::FromClient(ClientMessage::Close(None)), TunnelEvent::SendFailed],
            "upstream send failed",
        ),
        (vec![TunnelEvent::KeepaliveTick, TunnelEvent::SendFailed], "upstream ping failed"),
    ] {
        let (state, actions) = run(events);
        assert_eq!(state, TunnelState::NotifyingClient);
        assert_eq!(actions.last(), Some(&notice(reason)));
        let (state, action) = tunnel_ws(state, TunnelEvent::SendFailed).unwrap();
        assert_eq!(state, TunnelState::ClosingUpstream);
        assert_eq!(action, TunnelAction::CloseUpstream);
    }
}

#[test]
fn losing_the_client_is_silent() {
    for events in [
        vec![TunnelEvent::ClientGone],
        vec![
            TunnelEvent::FromUpstream(UpstreamMessage::Text("a".to_string())),
            TunnelEvent::SendFailed,
        ],
        vec![
            TunnelEvent::FromUpstream(UpstreamMessage::Close(None)),
            TunnelEvent::SendFailed,
        ],
        vec![TunnelEvent::KeepaliveTick, TunnelEvent::Sent, TunnelEvent::SendFailed],
    ] {
        let (state, actions) = run(events);
        assert_eq!(state, TunnelState::ClosingUpstream);
        assert_eq!(actions.last(), Some(&TunnelAction::CloseUpstream));
    }
}

#[test]
fn the_client_gets_what_it_is_owed() {
    let (state, actions) = run(vec![
        TunnelEvent::FromUpstream(UpstreamMessage::Ping(vec![1])),
        TunnelEvent::Sent,
        TunnelEvent::KeepaliveTick,
        TunnelEvent::Sent,
        TunnelEvent::Sent,
        TunnelEvent::FromUpstream(UpstreamMessage::Pong(vec![2])),
        TunnelEvent::FromClient(ClientMessage::Binary(vec![3])),
        TunnelEvent::SendFailed,
        TunnelEvent::Sent,
        TunnelEvent::Sent,
    ]);
    assert_eq!(state, TunnelState::Done);
    let got: Vec<ClientMessage> = actions
        .into_iter()
        .filter_map(|action| match action {
            TunnelAction::SendClient(m) => Some(m),
            _ => None,
        })
        .collect();
    assert_eq!(
        got,
        vec![
            ClientMessage::Ping(vec![1]),
            ClientMessage::Ping(vec![]),
            ClientMessage::Close(frame(1011, "upstream send failed")),
        ]
    );
}

#[test]
fn events_that_an_action_brings_fit() {
    for outcome in [true, false] {
        for state in [
            TunnelState::SendingUpstream { closing: false },
            TunnelState::SendingClient { closing: true },
            TunnelState::PingingUpstream,
            TunnelState::PingingClient,
            TunnelState::NotifyingClient,
            TunnelState::ClosingUpstream,
        ] {
            let event = if outcome { TunnelEvent::Sent } else { TunnelEvent::SendFailed };
            assert!(tunnel_ws(state, event).is_some());
        }
    }
    for event in [
        TunnelEvent::FromClient(ClientMessage::Pong(vec![])),
        TunnelEvent::ClientGone,
        TunnelEvent::FromUpstream(UpstreamMessage::Frame),
        TunnelEvent::UpstreamError,
        TunnelEvent::UpstreamEnded,
        TunnelEvent::KeepaliveTick,
    ] {
        assert!(tunnel_ws(TunnelState::Relaying, event).is_some());
    }
}

#[test]
fn events_out_of_place_are_refused() {
    assert!(tunnel_ws(TunnelState::Relaying, TunnelEvent::Sent).is_none());
    assert!(tunnel_ws(TunnelState::PingingClient, TunnelEvent::ClientGone).is_none());
    assert!(tunnel_ws(TunnelState::ClosingUpstream, TunnelEvent::KeepaliveTick).is_none());
    assert!(tunnel_ws(TunnelState::Done, TunnelEvent::Sent).is_none());
}
