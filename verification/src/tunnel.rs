//! The WebSocket tunnel: which messages cross it, and what each event on either
//! leg makes it do next.
//!
//! The tunnel is a state machine. Its driver performs the action that
//! [`tunnel_ws`] returns and hands back the event that follows.

use vstd::prelude::*;

verus! {

/// Seconds between two keepalive pings on each leg.
pub const KEEPALIVE_SECS: u64 = 25;

/// The close code sent to the client when the upstream leg fails.
pub const UPSTREAM_FAILURE_CODE: u16 = 1011;

/// The code and the reason of a Close message.
#[derive(Debug, PartialEq, Eq)]
pub struct CloseFrame {
    pub code: u16,
    pub reason: String,
}

/// A message on the client leg.
#[derive(Debug, PartialEq, Eq)]
pub enum ClientMessage {
    Text(String),
    Binary(Vec<u8>),
    Ping(Vec<u8>),
    Pong(Vec<u8>),
    Close(Option<CloseFrame>),
}

/// A message on the upstream leg. `Frame` is a raw frame, which a reader of
/// whole messages does not meet.
#[derive(Debug, PartialEq, Eq)]
pub enum UpstreamMessage {
    Text(String),
    Binary(Vec<u8>),
    Ping(Vec<u8>),
    Pong(Vec<u8>),
    Close(Option<CloseFrame>),
    Frame,
}

/// What a message of either leg says.
#[verifier::ext_equal]
pub enum MessageView {
    Text(Seq<char>),
    Binary(Seq<u8>),
    Ping(Seq<u8>),
    Pong(Seq<u8>),
    Close(Option<(u16, Seq<char>)>),
    Frame,
}

/// What a close frame says, where there is one.
pub open spec fn close_view(frame: Option<CloseFrame>) -> Option<(u16, Seq<char>)> {
    match frame {
        Some(f) => Some((f.code, f.reason@)),
        None => None,
    }
}

impl View for ClientMessage {
    type V = MessageView;

    open spec fn view(&self) -> MessageView {
        match *self {
            ClientMessage::Text(t) => MessageView::Text(t@),
            ClientMessage::Binary(b) => MessageView::Binary(b@),
            ClientMessage::Ping(d) => MessageView::Ping(d@),
            ClientMessage::Pong(d) => MessageView::Pong(d@),
            ClientMessage::Close(c) => MessageView::Close(close_view(c)),
        }
    }
}

impl View for UpstreamMessage {
    type V = MessageView;

    open spec fn view(&self) -> MessageView {
        match *self {
            UpstreamMessage::Text(t) => MessageView::Text(t@),
            UpstreamMessage::Binary(b) => MessageView::Binary(b@),
            UpstreamMessage::Ping(d) => MessageView::Ping(d@),
            UpstreamMessage::Pong(d) => MessageView::Pong(d@),
            UpstreamMessage::Close(c) => MessageView::Close(close_view(c)),
            UpstreamMessage::Frame => MessageView::Frame,
        }
    }
}

/// What the other leg gets to see of a message: text, binary, ping and close
/// cross unchanged. A pong does not, since each leg answers pings by itself,
/// and a raw frame has no counterpart.
pub open spec fn relayed(message: MessageView) -> Option<MessageView> {
    match message {
        MessageView::Pong(_) => None,
        MessageView::Frame => None,
        _ => Some(message),
    }
}

/// Turns a message of the client into the one that goes upstream, if any.
pub fn axum_to_tung(msg: ClientMessage) -> (out: Option<UpstreamMessage>)
    ensures
        match out {
            Some(m) => relayed(msg@) == Some(m@),
            None => relayed(msg@) is None,
        },
        match msg {
            ClientMessage::Text(t) => out == Some(UpstreamMessage::Text(t)),
            ClientMessage::Binary(b) => out == Some(UpstreamMessage::Binary(b)),
            ClientMessage::Ping(data) => out == Some(UpstreamMessage::Ping(data)),
            ClientMessage::Pong(_) => out is None,
            ClientMessage::Close(c) => out == Some(UpstreamMessage::Close(c)),
        },
{
    match msg {
        ClientMessage::Text(t) => Some(UpstreamMessage::Text(t)),
        ClientMessage::Binary(b) => Some(UpstreamMessage::Binary(b)),
        ClientMessage::Ping(data) => Some(UpstreamMessage::Ping(data)),
        ClientMessage::Pong(_) => None,
        ClientMessage::Close(c) => Some(UpstreamMessage::Close(c)),
    }
}

/// Turns a message from upstream into the one that goes to the client, if any.
pub fn tung_to_axum(msg: UpstreamMessage) -> (out: Option<ClientMessage>)
    ensures
        match out {
            Some(m) => relayed(msg@) == Some(m@),
            None => relayed(msg@) is None,
        },
        match msg {
            UpstreamMessage::Text(t) => out == Some(ClientMessage::Text(t)),
            UpstreamMessage::Binary(b) => out == Some(ClientMessage::Binary(b)),
            UpstreamMessage::Ping(data) => out == Some(ClientMessage::Ping(data)),
            UpstreamMessage::Pong(_) => out is None,
            UpstreamMessage::Close(c) => out == Some(ClientMessage::Close(c)),
            UpstreamMessage::Frame => out is None,
        },
{
    match msg {
        UpstreamMessage::Text(t) => Some(ClientMessage::Text(t)),
        UpstreamMessage::Binary(b) => Some(ClientMessage::Binary(b)),
        UpstreamMessage::Ping(data) => Some(ClientMessage::Ping(data)),
        UpstreamMessage::Pong(_) => None,
        UpstreamMessage::Close(c) => Some(ClientMessage::Close(c)),
        UpstreamMessage::Frame => None,
    }
}

/// Where a tunnel stands.
#[derive(Clone, Copy, Debug, PartialEq, Eq, Structural)]
pub enum TunnelState {
    /// Waiting for either leg or for the keepalive timer.
    Relaying,
    /// A message of the client is on its way upstream.
    SendingUpstream { closing: bool },
    /// A message from upstream is on its way to the client.
    SendingClient { closing: bool },
    /// The keepalive ping is on its way upstream.
    PingingUpstream,
    /// The keepalive ping is on its way to the client.
    PingingClient,
    /// The client is being told that the upstream leg failed.
    NotifyingClient,
    /// The upstream leg is being closed.
    ClosingUpstream,
    /// Nothing is left to do.
    Done,
}

/// What can happen to a tunnel.
#[derive(Debug, PartialEq, Eq)]
pub enum TunnelEvent {
    /// The client sent a message.
    FromClient(ClientMessage),
    /// The client leg ended or failed.
    ClientGone,
    /// Upstream sent a message.
    FromUpstream(UpstreamMessage),
    /// The upstream leg failed.
    UpstreamError,
    /// The upstream leg ended without a Close message.
    UpstreamEnded,
    /// The keepalive timer fired.
    KeepaliveTick,
    /// The send or close that the tunnel asked for succeeded.
    Sent,
    /// The send or close that the tunnel asked for failed.
    SendFailed,
}

/// What a tunnel asks of its driver.
#[derive(Debug, PartialEq, Eq)]
pub enum TunnelAction {
    /// Wait for either leg or for the keepalive timer.
    Await,
    SendUpstream(UpstreamMessage),
    SendClient(ClientMessage),
    CloseUpstream,
    /// Drop both legs.
    Finish,
}

/// An event, seen through what its message says.
#[verifier::ext_equal]
pub enum EventView {
    FromClient(MessageView),
    ClientGone,
    FromUpstream(MessageView),
    UpstreamError,
    UpstreamEnded,
    KeepaliveTick,
    Sent,
    SendFailed,
}

/// An action, seen through what its message says.
#[verifier::ext_equal]
pub enum ActionView {
    Await,
    SendUpstream(MessageView),
    SendClient(MessageView),
    CloseUpstream,
    Finish,
}

impl View for TunnelEvent {
    type V = EventView;

    open spec fn view(&self) -> EventView {
        match *self {
            TunnelEvent::FromClient(m) => EventView::FromClient(m@),
            TunnelEvent::ClientGone => EventView::ClientGone,
            TunnelEvent::FromUpstream(m) => EventView::FromUpstream(m@),
            TunnelEvent::UpstreamError => EventView::UpstreamError,
            TunnelEvent::UpstreamEnded => EventView::UpstreamEnded,
            TunnelEvent::KeepaliveTick => EventView::KeepaliveTick,
            TunnelEvent::Sent => EventView::Sent,
            TunnelEvent::SendFailed => EventView::SendFailed,
        }
    }
}

impl View for TunnelAction {
    type V = ActionView;

    open spec fn view(&self) -> ActionView {
        match *self {
            TunnelAction::Await => ActionView::Await,
            TunnelAction::SendUpstream(m) => ActionView::SendUpstream(m@),
            TunnelAction::SendClient(m) => ActionView::SendClient(m@),
            TunnelAction::CloseUpstream => ActionView::CloseUpstream,
            TunnelAction::Finish => ActionView::Finish,
        }
    }
}

/// The ping that keeps an idle leg open.
pub open spec fn keepalive_ping() -> MessageView {
    MessageView::Ping(Seq::<u8>::empty())
}

/// The Close message that tells the client why the upstream leg failed.
pub open spec fn failure_notice(reason: Seq<char>) -> MessageView {
    MessageView::Close(Some((UPSTREAM_FAILURE_CODE, reason)))
}

/// The step that ends a tunnel whose upstream leg failed: the client is told
/// first.
pub open spec fn fail_with(reason: Seq<char>) -> (TunnelState, ActionView) {
    (TunnelState::NotifyingClient, ActionView::SendClient(failure_notice(reason)))
}

/// The step that ends a tunnel without a word to the client.
pub open spec fn end_quietly() -> (TunnelState, ActionView) {
    (TunnelState::ClosingUpstream, ActionView::CloseUpstream)
}

/// The step that goes back to waiting.
pub open spec fn resume() -> (TunnelState, ActionView) {
    (TunnelState::Relaying, ActionView::Await)
}

/// The step that follows an event, or `None` where the event cannot happen in
/// that state.
pub open spec fn tunnel_next(state: TunnelState, event: EventView) -> Option<
    (TunnelState, ActionView),
> {
    match (state, event) {
        (TunnelState::Relaying, EventView::FromClient(m)) => match relayed(m) {
            Some(out) => Some(
                (
                    TunnelState::SendingUpstream { closing: m is Close },
                    ActionView::SendUpstream(out),
                ),
            ),
            None => Some(resume()),
        },
        (TunnelState::Relaying, EventView::FromUpstream(m)) => match relayed(m) {
            Some(out) => Some(
                (TunnelState::SendingClient { closing: m is Close }, ActionView::SendClient(out)),
            ),
            None => Some(resume()),
        },
        (TunnelState::Relaying, EventView::ClientGone) => Some(end_quietly()),
        (TunnelState::Relaying, EventView::UpstreamError) => Some(fail_with("upstream error"@)),
        (TunnelState::Relaying, EventView::UpstreamEnded) => Some(fail_with("upstream closed"@)),
        (TunnelState::Relaying, EventView::KeepaliveTick) => Some(
            (TunnelState::PingingUpstream, ActionView::SendUpstream(keepalive_ping())),
        ),
        (TunnelState::SendingUpstream { closing }, EventView::Sent) => Some(
            if closing {
                end_quietly()
            } else {
                resume()
            },
        ),
        (TunnelState::SendingUpstream { .. }, EventView::SendFailed) => Some(
            fail_with("upstream send failed"@),
        ),
        (TunnelState::SendingClient { closing }, EventView::Sent) => Some(
            if closing {
                end_quietly()
            } else {
                resume()
            },
        ),
        (TunnelState::SendingClient { .. }, EventView::SendFailed) => Some(end_quietly()),
        (TunnelState::PingingUpstream, EventView::Sent) => Some(
            (TunnelState::PingingClient, ActionView::SendClient(keepalive_ping())),
        ),
        (TunnelState::PingingUpstream, EventView::SendFailed) => Some(
            fail_with("upstream ping failed"@),
        ),
        (TunnelState::PingingClient, EventView::Sent) => Some(resume()),
        (TunnelState::PingingClient, EventView::SendFailed) => Some(end_quietly()),
        (TunnelState::NotifyingClient, EventView::Sent) => Some(end_quietly()),
        (TunnelState::NotifyingClient, EventView::SendFailed) => Some(end_quietly()),
        (TunnelState::ClosingUpstream, EventView::Sent) => Some(
            (TunnelState::Done, ActionView::Finish),
        ),
        (TunnelState::ClosingUpstream, EventView::SendFailed) => Some(
            (TunnelState::Done, ActionView::Finish),
        ),
        _ => None,
    }
}

fn notify_failure(reason: &str) -> (step: (TunnelState, TunnelAction))
    ensures
        (step.0, step.1@) == fail_with(reason@),
{
    let frame = CloseFrame { code: UPSTREAM_FAILURE_CODE, reason: reason.to_owned() };
    let step = (
        TunnelState::NotifyingClient,
        TunnelAction::SendClient(ClientMessage::Close(Some(frame))),
    );
    assert(step.1@ == fail_with(reason@).1);
    step
}

/// Takes one step of a tunnel. A tunnel starts in [`TunnelState::Relaying`],
/// with its driver waiting.
pub fn tunnel_ws(state: TunnelState, event: TunnelEvent) -> (step: Option<
    (TunnelState, TunnelAction),
>)
    ensures
        match step {
            Some((next, action)) => tunnel_next(state, event@) == Some((next, action@)),
            None => tunnel_next(state, event@) is None,
        },
        state is Relaying ==> match event {
            TunnelEvent::FromClient(m) => match step {
                Some((_, TunnelAction::SendUpstream(UpstreamMessage::Text(t)))) => m
                    == ClientMessage::Text(t),
                Some((_, TunnelAction::SendUpstream(UpstreamMessage::Binary(b)))) => m
                    == ClientMessage::Binary(b),
                Some((_, TunnelAction::SendUpstream(UpstreamMessage::Ping(data)))) => m
                    == ClientMessage::Ping(data),
                Some((_, TunnelAction::SendUpstream(UpstreamMessage::Close(c)))) => m
                    == ClientMessage::Close(c),
                Some((_, TunnelAction::Await)) => m is Pong,
                _ => false,
            },
            TunnelEvent::FromUpstream(m) => match step {
                Some((_, TunnelAction::SendClient(ClientMessage::Text(t)))) => m
                    == UpstreamMessage::Text(t),
                Some((_, TunnelAction::SendClient(ClientMessage::Binary(b)))) => m
                    == UpstreamMessage::Binary(b),
                Some((_, TunnelAction::SendClient(ClientMessage::Ping(data)))) => m
                    == UpstreamMessage::Ping(data),
                Some((_, TunnelAction::SendClient(ClientMessage::Close(c)))) => m
                    == UpstreamMessage::Close(c),
                Some((_, TunnelAction::Await)) => m is Pong || m is Frame,
                _ => false,
            },
            _ => true,
        },
{
    match state {
        TunnelState::Relaying => match event {
            TunnelEvent::FromClient(m) => {
                let closing = matches!(m, ClientMessage::Close(_));
                match axum_to_tung(m) {
                    Some(out) => Some(
                        (TunnelState::SendingUpstream { closing }, TunnelAction::SendUpstream(out)),
                    ),
                    None => Some((TunnelState::Relaying, TunnelAction::Await)),
                }
            },
            TunnelEvent::FromUpstream(m) => {
                let closing = matches!(m, UpstreamMessage::Close(_));
                match tung_to_axum(m) {
                    Some(out) => Some(
                        (TunnelState::SendingClient { closing }, TunnelAction::SendClient(out)),
                    ),
                    None => Some((TunnelState::Relaying, TunnelAction::Await)),
                }
            },
            TunnelEvent::ClientGone => Some(
                (TunnelState::ClosingUpstream, TunnelAction::CloseUpstream),
            ),
            TunnelEvent::UpstreamError => Some(notify_failure("upstream error")),
            TunnelEvent::UpstreamEnded => Some(notify_failure("upstream closed")),
            TunnelEvent::KeepaliveTick => {
                let ping = UpstreamMessage::Ping(Vec::new());
                assert(ping@ == keepalive_ping());
                Some((TunnelState::PingingUpstream, TunnelAction::SendUpstream(ping)))
            },
            _ => None,
        },
        TunnelState::SendingUpstream { closing } => match event {
            TunnelEvent::Sent => {
                if closing {
                    Some((TunnelState::ClosingUpstream, TunnelAction::CloseUpstream))
                } else {
                    Some((TunnelState::Relaying, TunnelAction::Await))
                }
            },
            TunnelEvent::SendFailed => Some(notify_failure("upstream send failed")),
            _ => None,
        },
        TunnelState::SendingClient { closing } => match event {
            TunnelEvent::Sent => {
                if closing {
                    Some((TunnelState::ClosingUpstream, TunnelAction::CloseUpstream))
                } else {
                    Some((TunnelState::Relaying, TunnelAction::Await))
                }
            },
            TunnelEvent::SendFailed => Some(
                (TunnelState::ClosingUpstream, TunnelAction::CloseUpstream),
            ),
            _ => None,
        },
        TunnelState::PingingUpstream => match event {
            TunnelEvent::Sent => {
                let ping = ClientMessage::Ping(Vec::new());
                assert(ping@ == keepalive_ping());
                Some((TunnelState::PingingClient, TunnelAction::SendClient(ping)))
            },
            TunnelEvent::SendFailed => Some(notify_failure("upstream ping failed")),
            _ => None,
        },
        TunnelState::PingingClient => match event {
            TunnelEvent::Sent => Some((TunnelState::Relaying, TunnelAction::Await)),
            TunnelEvent::SendFailed => Some(
                (TunnelState::ClosingUpstream, TunnelAction::CloseUpstream),
            ),
            _ => None,
        },
        TunnelState::NotifyingClient => match event {
            TunnelEvent::Sent | TunnelEvent::SendFailed => Some(
                (TunnelState::ClosingUpstream, TunnelAction::CloseUpstream),
            ),
            _ => None,
        },
        TunnelState::ClosingUpstream => match event {
            TunnelEvent::Sent | TunnelEvent::SendFailed => Some(
                (TunnelState::Done, TunnelAction::Finish),
            ),
            _ => None,
        },
        TunnelState::Done => None,
    }
}

} // verus!
