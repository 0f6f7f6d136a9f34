//! What holds of a tunnel over its whole life, whatever its two legs do.

use crate::tunnel::{
    failure_notice, keepalive_ping, relayed, tunnel_next, ActionView, ClientMessage, CloseFrame,
    EventView, MessageView, TunnelAction, TunnelEvent, TunnelState, UpstreamMessage,
};
use vstd::prelude::*;

verus! {

/// The life of a tunnel: its state after `events`, and the action that answered
/// each of them. `None` where some event could not have happened when it did.
pub open spec fn tunnel_run(events: Seq<EventView>) -> Option<(TunnelState, Seq<ActionView>)>
    decreases events.len(),
{
    if events.len() == 0 {
        Some((TunnelState::Relaying, Seq::<ActionView>::empty()))
    } else {
        match tunnel_run(events.drop_last()) {
            Some((state, actions)) => match tunnel_next(state, events.last()) {
                Some((next, action)) => Some((next, actions.push(action))),
                None => None,
            },
            None => None,
        }
    }
}

/// Whether `events` can happen to a tunnel, one after another.
pub open spec fn possible(events: Seq<EventView>) -> bool {
    tunnel_run(events) is Some
}

/// The state of a tunnel after `events`.
pub open spec fn state_after(events: Seq<EventView>) -> TunnelState {
    tunnel_run(events).unwrap().0
}

/// The actions that answer `events`, one for each.
pub open spec fn actions_of(events: Seq<EventView>) -> Seq<ActionView> {
    tunnel_run(events).unwrap().1
}

/// The messages that `actions` sent upstream, in order.
pub open spec fn sent_upstream(actions: Seq<ActionView>) -> Seq<MessageView>
    decreases actions.len(),
{
    if actions.len() == 0 {
        Seq::<MessageView>::empty()
    } else {
        let earlier = sent_upstream(actions.drop_last());
        match actions.last() {
            ActionView::SendUpstream(m) => earlier.push(m),
            _ => earlier,
        }
    }
}

/// The messages that `actions` sent to the client, in order.
pub open spec fn sent_client(actions: Seq<ActionView>) -> Seq<MessageView>
    decreases actions.len(),
{
    if actions.len() == 0 {
        Seq::<MessageView>::empty()
    } else {
        let earlier = sent_client(actions.drop_last());
        match actions.last() {
            ActionView::SendClient(m) => earlier.push(m),
            _ => earlier,
        }
    }
}

/// The messages that upstream is owed after `events`: what the client sent and
/// may cross, and a ping for each tick of the keepalive timer, in order.
pub open spec fn owed_upstream(events: Seq<EventView>) -> Seq<MessageView>
    decreases events.len(),
{
    if events.len() == 0 {
        Seq::<MessageView>::empty()
    } else {
        let earlier = owed_upstream(events.drop_last());
        match events.last() {
            EventView::FromClient(m) => match relayed(m) {
                Some(out) => earlier.push(out),
                None => earlier,
            },
            EventView::KeepaliveTick => earlier.push(keepalive_ping()),
            _ => earlier,
        }
    }
}

/// The messages that the client is owed after `events`, in order: what upstream
/// sent and may cross, a ping for each keepalive ping that upstream took, and the
/// notice of a failure of the upstream leg.
pub open spec fn owed_client(events: Seq<EventView>) -> Seq<MessageView>
    decreases events.len(),
{
    if events.len() == 0 {
        Seq::<MessageView>::empty()
    } else {
        let before = events.drop_last();
        let earlier = owed_client(before);
        match events.last() {
            EventView::FromUpstream(m) => match relayed(m) {
                Some(out) => earlier.push(out),
                None => earlier,
            },
            EventView::Sent => if before.len() > 0 && before.last() is KeepaliveTick {
                earlier.push(keepalive_ping())
            } else {
                earlier
            },
            EventView::UpstreamError => earlier.push(failure_notice("upstream error"@)),
            EventView::UpstreamEnded => earlier.push(failure_notice("upstream closed"@)),
            EventView::SendFailed => if before.len() > 0 && before.last() is KeepaliveTick {
                earlier.push(failure_notice("upstream ping failed"@))
            } else if before.len() > 0 && before.last() is FromClient {
                earlier.push(failure_notice("upstream send failed"@))
            } else {
                earlier
            },
            _ => earlier,
        }
    }
}

/// Whether a message carries data of the two ends, as against control messages.
pub open spec fn is_data(message: MessageView) -> bool {
    message is Text || message is Binary
}

/// The data messages that upstream sent during `events`, in order.
pub open spec fn data_from_upstream(events: Seq<EventView>) -> Seq<MessageView>
    decreases events.len(),
{
    if events.len() == 0 {
        Seq::<MessageView>::empty()
    } else {
        let earlier = data_from_upstream(events.drop_last());
        match events.last() {
            EventView::FromUpstream(m) => if is_data(m) {
                earlier.push(m)
            } else {
                earlier
            },
            _ => earlier,
        }
    }
}

/// The data messages among `messages`, in order.
pub open spec fn data_only(messages: Seq<MessageView>) -> Seq<MessageView>
    decreases messages.len(),
{
    if messages.len() == 0 {
        Seq::<MessageView>::empty()
    } else {
        let earlier = data_only(messages.drop_last());
        if is_data(messages.last()) {
            earlier.push(messages.last())
        } else {
            earlier
        }
    }
}

/// How many Close messages are among `messages`.
pub open spec fn closes(messages: Seq<MessageView>) -> nat
    decreases messages.len(),
{
    if messages.len() == 0 {
        0
    } else {
        closes(messages.drop_last()) + if messages.last() is Close {
            1nat
        } else {
            0nat
        }
    }
}

/// Whether the upstream leg failed at the event `i`: it broke, it ended without
/// a Close message, or it did not take what was sent to it.
pub open spec fn upstream_fails_at(
    events: Seq<EventView>,
    actions: Seq<ActionView>,
    i: int,
) -> bool {
    ||| events[i] is UpstreamError
    ||| events[i] is UpstreamEnded
    ||| events[i] is SendFailed && i > 0 && actions[i - 1] is SendUpstream
}

/// The reason that the client is given when the upstream leg fails at event `i`.
pub open spec fn failure_reason(events: Seq<EventView>, i: int) -> Seq<char> {
    match events[i] {
        EventView::UpstreamError => "upstream error"@,
        EventView::UpstreamEnded => "upstream closed"@,
        _ => if i > 0 && events[i - 1] is KeepaliveTick {
            "upstream ping failed"@
        } else {
            "upstream send failed"@
        },
    }
}

/// Whether an event brings a Close message from either end.
pub open spec fn brings_close(event: EventView) -> bool {
    match event {
        EventView::FromClient(m) => m is Close,
        EventView::FromUpstream(m) => m is Close,
        _ => false,
    }
}

/// Cutting off the last event of a life leaves a life, with one action less.
proof fn lemma_run_step(events: Seq<EventView>)
    requires
        possible(events),
        events.len() > 0,
    ensures
        possible(events.drop_last()),
        tunnel_next(state_after(events.drop_last()), events.last()) == Some(
            (state_after(events), actions_of(events).last()),
        ),
        actions_of(events).len() == actions_of(events.drop_last()).len() + 1,
        actions_of(events).drop_last() == actions_of(events.drop_last()),
{
    assert(actions_of(events).drop_last() =~= actions_of(events.drop_last()));
}

/// Each event is answered by exactly one action.
pub proof fn law_one_action_per_event(events: Seq<EventView>)
    requires
        possible(events),
    ensures
        actions_of(events).len() == events.len(),
    decreases events.len(),
{
    if events.len() > 0 {
        lemma_run_step(events);
        law_one_action_per_event(events.drop_last());
    }
}

/// Upstream gets every message of the client that may cross, unchanged and in
/// order, and besides them nothing but the keepalive pings.
pub proof fn law_client_messages_reach_upstream(events: Seq<EventView>)
    requires
        possible(events),
    ensures
        sent_upstream(actions_of(events)) == owed_upstream(events),
    decreases events.len(),
{
    if events.len() > 0 {
        lemma_run_step(events);
        law_client_messages_reach_upstream(events.drop_last());
    }
}

/// The client gets exactly what it is owed, in order: every message from upstream
/// that may cross, unchanged, the keepalive pings and the notice of a failure.
pub proof fn law_client_gets_what_it_is_owed(events: Seq<EventView>)
    requires
        possible(events),
    ensures
        sent_client(actions_of(events)) == owed_client(events),
    decreases events.len(),
{
    if events.len() > 0 {
        let before = events.drop_last();
        lemma_run_step(events);
        law_client_gets_what_it_is_owed(before);
        if before.len() > 0 {
            lemma_run_step(before);
        }
    }
}

/// Whatever the driver of a tunnel meets while it does what it was last asked for
/// can happen then: while it waits, anything but the outcome of a send; otherwise
/// that outcome, good or bad. Nothing else can happen, and after the end nothing
/// at all.
pub proof fn law_tunnel_events_fit(events: Seq<EventView>, event: EventView)
    requires
        possible(events),
    ensures
        ({
            let actions = actions_of(events);
            if actions.len() == 0 || actions.last() is Await {
                possible(events.push(event)) <==> !(event is Sent) && !(event is SendFailed)
            } else if actions.last() is Finish {
                state_after(events) is Done && !possible(events.push(event))
            } else {
                possible(events.push(event)) <==> event is Sent || event is SendFailed
            }
        }),
{
    law_one_action_per_event(events);
    if events.len() > 0 {
        lemma_run_step(events);
    }
    assert(events.push(event).drop_last() =~= events);
    assert(events.push(event).last() == event);
}

/// The client gets every text and binary message from upstream, unchanged and
/// in order, and no other text or binary message.
pub proof fn law_upstream_data_reaches_client(events: Seq<EventView>)
    requires
        possible(events),
    ensures
        data_only(sent_client(actions_of(events))) == data_from_upstream(events),
    decreases events.len(),
{
    if events.len() > 0 {
        lemma_run_step(events);
        law_upstream_data_reaches_client(events.drop_last());
        let sent = sent_client(actions_of(events));
        let before = sent_client(actions_of(events.drop_last()));
        if sent.len() > before.len() {
            assert(sent.drop_last() =~= before);
        }
    }
}

/// No pong and no raw frame ever crosses, in either direction.
pub proof fn law_pongs_never_cross(events: Seq<EventView>)
    requires
        possible(events),
    ensures
        forall|i: int|
            0 <= i < sent_upstream(actions_of(events)).len() ==> {
                let m = #[trigger] sent_upstream(actions_of(events))[i];
                !(m is Pong) && !(m is Frame)
            },
        forall|i: int|
            0 <= i < sent_client(actions_of(events)).len() ==> {
                let m = #[trigger] sent_client(actions_of(events))[i];
                !(m is Pong) && !(m is Frame)
            },
    decreases events.len(),
{
    if events.len() > 0 {
        lemma_run_step(events);
        law_pongs_never_cross(events.drop_last());
    }
}

/// While the client has no Close message the tunnel has none on its way to it,
/// and once the client has one the tunnel is on its way out.
proof fn lemma_closes_by_state(events: Seq<EventView>)
    requires
        possible(events),
    ensures
        closes(sent_client(actions_of(events))) <= 1,
        closes(sent_client(actions_of(events))) == 1 ==> {
            let state = state_after(events);
            ||| state == TunnelState::SendingClient { closing: true }
            ||| state is NotifyingClient
            ||| state is ClosingUpstream
            ||| state is Done
        },
    decreases events.len(),
{
    if events.len() > 0 {
        lemma_run_step(events);
        lemma_closes_by_state(events.drop_last());
        let sent = sent_client(actions_of(events));
        let before = sent_client(actions_of(events.drop_last()));
        if sent.len() > before.len() {
            assert(sent.drop_last() =~= before);
        }
    }
}

/// The client gets at most one Close message: the one from upstream or the
/// failure notice, never both.
pub proof fn law_client_closed_at_most_once(events: Seq<EventView>)
    requires
        possible(events),
    ensures
        closes(sent_client(actions_of(events))) <= 1,
{
    lemma_closes_by_state(events);
}

/// The step that a tunnel takes at the event `i` of its life.
proof fn lemma_step_at(events: Seq<EventView>, i: int)
    requires
        possible(events),
        0 <= i < events.len(),
    ensures
        actions_of(events).len() == events.len(),
        tunnel_next(state_after(events.take(i)), events[i]) == Some(
            (state_after(events.take(i + 1)), actions_of(events)[i]),
        ),
    decreases events.len(),
{
    law_one_action_per_event(events);
    lemma_run_step(events);
    if i == events.len() - 1 {
        assert(events.take(i) =~= events.drop_last());
        assert(events.take(i + 1) =~= events);
    } else {
        let shorter = events.drop_last();
        lemma_step_at(shorter, i);
        assert(shorter.take(i) =~= events.take(i));
        assert(shorter.take(i + 1) =~= events.take(i + 1));
        assert(actions_of(events).drop_last()[i] == actions_of(events)[i]);
    }
}

/// When the upstream leg fails, the client is told so, with the reason. A Close
/// message reaches the client in no other way than that or from upstream.
pub proof fn law_upstream_failure_is_reported(events: Seq<EventView>, i: int)
    requires
        possible(events),
        0 <= i < events.len(),
    ensures
        upstream_fails_at(events, actions_of(events), i) ==> actions_of(events)[i]
            == ActionView::SendClient(failure_notice(failure_reason(events, i))),
        match actions_of(events)[i] {
            ActionView::SendClient(m) => m is Close ==> {
                ||| upstream_fails_at(events, actions_of(events), i)
                ||| events[i] == EventView::FromUpstream(m)
            },
            _ => true,
        },
{
    lemma_step_at(events, i);
    if i > 0 {
        lemma_step_at(events, i - 1);
    } else {
        assert(events.take(0) =~= Seq::<EventView>::empty());
    }
}

/// When the client leg is lost, nothing is sent to it: the upstream leg is
/// closed at once.
pub proof fn law_client_loss_is_silent(events: Seq<EventView>, i: int)
    requires
        possible(events),
        0 <= i < events.len(),
        events[i] is ClientGone || events[i] is SendFailed && i > 0 && actions_of(events)[i
            - 1] is SendClient,
    ensures
        actions_of(events)[i] is CloseUpstream,
{
    lemma_step_at(events, i);
    if i > 0 {
        lemma_step_at(events, i - 1);
    }
}

/// A tick of the keepalive timer pings both legs, upstream first.
pub proof fn law_keepalive_pings_both_legs(events: Seq<EventView>, i: int)
    requires
        possible(events),
        0 <= i < events.len() - 1,
        events[i] is KeepaliveTick,
        events[i + 1] is Sent,
    ensures
        actions_of(events)[i] == ActionView::SendUpstream(keepalive_ping()),
        actions_of(events)[i + 1] == ActionView::SendClient(keepalive_ping()),
{
    lemma_step_at(events, i);
    lemma_step_at(events, i + 1);
}

/// A Close message that was passed on, in either direction, ends the tunnel
/// without another one.
pub proof fn law_passed_close_ends_tunnel(events: Seq<EventView>, i: int)
    requires
        possible(events),
        0 <= i < events.len() - 1,
        brings_close(events[i]),
        events[i + 1] is Sent,
    ensures
        actions_of(events)[i + 1] is CloseUpstream,
{
    lemma_step_at(events, i);
    lemma_step_at(events, i + 1);
}

/// The upstream leg is closed exactly once, as the last thing but the end: after
/// it only [`ActionView::Finish`] can follow, which never comes without it.
pub proof fn law_upstream_closed_last(events: Seq<EventView>, i: int)
    requires
        possible(events),
        0 <= i < events.len(),
    ensures
        actions_of(events)[i] is CloseUpstream ==> {
            ||| i == events.len() - 1 && state_after(events) is ClosingUpstream
            ||| i == events.len() - 2 && actions_of(events)[i + 1] is Finish
        },
        actions_of(events)[i] is Finish <==> i == events.len() - 1 && state_after(events) is Done,
        actions_of(events)[i] is Finish ==> i > 0 && actions_of(events)[i - 1] is CloseUpstream,
{
    let last = events.len() - 1;
    lemma_step_at(events, i);
    lemma_step_at(events, last);
    assert(events.take(last + 1) =~= events);
    if i + 1 < events.len() {
        lemma_step_at(events, i + 1);
    }
    if i + 2 < events.len() {
        lemma_step_at(events, i + 2);
    }
    if i > 0 {
        lemma_step_at(events, i - 1);
    } else {
        assert(events.take(0) =~= Seq::<EventView>::empty());
    }
}

/// Where a tunnel stands that got a Close message: on its way out, never back at
/// waiting.
proof fn lemma_way_out(events: Seq<EventView>, i: int, j: int)
    requires
        possible(events),
        0 <= i <= j < events.len(),
        brings_close(events[i]),
    ensures
        ({
            let state = state_after(events.take(j + 1));
            ||| state == TunnelState::SendingUpstream { closing: true }
            ||| state == TunnelState::SendingClient { closing: true }
            ||| state is NotifyingClient
            ||| state is ClosingUpstream
            ||| state is Done
        }),
        !(actions_of(events)[j] is Await),
    decreases j,
{
    lemma_step_at(events, j);
    if i < j {
        lemma_way_out(events, i, j - 1);
    }
}

/// A tunnel that waits passes on every text, binary, ping and close message of
/// either end to the other one, the very same message, whatever its payload, its
/// code and its reason. It goes on waiting exactly over pongs and raw frames.
pub proof fn law_each_message_crosses_unchanged(message: MessageView)
    ensures
        (message is Text || message is Binary || message is Ping || message is Close) ==> {
            &&& tunnel_next(TunnelState::Relaying, EventView::FromUpstream(message)) == Some(
                (
                    TunnelState::SendingClient { closing: message is Close },
                    ActionView::SendClient(message),
                ),
            )
            &&& tunnel_next(TunnelState::Relaying, EventView::FromClient(message)) == Some(
                (
                    TunnelState::SendingUpstream { closing: message is Close },
                    ActionView::SendUpstream(message),
                ),
            )
        },
        (message is Pong || message is Frame) <==> tunnel_next(
            TunnelState::Relaying,
            EventView::FromUpstream(message),
        ) == Some((TunnelState::Relaying, ActionView::Await)),
        (message is Pong || message is Frame) <==> tunnel_next(
            TunnelState::Relaying,
            EventView::FromClient(message),
        ) == Some((TunnelState::Relaying, ActionView::Await)),
        (message is Pong || message is Frame) <==> relayed(message) is None,
        !(message is Pong) && !(message is Frame) ==> relayed(message) == Some(message),
{
}

/// What a tunnel does about each event that comes while it waits, at any time of
/// its life: a message goes to the other leg as it is, unless it is a pong or a
/// raw frame; the timer makes a ping without payload; a lost client leg has the
/// upstream leg closed; a lost upstream leg is reported to the client.
pub proof fn law_answers_while_waiting(events: Seq<EventView>, i: int)
    requires
        possible(events),
        0 <= i < events.len(),
    ensures
        ({
            let action = actions_of(events)[i];
            match events[i] {
                EventView::FromClient(m) => if m is Pong || m is Frame {
                    action is Await
                } else {
                    action == ActionView::SendUpstream(m)
                },
                EventView::FromUpstream(m) => if m is Pong || m is Frame {
                    action is Await
                } else {
                    action == ActionView::SendClient(m)
                },
                EventView::ClientGone => action is CloseUpstream,
                EventView::UpstreamError => action == ActionView::SendClient(
                    MessageView::Close(Some((1011u16, "upstream error"@))),
                ),
                EventView::UpstreamEnded => action == ActionView::SendClient(
                    MessageView::Close(Some((1011u16, "upstream closed"@))),
                ),
                EventView::KeepaliveTick => action == ActionView::SendUpstream(
                    MessageView::Ping(Seq::<u8>::empty()),
                ),
                EventView::Sent | EventView::SendFailed => true,
            }
        }),
        !(events[i] is Sent) && !(events[i] is SendFailed) ==> i == 0 || actions_of(events)[i
            - 1] is Await,
{
    lemma_step_at(events, i);
    if i > 0 {
        lemma_step_at(events, i - 1);
    }
}

/// What a tunnel does once a send or close came to its end, by what was sent and
/// why. After a send that succeeded it waits again, unless a Close message was
/// sent; the ping of the timer goes to the client next. A send upstream that
/// failed is reported to the client, with the reason; a send to the client that
/// failed is not. Once the upstream leg is closed, well or not, the tunnel ends.
pub proof fn law_answers_to_outcomes(events: Seq<EventView>, i: int)
    requires
        possible(events),
        0 <= i < events.len(),
        events[i] is Sent || events[i] is SendFailed,
    ensures
        i > 0,
        ({
            let action = actions_of(events)[i];
            match actions_of(events)[i - 1] {
                ActionView::SendUpstream(m) => if events[i - 1] is KeepaliveTick {
                    if events[i] is Sent {
                        action == ActionView::SendClient(MessageView::Ping(Seq::<u8>::empty()))
                    } else {
                        action == ActionView::SendClient(
                            MessageView::Close(Some((1011u16, "upstream ping failed"@))),
                        )
                    }
                } else if events[i] is SendFailed {
                    action == ActionView::SendClient(
                        MessageView::Close(Some((1011u16, "upstream send failed"@))),
                    )
                } else if m is Close {
                    action is CloseUpstream
                } else {
                    action is Await
                },
                ActionView::SendClient(m) => if events[i] is SendFailed || m is Close {
                    action is CloseUpstream
                } else {
                    action is Await
                },
                ActionView::CloseUpstream => action is Finish,
                ActionView::Await => false,
                ActionView::Finish => false,
            }
        }),
{
    lemma_step_at(events, i);
    if i > 0 {
        lemma_step_at(events, i - 1);
        if i > 1 {
            lemma_step_at(events, i - 2);
        } else {
            assert(events.take(0) =~= Seq::<EventView>::empty());
        }
    } else {
        assert(events.take(0) =~= Seq::<EventView>::empty());
    }
}

/// Once either end has sent a Close message, with any code and reason or with
/// none, the tunnel never waits for anything again, and nothing but the outcomes
/// of its last sends can happen to it.
pub proof fn law_no_waiting_after_close(
    events: Seq<EventView>,
    i: int,
    frame: Option<(u16, Seq<char>)>,
    j: int,
)
    requires
        possible(events),
        0 <= i <= j < events.len(),
        events[i] == EventView::FromClient(MessageView::Close(frame)) || events[i]
            == EventView::FromUpstream(MessageView::Close(frame)),
    ensures
        !(actions_of(events)[j] is Await),
        !(state_after(events.take(j + 1)) is Relaying),
        i < j ==> events[j] is Sent || events[j] is SendFailed,
{
    lemma_way_out(events, i, j);
    if i < j {
        lemma_way_out(events, i, j - 1);
        lemma_step_at(events, j);
    }
}

/// A message says its text, its bytes or its close frame, on either leg alike,
/// and events and actions show the message that they carry.
pub proof fn law_messages_show_their_contents(
    text: String,
    bytes: Vec<u8>,
    frame: CloseFrame,
    client: ClientMessage,
    upstream: UpstreamMessage,
)
    ensures
        ClientMessage::Text(text)@ == MessageView::Text(text@),
        ClientMessage::Binary(bytes)@ == MessageView::Binary(bytes@),
        ClientMessage::Ping(bytes)@ == MessageView::Ping(bytes@),
        ClientMessage::Pong(bytes)@ == MessageView::Pong(bytes@),
        ClientMessage::Close(Some(frame))@ == MessageView::Close(Some((frame.code, frame.reason@))),
        ClientMessage::Close(None)@ == MessageView::Close(None),
        UpstreamMessage::Text(text)@ == MessageView::Text(text@),
        UpstreamMessage::Binary(bytes)@ == MessageView::Binary(bytes@),
        UpstreamMessage::Ping(bytes)@ == MessageView::Ping(bytes@),
        UpstreamMessage::Pong(bytes)@ == MessageView::Pong(bytes@),
        UpstreamMessage::Close(Some(frame))@ == MessageView::Close(
            Some((frame.code, frame.reason@)),
        ),
        UpstreamMessage::Close(None)@ == MessageView::Close(None),
        UpstreamMessage::Frame@ == MessageView::Frame,
        TunnelEvent::FromClient(client)@ == EventView::FromClient(client@),
        TunnelEvent::FromUpstream(upstream)@ == EventView::FromUpstream(upstream@),
        TunnelEvent::ClientGone@ == EventView::ClientGone,
        TunnelEvent::UpstreamError@ == EventView::UpstreamError,
        TunnelEvent::UpstreamEnded@ == EventView::UpstreamEnded,
        TunnelEvent::KeepaliveTick@ == EventView::KeepaliveTick,
        TunnelEvent::Sent@ == EventView::Sent,
        TunnelEvent::SendFailed@ == EventView::SendFailed,
        TunnelAction::SendUpstream(upstream)@ == ActionView::SendUpstream(upstream@),
        TunnelAction::SendClient(client)@ == ActionView::SendClient(client@),
        TunnelAction::Await@ == ActionView::Await,
        TunnelAction::CloseUpstream@ == ActionView::CloseUpstream,
        TunnelAction::Finish@ == ActionView::Finish,
{
}

} // verus!
