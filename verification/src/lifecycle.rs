//! The life of a server: waiting for its port, and shutting down.

use vstd::prelude::*;

verus! {

/// Seconds between two tries for a port that is in use.
pub const RETRY_SECS: u64 = 1;

/// The path whose POST requests shut the proxy down.
pub const SHUTDOWN_PATH: &'static str = "/__shutdown";

/// Where the wait for a port stands.
#[derive(Clone, Copy, Debug, PartialEq, Eq, Structural)]
pub enum PortWait {
    /// A try for the port is under way.
    Binding { dormant: bool },
    /// The port is in use; the next try is due after a pause.
    Sleeping,
    /// The wait is over.
    Over,
}

/// What can happen during the wait for a port.
#[derive(Clone, Copy, Debug, PartialEq, Eq, Structural)]
pub enum PortEvent {
    /// The port is ours.
    Bound,
    /// The port is in use.
    InUse,
    /// The port cannot be had for another reason.
    BindFailed,
    /// The pause is over.
    PauseOver,
    /// Standard input was closed.
    StdinClosed,
    /// All servers were told to shut down.
    ShutdownRequested,
}

/// What the wait for a port asks of its driver.
#[derive(Clone, Copy, Debug, PartialEq, Eq, Structural)]
pub enum PortAction {
    /// Try for the port.
    Bind,
    /// Serve on the port. `announce` asks for a word that the port is available
    /// now.
    Serve { announce: bool },
    /// Pause, unless standard input closes or a shutdown is requested first.
    /// `announce` asks for a word that the port is in use.
    Sleep { announce: bool },
    /// Leave without serving.
    Leave,
    /// Report the error and end the process.
    Abort,
}

/// The step that follows an event, or `None` where the event cannot happen then.
pub open spec fn port_next(state: PortWait, event: PortEvent) -> Option<(PortWait, PortAction)> {
    match (state, event) {
        (PortWait::Binding { dormant }, PortEvent::Bound) => Some(
            (PortWait::Over, PortAction::Serve { announce: dormant }),
        ),
        (PortWait::Binding { dormant }, PortEvent::InUse) => Some(
            (PortWait::Sleeping, PortAction::Sleep { announce: !dormant }),
        ),
        (PortWait::Binding { .. }, PortEvent::BindFailed) => Some(
            (PortWait::Over, PortAction::Abort),
        ),
        (PortWait::Sleeping, PortEvent::PauseOver) => Some(
            (PortWait::Binding { dormant: true }, PortAction::Bind),
        ),
        (PortWait::Sleeping, PortEvent::StdinClosed) => Some((PortWait::Over, PortAction::Leave)),
        (PortWait::Sleeping, PortEvent::ShutdownRequested) => Some(
            (PortWait::Over, PortAction::Leave),
        ),
        _ => None,
    }
}

/// Takes one step of the wait for a port. The wait starts in
/// `PortWait::Binding { dormant: false }`, with its driver trying for the port.
pub fn wait_for_port(state: PortWait, event: PortEvent) -> (step: Option<(PortWait, PortAction)>)
    ensures
        step == port_next(state, event),
{
    match state {
        PortWait::Binding { dormant } => match event {
            PortEvent::Bound => Some((PortWait::Over, PortAction::Serve { announce: dormant })),
            PortEvent::InUse => Some(
                (PortWait::Sleeping, PortAction::Sleep { announce: !dormant }),
            ),
            PortEvent::BindFailed => Some((PortWait::Over, PortAction::Abort)),
            _ => None,
        },
        PortWait::Sleeping => match event {
            PortEvent::PauseOver => Some((PortWait::Binding { dormant: true }, PortAction::Bind)),
            PortEvent::StdinClosed | PortEvent::ShutdownRequested => Some(
                (PortWait::Over, PortAction::Leave),
            ),
            _ => None,
        },
        PortWait::Over => None,
    }
}

/// The wait for a port over a course of events: where it stands then, and the
/// action that answered each event. `None` where some event could not have
/// happened when it did.
pub open spec fn port_run(events: Seq<PortEvent>) -> Option<(PortWait, Seq<PortAction>)>
    decreases events.len(),
{
    if events.len() == 0 {
        Some((PortWait::Binding { dormant: false }, Seq::<PortAction>::empty()))
    } else {
        match port_run(events.drop_last()) {
            Some((state, actions)) => match port_next(state, events.last()) {
                Some((next, action)) => Some((next, actions.push(action))),
                None => None,
            },
            None => None,
        }
    }
}

/// Where a wait that is still on stands, by its length.
proof fn lemma_port_state(events: Seq<PortEvent>)
    requires
        port_run(events) is Some,
    ensures
        port_run(events).unwrap().1.len() == events.len(),
        match port_run(events).unwrap().0 {
            PortWait::Binding { dormant } => dormant == (events.len() > 0),
            _ => events.len() > 0,
        },
    decreases events.len(),
{
    if events.len() > 0 {
        lemma_port_state(events.drop_last());
    }
}

/// The dormant mode: a port in use is announced once, when it is first met; that
/// the port is available is announced exactly if it was in use before. The wait
/// ends by serving exactly when the port was had, and without serving exactly
/// when standard input closed, a shutdown was requested or the port could not be
/// had at all.
pub proof fn law_dormant_mode(events: Seq<PortEvent>, i: int)
    requires
        port_run(events) is Some,
        0 <= i < events.len(),
    ensures
        ({
            let action = port_run(events).unwrap().1[i];
            match events[i] {
                PortEvent::Bound => action == PortAction::Serve { announce: i > 0 },
                PortEvent::InUse => action == PortAction::Sleep { announce: i == 0 },
                PortEvent::BindFailed => action == PortAction::Abort,
                PortEvent::PauseOver => action == PortAction::Bind,
                PortEvent::StdinClosed => action == PortAction::Leave,
                PortEvent::ShutdownRequested => action == PortAction::Leave,
            }
        }),
        events[i] is Bound || events[i] is BindFailed || events[i] is StdinClosed
            || events[i] is ShutdownRequested ==> i == events.len() - 1,
    decreases events.len(),
{
    let shorter = events.drop_last();
    lemma_port_state(shorter);
    if i < events.len() - 1 {
        law_dormant_mode(shorter, i);
        if i == events.len() - 2 {
            let shortest = shorter.drop_last();
            lemma_port_state(shortest);
        }
    }
}

/// Whatever the driver of a wait meets while it does what it was last asked for
/// can happen then, and nothing else can: the outcome of a try for the port, or
/// the end of a pause. Otherwise the wait is over.
pub proof fn law_port_events_fit(events: Seq<PortEvent>, event: PortEvent)
    requires
        port_run(events) is Some,
    ensures
        ({
            let actions = port_run(events).unwrap().1;
            if actions.len() == 0 || actions.last() is Bind {
                port_run(events.push(event)) is Some <==> event is Bound || event is InUse
                    || event is BindFailed
            } else if actions.last() is Sleep {
                port_run(events.push(event)) is Some <==> event is PauseOver
                    || event is StdinClosed || event is ShutdownRequested
            } else {
                port_run(events).unwrap().0 is Over && port_run(events.push(event)) is None
            }
        }),
{
    lemma_port_state(events);
    assert(events.push(event).drop_last() =~= events);
}

/// A read from standard input: how many bytes came, or `None` where it failed.
/// Tells whether standard input counts as closed.
pub fn stdin_closed(read: Option<usize>) -> (closed: bool)
    ensures
        closed <==> read is None || read == Some(0usize),
{
    match read {
        Some(n) => n == 0,
        None => true,
    }
}

/// What a serving proxy watches for.
#[derive(Clone, Copy, Debug, PartialEq, Eq, Structural)]
pub enum ShutdownEvent {
    /// Ctrl+C was pressed.
    Interrupt,
    /// The process was asked to terminate.
    Terminate,
    /// The request to terminate cannot be watched for.
    TerminateUnavailable,
    /// A shutdown request came in.
    Requested,
    /// Standard input was closed.
    StdinClosed,
}

/// Whether an event makes a serving proxy shut down. All do but the lack of one
/// thing to watch for.
pub fn shutdown_signal(event: ShutdownEvent) -> (stop: bool)
    ensures
        stop <==> !(event is TerminateUnavailable),
{
    match event {
        ShutdownEvent::TerminateUnavailable => false,
        _ => true,
    }
}

/// The answer to a shutdown request.
#[derive(Clone, Copy, Debug, PartialEq, Eq, Structural)]
pub struct ShutdownReply {
    /// What all servers are told: whether to shut down.
    pub shut_down: bool,
    /// The status code that the client gets.
    pub status: u16,
}

/// Answers a shutdown request.
pub fn shutdown_handler() -> (reply: ShutdownReply)
    ensures
        reply.shut_down,
        reply.status == 200,
{
    ShutdownReply { shut_down: true, status: 200 }
}

} // verus!
