//! The life of one accepted connection: served until it reports completion,
//! and asked once to wind down when cancellation is observed.

use crate::endpoint::optional_text;
use vstd::prelude::*;

verus! {

/// Where a connection stands.
#[derive(Debug, Clone, Copy, PartialEq, Eq, Structural)]
pub enum ConnectionPhase {
    /// Exchanges are served as they come.
    Serving,
    /// The graceful transition was requested: exchanges in progress finish,
    /// no new one is taken.
    Closing,
    /// The connection reported completion; its task has ended.
    Closed,
}

/// What can happen to a connection while its task waits.
#[derive(Debug, Clone, PartialEq, Eq)]
pub enum ConnectionEvent {
    /// The connection reported completion, with the protocol error if it
    /// ended in one.
    Finished(Option<String>),
    /// The shared cancellation was observed.
    Cancelled,
}

/// What the task of a connection does next.
#[derive(Debug, Clone, PartialEq, Eq)]
pub enum ConnectionAction {
    /// Keep waiting.
    Wait,
    /// Ask the connection to stop taking new exchanges and to finish those in
    /// progress, then keep waiting for it to report completion.
    ShutDownGracefully,
    /// End the task, reporting the protocol error if there is one. Nothing
    /// but this connection is touched.
    End { error: Option<String> },
}

/// A `ConnectionEvent`, as mathematical values.
pub enum ConnectionEventView {
    Finished(Option<Seq<char>>),
    Cancelled,
}

/// A `ConnectionAction`, as mathematical values.
pub enum ConnectionActionView {
    Wait,
    ShutDownGracefully,
    End { error: Option<Seq<char>> },
}

impl View for ConnectionEvent {
    type V = ConnectionEventView;

    open spec fn view(&self) -> ConnectionEventView {
        match self {
            ConnectionEvent::Finished(error) => ConnectionEventView::Finished(
                optional_text(*error),
            ),
            ConnectionEvent::Cancelled => ConnectionEventView::Cancelled,
        }
    }
}

impl View for ConnectionAction {
    type V = ConnectionActionView;

    open spec fn view(&self) -> ConnectionActionView {
        match self {
            ConnectionAction::Wait => ConnectionActionView::Wait,
            ConnectionAction::ShutDownGracefully => ConnectionActionView::ShutDownGracefully,
            ConnectionAction::End { error } => ConnectionActionView::End {
                error: optional_text(*error),
            },
        }
    }
}

/// One step of a connection: the phase it moves to and what its task does.
///
/// Completion ends the task from either live phase. Cancellation starts the
/// graceful transition from `Serving` and is a no-op from then on. A closed
/// connection stays closed.
pub open spec fn connection_step(phase: ConnectionPhase, event: ConnectionEventView) -> (
    ConnectionPhase,
    ConnectionActionView,
) {
    match (phase, event) {
        (ConnectionPhase::Closed, _) => (ConnectionPhase::Closed, ConnectionActionView::Wait),
        (_, ConnectionEventView::Finished(error)) => (
            ConnectionPhase::Closed,
            ConnectionActionView::End { error },
        ),
        (ConnectionPhase::Serving, ConnectionEventView::Cancelled) => (
            ConnectionPhase::Closing,
            ConnectionActionView::ShutDownGracefully,
        ),
        (ConnectionPhase::Closing, ConnectionEventView::Cancelled) => (
            ConnectionPhase::Closing,
            ConnectionActionView::Wait,
        ),
    }
}

/// The phase reached and the actions taken, one for each event, when
/// `events` happen in order to a connection in `phase`.
pub open spec fn connection_run(phase: ConnectionPhase, events: Seq<ConnectionEventView>) -> (
    ConnectionPhase,
    Seq<ConnectionActionView>,
)
    decreases events.len(),
{
    if events.len() == 0 {
        (phase, Seq::empty())
    } else {
        let (reached, actions) = connection_run(phase, events.drop_last());
        let (next, action) = connection_step(reached, events.last());
        (next, actions.push(action))
    }
}

/// How many of `actions` ask for the graceful transition.
pub open spec fn graceful_requests(actions: Seq<ConnectionActionView>) -> nat
    decreases actions.len(),
{
    if actions.len() == 0 {
        0
    } else {
        graceful_requests(actions.drop_last()) + if actions.last() is ShutDownGracefully {
            1nat
        } else {
            0nat
        }
    }
}

/// One accepted connection, as its task sees it.
#[derive(Debug)]
pub struct Connection {
    phase: ConnectionPhase,
}

impl Connection {
    /// The phase the connection is in.
    pub closed spec fn view(&self) -> ConnectionPhase {
        self.phase
    }

    /// A connection that was just accepted.
    pub fn new() -> (connection: Self)
        ensures
            connection@ == ConnectionPhase::Serving,
    {
        Connection { phase: ConnectionPhase::Serving }
    }

    /// The phase the connection is in.
    pub fn phase(&self) -> (phase: ConnectionPhase)
        ensures
            phase == self@,
    {
        self.phase
    }

    /// Whether the task still has to watch for cancellation: only until it
    /// has observed it once.
    pub fn watches_cancellation(&self) -> (watching: bool)
        ensures
            watching == (self@ == ConnectionPhase::Serving),
    {
        match self.phase {
            ConnectionPhase::Serving => true,
            _ => false,
        }
    }

    /// Whether the task has ended.
    pub fn is_closed(&self) -> (closed: bool)
        ensures
            closed == (self@ == ConnectionPhase::Closed),
    {
        match self.phase {
            ConnectionPhase::Closed => true,
            _ => false,
        }
    }

    /// Takes one event and says what the task does next.
    pub fn step(&mut self, event: ConnectionEvent) -> (action: ConnectionAction)
        ensures
            (final(self)@, action@) == connection_step(old(self)@, event@),
    {
        match self.phase {
            ConnectionPhase::Closed => ConnectionAction::Wait,
            ConnectionPhase::Serving => match event {
                ConnectionEvent::Finished(error) => {
                    self.phase = ConnectionPhase::Closed;
                    ConnectionAction::End { error }
                },
                ConnectionEvent::Cancelled => {
                    self.phase = ConnectionPhase::Closing;
                    ConnectionAction::ShutDownGracefully
                },
            },
            ConnectionPhase::Closing => match event {
                ConnectionEvent::Finished(error) => {
                    self.phase = ConnectionPhase::Closed;
                    ConnectionAction::End { error }
                },
                ConnectionEvent::Cancelled => ConnectionAction::Wait,
            },
        }
    }
}

/// Cancelling twice is the same as cancelling once: the second cancellation
/// changes nothing and asks for nothing.
pub proof fn lemma_cancellation_is_idempotent(phase: ConnectionPhase)
    ensures
        ({
            let (once, _) = connection_step(phase, ConnectionEventView::Cancelled);
            connection_step(once, ConnectionEventView::Cancelled) == (
                once,
                ConnectionActionView::Wait,
            )
        }),
{
}

/// Completion ends the task whatever the cancellation state, and hands on
/// the error that the connection ended in, if any.
pub proof fn lemma_completion_ends_task(phase: ConnectionPhase, error: Option<Seq<char>>)
    requires
        phase != ConnectionPhase::Closed,
    ensures
        connection_step(phase, ConnectionEventView::Finished(error)) == (
            ConnectionPhase::Closed,
            ConnectionActionView::End { error },
        ),
{
}

/// Whatever happens to a connection, and however often cancellation is
/// observed, the graceful transition is asked for at most once; and not at
/// all unless the connection was still serving.
pub proof fn lemma_graceful_transition_at_most_once(
    phase: ConnectionPhase,
    events: Seq<ConnectionEventView>,
)
    ensures
        graceful_requests(connection_run(phase, events).1) <= 1,
        phase != ConnectionPhase::Serving ==> graceful_requests(connection_run(phase, events).1)
            == 0,
        connection_run(phase, events).0 == ConnectionPhase::Serving ==> graceful_requests(
            connection_run(phase, events).1,
        ) == 0,
    decreases events.len(),
{
    if events.len() > 0 {
        lemma_graceful_transition_at_most_once(phase, events.drop_last());
        let (reached, actions) = connection_run(phase, events.drop_last());
        let (next, action) = connection_step(reached, events.last());
        assert(actions.push(action).drop_last() =~= actions);
    }
}

/// The phases of connections that are open side by side, after the one at
/// `index` has taken `event`.
pub open spec fn fleet_step(
    fleet: Seq<ConnectionPhase>,
    index: int,
    event: ConnectionEventView,
) -> Seq<ConnectionPhase>
    recommends
        0 <= index < fleet.len(),
{
    fleet.update(index, connection_step(fleet[index], event).0)
}

/// Connections are independent of one another: whatever happens to one of
/// them, a protocol error included, every other one stays in its phase, and
/// so goes on exactly as it would have.
pub proof fn lemma_connections_are_independent(
    fleet: Seq<ConnectionPhase>,
    index: int,
    event: ConnectionEventView,
    other: int,
    later: Seq<ConnectionEventView>,
)
    requires
        0 <= index < fleet.len(),
        0 <= other < fleet.len(),
        other != index,
    ensures
        fleet_step(fleet, index, event).len() == fleet.len(),
        fleet_step(fleet, index, event)[other] == fleet[other],
        connection_run(fleet_step(fleet, index, event)[other], later) == connection_run(
            fleet[other],
            later,
        ),
{
}

/// A connection that is left to finish does finish: from either live phase
/// its completion closes it, however often cancellation was observed before.
pub proof fn lemma_connection_completes(
    phase: ConnectionPhase,
    cancellations: nat,
    error: Option<Seq<char>>,
)
    requires
        phase != ConnectionPhase::Closed,
    ensures
        ({
            let events = Seq::new(cancellations, |i: int| ConnectionEventView::Cancelled).push(
                ConnectionEventView::Finished(error),
            );
            let (reached, actions) = connection_run(phase, events);
            &&& reached == ConnectionPhase::Closed
            &&& actions.len() == events.len()
            &&& actions.last() == (ConnectionActionView::End { error })
        }),
{
    let cancelled = Seq::new(cancellations, |i: int| ConnectionEventView::Cancelled);
    let events = cancelled.push(ConnectionEventView::Finished(error));
    assert(events.drop_last() =~= cancelled);
    lemma_cancelled_connection_lives(phase, cancellations);
}

/// Cancellation alone never closes a connection.
pub proof fn lemma_cancelled_connection_lives(phase: ConnectionPhase, cancellations: nat)
    requires
        phase != ConnectionPhase::Closed,
    ensures
        ({
            let events = Seq::new(cancellations, |i: int| ConnectionEventView::Cancelled);
            let (reached, actions) = connection_run(phase, events);
            &&& reached != ConnectionPhase::Closed
            &&& actions.len() == cancellations
        }),
    decreases cancellations,
{
    if cancellations > 0 {
        let events = Seq::new(cancellations, |i: int| ConnectionEventView::Cancelled);
        let earlier = Seq::new(
            (cancellations - 1) as nat,
            |i: int| ConnectionEventView::Cancelled,
        );
        assert(events.drop_last() =~= earlier);
        lemma_cancelled_connection_lives(phase, (cancellations - 1) as nat);
    }
}

} // verus!
