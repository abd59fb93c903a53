//! The accept loop: connections are taken until cancellation is observed,
//! then the outstanding ones are drained.

use crate::endpoint::optional_text;
use crate::text::{decimal, push_decimal};
use vstd::prelude::*;

verus! {

/// The far end of an accepted connection.
#[derive(Debug, Clone, PartialEq, Eq)]
pub enum Peer {
    /// A network peer, with its address as text.
    Inet(String),
    /// A peer on a Unix domain socket: it has no address to show.
    Unix,
}

/// A `Peer`, as mathematical values.
pub enum PeerView {
    Inet(Seq<char>),
    Unix,
}

impl View for Peer {
    type V = PeerView;

    open spec fn view(&self) -> PeerView {
        match self {
            Peer::Inet(address) => PeerView::Inet(address@),
            Peer::Unix => PeerView::Unix,
        }
    }
}

/// The address that can be shown for a peer, if it has one.
pub open spec fn shown_address(peer: PeerView) -> Option<Seq<char>> {
    match peer {
        PeerView::Inet(address) => Some(address),
        PeerView::Unix => None,
    }
}

impl Peer {
    /// The address to show for this peer, if it has one.
    pub fn addr_string(&self) -> (address: Option<String>)
        ensures
            optional_text(address) == shown_address(self@),
    {
        match self {
            Peer::Inet(address) => Some(address.clone()),
            Peer::Unix => None,
        }
    }
}

/// Where the accept loop stands.
#[derive(Debug, Clone, Copy, PartialEq, Eq, Structural)]
pub enum SupervisorPhase {
    /// Connections are accepted.
    Accepting,
    /// Cancellation was observed: nothing is accepted any more, and the
    /// connections still open are waited for.
    Draining,
    /// Every connection has finished.
    Stopped,
}

/// What the accept loop can be told.
#[derive(Debug, Clone, PartialEq, Eq)]
pub enum AcceptEvent {
    /// A connection was accepted from this peer.
    Connection(Peer),
    /// An attempt to accept failed; the text says why.
    Failure(String),
    /// The shared cancellation was observed.
    Cancelled,
    /// The wait for the outstanding connections returned.
    Drained,
}

/// What the accept loop does next.
#[derive(Debug, Clone, PartialEq, Eq)]
pub enum AcceptAction {
    /// Start a task for the connection and register it with the tracker,
    /// then go on accepting without waiting for it. `peer` is the address to
    /// show for it, if it has one.
    Spawn { peer: Option<String> },
    /// Report the failed attempt and go on accepting.
    Report { cause: String },
    /// Stop accepting: release the listener, close the tracker to new
    /// entries, and wait until every outstanding connection has finished.
    Drain,
    /// The loop is over. The socket file, if the listener had one, is to be
    /// removed now.
    Finish { remove_socket_file: bool },
    /// Turn the connection away: it came when nothing is accepted any more.
    Refuse,
    /// Nothing to do for this event.
    Ignore,
}

/// An `AcceptEvent`, as mathematical values.
pub enum AcceptEventView {
    Connection(PeerView),
    Failure(Seq<char>),
    Cancelled,
    Drained,
}

/// An `AcceptAction`, as mathematical values.
pub enum AcceptActionView {
    Spawn { peer: Option<Seq<char>> },
    Report { cause: Seq<char> },
    Drain,
    Finish { remove_socket_file: bool },
    Refuse,
    Ignore,
}

impl View for AcceptEvent {
    type V = AcceptEventView;

    open spec fn view(&self) -> AcceptEventView {
        match self {
            AcceptEvent::Connection(peer) => AcceptEventView::Connection(peer@),
            AcceptEvent::Failure(cause) => AcceptEventView::Failure(cause@),
            AcceptEvent::Cancelled => AcceptEventView::Cancelled,
            AcceptEvent::Drained => AcceptEventView::Drained,
        }
    }
}

impl View for AcceptAction {
    type V = AcceptActionView;

    open spec fn view(&self) -> AcceptActionView {
        match self {
            AcceptAction::Spawn { peer } => AcceptActionView::Spawn { peer: optional_text(*peer) },
            AcceptAction::Report { cause } => AcceptActionView::Report { cause: cause@ },
            AcceptAction::Drain => AcceptActionView::Drain,
            AcceptAction::Finish { remove_socket_file } => AcceptActionView::Finish {
                remove_socket_file: *remove_socket_file,
            },
            AcceptAction::Refuse => AcceptActionView::Refuse,
            AcceptAction::Ignore => AcceptActionView::Ignore,
        }
    }
}

/// The state of an accept loop: its phase, and whether its listener has a
/// socket file that must go when the loop is over.
#[derive(Debug, Clone, Copy, PartialEq, Eq, Structural)]
pub struct Supervisor {
    pub phase: SupervisorPhase,
    pub socket_file: bool,
}

/// One step of the accept loop: the state it moves to and what it does.
///
/// While accepting, a connection is spawned and a failed attempt is only
/// reported; cancellation starts the drain. From then on connections are
/// refused, and the end of the drain ends the loop.
pub open spec fn supervisor_step(state: Supervisor, event: AcceptEventView) -> (
    Supervisor,
    AcceptActionView,
) {
    match state.phase {
        SupervisorPhase::Accepting => match event {
            AcceptEventView::Connection(peer) => (
                state,
                AcceptActionView::Spawn { peer: shown_address(peer) },
            ),
            AcceptEventView::Failure(cause) => (state, AcceptActionView::Report { cause }),
            AcceptEventView::Cancelled => (
                Supervisor { phase: SupervisorPhase::Draining, ..state },
                AcceptActionView::Drain,
            ),
            AcceptEventView::Drained => (state, AcceptActionView::Ignore),
        },
        SupervisorPhase::Draining => match event {
            AcceptEventView::Connection(_) => (state, AcceptActionView::Refuse),
            AcceptEventView::Drained => (
                Supervisor { phase: SupervisorPhase::Stopped, ..state },
                AcceptActionView::Finish { remove_socket_file: state.socket_file },
            ),
            _ => (state, AcceptActionView::Ignore),
        },
        SupervisorPhase::Stopped => match event {
            AcceptEventView::Connection(_) => (state, AcceptActionView::Refuse),
            _ => (state, AcceptActionView::Ignore),
        },
    }
}

/// The state reached and the actions taken, one for each event, when
/// `events` happen in order to an accept loop in `state`.
pub open spec fn supervisor_run(state: Supervisor, events: Seq<AcceptEventView>) -> (
    Supervisor,
    Seq<AcceptActionView>,
)
    decreases events.len(),
{
    if events.len() == 0 {
        (state, Seq::empty())
    } else {
        let (reached, actions) = supervisor_run(state, events.drop_last());
        let (next, action) = supervisor_step(reached, events.last());
        (next, actions.push(action))
    }
}

impl Supervisor {
    /// An accept loop about to start, for a listener with or without a
    /// socket file.
    pub fn new(socket_file: bool) -> (supervisor: Self)
        ensures
            supervisor == (Supervisor { phase: SupervisorPhase::Accepting, socket_file }),
    {
        Supervisor { phase: SupervisorPhase::Accepting, socket_file }
    }

    /// Whether the loop still accepts connections.
    pub fn is_accepting(&self) -> (accepting: bool)
        ensures
            accepting == (self.phase == SupervisorPhase::Accepting),
    {
        match self.phase {
            SupervisorPhase::Accepting => true,
            _ => false,
        }
    }

    /// Takes one event and says what the loop does next.
    pub fn step(&mut self, event: AcceptEvent) -> (action: AcceptAction)
        ensures
            (*final(self), action@) == supervisor_step(*old(self), event@),
    {
        match self.phase {
            SupervisorPhase::Accepting => match event {
                AcceptEvent::Connection(peer) => AcceptAction::Spawn { peer: peer.addr_string() },
                AcceptEvent::Failure(cause) => AcceptAction::Report { cause },
                AcceptEvent::Cancelled => {
                    self.phase = SupervisorPhase::Draining;
                    AcceptAction::Drain
                },
                AcceptEvent::Drained => AcceptAction::Ignore,
            },
            SupervisorPhase::Draining => match event {
                AcceptEvent::Connection(_) => AcceptAction::Refuse,
                AcceptEvent::Drained => {
                    self.phase = SupervisorPhase::Stopped;
                    AcceptAction::Finish { remove_socket_file: self.socket_file }
                },
                _ => AcceptAction::Ignore,
            },
            SupervisorPhase::Stopped => match event {
                AcceptEvent::Connection(_) => AcceptAction::Refuse,
                _ => AcceptAction::Ignore,
            },
        }
    }
}

/// How far along a phase is.
pub open spec fn phase_rank(phase: SupervisorPhase) -> nat {
    match phase {
        SupervisorPhase::Accepting => 0,
        SupervisorPhase::Draining => 1,
        SupervisorPhase::Stopped => 2,
    }
}

/// A step never takes the loop back to an earlier phase, and never changes
/// whether there is a socket file to remove.
pub proof fn lemma_step_moves_forward(state: Supervisor, event: AcceptEventView)
    ensures
        phase_rank(supervisor_step(state, event).0.phase) >= phase_rank(state.phase),
        supervisor_step(state, event).0.socket_file == state.socket_file,
{
}

/// Observing cancellation a second time changes nothing and asks for
/// nothing.
pub proof fn lemma_second_cancellation_is_ignored(state: Supervisor)
    ensures
        ({
            let (once, _) = supervisor_step(state, AcceptEventView::Cancelled);
            supervisor_step(once, AcceptEventView::Cancelled) == (once, AcceptActionView::Ignore)
        }),
{
}

/// A run takes one action for each event, moves forward only, and keeps the
/// socket file setting.
pub proof fn lemma_run_moves_forward(state: Supervisor, events: Seq<AcceptEventView>)
    ensures
        supervisor_run(state, events).1.len() == events.len(),
        phase_rank(supervisor_run(state, events).0.phase) >= phase_rank(state.phase),
        supervisor_run(state, events).0.socket_file == state.socket_file,
    decreases events.len(),
{
    if events.len() > 0 {
        lemma_run_moves_forward(state, events.drop_last());
        lemma_step_moves_forward(supervisor_run(state, events.drop_last()).0, events.last());
    }
}

/// Once cancellation has been observed, no connection is accepted: no event
/// that comes after it is answered by spawning a task, and a connection that
/// comes after it is refused.
pub proof fn lemma_nothing_accepted_after_cancellation(
    state: Supervisor,
    events: Seq<AcceptEventView>,
)
    ensures
        (exists|i: int| 0 <= i < events.len() && events[i] is Cancelled) ==> supervisor_run(
            state,
            events,
        ).0.phase != SupervisorPhase::Accepting,
        ({
            let actions = supervisor_run(state, events).1;
            forall|i: int, j: int|
                #![trigger events[i], actions[j]]
                0 <= i < j < events.len() && events[i] is Cancelled ==> !(actions[j] is Spawn) && (
                events[j] is Connection ==> actions[j] is Refuse)
        }),
    decreases events.len(),
{
    if events.len() > 0 {
        let earlier = events.drop_last();
        lemma_nothing_accepted_after_cancellation(state, earlier);
        lemma_run_moves_forward(state, earlier);
        let (reached, actions) = supervisor_run(state, earlier);
        let (next, action) = supervisor_step(reached, events.last());
        lemma_step_moves_forward(reached, events.last());
        if exists|i: int| 0 <= i < events.len() && events[i] is Cancelled {
            let i = choose|i: int| 0 <= i < events.len() && events[i] is Cancelled;
            if i < earlier.len() {
                assert(earlier[i] is Cancelled);
            }
        }
        let all = supervisor_run(state, events).1;
        assert forall|i: int, j: int|
            #![trigger events[i], all[j]]
            0 <= i < j < events.len() && events[i] is Cancelled implies !(all[j] is Spawn) && (
            events[j] is Connection ==> all[j] is Refuse) by {
            assert(earlier[i] is Cancelled);
            if j < earlier.len() {
                assert(all[j] == actions[j]);
                assert(events[j] == earlier[j]);
            }
        }
    }
}

/// Until cancellation is observed the loop keeps accepting: every connection
/// is spawned as it comes, whatever failed or was accepted before it.
pub proof fn lemma_accepts_until_cancelled(state: Supervisor, events: Seq<AcceptEventView>)
    requires
        state.phase == SupervisorPhase::Accepting,
        forall|i: int| 0 <= i < events.len() ==> !(#[trigger] events[i] is Cancelled),
    ensures
        supervisor_run(state, events).0 == state,
        forall|j: int|
            0 <= j < events.len() && events[j] is Connection ==> #[trigger] supervisor_run(
                state,
                events,
            ).1[j] == (AcceptActionView::Spawn {
                peer: shown_address(events[j]->Connection_0),
            }),
    decreases events.len(),
{
    if events.len() > 0 {
        let earlier = events.drop_last();
        assert forall|i: int| 0 <= i < earlier.len() implies !(#[trigger] earlier[i]
            is Cancelled) by {
            assert(earlier[i] == events[i]);
        }
        lemma_accepts_until_cancelled(state, earlier);
        lemma_run_moves_forward(state, earlier);
        assert(!(events[events.len() - 1] is Cancelled));
        assert forall|j: int| 0 <= j < events.len() && events[j] is Connection implies (
        #[trigger] supervisor_run(state, events).1[j]) == (AcceptActionView::Spawn {
            peer: shown_address(events[j]->Connection_0),
        }) by {
            if j < earlier.len() {
                assert(supervisor_run(state, events).1[j] == supervisor_run(state, earlier).1[j]);
                assert(events[j] == earlier[j]);
            }
        }
    }
}

/// The loop ends at most once, and only after it has released its listener
/// to drain; when it ends, the socket file is removed exactly where the
/// listener had one.
pub proof fn lemma_finishes_once_after_drain(state: Supervisor, events: Seq<AcceptEventView>)
    requires
        state.phase == SupervisorPhase::Accepting,
    ensures
        ({
            let (reached, actions) = supervisor_run(state, events);
            &&& forall|j: int|
                0 <= j < actions.len() && #[trigger] actions[j] is Finish ==> {
                    &&& reached.phase == SupervisorPhase::Stopped
                    &&& actions[j] == (AcceptActionView::Finish {
                        remove_socket_file: state.socket_file,
                    })
                    &&& exists|i: int| 0 <= i < j && actions[i] is Drain
                }
            &&& forall|j: int, k: int|
                0 <= j < actions.len() && 0 <= k < actions.len() && #[trigger] actions[j]
                    is Finish && #[trigger] actions[k] is Finish ==> j == k
            &&& reached.phase != SupervisorPhase::Accepting ==> exists|i: int|
                0 <= i < actions.len() && actions[i] is Drain
        }),
    decreases events.len(),
{
    if events.len() > 0 {
        let earlier = events.drop_last();
        lemma_finishes_once_after_drain(state, earlier);
        lemma_run_moves_forward(state, earlier);
        let (reached, actions) = supervisor_run(state, earlier);
        let (next, action) = supervisor_step(reached, events.last());
        let all = actions.push(action);
        let last = actions.len() as int;
        assert(all[last] == action);
        assert forall|j: int| 0 <= j < all.len() && #[trigger] all[j] is Finish implies {
            &&& next.phase == SupervisorPhase::Stopped
            &&& all[j] == (AcceptActionView::Finish { remove_socket_file: state.socket_file })
            &&& exists|i: int| 0 <= i < j && all[i] is Drain
        } by {
            if j < last {
                assert(all[j] == actions[j]);
                let i = choose|i: int| 0 <= i < j && actions[i] is Drain;
                assert(all[i] is Drain);
            } else {
                assert(reached.phase == SupervisorPhase::Draining);
                let i = choose|i: int| 0 <= i < actions.len() && actions[i] is Drain;
                assert(all[i] is Drain);
            }
        }
        assert forall|j: int, k: int|
            0 <= j < all.len() && 0 <= k < all.len() && #[trigger] all[j] is Finish
                && #[trigger] all[k] is Finish implies j == k by {
            if j < last {
                assert(all[j] == actions[j]);
            }
            if k < last {
                assert(all[k] == actions[k]);
            }
        }
        if next.phase != SupervisorPhase::Accepting {
            if reached.phase != SupervisorPhase::Accepting {
                let i = choose|i: int| 0 <= i < actions.len() && actions[i] is Drain;
                assert(all[i] is Drain);
            } else {
                assert(all[last] is Drain);
            }
        }
    }
}

/// What to say of the tasks that a drain waits for: nothing where there is
/// none, else their number, with "task" in the singular for one.
pub open spec fn drain_notice_text(tasks: nat) -> Option<Seq<char>> {
    if tasks == 0 {
        None
    } else if tasks == 1 {
        Some("Waiting for "@ + decimal(tasks) + " task"@ + " to finish"@)
    } else {
        Some("Waiting for "@ + decimal(tasks) + " task"@ + "s"@ + " to finish"@)
    }
}

/// The notice for a drain that waits for `tasks` outstanding connections.
pub fn drain_notice(tasks: u64) -> (notice: Option<String>)
    ensures
        optional_text(notice) == drain_notice_text(tasks as nat),
{
    if tasks == 0 {
        return None;
    }
    let mut notice = String::new();
    notice.append("Waiting for ");
    push_decimal(&mut notice, tasks);
    notice.append(" task");
    if tasks != 1 {
        notice.append("s");
    }
    notice.append(" to finish");
    assert(Some(notice@) =~= drain_notice_text(tasks as nat));
    Some(notice)
}

} // verus!
