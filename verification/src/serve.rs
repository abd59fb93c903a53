//! Bringing a listener up: bind, provision the socket file, announce the
//! bound address, and hand over to the accept loop; or fail and clean up.

use crate::endpoint::{optional_text, Endpoint, EndpointView};
use crate::permissions::{
    lemma_plan_failure_holds_path_and_cause, lemma_step_failure_holds_path_and_cause,
    needs_no_lookup, permission_plan, plan_view, possible_answers, resolution_failure_message,
    step_failure_message, Account, LookupView, PermissionStep,
};
use crate::text::{holds, lemma_holds_part, numeric_id};
use vstd::prelude::*;

verus! {

/// Where the start of a listener stands.
#[derive(Debug, Clone, Copy, PartialEq, Eq, Structural)]
pub enum LaunchPhase {
    /// The endpoint is being bound.
    Binding,
    /// The socket is bound and its file is being given its owner and mode.
    Provisioning,
    /// The listener was handed to the accept loop.
    Listening,
    /// The start failed; nothing listens.
    Failed,
}

/// What the start of a listener can be told.
#[derive(Debug, Clone, PartialEq, Eq)]
pub enum LaunchEvent {
    /// The endpoint is bound. `local` is the address that the listener
    /// reports for itself, where it reports one.
    Bound { local: Option<String> },
    /// The endpoint could not be bound; the text says why.
    BindFailed { cause: String },
    /// Every step of the permission plan was made.
    Provisioned,
    /// The system refused a step of the permission plan; the text says why.
    ProvisionFailed { step: PermissionStep, cause: String },
}

/// What to do next to bring the listener up.
#[derive(Debug, Clone, PartialEq, Eq)]
pub enum LaunchAction {
    /// Bind a network listener to this address.
    BindInet { address: String },
    /// Bind a Unix domain socket at this path.
    BindUnix { path: String },
    /// Make these changes to the socket file at `path`, in this order.
    Provision { path: String, steps: Vec<PermissionStep> },
    /// Announce that the listener is bound, with its address where it is
    /// known, then run the accept loop. `socket_file` says whether the
    /// listener has a socket file that must go when the loop is over.
    Listen { address: Option<String>, socket_file: bool },
    /// Give up with this error. Where a socket file was created, release the
    /// listener and remove the file.
    Fail { error: String, remove_socket_file: bool },
    /// Nothing to do for this event.
    Ignore,
}

/// A `LaunchEvent`, as mathematical values.
pub enum LaunchEventView {
    Bound { local: Option<Seq<char>> },
    BindFailed { cause: Seq<char> },
    Provisioned,
    ProvisionFailed { step: PermissionStep, cause: Seq<char> },
}

/// A `LaunchAction`, as mathematical values.
pub enum LaunchActionView {
    BindInet { address: Seq<char> },
    BindUnix { path: Seq<char> },
    Provision { path: Seq<char>, steps: Seq<PermissionStep> },
    Listen { address: Option<Seq<char>>, socket_file: bool },
    Fail { error: Seq<char>, remove_socket_file: bool },
    Ignore,
}

impl View for LaunchEvent {
    type V = LaunchEventView;

    open spec fn view(&self) -> LaunchEventView {
        match self {
            LaunchEvent::Bound { local } => LaunchEventView::Bound { local: optional_text(*local) },
            LaunchEvent::BindFailed { cause } => LaunchEventView::BindFailed { cause: cause@ },
            LaunchEvent::Provisioned => LaunchEventView::Provisioned,
            LaunchEvent::ProvisionFailed { step, cause } => LaunchEventView::ProvisionFailed {
                step: *step,
                cause: cause@,
            },
        }
    }
}

impl View for LaunchAction {
    type V = LaunchActionView;

    open spec fn view(&self) -> LaunchActionView {
        match self {
            LaunchAction::BindInet { address } => LaunchActionView::BindInet { address: address@ },
            LaunchAction::BindUnix { path } => LaunchActionView::BindUnix { path: path@ },
            LaunchAction::Provision { path, steps } => LaunchActionView::Provision {
                path: path@,
                steps: steps@,
            },
            LaunchAction::Listen { address, socket_file } => LaunchActionView::Listen {
                address: optional_text(*address),
                socket_file: *socket_file,
            },
            LaunchAction::Fail { error, remove_socket_file } => LaunchActionView::Fail {
                error: error@,
                remove_socket_file: *remove_socket_file,
            },
            LaunchAction::Ignore => LaunchActionView::Ignore,
        }
    }
}

/// The state of a start, as mathematical values.
pub struct LaunchView {
    pub phase: LaunchPhase,
    pub endpoint: EndpointView,
}

/// The first thing to do for an endpoint: bind it.
pub open spec fn bind_action(endpoint: EndpointView) -> LaunchActionView {
    match endpoint {
        EndpointView::Inet(address) => LaunchActionView::BindInet { address },
        EndpointView::Unix(socket) => LaunchActionView::BindUnix { path: socket.path },
    }
}

/// The error for an endpoint that could not be bound.
pub open spec fn bind_failure_message(endpoint: EndpointView, cause: Seq<char>) -> Seq<char> {
    match endpoint {
        EndpointView::Inet(address) => "failed to bind to address '"@ + address + "': "@ + cause,
        EndpointView::Unix(socket) => "failed to bind to Unix domain socket path '"@ + socket.path
            + "': "@ + cause,
    }
}

/// One step of a start: the state it moves to and what to do next. `plan` is
/// the permission plan of the socket, or the reason why there is none; it is
/// looked at only when a Unix domain socket has just been bound.
///
/// A bind failure ends the start with nothing to clean up. A bound network
/// listener is announced with its address and listens. A bound socket is
/// provisioned first and announced without an address; if there is no plan,
/// or a step of it is refused, the start fails and the socket file goes.
pub open spec fn launch_step(
    state: LaunchView,
    event: LaunchEventView,
    plan: Result<Seq<PermissionStep>, Seq<char>>,
) -> (LaunchView, LaunchActionView) {
    let failed = LaunchView { phase: LaunchPhase::Failed, ..state };
    let listening = LaunchView { phase: LaunchPhase::Listening, ..state };
    match (state.phase, event, state.endpoint) {
        (LaunchPhase::Binding, LaunchEventView::BindFailed { cause }, _) => (
            failed,
            LaunchActionView::Fail {
                error: bind_failure_message(state.endpoint, cause),
                remove_socket_file: false,
            },
        ),
        (LaunchPhase::Binding, LaunchEventView::Bound { local }, EndpointView::Inet(_)) => (
            listening,
            LaunchActionView::Listen { address: local, socket_file: false },
        ),
        (LaunchPhase::Binding, LaunchEventView::Bound { .. }, EndpointView::Unix(socket)) => {
            match plan {
                Ok(steps) => (
                    LaunchView { phase: LaunchPhase::Provisioning, ..state },
                    LaunchActionView::Provision { path: socket.path, steps },
                ),
                Err(error) => (failed, LaunchActionView::Fail { error, remove_socket_file: true }),
            }
        },
        (LaunchPhase::Provisioning, LaunchEventView::Provisioned, EndpointView::Unix(_)) => (
            listening,
            LaunchActionView::Listen { address: None, socket_file: true },
        ),
        (
            LaunchPhase::Provisioning,
            LaunchEventView::ProvisionFailed { step, cause },
            EndpointView::Unix(socket),
        ) => (
            failed,
            LaunchActionView::Fail {
                error: step_failure_message(step, socket.path, cause),
                remove_socket_file: true,
            },
        ),
        _ => (state, LaunchActionView::Ignore),
    }
}

/// Whether a step looks at the permission plan.
pub open spec fn consults_plan(state: LaunchView, event: LaunchEventView) -> bool {
    state.phase == LaunchPhase::Binding && event is Bound && state.endpoint is Unix
}

/// The permission plan of an endpoint, given what the account database says
/// of the owner and of the group. A network endpoint has nothing to change.
pub open spec fn plan_for(
    endpoint: EndpointView,
    owner_lookup: LookupView,
    group_lookup: LookupView,
) -> Result<Seq<PermissionStep>, Seq<char>> {
    match endpoint {
        EndpointView::Unix(socket) => permission_plan(socket, owner_lookup, group_lookup),
        EndpointView::Inet(_) => Ok(Seq::empty()),
    }
}

/// Whether the two lookups can be the account database's answers for the
/// owner and group of an endpoint.
pub open spec fn answers_possible(
    endpoint: EndpointView,
    owner_lookup: LookupView,
    group_lookup: LookupView,
) -> bool {
    match endpoint {
        EndpointView::Unix(socket) => possible_answers(socket, owner_lookup, group_lookup),
        EndpointView::Inet(_) => true,
    }
}

/// Whether the permission plan of an endpoint can be made without the
/// account database: it is no socket, or neither its owner nor its group is
/// a name.
pub open spec fn names_no_account(endpoint: EndpointView) -> bool {
    match endpoint {
        EndpointView::Unix(socket) => needs_no_lookup(socket.owner) && needs_no_lookup(
            socket.group,
        ),
        EndpointView::Inet(_) => true,
    }
}

/// The start of one listener.
#[derive(Debug)]
pub struct Launch {
    phase: LaunchPhase,
    endpoint: Endpoint,
}

impl View for Launch {
    type V = LaunchView;

    closed spec fn view(&self) -> LaunchView {
        LaunchView { phase: self.phase, endpoint: self.endpoint@ }
    }
}

fn bind_failure(endpoint: &Endpoint, cause: &str) -> (message: String)
    ensures
        message@ == bind_failure_message(endpoint@, cause@),
{
    let mut message = String::new();
    match endpoint {
        Endpoint::Inet(address) => {
            message.append("failed to bind to address '");
            message.append(address.as_str());
        },
        Endpoint::Unix(socket) => {
            message.append("failed to bind to Unix domain socket path '");
            message.append(socket.path.as_str());
        },
    }
    message.append("': ");
    message.append(cause);
    assert(message@ =~= bind_failure_message(endpoint@, cause@));
    message
}

/// Begins to serve `endpoint`: the start is in its first phase, and the
/// first thing to do is to bind the endpoint.
pub fn serve(endpoint: &Endpoint) -> (started: (Launch, LaunchAction))
    ensures
        started.0@ == (LaunchView { phase: LaunchPhase::Binding, endpoint: endpoint@ }),
        started.1@ == bind_action(endpoint@),
{
    let action = match endpoint {
        Endpoint::Inet(address) => LaunchAction::BindInet { address: address.clone() },
        Endpoint::Unix(socket) => LaunchAction::BindUnix { path: socket.path.clone() },
    };
    (Launch { phase: LaunchPhase::Binding, endpoint: endpoint.duplicate() }, action)
}

impl Launch {
    /// The phase the start is in.
    pub fn phase(&self) -> (phase: LaunchPhase)
        ensures
            phase == self@.phase,
    {
        self.phase
    }

    /// Takes one event, with the permission plan to use if the step looks
    /// at it, and says what to do next.
    pub fn advance(&mut self, event: LaunchEvent, plan: Result<Vec<PermissionStep>, String>) -> (action:
        LaunchAction)
        ensures
            (final(self)@, action@) == launch_step(old(self)@, event@, plan_view(plan)),
    {
        match self.phase {
            LaunchPhase::Binding => match event {
                LaunchEvent::BindFailed { cause } => {
                    self.phase = LaunchPhase::Failed;
                    LaunchAction::Fail {
                        error: bind_failure(&self.endpoint, cause.as_str()),
                        remove_socket_file: false,
                    }
                },
                LaunchEvent::Bound { local } => match &self.endpoint {
                    Endpoint::Inet(_) => {
                        self.phase = LaunchPhase::Listening;
                        LaunchAction::Listen { address: local, socket_file: false }
                    },
                    Endpoint::Unix(socket) => match plan {
                        Ok(steps) => {
                            let path = socket.path.clone();
                            self.phase = LaunchPhase::Provisioning;
                            LaunchAction::Provision { path, steps }
                        },
                        Err(error) => {
                            self.phase = LaunchPhase::Failed;
                            LaunchAction::Fail { error, remove_socket_file: true }
                        },
                    },
                },
                _ => LaunchAction::Ignore,
            },
            LaunchPhase::Provisioning => match &self.endpoint {
                Endpoint::Unix(socket) => match event {
                    LaunchEvent::Provisioned => {
                        self.phase = LaunchPhase::Listening;
                        LaunchAction::Listen { address: None, socket_file: true }
                    },
                    LaunchEvent::ProvisionFailed { step, cause } => {
                        let error = step.failure(socket.path.as_str(), cause.as_str());
                        self.phase = LaunchPhase::Failed;
                        LaunchAction::Fail { error, remove_socket_file: true }
                    },
                    _ => LaunchAction::Ignore,
                },
                Endpoint::Inet(_) => LaunchAction::Ignore,
            },
            _ => LaunchAction::Ignore,
        }
    }

    /// Takes one event and says what to do next. When a Unix domain socket
    /// has just been bound, its permission plan is made here, which may ask
    /// the account database; whatever the database says, the step is the one
    /// that `launch_step` gives for the plan that follows from it.
    pub fn step(&mut self, event: LaunchEvent) -> (action: LaunchAction)
        ensures
            exists|owner_lookup: LookupView, group_lookup: LookupView|
                answers_possible(old(self)@.endpoint, owner_lookup, group_lookup) && (
                    final(self)@,
                    action@,
                ) == launch_step(
                    old(self)@,
                    event@,
                    plan_for(old(self)@.endpoint, owner_lookup, group_lookup),
                ),
            !consults_plan(old(self)@, event@) || names_no_account(old(self)@.endpoint) ==> (
                final(self)@,
                action@,
            ) == launch_step(
                old(self)@,
                event@,
                plan_for(old(self)@.endpoint, LookupView::Missing, LookupView::Missing),
            ),
            action matches LaunchAction::Fail { error, .. } ==> holds(
                error@,
                bind_target(old(self)@.endpoint),
            ) && (event_cause(event@) matches Some(cause) ==> holds(error@, cause)),
    {
        let ghost before = self@;
        let ghost happened = event@;
        match (self.phase, &event, &self.endpoint) {
            (LaunchPhase::Binding, LaunchEvent::Bound { .. }, Endpoint::Unix(socket)) => {
                let plan = socket.set_permissions();
                let ghost (owner_lookup, group_lookup) = choose|
                    owner_lookup: LookupView,
                    group_lookup: LookupView,
                |
                    possible_answers(socket@, owner_lookup, group_lookup) && plan_view(plan)
                        == permission_plan(socket@, owner_lookup, group_lookup);
                let action = self.advance(event, plan);
                proof {
                    if action@ is Fail {
                        lemma_failure_holds_target_and_cause(
                            before,
                            happened,
                            owner_lookup,
                            group_lookup,
                        );
                    }
                }
                assert(answers_possible(before.endpoint, owner_lookup, group_lookup) && (
                    self@,
                    action@,
                ) == launch_step(
                    before,
                    happened,
                    plan_for(before.endpoint, owner_lookup, group_lookup),
                ));
                action
            },
            _ => {
                let action = self.advance(event, Ok(Vec::new()));
                proof {
                    if action@ is Fail {
                        lemma_failure_holds_target_and_cause(
                            before,
                            happened,
                            LookupView::Missing,
                            LookupView::Missing,
                        );
                    }
                }
                assert(answers_possible(
                    before.endpoint,
                    LookupView::Missing,
                    LookupView::Missing,
                ) && (self@, action@) == launch_step(
                    before,
                    happened,
                    plan_for(before.endpoint, LookupView::Missing, LookupView::Missing),
                ));
                action
            },
        }
    }
}

/// The state reached and the actions taken, one for each event, when
/// `events` happen in order to a start in `state` whose permission plan is
/// `plan`.
pub open spec fn launch_run(
    state: LaunchView,
    events: Seq<LaunchEventView>,
    plan: Result<Seq<PermissionStep>, Seq<char>>,
) -> (LaunchView, Seq<LaunchActionView>)
    decreases events.len(),
{
    if events.len() == 0 {
        (state, Seq::empty())
    } else {
        let (reached, actions) = launch_run(state, events.drop_last(), plan);
        let (next, action) = launch_step(reached, events.last(), plan);
        (next, actions.push(action))
    }
}

/// A step that does not look at the permission plan is the same for every
/// plan.
pub proof fn lemma_step_without_plan(
    state: LaunchView,
    event: LaunchEventView,
    plan: Result<Seq<PermissionStep>, Seq<char>>,
    other_plan: Result<Seq<PermissionStep>, Seq<char>>,
)
    requires
        !consults_plan(state, event),
    ensures
        launch_step(state, event, plan) == launch_step(state, event, other_plan),
{
}

/// A socket whose owner is a name that is not found is not served, whether
/// the account is absent or the lookup itself failed: once it is bound the
/// start fails with the error of the owner, which holds the path of the
/// socket, and the socket file that the bind created is removed.
pub proof fn lemma_unknown_owner_stops_start(
    state: LaunchView,
    name: Seq<char>,
    local: Option<Seq<char>>,
    owner_lookup: LookupView,
    group_lookup: LookupView,
)
    requires
        state.phase == LaunchPhase::Binding,
        state.endpoint matches EndpointView::Unix(socket) && socket.owner == Some(name),
        numeric_id(name) is None,
        !(owner_lookup is Found),
    ensures
        ({
            let error = resolution_failure_message(
                Account::User,
                state.endpoint->Unix_0.path,
                name,
                match owner_lookup {
                    LookupView::Failed(cause) => Some(cause),
                    _ => None,
                },
            );
            &&& launch_step(
                state,
                LaunchEventView::Bound { local },
                plan_for(state.endpoint, owner_lookup, group_lookup),
            ) == (
                LaunchView { phase: LaunchPhase::Failed, ..state },
                LaunchActionView::Fail { error, remove_socket_file: true },
            )
            &&& holds(error, state.endpoint->Unix_0.path)
        }),
{
    crate::permissions::lemma_resolution_failure_holds_path_and_cause(
        Account::User,
        state.endpoint->Unix_0.path,
        name,
        match owner_lookup {
            LookupView::Failed(cause) => Some(cause),
            _ => None,
        },
    );
}

/// What an endpoint is bound to: the address, or the path of the socket.
pub open spec fn bind_target(endpoint: EndpointView) -> Seq<char> {
    match endpoint {
        EndpointView::Inet(address) => address,
        EndpointView::Unix(socket) => socket.path,
    }
}

/// Whether an event tells of a failure with this cause.
pub open spec fn event_cause(event: LaunchEventView) -> Option<Seq<char>> {
    match event {
        LaunchEventView::BindFailed { cause } => Some(cause),
        LaunchEventView::ProvisionFailed { cause, .. } => Some(cause),
        _ => None,
    }
}

/// Every error that fails a start holds what was to be bound, the address
/// or the path of the socket; and where the system refused something, the
/// bind or a step of the plan, the error holds the system's description of
/// what went wrong.
pub proof fn lemma_failure_holds_target_and_cause(
    state: LaunchView,
    event: LaunchEventView,
    owner_lookup: LookupView,
    group_lookup: LookupView,
)
    requires
        launch_step(state, event, plan_for(state.endpoint, owner_lookup, group_lookup)).1 is Fail,
    ensures
        ({
            let error = launch_step(
                state,
                event,
                plan_for(state.endpoint, owner_lookup, group_lookup),
            ).1->error;
            &&& holds(error, bind_target(state.endpoint))
            &&& event_cause(event) matches Some(cause) ==> holds(error, cause)
        }),
{
    let plan = plan_for(state.endpoint, owner_lookup, group_lookup);
    let error = launch_step(state, event, plan).1->error;
    match event {
        LaunchEventView::BindFailed { cause } => {
            let opening = match state.endpoint {
                EndpointView::Inet(_) => "failed to bind to address '"@,
                EndpointView::Unix(_) => "failed to bind to Unix domain socket path '"@,
            };
            let target = bind_target(state.endpoint);
            assert(error =~= opening + target + ("': "@ + cause));
            lemma_holds_part(opening, target, "': "@ + cause);
            assert(error =~= (opening + target + "': "@) + cause + Seq::<char>::empty());
            lemma_holds_part(opening + target + "': "@, cause, Seq::empty());
        },
        LaunchEventView::Bound { .. } => {
            lemma_plan_failure_holds_path_and_cause(
                state.endpoint->Unix_0,
                owner_lookup,
                group_lookup,
            );
        },
        LaunchEventView::ProvisionFailed { step, cause } => {
            lemma_step_failure_holds_path_and_cause(step, state.endpoint->Unix_0.path, cause);
        },
        LaunchEventView::Provisioned => {},
    }
}

/// The order of a start, whatever events come and in whatever order.
///
/// A socket file is provisioned at most once, with exactly the plan, and
/// only before the listener is announced. A start that listens has announced
/// its listener exactly once, for a socket only after it was provisioned; a
/// start that failed has reported exactly one failure; after either, nothing
/// more is done. A failure asks for the socket file to be removed exactly
/// where the bind had succeeded, which only a socket's can, and the accept
/// loop is told of a socket file exactly where the endpoint is a socket.
pub proof fn lemma_launch_order(
    endpoint: EndpointView,
    events: Seq<LaunchEventView>,
    plan: Result<Seq<PermissionStep>, Seq<char>>,
)
    ensures
        ({
            let start = LaunchView { phase: LaunchPhase::Binding, endpoint };
            let (reached, actions) = launch_run(start, events, plan);
            &&& actions.len() == events.len()
            &&& reached.endpoint == endpoint
            &&& reached.phase == LaunchPhase::Binding ==> forall|j: int|
                0 <= j < actions.len() ==> #[trigger] actions[j] is Ignore
            &&& reached.phase == LaunchPhase::Provisioning ==> exists|i: int|
                0 <= i < actions.len() && actions[i] is Provision
            &&& reached.phase == LaunchPhase::Listening ==> exists|i: int|
                0 <= i < actions.len() && actions[i] is Listen
            &&& reached.phase == LaunchPhase::Failed ==> exists|i: int|
                0 <= i < actions.len() && actions[i] is Fail
            &&& forall|j: int|
                0 <= j < actions.len() ==> !(#[trigger] actions[j] is BindInet) && !(actions[j]
                    is BindUnix)
            &&& forall|j: int|
                0 <= j < actions.len() && #[trigger] actions[j] is Provision ==> {
                    &&& reached.phase != LaunchPhase::Binding
                    &&& endpoint matches EndpointView::Unix(socket) && plan matches Ok(steps)
                        && actions[j] == (LaunchActionView::Provision { path: socket.path, steps })
                }
            &&& forall|j: int|
                0 <= j < actions.len() && #[trigger] actions[j] is Listen ==> {
                    &&& reached.phase == LaunchPhase::Listening
                    &&& actions[j]->socket_file == (endpoint is Unix)
                    &&& endpoint is Unix ==> exists|i: int| 0 <= i < j && actions[i] is Provision
                }
            &&& forall|j: int|
                0 <= j < actions.len() && #[trigger] actions[j] is Fail ==> {
                    &&& reached.phase == LaunchPhase::Failed
                    &&& actions[j]->remove_socket_file ==> endpoint is Unix
                    &&& actions[j]->remove_socket_file == !(events[j] is BindFailed)
                }
            &&& forall|j: int, k: int|
                #![trigger actions[j], actions[k]]
                0 <= j < k < actions.len() && !(actions[j] is Ignore) && !(actions[k] is Ignore)
                    ==> actions[j] is Provision && (actions[k] is Listen || actions[k] is Fail)
        }),
    decreases events.len(),
{
    let start = LaunchView { phase: LaunchPhase::Binding, endpoint };
    if events.len() > 0 {
        let earlier = events.drop_last();
        lemma_launch_order(endpoint, earlier, plan);
        let (reached, actions) = launch_run(start, earlier, plan);
        let (next, action) = launch_step(reached, events.last(), plan);
        let all = actions.push(action);
        let last = actions.len() as int;
        assert(all[last] == action);
        assert forall|j: int| 0 <= j < all.len() implies (j < last ==> all[j] == actions[j]) by {}
        if next.phase == LaunchPhase::Binding {
            assert forall|j: int| 0 <= j < all.len() implies #[trigger] all[j] is Ignore by {
                if j < last {
                    assert(actions[j] is Ignore);
                }
            }
        }
        if next.phase == LaunchPhase::Provisioning {
            if reached.phase == LaunchPhase::Provisioning {
                let i = choose|i: int| 0 <= i < actions.len() && actions[i] is Provision;
                assert(all[i] is Provision);
            } else {
                assert(all[last] is Provision);
            }
        }
        if next.phase == LaunchPhase::Listening {
            if reached.phase == LaunchPhase::Listening {
                let i = choose|i: int| 0 <= i < actions.len() && actions[i] is Listen;
                assert(all[i] is Listen);
            } else {
                assert(all[last] is Listen);
            }
        }
        if next.phase == LaunchPhase::Failed {
            if reached.phase == LaunchPhase::Failed {
                let i = choose|i: int| 0 <= i < actions.len() && actions[i] is Fail;
                assert(all[i] is Fail);
            } else {
                assert(all[last] is Fail);
            }
        }
        assert forall|j: int| 0 <= j < all.len() implies !(#[trigger] all[j] is BindInet) && !(
        all[j] is BindUnix) by {
            if j < last {
                assert(!(actions[j] is BindInet));
            }
        }
        assert forall|j: int| 0 <= j < all.len() && #[trigger] all[j] is Provision implies {
            &&& next.phase != LaunchPhase::Binding
            &&& endpoint matches EndpointView::Unix(socket) && plan matches Ok(steps) && all[j]
                == (LaunchActionView::Provision { path: socket.path, steps })
        } by {
            if j < last {
                assert(actions[j] is Provision);
            }
        }
        assert forall|j: int| 0 <= j < all.len() && #[trigger] all[j] is Listen implies {
            &&& next.phase == LaunchPhase::Listening
            &&& all[j]->socket_file == (endpoint is Unix)
            &&& endpoint is Unix ==> exists|i: int| 0 <= i < j && all[i] is Provision
        } by {
            if j < last {
                assert(actions[j] is Listen);
                if endpoint is Unix {
                    let i = choose|i: int| 0 <= i < j && actions[i] is Provision;
                    assert(all[i] is Provision);
                }
            } else {
                if endpoint is Unix {
                    let i = choose|i: int| 0 <= i < actions.len() && actions[i] is Provision;
                    assert(all[i] is Provision);
                }
            }
        }
        assert forall|j: int| 0 <= j < all.len() && #[trigger] all[j] is Fail implies {
            &&& next.phase == LaunchPhase::Failed
            &&& all[j]->remove_socket_file ==> endpoint is Unix
            &&& all[j]->remove_socket_file == !(events[j] is BindFailed)
        } by {
            if j < last {
                assert(actions[j] is Fail);
                assert(events[j] == earlier[j]);
            }
        }
        assert forall|j: int, k: int|
            #![trigger all[j], all[k]]
            0 <= j < k < all.len() && !(all[j] is Ignore) && !(all[k] is Ignore) implies all[j]
            is Provision && (all[k] is Listen || all[k] is Fail) by {
            assert(all[j] == actions[j]);
            if k < last {
                assert(all[k] == actions[k]);
            } else {
                assert(!(actions[j] is BindInet) && !(actions[j] is BindUnix));
                if actions[j] is Listen {
                } else if actions[j] is Fail {
                }
            }
        }
    }
}

/// What to do next while a permission plan is carried out.
#[derive(Debug, Clone, PartialEq, Eq)]
pub enum Provisioning {
    /// Make the step that stands at `index` in the plan.
    Apply { index: usize, step: PermissionStep },
    /// Nothing more is to be made: tell the start of this.
    Report(LaunchEvent),
}

/// A `Provisioning`, as mathematical values.
pub enum ProvisioningView {
    Apply { index: int, step: PermissionStep },
    Report(LaunchEventView),
}

impl View for Provisioning {
    type V = ProvisioningView;

    open spec fn view(&self) -> ProvisioningView {
        match self {
            Provisioning::Apply { index, step } => ProvisioningView::Apply {
                index: *index as int,
                step: *step,
            },
            Provisioning::Report(event) => ProvisioningView::Report(event@),
        }
    }
}

/// What to do when the steps before `index` are made: the step at `index`,
/// or, past the last step, the report that the plan is carried out.
pub open spec fn provision_from(steps: Seq<PermissionStep>, index: int) -> ProvisioningView {
    if 0 <= index < steps.len() {
        ProvisioningView::Apply { index, step: steps[index] }
    } else {
        ProvisioningView::Report(LaunchEventView::Provisioned)
    }
}

/// What to do when the step at `index` was tried. A refusal ends the plan at
/// once, with the report of that step and of the cause; otherwise the next
/// step follows. An index past the end names no step: nothing is left.
pub open spec fn provision_after(
    steps: Seq<PermissionStep>,
    index: int,
    refusal: Option<Seq<char>>,
) -> ProvisioningView {
    if 0 <= index < steps.len() {
        match refusal {
            Some(cause) => ProvisioningView::Report(
                LaunchEventView::ProvisionFailed { step: steps[index], cause },
            ),
            None => provision_from(steps, index + 1),
        }
    } else {
        ProvisioningView::Report(LaunchEventView::Provisioned)
    }
}

/// The steps tried, in the order in which they are tried, and the report
/// given at the end, when a plan is carried out from `from` and the system
/// answers the step at each index with `refusals` at that index: `None`
/// where it makes the step, the cause where it refuses.
pub open spec fn carried_out(
    steps: Seq<PermissionStep>,
    refusals: Seq<Option<Seq<char>>>,
    from: int,
) -> (Seq<PermissionStep>, LaunchEventView)
    recommends
        refusals.len() == steps.len(),
    decreases steps.len() - from,
{
    if 0 <= from < steps.len() {
        match provision_after(steps, from, refusals[from]) {
            ProvisioningView::Report(event) => (seq![steps[from]], event),
            ProvisioningView::Apply { .. } => {
                let (tried, event) = carried_out(steps, refusals, from + 1);
                (seq![steps[from]] + tried, event)
            },
        }
    } else {
        (Seq::empty(), LaunchEventView::Provisioned)
    }
}

/// Begins to carry out a plan: its first step, if it has one.
pub fn begin_provisioning(steps: &Vec<PermissionStep>) -> (next: Provisioning)
    ensures
        next@ == provision_from(steps@, 0),
{
    if steps.len() > 0 {
        Provisioning::Apply { index: 0, step: steps[0] }
    } else {
        Provisioning::Report(LaunchEvent::Provisioned)
    }
}

/// Goes on with a plan after the step at `index` was tried; `refusal` is
/// the system's description of what went wrong, if it refused the step.
pub fn continue_provisioning(
    steps: &Vec<PermissionStep>,
    index: usize,
    refusal: Option<String>,
) -> (next: Provisioning)
    ensures
        next@ == provision_after(steps@, index as int, optional_text(refusal)),
{
    if index >= steps.len() {
        return Provisioning::Report(LaunchEvent::Provisioned);
    }
    match refusal {
        Some(cause) => Provisioning::Report(
            LaunchEvent::ProvisionFailed { step: steps[index], cause },
        ),
        None => {
            if index + 1 < steps.len() {
                Provisioning::Apply { index: index + 1, step: steps[index + 1] }
            } else {
                Provisioning::Report(LaunchEvent::Provisioned)
            }
        },
    }
}

/// A plan that the system does not refuse is carried out whole, step by
/// step in its order, and reported as made.
pub proof fn lemma_plan_is_carried_out_in_order(
    steps: Seq<PermissionStep>,
    refusals: Seq<Option<Seq<char>>>,
    from: int,
)
    requires
        refusals.len() == steps.len(),
        0 <= from <= steps.len(),
        forall|i: int| from <= i < steps.len() ==> #[trigger] refusals[i] is None,
    ensures
        carried_out(steps, refusals, from) == (
            steps.subrange(from, steps.len() as int),
            LaunchEventView::Provisioned,
        ),
    decreases steps.len() - from,
{
    if from < steps.len() {
        assert(refusals[from] is None);
        if from + 1 < steps.len() {
            lemma_plan_is_carried_out_in_order(steps, refusals, from + 1);
            assert(seq![steps[from]] + steps.subrange(from + 1, steps.len() as int)
                =~= steps.subrange(from, steps.len() as int));
        } else {
            assert(seq![steps[from]] =~= steps.subrange(from, steps.len() as int));
        }
    } else {
        assert(steps.subrange(from, steps.len() as int) =~= Seq::<PermissionStep>::empty());
    }
}

/// A plan stops at the first step that the system refuses: the steps up to
/// and including that one are tried, in their order, none after it, and the
/// report names that step and the system's cause.
pub proof fn lemma_plan_stops_at_first_refusal(
    steps: Seq<PermissionStep>,
    refusals: Seq<Option<Seq<char>>>,
    from: int,
    refused: int,
)
    requires
        refusals.len() == steps.len(),
        0 <= from <= refused < steps.len(),
        refusals[refused] is Some,
        forall|i: int| from <= i < refused ==> #[trigger] refusals[i] is None,
    ensures
        carried_out(steps, refusals, from) == (
            steps.subrange(from, refused + 1),
            LaunchEventView::ProvisionFailed {
                step: steps[refused],
                cause: refusals[refused]->Some_0,
            },
        ),
    decreases refused - from,
{
    if from < refused {
        assert(refusals[from] is None);
        lemma_plan_stops_at_first_refusal(steps, refusals, from + 1, refused);
        assert(seq![steps[from]] + steps.subrange(from + 1, refused + 1) =~= steps.subrange(
            from,
            refused + 1,
        ));
    } else {
        assert(seq![steps[from]] =~= steps.subrange(from, refused + 1));
    }
}

} // verus!
