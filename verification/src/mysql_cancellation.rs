//! Cancelling what runs on a MySQL connection.
//!
//! A connection whose operation was cut short must never be used again. Its transport is closed,
//! and where connection identifiers can be trusted, the server is first told to kill the session.
//! Connecting, querying and closing are done outside; here stands what to do next.
use std::collections::HashMap;

use vstd::prelude::*;
use vstd::string::*;

use crate::number::{decimal, decimal_text};
use crate::time::{Duration, Moment, MAX_NANOS};

verus! {

broadcast use vstd::std_specs::hash::group_hash_axioms;

/// How long a kill may take, in nanoseconds.
pub const CANCELLATION_DEADLINE_NANOS: u64 = 2_000_000_000;

/// Relationship between the numeric connection identifiers returned for data and
/// cancellation-control connections.
#[derive(Clone, Copy, Debug, PartialEq, Eq, Structural)]
pub enum MySqlConnectionIdTopology {
    /// The relationship is not trusted, so cancellation only force-closes the interrupted client
    /// transport.
    Untrusted,
    /// The operator has verified that every data and control connection always shares one numeric
    /// connection-identifier namespace.
    TrustedSingleNamespace,
}

/// Which physical connection: the server's number for it, and how many connections this process
/// had opened before it.
#[derive(Clone, Copy, Debug, PartialEq, Eq, Structural)]
pub struct ConnectionIdentity {
    pub id: u32,
    pub generation: u64,
}

/// How a cancellation ended.
#[derive(Clone, Copy, Debug, PartialEq, Eq, Structural)]
pub enum CancellationTerminal {
    ClientDisconnected,
    KillAccepted,
    StaleGeneration,
    ControlFailure,
}

impl CancellationTerminal {
    pub open spec fn label(self) -> Seq<char> {
        match self {
            CancellationTerminal::ClientDisconnected => "client_disconnected"@,
            CancellationTerminal::KillAccepted => "kill_accepted"@,
            CancellationTerminal::StaleGeneration => "stale_generation"@,
            CancellationTerminal::ControlFailure => "control_failure"@,
        }
    }

    /// The label that metrics carry for this end.
    pub fn metric_label(self) -> (label: &'static str)
        ensures
            label@ == self.label(),
    {
        match self {
            CancellationTerminal::ClientDisconnected => "client_disconnected",
            CancellationTerminal::KillAccepted => "kill_accepted",
            CancellationTerminal::StaleGeneration => "stale_generation",
            CancellationTerminal::ControlFailure => "control_failure",
        }
    }
}

/// Cancelling on the server is not possible.
#[derive(Clone, Copy, Debug, PartialEq, Eq, Structural)]
pub struct CancellationUnavailable;

impl CancellationUnavailable {
    pub open spec fn text(self) -> Seq<char> {
        "MySQL server-side cancellation is unavailable"@
    }

    pub fn message(self) -> (message: &'static str)
        ensures
            message@ == self.text(),
    {
        "MySQL server-side cancellation is unavailable"
    }
}

/// The generation that is in use under each connection identifier.
pub struct ActiveGenerations {
    generations: HashMap<u32, u64>,
}

impl View for ActiveGenerations {
    type V = Map<u32, u64>;

    closed spec fn view(&self) -> Map<u32, u64> {
        self.generations@
    }
}

/// Whether a physical connection is the one in use under its identifier.
pub open spec fn active(generations: Map<u32, u64>, identity: ConnectionIdentity) -> bool {
    generations.dom().contains(identity.id) && generations[identity.id] == identity.generation
}

/// The generations in use once a physical connection is not.
pub open spec fn without(generations: Map<u32, u64>, identity: ConnectionIdentity) -> Map<u32, u64> {
    if active(generations, identity) {
        generations.remove(identity.id)
    } else {
        generations
    }
}

impl ActiveGenerations {
    pub fn new() -> (generations: ActiveGenerations)
        ensures
            generations@ == Map::<u32, u64>::empty(),
    {
        ActiveGenerations { generations: HashMap::new() }
    }

    /// Takes a physical connection into use; one that had the same identifier is in use no more.
    pub fn register_identity(&mut self, identity: ConnectionIdentity)
        ensures
            final(self)@ == old(self)@.insert(identity.id, identity.generation),
    {
        self.generations.insert(identity.id, identity.generation);
    }

    /// Takes a physical connection out of use. A newer one that reuses its identifier stays.
    pub fn unregister_identity(&mut self, identity: ConnectionIdentity)
        ensures
            final(self)@ == without(old(self)@, identity),
    {
        if self.identity_is_active(identity) {
            self.generations.remove(&identity.id);
        }
    }

    /// Whether a physical connection is in use.
    pub fn identity_is_active(&self, identity: ConnectionIdentity) -> (is_active: bool)
        ensures
            is_active == active(self@, identity),
    {
        match self.generations.get(&identity.id) {
            Some(generation) => *generation == identity.generation,
            None => false,
        }
    }

    /// The generation in use under an identifier.
    pub fn generation(&self, id: u32) -> (generation: Option<u64>)
        ensures
            generation == (if self@.dom().contains(id) {
                Some(self@[id])
            } else {
                None
            }),
    {
        match self.generations.get(&id) {
            Some(generation) => Some(*generation),
            None => None,
        }
    }
}

/// What opening the control connection led to.
#[derive(Clone, Copy, Debug, PartialEq, Eq, Structural)]
pub enum ControlInitialization {
    Ready { generation: u64 },
    Failed,
}

/// How an operation is going to be cancelled, with what was set aside for that.
#[derive(Debug)]
pub enum CancellationRoute<R> {
    ClientDisconnectOnly,
    TrustedSingleNamespace(R),
}

/// What to do to get cancellation ready.
#[derive(Clone, Copy, Debug, PartialEq, Eq, Structural)]
pub enum InitializeStep {
    /// Nothing more: cancellation is ready.
    Ready,
    /// Open the control connection, read its generation, and give it back to its pool.
    Connect,
    /// Give up.
    Unavailable(CancellationUnavailable),
}

/// What to do to set aside what a cancellation needs.
#[derive(Clone, Copy, Debug, PartialEq, Eq, Structural)]
pub enum ReserveStep {
    /// Nothing is needed: the client transport is closed and no more.
    ClientDisconnectOnly,
    /// Open the control connection first.
    Connect,
    /// Reserve a place in the queue of the worker.
    ReservePlace,
    /// Give up.
    Unavailable(CancellationUnavailable),
}

/// What a controller knows.
#[verifier::ext_equal]
pub struct ControllerModel {
    pub topology: MySqlConnectionIdTopology,
    pub initialization: Option<ControlInitialization>,
    pub active: Map<u32, u64>,
}

/// Keeps track of the connections in use and of the control connection.
pub struct MySqlCancellationController {
    connection_id_topology: MySqlConnectionIdTopology,
    control_initialization: Option<ControlInitialization>,
    active_generations: ActiveGenerations,
}

impl View for MySqlCancellationController {
    type V = ControllerModel;

    closed spec fn view(&self) -> ControllerModel {
        ControllerModel {
            topology: self.connection_id_topology,
            initialization: self.control_initialization,
            active: self.active_generations@,
        }
    }
}

impl ControllerModel {
    /// What stands between a controller and being ready.
    pub open spec fn initialize_step(self) -> InitializeStep {
        match self.topology {
            MySqlConnectionIdTopology::Untrusted => InitializeStep::Ready,
            MySqlConnectionIdTopology::TrustedSingleNamespace => match self.initialization {
                None => InitializeStep::Connect,
                Some(ControlInitialization::Ready { .. }) => InitializeStep::Ready,
                Some(ControlInitialization::Failed) => InitializeStep::Unavailable(
                    CancellationUnavailable,
                ),
            },
        }
    }

    /// The controller once a connection is in use.
    pub open spec fn registered(self, identity: ConnectionIdentity) -> ControllerModel {
        match self.topology {
            MySqlConnectionIdTopology::Untrusted => self,
            MySqlConnectionIdTopology::TrustedSingleNamespace => ControllerModel {
                active: self.active.insert(identity.id, identity.generation),
                ..self
            },
        }
    }

    /// The controller once a connection is no longer in use.
    pub open spec fn unregistered(self, identity: ConnectionIdentity) -> ControllerModel {
        match self.topology {
            MySqlConnectionIdTopology::Untrusted => self,
            MySqlConnectionIdTopology::TrustedSingleNamespace => ControllerModel {
                active: without(self.active, identity),
                ..self
            },
        }
    }

    /// The controller once opening the control connection led to a generation, or failed.
    pub open spec fn connected(self, generation: Option<u64>) -> ControllerModel {
        if self.initialization is Some {
            self
        } else {
            ControllerModel {
                initialization: match generation {
                    Some(generation) => Some(ControlInitialization::Ready { generation }),
                    None => Some(ControlInitialization::Failed),
                },
                ..self
            }
        }
    }

    /// What stands between a controller and a reservation.
    pub open spec fn reserve_step(self) -> ReserveStep {
        match self.topology {
            MySqlConnectionIdTopology::Untrusted => ReserveStep::ClientDisconnectOnly,
            MySqlConnectionIdTopology::TrustedSingleNamespace => match self.initialize_step() {
                InitializeStep::Ready => ReserveStep::ReservePlace,
                InitializeStep::Connect => ReserveStep::Connect,
                InitializeStep::Unavailable(error) => ReserveStep::Unavailable(error),
            },
        }
    }
}

impl MySqlCancellationController {
    /// A controller that knows no connections, with its control connection still to be opened.
    pub fn new(connection_id_topology: MySqlConnectionIdTopology) -> (controller: Self)
        ensures
            controller@ == (ControllerModel {
                topology: connection_id_topology,
                initialization: None,
                active: Map::empty(),
            }),
    {
        MySqlCancellationController {
            connection_id_topology,
            control_initialization: None,
            active_generations: ActiveGenerations::new(),
        }
    }

    /// Takes a connection into use. Where identifiers are not trusted nothing is kept of it.
    pub fn register(&mut self, identity: ConnectionIdentity)
        ensures
            final(self)@ == old(self)@.registered(identity),
            final(self)@ == (ControllerModel {
                active: if old(self)@.topology == MySqlConnectionIdTopology::Untrusted {
                    old(self)@.active
                } else {
                    old(self)@.active.insert(identity.id, identity.generation)
                },
                ..old(self)@
            }),
    {
        match self.connection_id_topology {
            MySqlConnectionIdTopology::Untrusted => {},
            MySqlConnectionIdTopology::TrustedSingleNamespace => {
                self.active_generations.register_identity(identity);
            },
        }
    }

    /// Takes a connection out of use, unless a newer one has its identifier.
    pub fn unregister(&mut self, identity: ConnectionIdentity)
        ensures
            final(self)@ == old(self)@.unregistered(identity),
            final(self)@ == (ControllerModel {
                active: if old(self)@.topology == MySqlConnectionIdTopology::Untrusted {
                    old(self)@.active
                } else {
                    without(old(self)@.active, identity)
                },
                ..old(self)@
            }),
    {
        match self.connection_id_topology {
            MySqlConnectionIdTopology::Untrusted => {},
            MySqlConnectionIdTopology::TrustedSingleNamespace => {
                self.active_generations.unregister_identity(identity);
            },
        }
    }

    /// Takes the connection of a request that was finished out of use, unless a newer one has its
    /// identifier.
    pub fn unregister_identity(&mut self, identity: ConnectionIdentity)
        ensures
            final(self)@ == (ControllerModel {
                active: without(old(self)@.active, identity),
                ..old(self)@
            }),
    {
        self.active_generations.unregister_identity(identity);
    }

    /// What to do to get cancellation ready.
    pub fn initialize(&self) -> (step: InitializeStep)
        ensures
            step == self@.initialize_step(),
    {
        match self.connection_id_topology {
            MySqlConnectionIdTopology::Untrusted => InitializeStep::Ready,
            MySqlConnectionIdTopology::TrustedSingleNamespace => match self.control_initialization {
                None => InitializeStep::Connect,
                Some(ControlInitialization::Ready { .. }) => InitializeStep::Ready,
                Some(ControlInitialization::Failed) => InitializeStep::Unavailable(
                    CancellationUnavailable,
                ),
            },
        }
    }

    /// Takes in what opening the control connection led to: its generation, or none where it
    /// failed. Only the first outcome counts.
    pub fn control_connected(&mut self, generation: Option<u64>) -> (ready: Result<
        (),
        CancellationUnavailable,
    >)
        ensures
            final(self)@ == old(self)@.connected(generation),
            final(self)@ == (ControllerModel {
                initialization: match (old(self)@.initialization, generation) {
                    (Some(initialization), _) => Some(initialization),
                    (None, Some(generation)) => Some(ControlInitialization::Ready { generation }),
                    (None, None) => Some(ControlInitialization::Failed),
                },
                ..old(self)@
            }),
            ready == (if final(self)@.initialization == Some(ControlInitialization::Failed) {
                Err(CancellationUnavailable)
            } else {
                Ok(())
            }),
    {
        if self.control_initialization.is_none() {
            self.control_initialization = match generation {
                Some(generation) => Some(ControlInitialization::Ready { generation }),
                None => Some(ControlInitialization::Failed),
            };
        }
        match self.control_initialization {
            Some(ControlInitialization::Failed) => Err(CancellationUnavailable),
            _ => Ok(()),
        }
    }

    /// What to do to set aside what a cancellation needs.
    pub fn reserve(&self) -> (step: ReserveStep)
        ensures
            step == self@.reserve_step(),
    {
        match self.connection_id_topology {
            MySqlConnectionIdTopology::Untrusted => ReserveStep::ClientDisconnectOnly,
            MySqlConnectionIdTopology::TrustedSingleNamespace => match self.initialize() {
                InitializeStep::Ready => ReserveStep::ReservePlace,
                InitializeStep::Connect => ReserveStep::Connect,
                InitializeStep::Unavailable(error) => ReserveStep::Unavailable(error),
            },
        }
    }

    /// The route that a place in the queue of the worker opens; without a place there is none.
    pub fn reserved<R>(place: Option<R>) -> (route: Result<
        CancellationRoute<R>,
        CancellationUnavailable,
    >)
        ensures
            route == (match place {
                Some(place) => Ok(CancellationRoute::TrustedSingleNamespace(place)),
                None => Err(CancellationUnavailable),
            }),
    {
        match place {
            Some(place) => Ok(CancellationRoute::TrustedSingleNamespace(place)),
            None => Err(CancellationUnavailable),
        }
    }

    /// What to do with a request for a kill before the control connection is used.
    pub fn begin_request(&self, target: CancellationTarget, now: Moment) -> (step: RequestStep)
        requires
            target.requested_at@ + CANCELLATION_DEADLINE_NANOS <= MAX_NANOS,
        ensures
            step.is_step(request_begun(self@.active, target, now@)),
    {
        begin_request(&self.active_generations, target, now)
    }

    /// What to do with a request for a kill once the control connection was asked for.
    pub fn control_acquired(
        &self,
        target: CancellationTarget,
        control_generation: Option<u64>,
    ) -> (step: ControlStep)
        requires
            self@.initialization matches Some(ControlInitialization::Ready { .. }),
        ensures
            step@ == control_acquired_step(
                self@.active,
                target,
                self@.initialization->Some_0->generation,
                control_generation,
            ),
    {
        let expected: u64 = match self.control_initialization {
            Some(ControlInitialization::Ready { generation }) => generation,
            _ => 0,
        };
        control_acquired(&self.active_generations, target, expected, control_generation)
    }
}

/// What became of a connection that was to be cancelled.
#[derive(Debug)]
pub enum CancellationDispatch<C, T> {
    /// Nothing more happens than that this connection is closed, at once.
    ClientDisconnected(C),
    /// The connection, still open, was handed on with its reservation.
    TrustedSingleNamespace(T),
}

/// Sends a connection on its way: to be closed at once, or, open, to the worker.
pub fn dispatch_cancellation<C, R, T, F: FnOnce(C, R) -> T>(
    connection: C,
    route: CancellationRoute<R>,
    trusted_single_namespace: F,
) -> (dispatch: CancellationDispatch<C, T>)
    requires
        match route {
            CancellationRoute::ClientDisconnectOnly => true,
            CancellationRoute::TrustedSingleNamespace(reservation) =>
                trusted_single_namespace.requires((connection, reservation)),
        },
    ensures
        match route {
            CancellationRoute::ClientDisconnectOnly => dispatch
                == CancellationDispatch::<C, T>::ClientDisconnected(connection),
            CancellationRoute::TrustedSingleNamespace(reservation) => {
                &&& dispatch is TrustedSingleNamespace
                &&& trusted_single_namespace.ensures(
                    (connection, reservation),
                    dispatch->TrustedSingleNamespace_0,
                )
            },
        },
{
    match route {
        CancellationRoute::ClientDisconnectOnly => CancellationDispatch::ClientDisconnected(
            connection,
        ),
        CancellationRoute::TrustedSingleNamespace(
            reservation,
        ) => CancellationDispatch::TrustedSingleNamespace(
            trusted_single_namespace(connection, reservation),
        ),
    }
}

/// How the wait for a cancellation ends: as the worker said, or as a control failure if the worker
/// went away without a word.
pub fn completed(answer: Option<CancellationTerminal>) -> (terminal: CancellationTerminal)
    ensures
        terminal == (match answer {
            Some(terminal) => terminal,
            None => CancellationTerminal::ControlFailure,
        }),
{
    match answer {
        Some(terminal) => terminal,
        None => CancellationTerminal::ControlFailure,
    }
}

/// Which session is to be killed, and since when that has been asked for.
#[derive(Clone, Copy, Debug, PartialEq, Eq, Structural)]
pub struct CancellationTarget {
    pub identity: ConnectionIdentity,
    pub requested_at: Moment,
}

/// What to do with a request before the control connection is used.
#[derive(Clone, Copy, Debug, PartialEq, Eq, Structural)]
pub enum RequestStep {
    Finished(CancellationTerminal),
    /// Get the control connection; all that follows has to be done by the deadline.
    AcquireControl { deadline: Moment },
}

/// The same, with the deadline in nanoseconds.
pub enum RequestStepView {
    Finished(CancellationTerminal),
    AcquireControl(nat),
}

impl RequestStep {
    pub open spec fn is_step(self, step: RequestStepView) -> bool {
        match (self, step) {
            (RequestStep::Finished(terminal), RequestStepView::Finished(expected)) => terminal
                == expected,
            (RequestStep::AcquireControl { deadline }, RequestStepView::AcquireControl(nanos)) =>
                deadline@ == nanos,
            _ => false,
        }
    }
}

/// A target that is not in use any more needs no kill, late as it may be; one that is, is not
/// killed past the deadline.
pub open spec fn request_begun(
    generations: Map<u32, u64>,
    target: CancellationTarget,
    now: nat,
) -> RequestStepView {
    let deadline = target.requested_at@ + CANCELLATION_DEADLINE_NANOS as nat;
    if !active(generations, target.identity) {
        RequestStepView::Finished(CancellationTerminal::StaleGeneration)
    } else if now >= deadline {
        RequestStepView::Finished(CancellationTerminal::ControlFailure)
    } else {
        RequestStepView::AcquireControl(deadline)
    }
}

/// What to do with a request before the control connection is used. A superseding physical
/// connection proves that the identifier no longer stands for the target, so that control capacity
/// is not spent on it.
pub fn begin_request(
    generations: &ActiveGenerations,
    target: CancellationTarget,
    now: Moment,
) -> (step: RequestStep)
    requires
        target.requested_at@ + CANCELLATION_DEADLINE_NANOS <= MAX_NANOS,
    ensures
        step.is_step(request_begun(generations@, target, now@)),
{
    if !generations.identity_is_active(target.identity) {
        return RequestStep::Finished(CancellationTerminal::StaleGeneration);
    }
    let deadline = target.requested_at.plus(Duration::from_nanos(CANCELLATION_DEADLINE_NANOS));
    if now.as_nanos() >= deadline.as_nanos() {
        return RequestStep::Finished(CancellationTerminal::ControlFailure);
    }
    RequestStep::AcquireControl { deadline }
}

/// What becomes of the control connection.
#[derive(Clone, Copy, Debug, PartialEq, Eq, Structural)]
pub enum ControlDisposal {
    /// There is none.
    Nothing,
    /// It goes back to its pool.
    Release,
    /// It is closed: it may hold the rest of an answer, or belong to another server.
    Discard,
}

/// What to do once the control connection was asked for.
#[derive(Debug)]
pub enum ControlStep {
    Finished { terminal: CancellationTerminal, control: ControlDisposal },
    /// Send this statement over the control connection.
    Kill { statement: String },
}

/// The same, with the statement as its characters.
pub enum ControlStepView {
    Finished { terminal: CancellationTerminal, control: ControlDisposal },
    Kill { statement: Seq<char> },
}

impl View for ControlStep {
    type V = ControlStepView;

    open spec fn view(&self) -> ControlStepView {
        match self {
            ControlStep::Finished { terminal, control } => ControlStepView::Finished {
                terminal: *terminal,
                control: *control,
            },
            ControlStep::Kill { statement } => ControlStepView::Kill { statement: statement@ },
        }
    }
}

/// The statement that kills a session.
pub open spec fn kill_text(id: u32) -> Seq<char> {
    "KILL CONNECTION "@ + decimal(id as nat)
}

/// What follows on asking for the control connection; `control_generation` is that of the
/// connection that came, if one came in time.
pub open spec fn control_acquired_step(
    generations: Map<u32, u64>,
    target: CancellationTarget,
    expected_generation: u64,
    control_generation: Option<u64>,
) -> ControlStepView {
    match control_generation {
        None => ControlStepView::Finished {
            terminal: CancellationTerminal::ControlFailure,
            control: ControlDisposal::Nothing,
        },
        Some(generation) => if generation != expected_generation {
            ControlStepView::Finished {
                terminal: CancellationTerminal::ControlFailure,
                control: ControlDisposal::Discard,
            }
        } else if !active(generations, target.identity) {
            ControlStepView::Finished {
                terminal: CancellationTerminal::StaleGeneration,
                control: ControlDisposal::Release,
            }
        } else {
            ControlStepView::Kill { statement: kill_text(target.identity.id) }
        },
    }
}

/// The statement that kills a session; it holds nothing but the number.
pub fn kill_statement(identity: ConnectionIdentity) -> (statement: String)
    ensures
        statement@ == kill_text(identity.id),
{
    let mut statement = "KILL CONNECTION ".to_owned();
    let number = decimal_text(identity.id as u64);
    statement.append(number.as_str());
    statement
}

/// What to do once the control connection was asked for. A replacement of the first control
/// transport can belong to a restarted server, where the same number stands for an unrelated
/// session.
pub fn control_acquired(
    generations: &ActiveGenerations,
    target: CancellationTarget,
    expected_generation: u64,
    control_generation: Option<u64>,
) -> (step: ControlStep)
    ensures
        step@ == control_acquired_step(
            generations@,
            target,
            expected_generation,
            control_generation,
        ),
{
    match control_generation {
        None => ControlStep::Finished {
            terminal: CancellationTerminal::ControlFailure,
            control: ControlDisposal::Nothing,
        },
        Some(generation) => if generation != expected_generation {
            ControlStep::Finished {
                terminal: CancellationTerminal::ControlFailure,
                control: ControlDisposal::Discard,
            }
        } else if !generations.identity_is_active(target.identity) {
            ControlStep::Finished {
                terminal: CancellationTerminal::StaleGeneration,
                control: ControlDisposal::Release,
            }
        } else {
            ControlStep::Kill { statement: kill_statement(target.identity) }
        },
    }
}

/// How a request ends for what the server answered.
pub open spec fn kill_end(accepted: bool) -> (CancellationTerminal, ControlDisposal) {
    if accepted {
        (CancellationTerminal::KillAccepted, ControlDisposal::Release)
    } else {
        (CancellationTerminal::ControlFailure, ControlDisposal::Discard)
    }
}

/// How a request ends once the server answered the kill in time, or did not.
pub fn kill_answered(accepted: bool) -> (end: (CancellationTerminal, ControlDisposal))
    ensures
        end == kill_end(accepted),
        end == (if accepted {
            (CancellationTerminal::KillAccepted, ControlDisposal::Release)
        } else {
            (CancellationTerminal::ControlFailure, ControlDisposal::Discard)
        }),
{
    if accepted {
        (CancellationTerminal::KillAccepted, ControlDisposal::Release)
    } else {
        (CancellationTerminal::ControlFailure, ControlDisposal::Discard)
    }
}

/// A connection on its way to be cancelled.
#[derive(Debug)]
pub struct CancellationRequest<C> {
    pub connection: C,
    pub target: CancellationTarget,
}

/// What the worker is sent.
#[derive(Debug)]
pub enum WorkerMessage<C> {
    Cancel(CancellationRequest<C>),
    Shutdown,
}

/// What the worker does with a message.
#[derive(Debug)]
pub enum WorkerStep<C> {
    /// Kill the session of this request, then finish it.
    Process(CancellationRequest<C>),
    /// Finish this request with this end, without a kill.
    Finish(CancellationRequest<C>, CancellationTerminal),
    /// Stop, and say so. Requests that were not taken are dropped, each closing its connection.
    Stop,
}

/// One thing that finishing a request does.
#[derive(Debug)]
pub enum WorkerEffect<C> {
    /// Take no more reservations. Those given out stay good.
    CloseAdmission,
    /// Close this connection.
    Disconnect(C),
    /// Take the connection out of use, with `MySqlCancellationController::unregister_identity`.
    Unregister(ConnectionIdentity),
    /// Count the end and how long it took to come since it was asked for.
    LogTerminal { terminal: CancellationTerminal, requested_at: Moment },
    /// Answer the one who waits.
    Complete(CancellationTerminal),
}

/// What the worker remembers.
pub struct CancellationWorker {
    control_failed: bool,
}

/// What finishing a request does, in this order: on a failure, admission is closed first, so that
/// who hears of the failure cannot reserve again; the target's transport stays open until here, so
/// that its number could not go to another session before the kill; and the connection is out of
/// use only once its transport is closed.
pub open spec fn finish_effects<C>(
    request: CancellationRequest<C>,
    terminal: CancellationTerminal,
) -> Seq<WorkerEffect<C>> {
    let closing = if terminal == CancellationTerminal::ControlFailure {
        seq![WorkerEffect::<C>::CloseAdmission]
    } else {
        Seq::<WorkerEffect<C>>::empty()
    };
    closing + seq![
        WorkerEffect::Disconnect(request.connection),
        WorkerEffect::Unregister(request.target.identity),
        WorkerEffect::LogTerminal { terminal, requested_at: request.target.requested_at },
        WorkerEffect::Complete(terminal),
    ]
}

/// What the worker does with the next message, where none means that no more will come.
pub open spec fn worker_step<C>(
    control_failed: bool,
    message: Option<WorkerMessage<C>>,
) -> WorkerStep<C> {
    match message {
        Some(WorkerMessage::Cancel(request)) => if control_failed {
            WorkerStep::Finish(request, CancellationTerminal::ControlFailure)
        } else {
            WorkerStep::Process(request)
        },
        Some(WorkerMessage::Shutdown) => WorkerStep::Stop,
        None => WorkerStep::Stop,
    }
}

impl CancellationWorker {
    /// Whether a kill has failed.
    pub closed spec fn control_failed(self) -> bool {
        self.control_failed
    }

    pub fn new() -> (worker: CancellationWorker)
        ensures
            !worker.control_failed(),
    {
        CancellationWorker { control_failed: false }
    }

    /// What to do with the next message, where none means that no more will come.
    pub fn receive<C>(&self, message: Option<WorkerMessage<C>>) -> (step: WorkerStep<C>)
        ensures
            step == worker_step(self.control_failed(), message),
    {
        match message {
            Some(WorkerMessage::Cancel(request)) => if self.control_failed {
                WorkerStep::Finish(request, CancellationTerminal::ControlFailure)
            } else {
                WorkerStep::Process(request)
            },
            Some(WorkerMessage::Shutdown) => WorkerStep::Stop,
            None => WorkerStep::Stop,
        }
    }

    /// Finishes a request: what is left to do with it is returned, in the order in which to do it.
    pub fn finish<C>(
        &mut self,
        request: CancellationRequest<C>,
        terminal: CancellationTerminal,
    ) -> (effects: Vec<WorkerEffect<C>>)
        ensures
            effects@ == finish_effects(request, terminal),
            final(self).control_failed() == (old(self).control_failed() || terminal
                == CancellationTerminal::ControlFailure),
    {
        let mut effects: Vec<WorkerEffect<C>> = Vec::new();
        if terminal == CancellationTerminal::ControlFailure {
            self.control_failed = true;
            effects.push(WorkerEffect::CloseAdmission);
        }
        let target = request.target;
        effects.push(WorkerEffect::Disconnect(request.connection));
        effects.push(WorkerEffect::Unregister(target.identity));
        effects.push(WorkerEffect::LogTerminal { terminal, requested_at: target.requested_at });
        effects.push(WorkerEffect::Complete(terminal));
        assert(effects@ =~= finish_effects(request, terminal));
        effects
    }
}

/// Where identifiers are not trusted, nothing is ever reserved or connected, and no connection is
/// known.
pub proof fn untrusted_identifiers_are_never_used(controller: ControllerModel)
    requires
        controller.topology == MySqlConnectionIdTopology::Untrusted,
    ensures
        controller.initialize_step() == InitializeStep::Ready,
        controller.reserve_step() == ReserveStep::ClientDisconnectOnly,
{
}

/// Taking one physical connection out of use never takes out a newer one with its identifier, nor
/// one with another identifier.
pub proof fn newer_connections_stay(
    generations: Map<u32, u64>,
    gone: ConnectionIdentity,
    other: ConnectionIdentity,
)
    requires
        gone != other,
    ensures
        active(without(generations, gone), other) == active(generations, other),
        !active(without(generations, gone), gone),
{
}

/// A session is only ever killed while its physical connection is the one in use under that number,
/// before the deadline, and over the first control connection.
pub proof fn only_live_targets_are_killed(
    before: Map<u32, u64>,
    at_control: Map<u32, u64>,
    target: CancellationTarget,
    now: nat,
    expected_generation: u64,
    control_generation: Option<u64>,
)
    requires
        request_begun(before, target, now) is AcquireControl,
        control_acquired_step(at_control, target, expected_generation, control_generation) is Kill,
    ensures
        active(before, target.identity),
        active(at_control, target.identity),
        now < target.requested_at@ + CANCELLATION_DEADLINE_NANOS,
        control_generation == Some(expected_generation),
{
}

/// Every request closes its connection exactly once, then takes it out of use exactly once, and
/// does both before its end is made known; and where the end is a control failure, admission is
/// closed before that.
pub proof fn targets_are_closed_before_the_answer<C>(
    request: CancellationRequest<C>,
    terminal: CancellationTerminal,
)
    ensures
        ({
            let effects = finish_effects(request, terminal);
            let closed: int = if terminal == CancellationTerminal::ControlFailure {
                1
            } else {
                0
            };
            &&& effects.len() == closed + 4
            &&& closed == 1 ==> effects[0] is CloseAdmission
            &&& effects[closed] == WorkerEffect::Disconnect(request.connection)
            &&& effects[closed + 1] == WorkerEffect::<C>::Unregister(request.target.identity)
            &&& effects[closed + 3] == WorkerEffect::<C>::Complete(terminal)
            &&& forall|j: int|
                #![trigger effects[j]]
                0 <= j < effects.len() ==> {
                    &&& effects[j] is CloseAdmission ==> j == closed - 1
                    &&& effects[j] is Disconnect ==> j == closed
                    &&& effects[j] is Unregister ==> j == closed + 1
                    &&& effects[j] is Complete ==> j == closed + 3
                }
        }),
{
}

/// After a control failure no session is killed any more: each request that still comes is finished
/// as a failure.
pub proof fn failed_control_stays_failed<C>(request: CancellationRequest<C>)
    ensures
        worker_step(true, Some(WorkerMessage::Cancel(request))) == WorkerStep::Finish(
            request,
            CancellationTerminal::ControlFailure,
        ),
{
}

/// Where identifiers are trusted, a connection is in use from when it is taken into use until it is
/// taken out, an older one with its identifier is not, and those with other identifiers are not
/// touched; where they are not trusted nothing is kept.
pub proof fn connections_are_in_use_until_taken_out(
    controller: ControllerModel,
    identity: ConnectionIdentity,
    other: ConnectionIdentity,
)
    requires
        identity != other,
    ensures
        controller.topology == MySqlConnectionIdTopology::Untrusted ==> controller.registered(
            identity,
        ) == controller && controller.unregistered(identity) == controller,
        controller.topology == MySqlConnectionIdTopology::TrustedSingleNamespace ==> {
            &&& active(controller.registered(identity).active, identity)
            &&& identity.id == other.id ==> !active(controller.registered(identity).active, other)
            &&& identity.id != other.id ==> active(controller.registered(identity).active, other)
                == active(controller.active, other)
            &&& !active(controller.unregistered(identity).active, identity)
            &&& active(controller.unregistered(identity).active, other) == active(
                controller.active,
                other,
            )
            &&& !active(controller.registered(identity).unregistered(identity).active, identity)
        },
{
}

/// The control connection is opened once: what it led to first stays, whatever comes later. It is
/// ready for a cancellation if and only if a generation came of it.
pub proof fn the_first_control_connection_counts(
    controller: ControllerModel,
    first: Option<u64>,
    later: Option<u64>,
)
    requires
        controller.topology == MySqlConnectionIdTopology::TrustedSingleNamespace,
        controller.initialization is None,
    ensures
        ({
            let connected = controller.connected(first);
            &&& controller.initialize_step() is Connect && controller.reserve_step() is Connect
            &&& connected.connected(later) == connected
            &&& connected.initialize_step() is Ready <==> first is Some
            &&& connected.initialize_step() is Unavailable <==> first is None
            &&& connected.reserve_step() is ReservePlace <==> first is Some
            &&& connected.reserve_step() is Unavailable <==> first is None
            &&& first matches Some(generation) ==> connected.initialization == Some(
                ControlInitialization::Ready { generation },
            )
            &&& connected.active == controller.active
        }),
{
}

/// A request goes on to the control connection if and only if its connection is still the one in use
/// under its identifier and less than two seconds have passed since it was made; what follows has to
/// be done by then. A connection that is not in use needs no kill, however late it is.
pub proof fn requests_go_on_for_two_seconds(
    generations: Map<u32, u64>,
    target: CancellationTarget,
    now: nat,
)
    ensures
        ({
            let step = request_begun(generations, target, now);
            let in_use = generations.dom().contains(target.identity.id)
                && generations[target.identity.id] == target.identity.generation;
            &&& step is AcquireControl <==> in_use && now < target.requested_at@ + 2_000_000_000
            &&& step matches RequestStepView::AcquireControl(deadline) ==> deadline
                == target.requested_at@ + 2_000_000_000
            &&& step == RequestStepView::Finished(CancellationTerminal::StaleGeneration) <==> !in_use
            &&& step == RequestStepView::Finished(CancellationTerminal::ControlFailure) <==> in_use
                && now >= target.requested_at@ + 2_000_000_000
        }),
{
}

/// Over the control connection a session is killed if and only if the connection that came is the
/// first one and the target is still the one in use; the statement names the target and nothing
/// else. A connection of another generation is never given back to its pool.
pub proof fn sessions_are_killed_over_the_first_control_connection(
    generations: Map<u32, u64>,
    target: CancellationTarget,
    expected_generation: u64,
    control_generation: Option<u64>,
)
    ensures
        ({
            let step = control_acquired_step(
                generations,
                target,
                expected_generation,
                control_generation,
            );
            let in_use = generations.dom().contains(target.identity.id)
                && generations[target.identity.id] == target.identity.generation;
            &&& step is Kill <==> control_generation == Some(expected_generation) && in_use
            &&& step matches ControlStepView::Kill { statement } ==> statement
                == "KILL CONNECTION "@ + decimal(target.identity.id as nat)
            &&& step matches ControlStepView::Finished { terminal, control } ==> {
                &&& control == ControlDisposal::Nothing <==> control_generation is None
                &&& control == ControlDisposal::Release <==> control_generation == Some(
                    expected_generation,
                )
                &&& terminal == CancellationTerminal::StaleGeneration <==> control_generation == Some(
                    expected_generation,
                )
                &&& terminal == CancellationTerminal::StaleGeneration
                    || terminal == CancellationTerminal::ControlFailure
            }
        }),
{
}

/// A control connection goes back to its pool only after the server accepted the kill; after any
/// other answer it may hold the rest of one, and is closed.
pub proof fn only_answered_control_connections_are_used_again(accepted: bool)
    ensures
        kill_end(accepted).1 == ControlDisposal::Release <==> accepted,
        kill_end(accepted).1 == ControlDisposal::Discard <==> !accepted,
        kill_end(accepted).0 == CancellationTerminal::KillAccepted <==> accepted,
        kill_end(accepted).0 == CancellationTerminal::ControlFailure <==> !accepted,
{
}

/// A worker kills for each request as long as no kill failed, finishes each as a failure afterwards,
/// and stops when it is told to or when no more will come.
pub proof fn workers_kill_until_a_kill_fails<C>(
    control_failed: bool,
    message: Option<WorkerMessage<C>>,
)
    ensures
        ({
            let step = worker_step(control_failed, message);
            &&& step is Stop <==> !(message matches Some(WorkerMessage::Cancel(_)))
            &&& message matches Some(WorkerMessage::Cancel(request)) ==> {
                &&& !control_failed ==> step == WorkerStep::Process(request)
                &&& control_failed ==> step == WorkerStep::Finish(
                    request,
                    CancellationTerminal::ControlFailure,
                )
            }
        }),
{
}

} // verus!
