//! Top-level owner of public sessions.
//!
//! The lifecycle of generations is kept elsewhere: an operation takes what became of the lifecycle
//! event that it goes with, and decides what follows from that.

use vstd::prelude::*;

use crate::bootstrap::renderer::{RendererBootstrap, RendererTransportFactory, TransportRequest};
use crate::bootstrap::schema::{consumer_rejection, EndpointRole};
use crate::domain::error::{ErrorCode, ErrorReport};
use crate::domain::state::{terminal, SessionState};
use crate::facade::configuration::{
    facade_error, facade_report, public_rejection, Configuration,
};
use crate::facade::record::{
    current_entries, empty_record, generation_diagnosed, ActiveGeneration, FacadeRecord,
    RecordView, SessionHandle,
};
use crate::facade::session::{BootstrapPair, Session};
use crate::facade::transport::{no_wakeups, ObservedRendererTransport};
use crate::observability::diagnostics::{
    sorted_sessions, DiagnosticsSnapshot, FailureStage, SessionDiagnostics,
};
use crate::observability::metrics::MetricsEvent;

verus! {

/// Events of a generation's lifecycle.
#[derive(Clone, Copy, Debug, PartialEq, Eq, Structural)]
pub enum LifecycleEvent {
    /// The renderer attached.
    RendererAttached,
    /// The native peer attached.
    PeerAttached,
    /// Both endpoints completed their handshake.
    HandshakeCompleted,
    /// The renderer's process exited or reloaded.
    RendererExited,
}

/// What became of the exit of a renderer.
#[derive(Clone, Copy, PartialEq, Eq, Structural)]
pub struct RouteOutcome {
    /// The generation that is active now.
    pub active: SessionHandle,
    /// Whether it took the place of the one that ended.
    pub replaced: bool,
}

/// The events that open a generation, in their order.
pub open spec fn opening_events() -> Seq<LifecycleEvent> {
    seq![
        LifecycleEvent::RendererAttached,
        LifecycleEvent::PeerAttached,
        LifecycleEvent::HandshakeCompleted,
    ]
}

/// A connection whose events still have to be routed into the lifecycle of its generation.
pub struct OpeningConnection<Transport> {
    handle: SessionHandle,
    transport: Transport,
    routed: usize,
}

/// Where an opening connection stands after an event was routed.
pub enum OpeningStep<Transport> {
    /// Another event follows.
    Next(OpeningConnection<Transport>),
    /// The generation is open.
    Open(Transport),
}

impl<Transport> OpeningConnection<Transport> {
    #[verifier::type_invariant]
    spec fn is_opening(self) -> bool {
        self.routed < 3
    }

    /// The generation that opens.
    pub closed spec fn spec_handle(self) -> SessionHandle {
        self.handle
    }

    /// The transport that is handed over once the generation is open.
    pub closed spec fn spec_transport(self) -> Transport {
        self.transport
    }

    /// How many events were routed.
    pub closed spec fn spec_routed(self) -> nat {
        self.routed as nat
    }

    /// The event that has to be routed next.
    pub fn event(&self) -> (event: LifecycleEvent)
        ensures
            self.spec_routed() < opening_events().len(),
            event == opening_events()[self.spec_routed() as int],
    {
        proof {
            use_type_invariant(self);
        }
        if self.routed == 0 {
            LifecycleEvent::RendererAttached
        } else if self.routed == 1 {
            LifecycleEvent::PeerAttached
        } else {
            LifecycleEvent::HandshakeCompleted
        }
    }
}

/// Top-level owner of operational state.
pub struct Nwipc {
    configuration: Configuration,
    record: FacadeRecord,
}

impl View for Nwipc {
    type V = RecordView;

    closed spec fn view(&self) -> RecordView {
        self.record@
    }
}

/// Whether a session is a fresh handle of a generation.
pub open spec fn is_fresh(
    session: Session,
    handle: SessionHandle,
    protocol: u16,
    pair: BootstrapPair,
) -> bool {
    &&& session.spec_handle() == handle
    &&& session.spec_protocol() == protocol
    &&& session.peer_left() == Some(pair.peer@)
    &&& session.renderer_left() == Some(pair.renderer@)
}

impl Nwipc {
    /// Validated limits.
    pub closed spec fn limits(self) -> Configuration {
        self.configuration
    }

    /// Initializes the production provider combination with default limits, where it is available.
    ///
    /// The report of unavailable providers is passed on.
    pub fn initialize(available: Result<(), ErrorReport>) -> (initialized: Result<
        Self,
        ErrorReport,
    >)
        ensures
            match (available, initialized) {
                (Ok(_), Ok(nwipc)) => public_rejection(nwipc.limits()) is None
                    && crate::facade::configuration::channel_of(nwipc.limits())
                    == crate::macos::configuration::default_configuration()
                    && nwipc.limits().protocol == 1 && nwipc@ == empty_record(),
                (Err(error), Err(passed)) => passed == error,
                _ => false,
            },
    {
        Nwipc::with_configuration(Configuration::default(), available)
    }

    /// Initializes the production runtime after validating all public limits.
    ///
    /// A typed configuration error, or else the report of unavailable providers, is returned.
    pub fn with_configuration(
        configuration: Configuration,
        available: Result<(), ErrorReport>,
    ) -> (initialized: Result<Self, ErrorReport>)
        ensures
            match public_rejection(configuration) {
                Some(error) => initialized is Err && initialized->Err_0 == error,
                None => match available {
                    Ok(_) => initialized matches Ok(nwipc) && nwipc.limits() == configuration
                        && nwipc@ == empty_record(),
                    Err(error) => initialized is Err && initialized->Err_0 == error,
                },
            },
    {
        let configuration = configuration.validate()?;
        available?;
        Ok(Nwipc { configuration, record: FacadeRecord::new() })
    }

    /// Validated runtime configuration.
    pub fn configuration(&self) -> (configuration: Configuration)
        ensures
            configuration == self.limits(),
    {
        self.configuration
    }

    /// Counters and observed generations, which sessions and their transports add to as well.
    pub fn record_mut(&mut self) -> (record: &mut FacadeRecord)
        ensures
            record@ == old(self)@,
            final(self)@ == final(record)@,
            final(self).limits() == old(self).limits(),
    {
        &mut self.record
    }

    /// Hands out a handle of a session that was created with its bootstrap material.
    ///
    /// A failed creation is recorded and passed on. `Internal` is returned when no bootstrap
    /// material was prepared.
    pub fn create_session(
        &mut self,
        created: Result<SessionHandle, ErrorReport>,
        prepared: Option<BootstrapPair>,
    ) -> (session: Result<Session, ErrorReport>)
        ensures
            final(self).limits() == old(self).limits(),
            final(self)@ == match (created, prepared) {
                (Err(error), _) => old(self)@.failure(error),
                (Ok(_), None) => old(self)@,
                (Ok(handle), Some(_)) => old(self)@.created(handle),
            },
            match created {
                Err(error) => session is Err && session->Err_0 == error,
                Ok(handle) => match prepared {
                    None => session is Err && session->Err_0 == facade_report(
                        ErrorCode::Internal,
                        "prepared bootstrap",
                    ),
                    Some(pair) => session matches Ok(fresh) && is_fresh(
                        fresh,
                        handle,
                        old(self).limits().protocol,
                        pair,
                    ),
                },
            },
    {
        let handle = match created {
            Err(error) => {
                self.record.record_failure(&error);
                return Err(error);
            },
            Ok(handle) => handle,
        };
        match prepared {
            None => Err(facade_error(ErrorCode::Internal, "prepared bootstrap")),
            Some(pair) => {
                self.record.session_created(handle);
                Ok(
                    Session::prepared(
                        handle,
                        self.configuration.protocol,
                        pair,
                    ),
                )
            },
        }
    }

    /// Attaches the renderer production channel and completes the handshake with the native peer.
    ///
    /// The events of the connection are routed next. `Closed` is returned after the bootstrap
    /// material was consumed. Provider, bootstrap, handshake and stale-generation failures are
    /// recorded and passed on.
    pub fn open_renderer<Factory: RendererTransportFactory>(
        &mut self,
        session: &mut Session,
        factory: &mut Factory,
    ) -> (opening: Result<
        OpeningConnection<ObservedRendererTransport<Factory::Transport>>,
        ErrorReport,
    >)
        ensures
            final(self).limits() == old(self).limits(),
            final(session).spec_handle() == old(session).spec_handle(),
            final(session).spec_protocol() == old(session).spec_protocol(),
            final(session).peer_left() == old(session).peer_left(),
            final(session).renderer_left() is None,
            opening matches Ok(connection) ==> {
                &&& connection.spec_handle() == old(session).spec_handle()
                &&& connection.spec_routed() == 0
                &&& connection.spec_transport().spec_handle() == old(session).spec_handle()
                &&& connection.spec_transport().recorded_wakeups() == no_wakeups()
            },
            match old(session).renderer_left() {
                None => {
                    &&& opening is Err && opening->Err_0 == facade_report(
                        ErrorCode::Closed,
                        "consume renderer bootstrap",
                    )
                    &&& *final(factory) == *old(factory)
                    &&& final(self)@ == old(self)@
                },
                Some(envelope) => final(self)@ == old(self)@.settled(
                    old(session).spec_handle(),
                    FailureStage::Handshake,
                    opening,
                ) && match consumer_rejection(
                    envelope,
                    EndpointRole::Renderer,
                    old(session).spec_handle().session_id,
                    old(session).spec_handle().generation,
                    old(self).limits().protocol,
                ) {
                    Some(error) => {
                        &&& opening is Err && opening->Err_0 == error
                        &&& *final(factory) == *old(factory)
                    },
                    None => final(factory).asked() == old(factory).asked().push(
                        (
                            TransportRequest {
                                envelope,
                                session: old(session).spec_handle().session_id,
                                generation: old(session).spec_handle().generation,
                                protocol: old(self).limits().protocol,
                            },
                            match opening {
                                Ok(connection) => Ok(
                                    connection.spec_transport().observed_transport(),
                                ),
                                Err(error) => Err(error),
                            },
                        ),
                    ),
                },
            },
    {
        let handle = session.handle();
        let envelope = match session.take_renderer_bootstrap() {
            None => {
                return Err(facade_error(ErrorCode::Closed, "consume renderer bootstrap"));
            },
            Some(envelope) => envelope,
        };
        let opened = RendererBootstrap::open_transport(
            envelope,
            handle.session_id,
            handle.generation,
            self.configuration.protocol,
            factory,
        );
        self.record.observe_outcome(handle, FailureStage::Handshake, &opened);
        match opened {
            Err(error) => Err(error),
            Ok(inner) => Ok(
                OpeningConnection {
                    handle,
                    transport: ObservedRendererTransport::new(inner, handle),
                    routed: 0,
                },
            ),
        }
    }

    /// Begins to record the completion of an externally hosted renderer/peer handshake.
    ///
    /// Use this after an injected-bundle host observes the production transport completion. The
    /// host reports lifecycle only and does not inspect application payload bytes.
    pub fn observe_external_connection(&self, session: &Session) -> (opening: OpeningConnection<()>)
        ensures
            opening.spec_handle() == session.spec_handle(),
            opening.spec_routed() == 0,
    {
        OpeningConnection { handle: session.handle(), transport: (), routed: 0 }
    }

    /// Takes what became of the event that an opening connection asked for.
    ///
    /// A rejected event is recorded and ends the opening; after the last event the generation is
    /// recorded as open.
    pub fn event_routed<Transport>(
        &mut self,
        opening: OpeningConnection<Transport>,
        outcome: Result<(), ErrorReport>,
    ) -> (step: Result<OpeningStep<Transport>, ErrorReport>)
        ensures
            final(self).limits() == old(self).limits(),
            final(self)@ == match outcome {
                Err(error) => old(self)@.failed(
                    opening.spec_handle(),
                    FailureStage::Lifecycle,
                    error,
                ),
                Ok(_) => if opening.spec_routed() + 1 < opening_events().len() {
                    old(self)@
                } else {
                    old(self)@.opened(opening.spec_handle())
                },
            },
            match outcome {
                Err(error) => step is Err && step->Err_0 == error,
                Ok(_) => if opening.spec_routed() + 1 < opening_events().len() {
                    &&& step matches Ok(OpeningStep::Next(next))
                    &&& next.spec_handle() == opening.spec_handle()
                    &&& next.spec_transport() == opening.spec_transport()
                    &&& next.spec_routed() == opening.spec_routed() + 1
                } else {
                    step matches Ok(OpeningStep::Open(transport)) && transport
                        == opening.spec_transport()
                },
            },
    {
        proof {
            use_type_invariant(&opening);
        }
        let OpeningConnection { handle, transport, routed } = opening;
        match outcome {
            Err(error) => {
                self.record.fail(handle, FailureStage::Lifecycle, &error);
                Err(error)
            },
            Ok(_) => {
                if routed + 1 < 3 {
                    Ok(
                        OpeningStep::Next(
                            OpeningConnection { handle, transport, routed: routed + 1 },
                        ),
                    )
                } else {
                    self.record.connection_opened(handle);
                    Ok(OpeningStep::Open(transport))
                }
            },
        }
    }

    /// Records a redacted endpoint failure observed by an external host adapter, given the state of
    /// the session's generation.
    ///
    /// This bridge accepts only an already-redacted [`ErrorReport`]. It does not accept payload,
    /// provider source errors, bootstrap secrets, or native handles. The report of a generation
    /// that is not active is passed on.
    pub fn observe_external_failure(
        &mut self,
        session: &Session,
        state: Result<SessionState, ErrorReport>,
        stage: FailureStage,
        error: &ErrorReport,
    ) -> (observed: Result<(), ErrorReport>)
        ensures
            final(self).limits() == old(self).limits(),
            match state {
                Ok(_) => observed is Ok && final(self)@ == old(self)@.failed(
                    session.spec_handle(),
                    stage,
                    *error,
                ),
                Err(stale) => observed == Err::<(), ErrorReport>(stale) && final(self)@
                    == old(self)@,
            },
    {
        let _state = state?;
        self.record.fail(session.handle(), stage, error);
        Ok(())
    }

    /// Hands out a handle of the generation that took the place of a terminated one.
    ///
    /// The handle keeps the logical session identity but owns fresh mappings, signals, secret,
    /// bootstrap values, and generation. A rejected exit is recorded and passed on;
    /// `InvalidStateTransition` is returned when no generation took its place, and `Internal` when
    /// no bootstrap material was prepared.
    pub fn replace_renderer(
        &mut self,
        session: &Session,
        outcome: Result<RouteOutcome, ErrorReport>,
        prepared: Option<BootstrapPair>,
    ) -> (replacement: Result<Session, ErrorReport>)
        ensures
            final(self).limits() == old(self).limits(),
            final(self)@ == match (outcome, prepared) {
                (Err(error), _) => old(self)@.failed(
                    session.spec_handle(),
                    FailureStage::Lifecycle,
                    error,
                ),
                (Ok(routed), pair) => if !routed.replaced {
                    old(self)@.counted(MetricsEvent::Failure)
                } else if pair is None {
                    old(self)@
                } else {
                    old(self)@.replaced(session.spec_handle(), routed.active)
                },
            },
            match outcome {
                Err(error) => replacement is Err && replacement->Err_0 == error,
                Ok(routed) => if !routed.replaced {
                    replacement is Err && replacement->Err_0 == facade_report(
                        ErrorCode::InvalidStateTransition,
                        "replace external renderer generation",
                    )
                } else {
                    match prepared {
                        None => replacement is Err && replacement->Err_0 == facade_report(
                            ErrorCode::Internal,
                            "replacement bootstrap",
                        ),
                        Some(pair) => replacement matches Ok(fresh) && is_fresh(
                            fresh,
                            routed.active,
                            old(self).limits().protocol,
                            pair,
                        ),
                    }
                },
            },
    {
        let handle = session.handle();
        let routed = match outcome {
            Err(error) => {
                self.record.fail(handle, FailureStage::Lifecycle, &error);
                return Err(error);
            },
            Ok(routed) => routed,
        };
        if !routed.replaced {
            self.record.count(MetricsEvent::Failure);
            return Err(
                facade_error(
                    ErrorCode::InvalidStateTransition,
                    "replace external renderer generation",
                ),
            );
        }
        match prepared {
            None => Err(facade_error(ErrorCode::Internal, "replacement bootstrap")),
            Some(pair) => {
                self.record.generation_replaced(handle, routed.active);
                Ok(
                    Session::prepared(
                        routed.active,
                        self.configuration.protocol,
                        pair,
                    ),
                )
            },
        }
    }

    /// Records that a session generation was closed and released, given its state before, what
    /// became of the close, and, where that succeeded, its state after.
    ///
    /// A failed close is recorded and passed on, and so is the report of a generation that is not
    /// active after it.
    pub fn close(
        &mut self,
        session: &Session,
        before: Result<SessionState, ErrorReport>,
        closed: Result<Result<SessionState, ErrorReport>, ErrorReport>,
    ) -> (released: Result<(), ErrorReport>)
        ensures
            final(self).limits() == old(self).limits(),
            final(self)@ == match closed {
                Err(error) => old(self)@.failed(
                    session.spec_handle(),
                    FailureStage::Cleanup,
                    error,
                ),
                Ok(after) => old(self)@.closed(
                    session.spec_handle(),
                    before is Ok && terminal(before->Ok_0),
                    after,
                ),
            },
            released == match closed {
                Err(error) => Err::<(), ErrorReport>(error),
                Ok(Err(error)) => Err(error),
                Ok(Ok(_)) => Ok(()),
            },
    {
        let handle = session.handle();
        let was_closed = match before {
            Ok(state) => state.is_terminal(),
            Err(_) => false,
        };
        match closed {
            Err(error) => {
                self.record.fail(handle, FailureStage::Cleanup, &error);
                Err(error)
            },
            Ok(after) => {
                self.record.session_closed(handle, was_closed, &after);
                match after {
                    Ok(_) => Ok(()),
                    Err(error) => Err(error),
                }
            },
        }
    }

    /// Returns a redacted snapshot with no payload, secret, provider name, or native handle, given
    /// the generations that are active.
    pub fn diagnostics(&self, active: &[ActiveGeneration]) -> (snapshot: DiagnosticsSnapshot)
        ensures
            snapshot.schema_version == DiagnosticsSnapshot::SCHEMA_VERSION,
            snapshot.metrics == self@.metrics,
            snapshot.sessions@ == sorted_sessions(
                current_entries(self@.observations, active@),
            ),
    {
        self.record.snapshot(active)
    }

    /// Returns diagnostics of a public handle, given the state of its generation.
    ///
    /// The report of a generation that is not active is passed on.
    pub fn session_diagnostics(
        &self,
        session: &Session,
        state: Result<SessionState, ErrorReport>,
    ) -> (diagnostics: Result<SessionDiagnostics, ErrorReport>)
        ensures
            diagnostics == match state {
                Err(error) => Err::<SessionDiagnostics, ErrorReport>(error),
                Ok(found) => Ok(
                    generation_diagnosed(self@.observations, session.spec_handle(), found),
                ),
            },
    {
        let found = state?;
        Ok(self.record.diagnose(session.handle(), found))
    }
}

/// A session that opens is attached by its renderer before it is by its peer, and the handshake
/// comes last.
pub proof fn law_sessions_open_in_order(event: LifecycleEvent)
    ensures
        opening_events().len() == 3,
        opening_events().first() is RendererAttached,
        opening_events().last() is HandshakeCompleted,
        opening_events().contains(event) <==> event is RendererAttached || event is PeerAttached
            || event is HandshakeCompleted,
{
    assert(opening_events()[1] is PeerAttached);
    if event is RendererAttached {
        assert(opening_events()[0] == event);
    }
    if event is PeerAttached {
        assert(opening_events()[1] == event);
    }
    if event is HandshakeCompleted {
        assert(opening_events()[2] == event);
    }
}

} // verus!
