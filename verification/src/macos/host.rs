//! Control-plane-only `WKWebView` configuration and renderer replacement tracking.

use std::collections::HashMap;

use vstd::prelude::*;

use crate::domain::capabilities::{relayed_payload_report, TransportTopology};
use crate::domain::error::{
    plain_outcome, report, ErrorCategory, ErrorCode, ErrorReport, Recoverability,
};
use crate::domain::state::{
    endpoint_expected, invalid_transition_report, transition_table, SessionEvent, SessionState,
};
use crate::domain::types::{group_identities, Generation, SessionId};
use crate::macos::artifact::MacosArtifact;
use crate::macos::bundle_api::{boundary_report, valid_initialization, InitializationData};
use crate::macos::spi::MacosSpi;

verus! {

broadcast use {group_identities, vstd::std_specs::hash::group_hash_axioms};

/// What a configurator was asked for, and what became of it.
pub enum ConfigurationStep {
    /// To set the injected bundle.
    Bundle(Seq<char>, Result<(), ErrorReport>),
    /// To copy the initialization data.
    Initialization(Seq<u8>, Result<(), ErrorReport>),
    /// To connect the process pool.
    Commit(Result<(), ErrorReport>),
}

/// Minimal private-WebKit configuration surface implemented by the Objective-C host adapter.
pub trait WebViewConfigurator {
    /// What the configurator was asked for, in order.
    open spec fn configured(&self) -> Seq<ConfigurationStep> {
        arbitrary()
    }

    /// Sets the injected bundle URL on the process-pool configuration.
    ///
    /// A platform configuration failure is returned.
    fn set_injected_bundle(&mut self, path: &str) -> (set: Result<(), ErrorReport>)
        ensures
            final(self).configured() == old(self).configured().push(
                ConfigurationStep::Bundle(path@, plain_outcome(set)),
            ),
    ;

    /// Copies initialization user data onto the process-pool configuration.
    ///
    /// A platform configuration failure is returned.
    fn set_initialization_data(&mut self, data: &[u8]) -> (set: Result<(), ErrorReport>)
        ensures
            final(self).configured() == old(self).configured().push(
                ConfigurationStep::Initialization(data@, plain_outcome(set)),
            ),
    ;

    /// Connects the private process-pool configuration to `WKWebViewConfiguration`.
    ///
    /// A platform configuration failure is returned.
    fn commit_process_pool_configuration(&mut self) -> (committed: Result<(), ErrorReport>)
        ensures
            final(self).configured() == old(self).configured().push(
                ConfigurationStep::Commit(plain_outcome(committed)),
            ),
    ;
}

/// Inputs that must be applied before creating a `WKWebView`.
pub struct WebViewPlan {
    artifact: MacosArtifact,
    initialization: InitializationData,
    spi: MacosSpi,
}

/// Why no plan comes of its inputs, if none does.
pub open spec fn plan_rejection(initialization: Seq<u8>, topology: TransportTopology) -> Option<
    ErrorReport,
> {
    if !topology.payload_is_direct() {
        Some(relayed_payload_report())
    } else if !valid_initialization(initialization) {
        Some(boundary_report())
    } else {
        None
    }
}

/// Whether a configurator went through all steps of a configuration in their order, or stopped at
/// the first that failed.
pub open spec fn plan_applied(
    bundle: Seq<char>,
    initialization: Seq<u8>,
    before: Seq<ConfigurationStep>,
    after: Seq<ConfigurationStep>,
    applied: Result<(), ErrorReport>,
) -> bool {
    let bundled = before.push(ConfigurationStep::Bundle(bundle, Ok(())));
    let initialized = bundled.push(ConfigurationStep::Initialization(initialization, Ok(())));
    match applied {
        Ok(_) => after == initialized.push(ConfigurationStep::Commit(Ok(()))),
        Err(error) => {
            ||| after == before.push(ConfigurationStep::Bundle(bundle, Err(error)))
            ||| after == bundled.push(ConfigurationStep::Initialization(initialization, Err(error)))
            ||| after == initialized.push(ConfigurationStep::Commit(Err(error)))
        },
    }
}

impl WebViewPlan {
    /// Path of the injected bundle.
    pub closed spec fn spec_bundle(self) -> Seq<char> {
        self.artifact.spec_bundle()
    }

    /// Initialization data.
    pub closed spec fn spec_initialization(self) -> Seq<u8> {
        self.initialization@
    }

    /// Access token of the platform.
    pub closed spec fn spec_spi(self) -> MacosSpi {
        self.spi
    }

    /// Builds a fail-closed pre-creation plan from verified platform inputs.
    ///
    /// Missing initialization parameters and a relayed payload topology are rejected.
    pub fn new(
        spi: MacosSpi,
        artifact: MacosArtifact,
        initialization: &[u8],
        topology: TransportTopology,
    ) -> (created: Result<Self, ErrorReport>)
        ensures
            match created {
                Ok(plan) => {
                    &&& plan_rejection(initialization@, topology) is None
                    &&& plan.spec_bundle() == artifact.spec_bundle()
                    &&& plan.spec_initialization() == initialization@
                    &&& plan.spec_spi() == spi
                },
                Err(error) => plan_rejection(initialization@, topology) == Some(error),
            },
    {
        topology.validate()?;
        let initialization = InitializationData::copy_from(initialization)?;
        Ok(WebViewPlan { artifact, initialization, spi })
    }

    /// Injected-bundle path passed to the process-pool configuration.
    pub fn bundle_path(&self) -> (path: &str)
        ensures
            path@ == self.spec_bundle(),
    {
        self.artifact.bundle_path()
    }

    /// Initialization property list copied before `WebView` creation.
    pub fn initialization_data(&self) -> (data: &[u8])
        ensures
            data@ == self.spec_initialization(),
    {
        self.initialization.as_bytes()
    }

    /// SPI token proving the compatibility probe completed.
    pub fn spi(&self) -> (spi: MacosSpi)
        ensures
            spi == self.spec_spi(),
    {
        self.spi
    }

    /// Applies the complete configuration in the required order before `WebView` creation.
    ///
    /// A platform configuration failure stops the sequence and is returned.
    pub fn apply<Configurator: WebViewConfigurator>(&self, configurator: &mut Configurator) -> (
        applied: Result<(), ErrorReport>)
        ensures
            plan_applied(
                self.spec_bundle(),
                self.spec_initialization(),
                old(configurator).configured(),
                final(configurator).configured(),
                applied,
            ),
    {
        configurator.set_injected_bundle(self.bundle_path())?;
        configurator.set_initialization_data(self.initialization_data())?;
        configurator.commit_process_pool_configuration()
    }
}

/// A registered session.
#[derive(Clone, Copy, Debug, PartialEq, Eq, Structural)]
pub struct HostedSession {
    /// Active generation.
    pub generation: Generation,
    /// Lifecycle of the active generation.
    pub state: SessionState,
}

/// The report of a host failure.
pub open spec fn host_report(code: ErrorCode, operation: &'static str) -> ErrorReport {
    report(ErrorCategory::Lifecycle, code, Recoverability::ReplaceEndpoint, operation)
}

fn host_error(code: ErrorCode, operation: &'static str) -> (created: ErrorReport)
    ensures
        created == host_report(code, operation),
{
    ErrorReport::new(ErrorCategory::Lifecycle, code, Recoverability::ReplaceEndpoint, operation)
}

/// A session whose resources are ready and that waits for its renderer.
pub open spec fn prepared(generation: Generation) -> HostedSession {
    HostedSession { generation, state: SessionState::WaitingForRenderer }
}

/// Why a generation of a session is not active, if it is not.
pub open spec fn activity_rejection(
    sessions: Map<u128, HostedSession>,
    session: SessionId,
    generation: Generation,
) -> Option<ErrorReport> {
    if !sessions.dom().contains(session@) {
        Some(host_report(ErrorCode::Closed, "unknown host session"))
    } else if sessions[session@].generation != generation {
        Some(host_report(ErrorCode::StaleGeneration, "stale host generation"))
    } else {
        None
    }
}

/// What becomes of a registration: its result and the sessions after it.
pub open spec fn host_registered(
    sessions: Map<u128, HostedSession>,
    session: SessionId,
    generation: Generation,
) -> (Result<(), ErrorReport>, Map<u128, HostedSession>) {
    if sessions.dom().contains(session@) {
        (
            Err(host_report(ErrorCode::InvalidStateTransition, "duplicate host session")),
            sessions,
        )
    } else {
        (Ok(()), sessions.insert(session@, prepared(generation)))
    }
}

/// What becomes of an attached renderer: its result and the sessions after it.
pub open spec fn host_attached(
    sessions: Map<u128, HostedSession>,
    session: SessionId,
    generation: Generation,
) -> (Result<(), ErrorReport>, Map<u128, HostedSession>) {
    match activity_rejection(sessions, session, generation) {
        Some(error) => (Err(error), sessions),
        None => match transition_table(sessions[session@].state, SessionEvent::RendererReady) {
            Some(state) => (
                Ok(()),
                sessions.insert(session@, HostedSession { generation, state }),
            ),
            None => (Err(invalid_transition_report()), sessions),
        },
    }
}

/// What becomes of a replacement: its result and the sessions after it.
pub open spec fn host_replaced(
    sessions: Map<u128, HostedSession>,
    session: SessionId,
    generation: Generation,
) -> (Result<Generation, ErrorReport>, Map<u128, HostedSession>) {
    match activity_rejection(sessions, session, generation) {
        Some(error) => (Err(error), sessions),
        None => if !endpoint_expected(sessions[session@].state) {
            (Err(invalid_transition_report()), sessions)
        } else if generation@ == u64::MAX {
            (
                Err(host_report(ErrorCode::Internal, "host generation allocation")),
                sessions.insert(
                    session@,
                    HostedSession { generation, state: SessionState::Closed },
                ),
            )
        } else {
            let next = Generation::of((generation@ + 1) as u64);
            (Ok(next), sessions.insert(session@, prepared(next)))
        },
    }
}

/// What becomes of a teardown: its result and the sessions after it.
pub open spec fn host_unregistered(
    sessions: Map<u128, HostedSession>,
    session: SessionId,
    generation: Generation,
) -> (Result<(), ErrorReport>, Map<u128, HostedSession>) {
    match activity_rejection(sessions, session, generation) {
        Some(error) => (Err(error), sessions),
        None => if endpoint_expected(sessions[session@].state) {
            (Ok(()), sessions.remove(session@))
        } else {
            (Err(invalid_transition_report()), sessions)
        },
    }
}

/// Registry routing renderer lifecycle events without exposing payload operations.
pub struct MacosHost {
    plan: WebViewPlan,
    sessions: HashMap<u128, HostedSession>,
}

impl View for MacosHost {
    type V = Map<u128, HostedSession>;

    closed spec fn view(&self) -> Map<u128, HostedSession> {
        self.sessions@
    }
}

fn prepared_state() -> (state: Result<SessionState, ErrorReport>)
    ensures
        state == Ok::<SessionState, ErrorReport>(SessionState::WaitingForRenderer),
{
    let preparing = SessionState::Created.transition(SessionEvent::Prepare)?;
    preparing.transition(SessionEvent::ResourcesReady)
}

fn closed_state(state: SessionState) -> (closed: Result<SessionState, ErrorReport>)
    ensures
        closed == if endpoint_expected(state) {
            Ok::<SessionState, ErrorReport>(SessionState::Closed)
        } else {
            Err(invalid_transition_report())
        },
{
    let disconnected = state.transition(SessionEvent::Disconnect)?;
    disconnected.transition(SessionEvent::Close)
}

impl MacosHost {
    /// The `WebView` creation plan.
    pub closed spec fn spec_plan(self) -> WebViewPlan {
        self.plan
    }

    /// Creates the host before any `WKWebView` exists.
    pub fn new(plan: WebViewPlan) -> (host: Self)
        ensures
            host@ == Map::<u128, HostedSession>::empty(),
            host.spec_plan() == plan,
    {
        MacosHost { plan, sessions: HashMap::new() }
    }

    /// Read-only `WebView` creation plan.
    pub fn plan(&self) -> (plan: &WebViewPlan)
        ensures
            *plan == self.spec_plan(),
    {
        &self.plan
    }

    /// Registers a prepared session generation waiting for its renderer.
    ///
    /// Duplicate identities are rejected.
    pub fn register(&mut self, session: SessionId, generation: Generation) -> (registered: Result<
        (),
        ErrorReport,
    >)
        ensures
            final(self).spec_plan() == old(self).spec_plan(),
            (registered, final(self)@) == host_registered(old(self)@, session, generation),
    {
        if self.sessions.contains_key(&session.get()) {
            return Err(host_error(ErrorCode::InvalidStateTransition, "duplicate host session"));
        }
        let state = prepared_state()?;
        self.sessions.insert(session.get(), HostedSession { generation, state });
        Ok(())
    }

    fn active(&self, session: SessionId, generation: Generation) -> (found: Result<
        HostedSession,
        ErrorReport,
    >)
        ensures
            match activity_rejection(self@, session, generation) {
                Some(error) => found == Err::<HostedSession, ErrorReport>(error),
                None => found == Ok::<HostedSession, ErrorReport>(self@[session@]),
            },
    {
        match self.sessions.get(&session.get()) {
            None => Err(host_error(ErrorCode::Closed, "unknown host session")),
            Some(hosted) => {
                if hosted.generation != generation {
                    return Err(host_error(ErrorCode::StaleGeneration, "stale host generation"));
                }
                Ok(*hosted)
            },
        }
    }

    /// Marks the active renderer attached.
    ///
    /// Unknown, stale, and invalid lifecycle transitions are rejected.
    pub fn renderer_attached(&mut self, session: SessionId, generation: Generation) -> (attached:
        Result<(), ErrorReport>)
        ensures
            final(self).spec_plan() == old(self).spec_plan(),
            (attached, final(self)@) == host_attached(old(self)@, session, generation),
    {
        let hosted = self.active(session, generation)?;
        let state = hosted.state.transition(SessionEvent::RendererReady)?;
        self.sessions.insert(session.get(), HostedSession { generation, state });
        Ok(())
    }

    /// Invalidates the old endpoint and allocates generation N+1 after reload or process exit.
    ///
    /// Unknown, stale, and invalid lifecycle transitions are rejected.
    pub fn replace_renderer(&mut self, session: SessionId, generation: Generation) -> (replaced:
        Result<Generation, ErrorReport>)
        ensures
            final(self).spec_plan() == old(self).spec_plan(),
            (replaced, final(self)@) == host_replaced(old(self)@, session, generation),
    {
        let hosted = self.active(session, generation)?;
        let closed = closed_state(hosted.state)?;
        match hosted.generation.checked_next() {
            None => {
                self.sessions.insert(
                    session.get(),
                    HostedSession { generation, state: closed },
                );
                Err(host_error(ErrorCode::Internal, "host generation allocation"))
            },
            Some(next) => {
                let state = prepared_state()?;
                self.sessions.insert(session.get(), HostedSession { generation: next, state });
                Ok(next)
            },
        }
    }

    /// Current active generation for diagnostics and event routing.
    pub fn generation(&self, session: SessionId) -> (generation: Option<Generation>)
        ensures
            generation == if self@.dom().contains(session@) {
                Some(self@[session@].generation)
            } else {
                None
            },
    {
        match self.sessions.get(&session.get()) {
            Some(hosted) => Some(hosted.generation),
            None => None,
        }
    }

    /// Invalidates and removes one hosted session during framework teardown.
    ///
    /// Unknown and stale session generations are rejected.
    pub fn unregister(&mut self, session: SessionId, generation: Generation) -> (unregistered:
        Result<(), ErrorReport>)
        ensures
            final(self).spec_plan() == old(self).spec_plan(),
            (unregistered, final(self)@) == host_unregistered(old(self)@, session, generation),
    {
        let hosted = self.active(session, generation)?;
        let _closed = closed_state(hosted.state)?;
        self.sessions.remove(&session.get());
        Ok(())
    }
}

/// After a replacement, the old generation is stale and the new one is active.
pub proof fn law_replacement_invalidates_the_old_generation(
    sessions: Map<u128, HostedSession>,
    session: SessionId,
    generation: Generation,
)
    requires
        activity_rejection(sessions, session, generation) is None,
        0 < generation@ < u64::MAX,
    ensures
        ({
            let next = Generation::of((generation@ + 1) as u64);
            let replaced = sessions.insert(session@, prepared(next));
            &&& activity_rejection(replaced, session, generation) == Some(
                host_report(ErrorCode::StaleGeneration, "stale host generation"),
            )
            &&& activity_rejection(replaced, session, next) is None
        }),
{
    let next = Generation::of((generation@ + 1) as u64);
    assert(next@ == generation@ + 1);
}

/// What is done with one session leaves every other one as it is.
pub proof fn law_sessions_do_not_touch_each_other(
    sessions: Map<u128, HostedSession>,
    session: SessionId,
    generation: Generation,
    other: u128,
)
    requires
        other != session@,
    ensures
        ({
            let registered = host_registered(sessions, session, generation).1;
            let attached = host_attached(sessions, session, generation).1;
            let replaced = host_replaced(sessions, session, generation).1;
            let unregistered = host_unregistered(sessions, session, generation).1;
            let known = sessions.dom().contains(other);
            &&& registered.dom().contains(other) == known && registered[other] == sessions[other]
            &&& attached.dom().contains(other) == known && attached[other] == sessions[other]
            &&& replaced.dom().contains(other) == known && replaced[other] == sessions[other]
            &&& unregistered.dom().contains(other) == known && unregistered[other]
                == sessions[other]
        }),
{
}

/// A session that is not known yet can be registered once, its renderer attached once, and what
/// was registered can be taken away again, which leaves what was there before.
pub proof fn law_sessions_are_registered_once(
    sessions: Map<u128, HostedSession>,
    session: SessionId,
    generation: Generation,
    other: Generation,
)
    requires
        !sessions.dom().contains(session@),
    ensures
        ({
            let (registered, waiting) = host_registered(sessions, session, generation);
            let (attached, running) = host_attached(waiting, session, generation);
            &&& registered is Ok
            &&& waiting.dom() == sessions.dom().insert(session@)
            &&& waiting[session@].generation == generation
            &&& host_registered(waiting, session, other).0 is Err
            &&& host_registered(waiting, session, other).1 == waiting
            &&& attached is Ok
            &&& running.dom() == waiting.dom()
            &&& running[session@].generation == generation
            &&& host_attached(running, session, generation).0 is Err
            &&& host_attached(running, session, generation).1 == running
            &&& host_unregistered(waiting, session, generation).0 is Ok
            &&& host_unregistered(waiting, session, generation).1 == sessions
            &&& host_unregistered(running, session, generation).0 is Ok
            &&& host_unregistered(running, session, generation).1 == sessions
        }),
{
    let waiting = host_registered(sessions, session, generation).1;
    let running = host_attached(waiting, session, generation).1;
    assert(waiting.dom() =~= sessions.dom().insert(session@));
    assert(running.dom() =~= waiting.dom());
    assert(waiting.remove(session@) =~= sessions);
    assert(running.remove(session@) =~= sessions);
}

/// Nothing is done for a session that is not known or for a generation of it that is not the
/// active one, and the two are told apart.
pub proof fn law_only_the_active_generation_acts(
    sessions: Map<u128, HostedSession>,
    session: SessionId,
    generation: Generation,
)
    requires
        !(sessions.dom().contains(session@) && sessions[session@].generation == generation),
    ensures
        host_attached(sessions, session, generation).0 is Err,
        host_attached(sessions, session, generation).1 == sessions,
        host_replaced(sessions, session, generation).0 is Err,
        host_replaced(sessions, session, generation).1 == sessions,
        host_unregistered(sessions, session, generation).0 is Err,
        host_unregistered(sessions, session, generation).1 == sessions,
        host_unregistered(sessions, session, generation).0->Err_0.code is Closed
            <==> !sessions.dom().contains(session@),
        host_unregistered(sessions, session, generation).0->Err_0.code is StaleGeneration
            <==> sessions.dom().contains(session@),
        host_attached(sessions, session, generation).0->Err_0 == host_unregistered(
            sessions,
            session,
            generation,
        ).0->Err_0,
        host_replaced(sessions, session, generation).0->Err_0 == host_unregistered(
            sessions,
            session,
            generation,
        ).0->Err_0,
{
}

/// Replacing the active generation counts it up by one: the renderer of the new generation can
/// attach, that of the old one can not, and no teardown goes by the old one. It is possible
/// exactly while an endpoint of the generation can still disappear, and so is the teardown.
pub proof fn law_replacements_count_up(
    sessions: Map<u128, HostedSession>,
    session: SessionId,
    generation: Generation,
)
    requires
        sessions.dom().contains(session@),
        sessions[session@].generation == generation,
    ensures
        ({
            let (replaced, after) = host_replaced(sessions, session, generation);
            let state = sessions[session@].state;
            let live = transition_table(state, SessionEvent::Disconnect) is Some;
            &&& replaced is Ok <==> live && generation@ < u64::MAX
            &&& replaced matches Ok(next) ==> {
                &&& next@ == generation@ + 1
                &&& after.dom() == sessions.dom()
                &&& after[session@].generation == next
                &&& host_attached(after, session, next).0 is Ok
                &&& host_attached(after, session, generation).0 is Err
                &&& host_replaced(after, session, generation).0 is Err
                &&& host_unregistered(after, session, generation).0 is Err
                &&& host_unregistered(after, session, next).0 is Ok
            }
            &&& !live ==> after == sessions
            &&& host_unregistered(sessions, session, generation).0 is Ok <==> live
            &&& host_unregistered(sessions, session, generation).0 is Ok
                ==> !host_unregistered(sessions, session, generation).1.dom().contains(session@)
            &&& !live ==> host_unregistered(sessions, session, generation).1 == sessions
        }),
{
    let after = host_replaced(sessions, session, generation).1;
    assert(after.dom() =~= sessions.dom());
}

/// A session whose last generation was given up is closed: nothing is done with it any more.
pub proof fn law_exhausted_sessions_are_closed(
    sessions: Map<u128, HostedSession>,
    session: SessionId,
    generation: Generation,
)
    requires
        sessions.dom().contains(session@),
        sessions[session@].generation == generation,
        generation@ == u64::MAX,
    ensures
        ({
            let after = host_replaced(sessions, session, generation).1;
            &&& host_replaced(sessions, session, generation).0 is Err
            &&& host_replaced(sessions, session, generation).1.dom() == sessions.dom()
            &&& endpoint_expected(sessions[session@].state) ==> {
                &&& after[session@].state is Closed
                &&& host_attached(after, session, generation).0 is Err
                &&& host_replaced(after, session, generation).0 is Err
                &&& host_unregistered(after, session, generation).0 is Err
            }
        }),
{
    let after = host_replaced(sessions, session, generation).1;
    assert(after.dom() =~= sessions.dom());
}

/// A renderer attaches exactly once to the active generation, while it is waited for, and the
/// generation stays the active one.
pub proof fn law_renderers_attach_while_they_are_awaited(
    sessions: Map<u128, HostedSession>,
    session: SessionId,
    generation: Generation,
)
    requires
        sessions.dom().contains(session@),
        sessions[session@].generation == generation,
    ensures
        ({
            let (attached, after) = host_attached(sessions, session, generation);
            &&& attached is Ok <==> sessions[session@].state is WaitingForRenderer
            &&& attached is Ok ==> after[session@].generation == generation
                && after[session@].state is WaitingForPeer && host_attached(
                after,
                session,
                generation,
            ).0 is Err
            &&& attached is Err ==> after == sessions
        }),
{
}

/// A plan is made exactly of direct payloads and initialization data within their bounds, and is
/// applied completely or up to the step that failed: the pool is committed only behind both other
/// steps, and never after one of them failed.
pub proof fn law_configurations_are_applied_in_order(
    bundle: Seq<char>,
    initialization: Seq<u8>,
    before: Seq<ConfigurationStep>,
    after: Seq<ConfigurationStep>,
    applied: Result<(), ErrorReport>,
)
    requires
        plan_applied(bundle, initialization, before, after, applied),
    ensures
        ({
            let first = before.len() as int;
            &&& first < after.len() <= first + 3
            &&& after.take(first) == before
            &&& after[first] matches ConfigurationStep::Bundle(path, _) && path == bundle
            &&& after.len() > first + 1 ==> after[first] == ConfigurationStep::Bundle(
                bundle,
                Ok(()),
            ) && (after[first + 1] matches ConfigurationStep::Initialization(data, _) && data
                == initialization)
            &&& after.len() > first + 2 ==> after[first + 1] == ConfigurationStep::Initialization(
                initialization,
                Ok(()),
            ) && after[first + 2] is Commit
            &&& applied is Ok <==> after.last() == ConfigurationStep::Commit(Ok(()))
            &&& applied matches Err(error) ==> match after.last() {
                ConfigurationStep::Bundle(_, outcome) => outcome == Err::<(), ErrorReport>(error),
                ConfigurationStep::Initialization(_, outcome) => outcome == Err::<(), ErrorReport>(
                    error,
                ),
                ConfigurationStep::Commit(outcome) => outcome == Err::<(), ErrorReport>(error),
            }
        }),
{
    assert(after.take(before.len() as int) =~= before);
}

/// A failure of a host keeps its code; it is one of the lifecycle, and another endpoint gets over
/// it.
pub proof fn law_host_failures_are_of_the_lifecycle(code: ErrorCode, operation: &'static str)
    ensures
        host_report(code, operation).code == code,
        host_report(code, operation).context == operation,
        host_report(code, operation).category is Lifecycle,
        host_report(code, operation).recoverability is ReplaceEndpoint,
{
}

/// An unknown session is closed, another generation of a known one stale, and a second registration
/// out of order.
pub proof fn law_refused_sessions_are_told_apart(
    sessions: Map<u128, HostedSession>,
    session: SessionId,
    generation: Generation,
)
    ensures
        activity_rejection(sessions, session, generation) matches Some(error) ==> {
            &&& error.code is Closed <==> !sessions.dom().contains(session@)
            &&& error.code is StaleGeneration <==> sessions.dom().contains(session@)
        },
        host_registered(sessions, session, generation).0 matches Err(error) ==> error.code
            is InvalidStateTransition,
{
}

} // verus!
