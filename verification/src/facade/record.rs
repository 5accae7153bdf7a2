//! Counters and observations that every part of the public boundary adds to.

use vstd::prelude::*;

use crate::domain::capabilities::{direct_topology, TransportCapabilities, TransportTopology};
use crate::domain::error::{report, ErrorCategory, ErrorCode, ErrorReport, Recoverability};
use crate::domain::state::{terminal, SessionState};
use crate::domain::types::{Generation, SessionId};
use crate::facade::catalog::{
    entered, lemma_first_is_entered, lemma_newest_is_entered, lemma_observation_is_an_entry,
    lemma_observed_is_found, lemma_observed_keeps_newest,
    no_newer, observation_of, observed, prepared_observation, retained, GenerationObservation,
    ObservationCatalog, ObservedGeneration,
};
use crate::macos::configuration::{production_capabilities, production_capability_bits};
use crate::observability::diagnostics::{
    law_snapshots_are_sorted, redacted, sorted_sessions, CleanupStatus, DiagnosticsSnapshot,
    FailureStage, MemoryBackend, SessionDiagnostics, SignalBackend,
};
use crate::observability::metrics::{
    grew, recorded, zero_metrics, MetricsEvent, MetricsSnapshot,
};
use crate::renderer::{RendererEvent, SendDisposition, TransportDiagnostics};

verus! {

/// Identity of one generation of a logical session.
#[derive(Clone, Copy, PartialEq, Eq, Structural)]
pub struct SessionHandle {
    /// Logical session.
    pub session_id: SessionId,
    /// Generation of the session.
    pub generation: Generation,
}

/// A generation that is active, with its lifecycle state.
#[derive(Clone, Copy, PartialEq, Eq, Structural)]
pub struct ActiveGeneration {
    /// The generation.
    pub handle: SessionHandle,
    /// Its state.
    pub state: SessionState,
}

/// The counters after a failure: one for the failure itself, and one for its class.
pub open spec fn failure_counted(metrics: MetricsSnapshot, error: ErrorReport) -> MetricsSnapshot {
    let counted = recorded(metrics, MetricsEvent::Failure);
    match error.category {
        ErrorCategory::Protocol | ErrorCategory::Bootstrap => recorded(
            counted,
            MetricsEvent::ValidationFailure,
        ),
        ErrorCategory::Security => recorded(counted, MetricsEvent::AuthenticationFailure),
        _ => counted,
    }
}

/// The observations after a failure of a generation.
pub open spec fn failure_observed(
    entries: Seq<ObservedGeneration>,
    handle: SessionHandle,
    stage: FailureStage,
    error: ErrorReport,
) -> Seq<ObservedGeneration> {
    match observation_of(entries, handle.session_id, handle.generation) {
        Some(observation) => observed(
            entries,
            handle.session_id,
            handle.generation,
            observation.failed(stage, error),
        ),
        None => entries,
    }
}

/// The observations after a change of a generation's state.
pub open spec fn state_observed(
    entries: Seq<ObservedGeneration>,
    handle: SessionHandle,
    state: SessionState,
    cleanup: CleanupStatus,
) -> Seq<ObservedGeneration> {
    match observation_of(entries, handle.session_id, handle.generation) {
        Some(observation) => observed(
            entries,
            handle.session_id,
            handle.generation,
            GenerationObservation { state, cleanup, last_failure: observation.last_failure },
        ),
        None => entries,
    }
}

/// The observations with a prepared generation.
pub open spec fn prepared_observed(entries: Seq<ObservedGeneration>, handle: SessionHandle) -> Seq<
    ObservedGeneration,
> {
    retained(
        entered(entries, handle.session_id, handle.generation, prepared_observation()),
        handle.session_id,
    )
}

/// The report that is kept with a generation whose renderer exited.
pub open spec fn renderer_exit_report() -> ErrorReport {
    report(
        ErrorCategory::Closed,
        ErrorCode::Closed,
        Recoverability::ReplaceEndpoint,
        "renderer generation exited",
    )
}

/// The state of a generation among the active ones, if it is one of them.
pub open spec fn active_state(active: Seq<ActiveGeneration>, handle: SessionHandle) -> Option<
    SessionState,
>
    decreases active.len(),
{
    if active.len() == 0 {
        None
    } else if active[0].handle == handle {
        Some(active[0].state)
    } else {
        active_state(active.drop_first(), handle)
    }
}

/// The entry of a generation in a snapshot.
pub open spec fn entry_of(
    handle: SessionHandle,
    observation: GenerationObservation,
) -> SessionDiagnostics {
    SessionDiagnostics {
        session_id: handle.session_id,
        generation: handle.generation,
        state: observation.state,
        topology: direct_topology(),
        capabilities: TransportCapabilities {
            bits: production_capability_bits(),
        },
        memory_backend: MemoryBackend::Mach,
        signal_backend: SignalBackend::Mach,
        last_error: match observation.last_failure {
            Some(failure) => Some(failure.code),
            None => None,
        },
        last_failure: observation.last_failure,
        resources_cleaned: observation.cleanup is Complete,
        cleanup: observation.cleanup,
    }
}

fn diagnostic_entry(handle: SessionHandle, observation: GenerationObservation) -> (entry:
    SessionDiagnostics)
    ensures
        entry == entry_of(handle, observation),
{
    SessionDiagnostics {
        session_id: handle.session_id,
        generation: handle.generation,
        state: observation.state,
        topology: TransportTopology::direct(),
        capabilities: production_capabilities(),
        memory_backend: MemoryBackend::Mach,
        signal_backend: SignalBackend::Mach,
        last_error: match observation.last_failure {
            Some(failure) => Some(failure.code),
            None => None,
        },
        last_failure: observation.last_failure,
        resources_cleaned: observation.cleanup == CleanupStatus::Complete,
        cleanup: observation.cleanup,
    }
}

/// An observation with the state that the generation has now, where it is active.
pub open spec fn current(
    entry: ObservedGeneration,
    active: Seq<ActiveGeneration>,
) -> SessionDiagnostics {
    let handle = SessionHandle { session_id: entry.session_id, generation: entry.generation };
    entry_of(
        handle,
        GenerationObservation {
            state: match active_state(active, handle) {
                Some(state) => state,
                None => entry.observation.state,
            },
            cleanup: entry.observation.cleanup,
            last_failure: entry.observation.last_failure,
        },
    )
}

/// The entries of all observed generations.
pub open spec fn current_entries(
    entries: Seq<ObservedGeneration>,
    active: Seq<ActiveGeneration>,
) -> Seq<SessionDiagnostics> {
    Seq::new(entries.len(), |index: int| current(entries[index], active))
}

/// What an active generation that was not observed looks like.
pub open spec fn unobserved(state: SessionState) -> GenerationObservation {
    GenerationObservation {
        state,
        cleanup: if terminal(state) {
            CleanupStatus::Complete
        } else {
            CleanupStatus::Pending
        },
        last_failure: None,
    }
}

/// The diagnostics of an active generation.
pub open spec fn generation_diagnosed(
    entries: Seq<ObservedGeneration>,
    handle: SessionHandle,
    state: SessionState,
) -> SessionDiagnostics {
    let observation = match observation_of(entries, handle.session_id, handle.generation) {
        Some(found) => GenerationObservation {
            state,
            cleanup: found.cleanup,
            last_failure: found.last_failure,
        },
        None => unobserved(state),
    };
    entry_of(handle, observation)
}

/// The part of a counter that was not there before.
pub open spec fn gained(before: u64, after: u64) -> u64 {
    if after > before {
        (after - before) as u64
    } else {
        0
    }
}

/// The counters after a transport's own counters changed.
pub open spec fn wakeups_counted(
    metrics: MetricsSnapshot,
    previous: TransportDiagnostics,
    now: TransportDiagnostics,
) -> MetricsSnapshot {
    recorded(
        recorded(
            metrics,
            MetricsEvent::Wakeups(
                gained(previous.primary_wakeups, now.primary_wakeups),
                gained(previous.polling_wakeups, now.polling_wakeups),
                gained(previous.coalesced_wakeups, now.coalesced_wakeups),
                gained(previous.polling_recoveries, now.polling_recoveries),
            ),
        ),
        MetricsEvent::SignalFailures(gained(previous.signal_failures, now.signal_failures)),
    )
}

/// What a record holds.
#[verifier::ext_equal]
pub struct RecordView {
    /// Counters.
    pub metrics: MetricsSnapshot,
    /// Observed generations.
    pub observations: Seq<ObservedGeneration>,
}

/// A record that recorded nothing.
pub open spec fn empty_record() -> RecordView {
    RecordView { metrics: zero_metrics(), observations: Seq::empty() }
}

impl RecordView {
    /// The record after an event was counted.
    pub open spec fn counted(self, event: MetricsEvent) -> Self {
        RecordView { metrics: recorded(self.metrics, event), observations: self.observations }
    }

    /// The record after a failure that no generation is known of.
    pub open spec fn failure(self, error: ErrorReport) -> Self {
        RecordView {
            metrics: failure_counted(self.metrics, error),
            observations: self.observations,
        }
    }

    /// The record after a failure of a generation.
    pub open spec fn failed(
        self,
        handle: SessionHandle,
        stage: FailureStage,
        error: ErrorReport,
    ) -> Self {
        RecordView {
            metrics: failure_counted(self.metrics, error),
            observations: failure_observed(self.observations, handle, stage, error),
        }
    }

    /// The record after an operation that only its failure leaves a trace of.
    pub open spec fn settled<Value>(
        self,
        handle: SessionHandle,
        stage: FailureStage,
        outcome: Result<Value, ErrorReport>,
    ) -> Self {
        match outcome {
            Ok(_) => self,
            Err(error) => self.failed(handle, stage, error),
        }
    }

    /// The record after a payload of a length was sent.
    pub open spec fn sent(
        self,
        handle: SessionHandle,
        length: nat,
        outcome: Result<SendDisposition, ErrorReport>,
    ) -> Self {
        match outcome {
            Ok(disposition) => {
                let counted = self.counted(MetricsEvent::Sent(length as u64));
                if disposition is Backpressured {
                    counted.counted(MetricsEvent::Backpressure)
                } else {
                    counted
                }
            },
            Err(error) => if error.code is Backpressured {
                self.counted(MetricsEvent::Backpressure)
            } else {
                self.failed(handle, FailureStage::Transport, error)
            },
        }
    }

    /// The record after an event of a transport.
    pub open spec fn polled(
        self,
        handle: SessionHandle,
        outcome: Result<Option<RendererEvent>, ErrorReport>,
    ) -> Self {
        match outcome {
            Ok(Some(RendererEvent::Message(payload))) => self.counted(
                MetricsEvent::Received(payload@.len() as u64),
            ),
            Ok(Some(RendererEvent::Writable)) => self.counted(MetricsEvent::Writable),
            Ok(Some(RendererEvent::Error(error))) => self.failed(
                handle,
                FailureStage::Transport,
                error,
            ),
            Ok(Some(RendererEvent::Closed)) | Ok(None) => self,
            Err(error) => self.failed(handle, FailureStage::Transport, error),
        }
    }

    /// The record after a transport's own counters changed.
    pub open spec fn synced(
        self,
        previous: TransportDiagnostics,
        now: TransportDiagnostics,
    ) -> Self {
        RecordView {
            metrics: wakeups_counted(self.metrics, previous, now),
            observations: self.observations,
        }
    }

    /// The record after a session was created with a prepared generation.
    pub open spec fn created(self, handle: SessionHandle) -> Self {
        RecordView {
            metrics: recorded(self.metrics, MetricsEvent::SessionCreated),
            observations: prepared_observed(self.observations, handle),
        }
    }

    /// The record after both endpoints of a generation completed their handshake.
    pub open spec fn opened(self, handle: SessionHandle) -> Self {
        RecordView {
            metrics: self.metrics,
            observations: state_observed(
                self.observations,
                handle,
                SessionState::Open,
                CleanupStatus::Pending,
            ),
        }
    }

    /// The record after a generation ended with its renderer and another one took its place.
    pub open spec fn replaced(self, old_handle: SessionHandle, new_handle: SessionHandle) -> Self {
        let failed = self.counted(MetricsEvent::Replacement).failed(
            old_handle,
            FailureStage::Lifecycle,
            renderer_exit_report(),
        );
        RecordView {
            metrics: failed.metrics,
            observations: prepared_observed(
                state_observed(
                    failed.observations,
                    old_handle,
                    SessionState::Disconnected,
                    CleanupStatus::Complete,
                ),
                new_handle,
            ),
        }
    }

    /// The record after a generation was closed.
    pub open spec fn closed(
        self,
        handle: SessionHandle,
        was_closed: bool,
        after: Result<SessionState, ErrorReport>,
    ) -> Self {
        let counted = if was_closed {
            self
        } else {
            self.counted(MetricsEvent::SessionClosed)
        };
        match after {
            Ok(state) => RecordView {
                metrics: counted.metrics,
                observations: state_observed(
                    counted.observations,
                    handle,
                    state,
                    CleanupStatus::Complete,
                ),
            },
            Err(_) => counted,
        }
    }
}

/// Counters and observed generations.
pub struct FacadeRecord {
    /// Counters.
    pub metrics: MetricsSnapshot,
    /// Observed generations.
    pub observations: ObservationCatalog,
}

impl View for FacadeRecord {
    type V = RecordView;

    open spec fn view(&self) -> RecordView {
        RecordView { metrics: self.metrics, observations: self.observations@ }
    }
}

impl FacadeRecord {
    /// Creates an empty record.
    pub fn new() -> (record: Self)
        ensures
            record@ == empty_record(),
    {
        FacadeRecord { metrics: MetricsSnapshot::default(), observations: ObservationCatalog::new() }
    }

    /// Counts an event.
    pub fn count(&mut self, event: MetricsEvent)
        ensures
            final(self)@ == old(self)@.counted(event),
    {
        self.metrics.record(event);
    }

    /// Counts a failure and its class.
    pub fn record_failure(&mut self, error: &ErrorReport)
        ensures
            final(self)@ == old(self)@.failure(*error),
    {
        self.metrics.record(MetricsEvent::Failure);
        match error.category() {
            ErrorCategory::Protocol | ErrorCategory::Bootstrap => {
                self.metrics.record(MetricsEvent::ValidationFailure);
            },
            ErrorCategory::Security => {
                self.metrics.record(MetricsEvent::AuthenticationFailure);
            },
            _ => {},
        }
    }

    /// Counts a failure and keeps it with its generation.
    pub fn fail(&mut self, handle: SessionHandle, stage: FailureStage, error: &ErrorReport)
        ensures
            final(self)@ == old(self)@.failed(handle, stage, *error),
    {
        self.record_failure(error);
        self.observations.observe_failure(handle.session_id, handle.generation, stage, error);
    }

    /// Records what became of a payload.
    pub fn observe_send(
        &mut self,
        handle: SessionHandle,
        length: usize,
        outcome: &Result<SendDisposition, ErrorReport>,
    )
        ensures
            final(self)@ == old(self)@.sent(handle, length as nat, *outcome),
    {
        match outcome {
            Ok(disposition) => {
                self.metrics.record(MetricsEvent::Sent(length as u64));
                if *disposition == SendDisposition::Backpressured {
                    self.metrics.record(MetricsEvent::Backpressure);
                }
            },
            Err(error) => {
                if error.code() == ErrorCode::Backpressured {
                    self.metrics.record(MetricsEvent::Backpressure);
                } else {
                    self.fail(handle, FailureStage::Transport, error);
                }
            },
        }
    }

    /// Records one event of a transport.
    pub fn observe_poll(
        &mut self,
        handle: SessionHandle,
        outcome: &Result<Option<RendererEvent>, ErrorReport>,
    )
        ensures
            final(self)@ == old(self)@.polled(handle, *outcome),
    {
        match outcome {
            Ok(Some(RendererEvent::Message(payload))) => {
                self.metrics.record(MetricsEvent::Received(payload.len() as u64));
            },
            Ok(Some(RendererEvent::Writable)) => {
                self.metrics.record(MetricsEvent::Writable);
            },
            Ok(Some(RendererEvent::Error(error))) => {
                self.fail(handle, FailureStage::Transport, error);
            },
            Ok(Some(RendererEvent::Closed)) | Ok(None) => {},
            Err(error) => {
                self.fail(handle, FailureStage::Transport, error);
            },
        }
    }

    /// Records an operation that only its failure leaves a trace of.
    pub fn observe_outcome<Value>(
        &mut self,
        handle: SessionHandle,
        stage: FailureStage,
        outcome: &Result<Value, ErrorReport>,
    )
        ensures
            final(self)@ == old(self)@.settled(handle, stage, *outcome),
    {
        match outcome {
            Ok(_) => {},
            Err(error) => {
                self.fail(handle, stage, error);
            },
        }
    }

    /// Adds what a transport's own counters gained.
    pub fn observe_wakeups(&mut self, previous: TransportDiagnostics, now: TransportDiagnostics)
        ensures
            final(self)@ == old(self)@.synced(previous, now),
    {
        self.metrics.record(
            MetricsEvent::Wakeups(
                now.primary_wakeups.saturating_sub(previous.primary_wakeups),
                now.polling_wakeups.saturating_sub(previous.polling_wakeups),
                now.coalesced_wakeups.saturating_sub(previous.coalesced_wakeups),
                now.polling_recoveries.saturating_sub(previous.polling_recoveries),
            ),
        );
        self.metrics.record(
            MetricsEvent::SignalFailures(
                now.signal_failures.saturating_sub(previous.signal_failures),
            ),
        );
    }

    /// Records a created session whose first generation is prepared.
    pub fn session_created(&mut self, handle: SessionHandle)
        ensures
            final(self)@ == old(self)@.created(handle),
    {
        self.metrics.record(MetricsEvent::SessionCreated);
        self.observations.insert(
            handle.session_id,
            handle.generation,
            GenerationObservation::prepared(),
        );
    }

    /// Records that both endpoints of a generation completed their handshake.
    pub fn connection_opened(&mut self, handle: SessionHandle)
        ensures
            final(self)@ == old(self)@.opened(handle),
    {
        self.observations.update(
            handle.session_id,
            handle.generation,
            SessionState::Open,
            CleanupStatus::Pending,
        );
    }

    /// Records that a generation ended with its renderer and that another one took its place.
    pub fn generation_replaced(&mut self, old_handle: SessionHandle, new_handle: SessionHandle)
        ensures
            final(self)@ == old(self)@.replaced(old_handle, new_handle),
    {
        self.metrics.record(MetricsEvent::Replacement);
        let exit = ErrorReport::new(
            ErrorCategory::Closed,
            ErrorCode::Closed,
            Recoverability::ReplaceEndpoint,
            "renderer generation exited",
        );
        self.fail(old_handle, FailureStage::Lifecycle, &exit);
        self.observations.update(
            old_handle.session_id,
            old_handle.generation,
            SessionState::Disconnected,
            CleanupStatus::Complete,
        );
        self.observations.insert(
            new_handle.session_id,
            new_handle.generation,
            GenerationObservation::prepared(),
        );
    }

    /// Records a closed generation. A session counts as closed once.
    pub fn session_closed(
        &mut self,
        handle: SessionHandle,
        was_closed: bool,
        after: &Result<SessionState, ErrorReport>,
    )
        ensures
            final(self)@ == old(self)@.closed(handle, was_closed, *after),
    {
        if !was_closed {
            self.metrics.record(MetricsEvent::SessionClosed);
        }
        match after {
            Ok(state) => {
                self.observations.update(
                    handle.session_id,
                    handle.generation,
                    *state,
                    CleanupStatus::Complete,
                );
            },
            Err(_) => {},
        }
    }

    /// Diagnoses every observed generation, with the states that the active ones have now.
    pub fn snapshot(&self, active: &[ActiveGeneration]) -> (snapshot: DiagnosticsSnapshot)
        ensures
            snapshot.schema_version == DiagnosticsSnapshot::SCHEMA_VERSION,
            snapshot.metrics == self@.metrics,
            snapshot.sessions@ == sorted_sessions(current_entries(self@.observations, active@)),
    {
        let mut sessions: Vec<SessionDiagnostics> = Vec::new();
        let mut index: usize = 0;
        while index < self.observations.len()
            invariant
                index <= self.observations@.len(),
                sessions@ =~= current_entries(self.observations@.take(index as int), active@),
            decreases self.observations@.len() - index,
        {
            let entry = self.observations.entry(index);
            let handle = SessionHandle {
                session_id: entry.session_id,
                generation: entry.generation,
            };
            let mut observation = entry.observation;
            if let Some(state) = find_active(active, handle) {
                observation.state = state;
            }
            sessions.push(diagnostic_entry(handle, observation));
            index += 1;
        }
        proof {
            assert(self.observations@.take(index as int) =~= self.observations@);
        }
        DiagnosticsSnapshot::new(self.metrics, sessions)
    }

    /// Diagnoses one active generation.
    pub fn diagnose(&self, handle: SessionHandle, state: SessionState) -> (diagnostics:
        SessionDiagnostics)
        ensures
            diagnostics == generation_diagnosed(self@.observations, handle, state),
    {
        let mut observation = match self.observations.get(handle.session_id, handle.generation) {
            Some(found) => found,
            None => GenerationObservation {
                state,
                cleanup: if state.is_terminal() {
                    CleanupStatus::Complete
                } else {
                    CleanupStatus::Pending
                },
                last_failure: None,
            },
        };
        observation.state = state;
        diagnostic_entry(handle, observation)
    }
}

fn find_active(active: &[ActiveGeneration], handle: SessionHandle) -> (state: Option<SessionState>)
    ensures
        state == active_state(active@, handle),
{
    let mut index: usize = 0;
    proof {
        assert(active@.skip(0) =~= active@);
    }
    while index < active.len()
        invariant
            index <= active@.len(),
            active_state(active@, handle) == active_state(active@.skip(index as int), handle),
        decreases active@.len() - index,
    {
        proof {
            assert(active@.skip(index as int).drop_first() =~= active@.skip(index + 1));
        }
        let candidate = active[index];
        if candidate.handle.session_id == handle.session_id && candidate.handle.generation
            == handle.generation {
            return Some(candidate.state);
        }
        index += 1;
    }
    None
}

/// Nothing that is recorded takes a counter back.
pub proof fn law_recorded_counters_are_monotonic<Value>(
    record: RecordView,
    handle: SessionHandle,
    other: SessionHandle,
    stage: FailureStage,
    error: ErrorReport,
    length: nat,
    sent: Result<SendDisposition, ErrorReport>,
    polled: Result<Option<RendererEvent>, ErrorReport>,
    settled: Result<Value, ErrorReport>,
    previous: TransportDiagnostics,
    now: TransportDiagnostics,
    was_closed: bool,
    after: Result<SessionState, ErrorReport>,
)
    ensures
        grew(record.metrics, record.failure(error).metrics),
        grew(record.metrics, record.failed(handle, stage, error).metrics),
        grew(record.metrics, record.sent(handle, length, sent).metrics),
        grew(record.metrics, record.polled(handle, polled).metrics),
        grew(record.metrics, record.settled(handle, stage, settled).metrics),
        grew(record.metrics, record.synced(previous, now).metrics),
        grew(record.metrics, record.created(handle).metrics),
        grew(record.metrics, record.opened(handle).metrics),
        grew(record.metrics, record.replaced(handle, other).metrics),
        grew(record.metrics, record.closed(handle, was_closed, after).metrics),
{
}

/// A replaced generation is kept as disconnected and released, with the exit of its renderer as its
/// failure, and the new one waits for its renderer.
pub proof fn law_replacement_keeps_the_old_generation(
    record: RecordView,
    old_handle: SessionHandle,
    new_handle: SessionHandle,
)
    requires
        observation_of(
            record.observations,
            old_handle.session_id,
            old_handle.generation,
        ) is Some,
        new_handle.session_id == old_handle.session_id,
        no_newer(record.observations, old_handle.session_id, old_handle.generation),
        old_handle.generation@ < new_handle.generation@,
    ensures
        ({
            let after = record.replaced(old_handle, new_handle).observations;
            &&& observation_of(after, old_handle.session_id, old_handle.generation) == Some(
                (GenerationObservation {
                    state: SessionState::Disconnected,
                    cleanup: CleanupStatus::Complete,
                    last_failure: Some(
                        redacted(FailureStage::Lifecycle, renderer_exit_report()),
                    ),
                }),
            )
            &&& observation_of(after, new_handle.session_id, new_handle.generation) == Some(
                prepared_observation(),
            )
            &&& prepared_observation().state is WaitingForRenderer
        }),
{
    let session_id = old_handle.session_id;
    let generation = old_handle.generation;
    let entries = record.observations;
    let failed = observation_of(entries, session_id, generation)->Some_0.failed(
        FailureStage::Lifecycle,
        renderer_exit_report(),
    );
    let first = observed(entries, session_id, generation, failed);
    lemma_observed_is_found(entries, session_id, generation, failed);
    lemma_observed_keeps_newest(entries, session_id, generation, failed);
    let ended = GenerationObservation {
        state: SessionState::Disconnected,
        cleanup: CleanupStatus::Complete,
        last_failure: failed.last_failure,
    };
    lemma_observed_is_found(first, session_id, generation, ended);
    lemma_observed_keeps_newest(first, session_id, generation, ended);
    let second = observed(first, session_id, generation, ended);
    lemma_newest_is_entered(
        second,
        session_id,
        generation,
        new_handle.generation,
        prepared_observation(),
    );
}

/// The entry of an observed generation is in the snapshot.
proof fn lemma_is_listed(
    entries: Seq<ObservedGeneration>,
    active: Seq<ActiveGeneration>,
    handle: SessionHandle,
)
    requires
        observation_of(entries, handle.session_id, handle.generation) is Some,
    ensures
        sorted_sessions(current_entries(entries, active)).contains(
            current(
                ObservedGeneration {
                    session_id: handle.session_id,
                    generation: handle.generation,
                    observation: observation_of(
                        entries,
                        handle.session_id,
                        handle.generation,
                    )->0,
                },
                active,
            ),
        ),
{
    broadcast use vstd::seq_lib::group_to_multiset_ensures;

    let entry = ObservedGeneration {
        session_id: handle.session_id,
        generation: handle.generation,
        observation: observation_of(entries, handle.session_id, handle.generation)->0,
    };
    lemma_observation_is_an_entry(entries, handle.session_id, handle.generation);
    let place = choose|place: int| 0 <= place < entries.len() && entries[place] == entry;
    let listed = current_entries(entries, active);
    assert(listed[place] == current(entry, active));
    assert(listed.contains(current(entry, active)));
    law_snapshots_are_sorted(listed);
    assert(listed.to_multiset().count(current(entry, active)) > 0);
}

/// A session that was created, connected and then lost its renderer keeps both generations.
///
/// The snapshot lists the first one as disconnected and released, with the exit of its renderer as
/// its failure, and the second one as waiting for its renderer; the diagnostics of the new handle
/// say so too.
pub proof fn law_a_replaced_session_keeps_both_generations(
    record: RecordView,
    old_handle: SessionHandle,
    new_handle: SessionHandle,
    active: Seq<ActiveGeneration>,
)
    requires
        forall|index: int|
            0 <= index < record.observations.len() ==> (
            #[trigger] record.observations[index]).session_id != old_handle.session_id,
        0 < old_handle.generation@,
        new_handle.session_id == old_handle.session_id,
        old_handle.generation@ < new_handle.generation@,
        active_state(active, old_handle) is None,
        active_state(active, new_handle) == Some(SessionState::WaitingForRenderer),
    ensures
        ({
            let after = record.created(old_handle).opened(old_handle).replaced(
                old_handle,
                new_handle,
            );
            let listed = sorted_sessions(current_entries(after.observations, active));
            let exit = redacted(FailureStage::Lifecycle, renderer_exit_report());
            &&& listed.contains(
                entry_of(
                    old_handle,
                    GenerationObservation {
                        state: SessionState::Disconnected,
                        cleanup: CleanupStatus::Complete,
                        last_failure: Some(exit),
                    },
                ),
            )
            &&& listed.contains(entry_of(new_handle, prepared_observation()))
            &&& generation_diagnosed(
                after.observations,
                new_handle,
                SessionState::WaitingForRenderer,
            ) == entry_of(new_handle, prepared_observation())
            &&& prepared_observation().state is WaitingForRenderer
            &&& exit.code is Closed
        }),
{
    let session_id = old_handle.session_id;
    let generation = old_handle.generation;
    lemma_first_is_entered(
        record.observations,
        session_id,
        generation,
        prepared_observation(),
    );
    let created = record.created(old_handle);
    let open = GenerationObservation {
        state: SessionState::Open,
        cleanup: CleanupStatus::Pending,
        last_failure: prepared_observation().last_failure,
    };
    lemma_observed_is_found(created.observations, session_id, generation, open);
    lemma_observed_keeps_newest(created.observations, session_id, generation, open);
    let opened = created.opened(old_handle);
    law_replacement_keeps_the_old_generation(opened, old_handle, new_handle);
    let after = opened.replaced(old_handle, new_handle);
    lemma_is_listed(after.observations, active, old_handle);
    lemma_is_listed(after.observations, active, new_handle);
}

/// A failure counts once as a failure, once more as one of validation where it is of the protocol
/// or the bootstrap, once more as one of authentication where it is of security, and as nothing
/// else.
pub proof fn law_failures_are_counted_by_their_class(metrics: MetricsSnapshot, error: ErrorReport)
    requires
        metrics.failures < u64::MAX,
        metrics.validation_failures < u64::MAX,
        metrics.authentication_failures < u64::MAX,
    ensures
        ({
            let after = failure_counted(metrics, error);
            let validation = error.category is Protocol || error.category is Bootstrap;
            &&& after.failures == metrics.failures + 1
            &&& after.validation_failures == metrics.validation_failures + if validation {
                1int
            } else {
                0
            }
            &&& after.authentication_failures == metrics.authentication_failures
                + if error.category is Security {
                1int
            } else {
                0
            }
            &&& after == MetricsSnapshot {
                failures: after.failures,
                validation_failures: after.validation_failures,
                authentication_failures: after.authentication_failures,
                ..metrics
            }
        }),
{
}

/// A message that went out counts once, with its bytes; backpressure counts wherever it was told,
/// whether the message went out or not, and is no failure; every other failure is one.
pub proof fn law_sends_are_counted(
    record: RecordView,
    handle: SessionHandle,
    length: nat,
    outcome: Result<SendDisposition, ErrorReport>,
)
    requires
        record.metrics.messages_sent < u64::MAX,
        record.metrics.bytes_sent + length <= u64::MAX,
        record.metrics.backpressure < u64::MAX,
        record.metrics.failures < u64::MAX,
    ensures
        ({
            let before = record.metrics;
            let after = record.sent(handle, length, outcome).metrics;
            let pressed = match outcome {
                Ok(disposition) => disposition is Backpressured,
                Err(error) => error.code is Backpressured,
            };
            &&& after.messages_sent == before.messages_sent + if outcome is Ok {
                1int
            } else {
                0
            }
            &&& after.bytes_sent == before.bytes_sent + if outcome is Ok {
                length as int
            } else {
                0
            }
            &&& after.backpressure == before.backpressure + if pressed {
                1int
            } else {
                0
            }
            &&& after.failures == before.failures + if outcome is Err && !pressed {
                1int
            } else {
                0
            }
            &&& after.messages_received == before.messages_received
            &&& outcome is Ok || pressed ==> record.sent(handle, length, outcome).observations
                == record.observations
        }),
{
}

/// A message that came in counts once, with its bytes, and the return of room once; a failure is
/// one whether the poll failed or told of it, and a close or nothing leaves no trace.
pub proof fn law_polls_are_counted(
    record: RecordView,
    handle: SessionHandle,
    outcome: Result<Option<RendererEvent>, ErrorReport>,
)
    requires
        record.metrics.messages_received < u64::MAX,
        outcome matches Ok(Some(RendererEvent::Message(payload)))
            ==> record.metrics.bytes_received + payload@.len() <= u64::MAX,
        record.metrics.writable < u64::MAX,
        record.metrics.failures < u64::MAX,
    ensures
        ({
            let before = record.metrics;
            let after = record.polled(handle, outcome).metrics;
            &&& after.messages_sent == before.messages_sent
            &&& match outcome {
                Ok(Some(RendererEvent::Message(payload))) => {
                    &&& after.messages_received == before.messages_received + 1
                    &&& after.bytes_received == before.bytes_received + payload@.len()
                },
                _ => after.messages_received == before.messages_received && after.bytes_received
                    == before.bytes_received,
            }
            &&& after.writable == before.writable + if outcome matches Ok(
                Some(RendererEvent::Writable),
            ) {
                1int
            } else {
                0
            }
            &&& after.failures == before.failures + match outcome {
                Ok(Some(RendererEvent::Error(_))) => 1int,
                Err(_) => 1,
                _ => 0,
            }
            &&& outcome matches Ok(Some(RendererEvent::Closed)) ==> record.polled(handle, outcome)
                == record
            &&& outcome matches Ok(None) ==> record.polled(handle, outcome) == record
        }),
{
}

/// What a transport counted is added once: counters that are read again and again add up to what
/// they say last.
pub proof fn law_wakeups_are_added_once(
    record: RecordView,
    previous: TransportDiagnostics,
    now: TransportDiagnostics,
    later: TransportDiagnostics,
)
    requires
        previous.primary_wakeups <= now.primary_wakeups <= later.primary_wakeups,
        previous.polling_wakeups <= now.polling_wakeups <= later.polling_wakeups,
        previous.coalesced_wakeups <= now.coalesced_wakeups <= later.coalesced_wakeups,
        previous.polling_recoveries <= now.polling_recoveries <= later.polling_recoveries,
        previous.signal_failures <= now.signal_failures <= later.signal_failures,
    ensures
        record.synced(previous, now).synced(now, later) == record.synced(previous, later),
        record.synced(now, now) == record,
        record.metrics.primary_wakeups + later.primary_wakeups - previous.primary_wakeups
            <= u64::MAX ==> record.synced(previous, later).metrics.primary_wakeups
            == record.metrics.primary_wakeups + (later.primary_wakeups - previous.primary_wakeups),
        record.metrics.polling_wakeups + later.polling_wakeups - previous.polling_wakeups
            <= u64::MAX ==> record.synced(previous, later).metrics.polling_wakeups
            == record.metrics.polling_wakeups + (later.polling_wakeups - previous.polling_wakeups),
        record.metrics.signal_failures + later.signal_failures - previous.signal_failures
            <= u64::MAX ==> record.synced(previous, later).metrics.signal_failures
            == record.metrics.signal_failures + (later.signal_failures - previous.signal_failures),
{
}

/// A session counts as closed once, and one of which it is known how it ended is kept as released
/// in the state that it ended in.
pub proof fn law_sessions_are_counted_once(
    record: RecordView,
    handle: SessionHandle,
    was_closed: bool,
    state: SessionState,
)
    requires
        record.metrics.sessions_closed < u64::MAX,
        record.metrics.sessions_created < u64::MAX,
        observation_of(record.observations, handle.session_id, handle.generation) is Some,
    ensures
        ({
            let after = record.closed(handle, was_closed, Ok(state));
            let found = observation_of(after.observations, handle.session_id, handle.generation);
            &&& after.metrics.sessions_closed == record.metrics.sessions_closed + if was_closed {
                0int
            } else {
                1
            }
            &&& after.metrics.sessions_created == record.metrics.sessions_created
            &&& found matches Some(observation) && observation.state == state
                && observation.cleanup is Complete && observation.last_failure == observation_of(
                record.observations,
                handle.session_id,
                handle.generation,
            )->0.last_failure
            &&& record.created(handle).metrics.sessions_created == record.metrics.sessions_created
                + 1
            &&& record.created(handle).metrics.sessions_closed == record.metrics.sessions_closed
        }),
{
    let found = observation_of(record.observations, handle.session_id, handle.generation)->0;
    lemma_observed_is_found(
        record.observations,
        handle.session_id,
        handle.generation,
        GenerationObservation {
            state,
            cleanup: CleanupStatus::Complete,
            last_failure: found.last_failure,
        },
    );
}

/// The entry of a generation tells its identity, the state that was asked for, and of its last
/// failure the code; its resources count as cleaned exactly where they are all released.
pub proof fn law_entries_tell_what_was_observed(
    entries: Seq<ObservedGeneration>,
    handle: SessionHandle,
    state: SessionState,
)
    ensures
        ({
            let entry = generation_diagnosed(entries, handle, state);
            &&& entry.session_id == handle.session_id
            &&& entry.generation == handle.generation
            &&& entry.state == state
            &&& entry.resources_cleaned <==> entry.cleanup is Complete
            &&& entry.last_error is Some <==> entry.last_failure is Some
            &&& entry.last_failure matches Some(failure) ==> entry.last_error == Some(failure.code)
            &&& match observation_of(entries, handle.session_id, handle.generation) {
                Some(found) => entry.cleanup == found.cleanup && entry.last_failure
                    == found.last_failure,
                None => entry.last_failure is None && (entry.cleanup is Complete <==> terminal(
                    state,
                )) && !(entry.cleanup is Failed),
            }
        }),
{
}

/// The state of a generation that is listed once is the state that it is listed with; one that is
/// not listed has none.
pub proof fn law_listed_generations_have_their_state(
    active: Seq<ActiveGeneration>,
    index: int,
    handle: SessionHandle,
)
    requires
        forall|left: int, right: int|
            0 <= left < right < active.len() ==> (#[trigger] active[left]).handle != (
            #[trigger] active[right]).handle,
    ensures
        0 <= index < active.len() && active[index].handle == handle ==> active_state(active, handle)
            == Some(active[index].state),
        (forall|place: int| 0 <= place < active.len() ==> (#[trigger] active[place]).handle
            != handle) ==> active_state(active, handle) is None,
    decreases active.len(),
{
    if active.len() > 0 {
        let rest = active.drop_first();
        assert forall|left: int, right: int| 0 <= left < right < rest.len() implies (
        #[trigger] rest[left]).handle != (#[trigger] rest[right]).handle by {
            assert(active[left + 1].handle != active[right + 1].handle);
        }
        law_listed_generations_have_their_state(rest, index - 1, handle);
        if index > 0 && index < active.len() {
            assert(rest[index - 1] == active[index]);
            assert(active[0].handle != active[index].handle);
        }
        if forall|place: int| 0 <= place < active.len() ==> (#[trigger] active[place]).handle
            != handle {
            assert(active[0].handle != handle);
            assert forall|place: int| 0 <= place < rest.len() implies (
            #[trigger] rest[place]).handle != handle by {
                assert(active[place + 1].handle != handle);
            }
        }
    }
}

/// Every generation is told to run over the native providers, with no payload through the host and
/// with every capability of production.
pub proof fn law_generations_run_over_native_providers(
    handle: SessionHandle,
    observation: GenerationObservation,
)
    ensures
        entry_of(handle, observation).memory_backend is Mach,
        entry_of(handle, observation).signal_backend is Mach,
        !entry_of(handle, observation).topology.host_in_payload_path,
        !entry_of(handle, observation).topology.browser_process_in_payload_path,
        entry_of(handle, observation).capabilities.bits == production_capability_bits(),
        entry_of(handle, observation).session_id == handle.session_id,
        entry_of(handle, observation).generation == handle.generation,
{
}

/// What a transport fails with, in a send, in a poll or as an event, is observed as a failure of
/// the transport; what does not fail is not observed at all.
pub proof fn law_transport_failures_are_observed_as_such(
    record: RecordView,
    handle: SessionHandle,
    length: nat,
    sent: Result<SendDisposition, ErrorReport>,
    polled: Result<Option<RendererEvent>, ErrorReport>,
)
    ensures
        record.sent(handle, length, sent).observations == match sent {
            Err(error) => if error.code is Backpressured {
                record.observations
            } else {
                failure_observed(record.observations, handle, FailureStage::Transport, error)
            },
            Ok(_) => record.observations,
        },
        polled matches Err(error) ==> record.polled(handle, polled).observations
            == failure_observed(record.observations, handle, FailureStage::Transport, error),
        polled matches Ok(Some(RendererEvent::Error(error))) ==> record.polled(
            handle,
            polled,
        ).observations == failure_observed(
            record.observations,
            handle,
            FailureStage::Transport,
            error,
        ),
        polled is Ok && !(polled matches Ok(Some(RendererEvent::Error(_)))) ==> record.polled(
            handle,
            polled,
        ).observations == record.observations,
{
}

} // verus!
