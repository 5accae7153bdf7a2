//! Tauri lifecycle integration for the macOS `WebKit` control plane.

use vstd::prelude::*;
use vstd::string::StringExecFns;
use vstd::utf8::encode_utf8;

use crate::adapters::appkit::{configure_host, is_planned, startup_rejection, BundleInspection};
use crate::adapters::registry::{
    adapter_error, adapter_report, is_consistent, label_attached, label_registered, label_removed,
    label_replaced, law_labels_stand_for_active_generations, HostRegistry, RegistryOperations,
    RegistryView, RoutedSession,
};
use crate::adapters::wry::{is_valid_label, valid_label};
use crate::domain::error::{ErrorCode, ErrorReport};
use crate::domain::state::{endpoint_expected, invalid_transition_report};
use crate::domain::types::{group_identities, Generation, SessionId};
use crate::facade::session::Session;
use crate::macos::host::{plan_applied, HostedSession, MacosHost, WebViewConfigurator};
use crate::macos::spi::SpiProbe;
use crate::observability::diagnostics::{
    bytes_come_before, comes_before, lemma_comes_before_is_asymmetric,
    lemma_not_before_is_transitive,
};

verus! {

broadcast use group_identities;

/// Application decision when the transport is unavailable during startup.
#[derive(Clone, Copy, Debug, PartialEq, Eq, Structural)]
pub enum FallbackDecision {
    /// Abort startup and return the structured failure.
    Abort,
    /// Continue without registering the plugin.
    ContinueWithoutNwipc,
}

/// Application-owned fallback policy. The adapter never selects or starts a fallback itself.
pub trait FallbackPolicy {
    /// Whether the policy may decide so on a startup error.
    open spec fn decides(&self, error: ErrorReport, decision: FallbackDecision) -> bool {
        arbitrary()
    }

    /// Decides how the application handles one fail-closed startup error.
    fn on_unavailable(&self, error: &ErrorReport) -> (decision: FallbackDecision)
        ensures
            self.decides(*error, decision),
    ;
}

/// Names of the operations that this adapter reports.
pub open spec fn tauri_operations() -> RegistryOperations {
    RegistryOperations {
        unknown: "unknown Tauri window",
        stale: "stale Tauri window event",
        duplicate: "duplicate Tauri window",
    }
}

fn operations() -> (names: RegistryOperations)
    ensures
        names == tauri_operations(),
{
    RegistryOperations {
        unknown: "unknown Tauri window",
        stale: "stale Tauri window event",
        duplicate: "duplicate Tauri window",
    }
}

/// The report of a text that may not be a window label.
pub open spec fn label_report() -> ErrorReport {
    adapter_report(ErrorCode::InvalidRange, "Tauri window label")
}

/// What becomes of a window's registration.
pub open spec fn window_registered(
    view: RegistryView,
    label: Seq<char>,
    session: SessionId,
    generation: Generation,
) -> (Result<(), ErrorReport>, RegistryView) {
    if !valid_label(label) {
        (Err(label_report()), view)
    } else {
        label_registered(view, tauri_operations(), label, session, generation)
    }
}

/// What becomes of a destroyed window, and which failure is left then.
pub open spec fn window_destroyed(
    view: RegistryView,
    left: Option<ErrorReport>,
    label: Seq<char>,
) -> (RegistryView, Option<ErrorReport>) {
    let (removed, after) = label_removed(
        view,
        tauri_operations(),
        label,
        view.routes[label].generation,
    );
    (
        after,
        match removed {
            Ok(_) => left,
            Err(error) => if error.code is Closed {
                left
            } else {
                Some(error)
            },
        },
    )
}

/// Redacted diagnostics of a window.
#[derive(Clone, Debug, PartialEq, Eq)]
pub struct WindowDiagnostics {
    /// Tauri window label.
    pub label: String,
    /// Current generation; session identity and provider handles remain hidden.
    pub generation: u64,
}

/// Whether diagnostics list windows in the order of their labels.
pub open spec fn in_label_order(windows: Seq<WindowDiagnostics>) -> bool {
    forall|left: int, right: int|
        0 <= left < right < windows.len() ==> !comes_before(
            encode_utf8((#[trigger] windows[right]).label@),
            encode_utf8((#[trigger] windows[left]).label@),
        )
}

/// Whether diagnostics list every label once with its generation, and nothing else.
pub open spec fn lists(
    windows: Seq<WindowDiagnostics>,
    routes: Map<Seq<char>, RoutedSession>,
) -> bool {
    &&& forall|index: int|
        0 <= index < windows.len() ==> {
            &&& routes.dom().contains((#[trigger] windows[index]).label@)
            &&& windows[index].generation == routes[windows[index].label@].generation@
        }
    &&& forall|label: Seq<char>| #[trigger]
        routes.dom().contains(label) ==> exists|index: int|
            0 <= index < windows.len() && (#[trigger] windows[index]).label@ == label
    &&& forall|left: int, right: int|
        0 <= left < right < windows.len() ==> (#[trigger] windows[left]).label@ != (
        #[trigger] windows[right]).label@
}

/// Tauri plugin state. It does not impose a process-global singleton.
pub struct TauriAdapter {
    registry: HostRegistry,
}

impl View for TauriAdapter {
    type V = RegistryView;

    closed spec fn view(&self) -> RegistryView {
        self.registry@
    }
}

impl TauriAdapter {
    /// The control-plane host.
    pub closed spec fn spec_host(self) -> MacosHost {
        self.registry.spec_host()
    }

    /// The failure that a callback left behind.
    pub closed spec fn left_failure(self) -> Option<ErrorReport> {
        self.registry.left_failure()
    }

    /// Whether this adapter stands before any window, with the plan for them.
    pub open spec fn is_configured<Probe: SpiProbe>(
        self,
        probe: Probe,
        bundle: Seq<char>,
        initialization: Seq<u8>,
    ) -> bool {
        &&& is_planned(self.spec_host(), probe, bundle, initialization)
        &&& self@.routes == Map::<Seq<char>, RoutedSession>::empty()
        &&& self@.hosted == Map::<u128, HostedSession>::empty()
        &&& self.left_failure() is None
    }

    /// Probes `WebKit` SPI and prepares the host plan before Tauri creates a webview.
    ///
    /// Fails closed for unsupported `WebKit`, an invalid bundle, or invalid initialization data.
    pub fn configure<Probe: SpiProbe>(
        probe: &Probe,
        inspection: BundleInspection<'_>,
        initialization: &[u8],
    ) -> (configured: Result<Self, ErrorReport>)
        ensures
            match startup_rejection(
                *probe,
                inspection.files,
                inspection.build,
                initialization@,
            ) {
                Some(error) => configured is Err && configured->Err_0 == error,
                None => configured matches Ok(adapter) && adapter.is_configured(
                    *probe,
                    inspection.bundle@,
                    initialization@,
                ),
            },
    {
        let host = configure_host(probe, inspection, initialization)?;
        Ok(TauriAdapter { registry: HostRegistry::new(host) })
    }

    /// Follows the application's decision on a startup failure.
    pub fn after_failure(error: ErrorReport, decision: FallbackDecision) -> (outcome: Result<
        Option<Self>,
        ErrorReport,
    >)
        ensures
            match decision {
                FallbackDecision::Abort => outcome is Err && outcome->Err_0 == error,
                FallbackDecision::ContinueWithoutNwipc => outcome matches Ok(None),
            },
    {
        match decision {
            FallbackDecision::Abort => Err(error),
            FallbackDecision::ContinueWithoutNwipc => Ok(None),
        }
    }

    /// Applies application fallback policy without silently changing transport semantics.
    ///
    /// The original structured failure is returned when the policy chooses
    /// [`FallbackDecision::Abort`], and no adapter when it chooses to continue. A policy is asked
    /// only about a failure.
    pub fn configure_with_fallback<Probe: SpiProbe, Policy: FallbackPolicy>(
        probe: &Probe,
        inspection: BundleInspection<'_>,
        initialization: &[u8],
        policy: &Policy,
    ) -> (configured: Result<Option<Self>, ErrorReport>)
        ensures
            match startup_rejection(
                *probe,
                inspection.files,
                inspection.build,
                initialization@,
            ) {
                Some(error) => exists|decision: FallbackDecision| #[trigger]
                    policy.decides(error, decision) && match decision {
                        FallbackDecision::Abort => configured is Err && configured->Err_0 == error,
                        FallbackDecision::ContinueWithoutNwipc => configured matches Ok(None),
                    },
                None => configured matches Ok(Some(adapter)) && adapter.is_configured(
                    *probe,
                    inspection.bundle@,
                    initialization@,
                ),
            },
    {
        match TauriAdapter::configure(probe, inspection, initialization) {
            Ok(adapter) => Ok(Some(adapter)),
            Err(error) => {
                let decision = policy.on_unavailable(&error);
                TauriAdapter::after_failure(error, decision)
            },
        }
    }

    /// Applies the process-pool settings to Tauri's native `WebKit` configuration.
    ///
    /// Configuration failures are passed on before the webview or window is registered.
    pub fn configure_webview<Configurator: WebViewConfigurator>(
        &self,
        configurator: &mut Configurator,
    ) -> (applied: Result<(), ErrorReport>)
        ensures
            plan_applied(
                self.spec_host().spec_plan().spec_bundle(),
                self.spec_host().spec_plan().spec_initialization(),
                old(configurator).configured(),
                final(configurator).configured(),
                applied,
            ),
    {
        self.registry.host().plan().apply(configurator)
    }

    /// Maps a Tauri window label to one active session generation.
    ///
    /// Invalid labels, duplicate labels, and duplicate session identities are rejected.
    pub fn register_window(
        &mut self,
        label: String,
        session: SessionId,
        generation: Generation,
    ) -> (
        registered: Result<(), ErrorReport>)
        ensures
            final(self).left_failure() == old(self).left_failure(),
            final(self).spec_host().spec_plan() == old(self).spec_host().spec_plan(),
            (registered, final(self)@) == window_registered(
                old(self)@,
                label@,
                session,
                generation,
            ),
    {
        if !is_valid_label(label.as_str()) {
            return Err(adapter_error(ErrorCode::InvalidRange, "Tauri window label"));
        }
        self.registry.register(operations(), label, session, generation)
    }

    /// Maps a Tauri label to a session allocated by the public facade.
    ///
    /// Invalid or duplicate labels and duplicate session identities are rejected.
    pub fn register_session(&mut self, label: String, session: &Session) -> (registered: Result<
        (),
        ErrorReport,
    >)
        ensures
            final(self).left_failure() == old(self).left_failure(),
            final(self).spec_host().spec_plan() == old(self).spec_host().spec_plan(),
            (registered, final(self)@) == window_registered(
                old(self)@,
                label@,
                session.spec_handle().session_id,
                session.spec_handle().generation,
            ),
    {
        self.register_window(label, session.id(), session.generation())
    }

    /// Marks a window's injected-bundle renderer attached.
    ///
    /// Unknown, stale, and duplicate attachment events are rejected.
    pub fn renderer_attached(&mut self, label: &str, generation: Generation) -> (attached: Result<
        (),
        ErrorReport,
    >)
        ensures
            final(self).left_failure() == old(self).left_failure(),
            final(self).spec_host().spec_plan() == old(self).spec_host().spec_plan(),
            (attached, final(self)@) == label_attached(
                old(self)@,
                tauri_operations(),
                label@,
                generation,
            ),
    {
        self.registry.renderer_attached(operations(), label, generation)
    }

    /// Replaces a Tauri window's resource generation after `WebContent` termination or reload.
    ///
    /// Unknown and stale lifecycle events are rejected.
    pub fn renderer_replaced(&mut self, label: &str, generation: Generation) -> (replaced: Result<
        Generation,
        ErrorReport,
    >)
        ensures
            final(self).left_failure() == old(self).left_failure(),
            final(self).spec_host().spec_plan() == old(self).spec_host().spec_plan(),
            (replaced, final(self)@) == label_replaced(
                old(self)@,
                tauri_operations(),
                label@,
                generation,
            ),
    {
        self.registry.replace(operations(), label, generation)
    }

    /// Cleans up one window label and its active generation.
    ///
    /// Unknown and stale lifecycle events are rejected.
    pub fn remove_window(&mut self, label: &str, generation: Generation) -> (removed: Result<
        (),
        ErrorReport,
    >)
        ensures
            final(self).left_failure() == old(self).left_failure(),
            final(self).spec_host().spec_plan() == old(self).spec_host().spec_plan(),
            (removed, final(self)@) == label_removed(
                old(self)@,
                tauri_operations(),
                label@,
                generation,
            ),
    {
        self.registry.remove(operations(), label, generation)
    }

    /// Cleans up a window that was destroyed. A failure other than that of an unknown window is
    /// left behind.
    pub fn remove_window_current(&mut self, label: &str)
        ensures
            final(self).spec_host().spec_plan() == old(self).spec_host().spec_plan(),
            (final(self)@, final(self).left_failure()) == window_destroyed(
                old(self)@,
                old(self).left_failure(),
                label@,
            ),
    {
        match self.registry.remove_current(operations(), label) {
            Ok(_) => {},
            Err(error) => {
                if error.code() != ErrorCode::Closed {
                    self.registry.record_callback_failure(error);
                }
            },
        }
    }

    /// Cleans up every window and tears its session down. A window whose session cannot be torn
    /// down stays, and the failure is left behind.
    pub fn cleanup_all(&mut self)
        ensures
            final(self).spec_host().spec_plan() == old(self).spec_host().spec_plan(),
            final(self)@.routes.submap_of(old(self)@.routes),
            is_consistent(old(self)@) ==> {
                &&& is_consistent(final(self)@)
                &&& final(self)@ == cleaned_up(old(self)@)
                &&& final(self).left_failure() == if exists|label: Seq<char>|
                    final(self)@.routes.dom().contains(label) {
                    Some(invalid_transition_report())
                } else {
                    old(self).left_failure()
                }
            },
    {
        let labels = self.registry.labels();
        let ghost before = self@;
        let mut index: usize = 0;
        while index < labels.len()
            invariant
                index <= labels@.len(),
                is_consistent(before) ==> is_consistent(self@),
                before == old(self)@,
                self.spec_host().spec_plan() == old(self).spec_host().spec_plan(),
                self@.routes.submap_of(before.routes),
                forall|place: int|
                    0 <= place < labels@.len() ==> before.routes.dom().contains(
                        (#[trigger] labels@[place])@,
                    ),
                forall|left: int, right: int|
                    0 <= left < right < labels@.len() ==> (#[trigger] labels@[left])@ != (
                    #[trigger] labels@[right])@,
                forall|label: Seq<char>| #[trigger]
                    before.routes.dom().contains(label) ==> exists|place: int|
                        0 <= place < labels@.len() && (#[trigger] labels@[place])@ == label,
                is_consistent(before) ==> forall|place: int|
                    0 <= place < index ==> (self@.routes.dom().contains(
                        (#[trigger] labels@[place])@,
                    ) <==> !is_removable(before, labels@[place]@)),
                is_consistent(before) ==> forall|place: int|
                    index <= place < labels@.len() ==> self@.routes.dom().contains(
                        (#[trigger] labels@[place])@,
                    ),
                is_consistent(before) ==> forall|label: Seq<char>| #[trigger]
                    self@.routes.dom().contains(label) ==> is_removable(self@, label)
                        == is_removable(before, label),
                is_consistent(before) ==> self@.hosted == before.hosted.remove_keys(
                    torn_down_among(before, labels@, index as int),
                ),
                is_consistent(before) ==> self.left_failure() == if exists|place: int|
                    0 <= place < index
                        && self@.routes.dom().contains((#[trigger] labels@[place])@) {
                    Some(invalid_transition_report())
                } else {
                    old(self).left_failure()
                },
            decreases labels@.len() - index,
        {
            let ghost earlier = self@;
            let ghost label = labels@[index as int]@;
            self.remove_window_current(labels[index].as_str());
            proof {
                assert(self@.routes == earlier.routes || self@.routes == earlier.routes.remove(
                    label,
                ));
                assert(self@.routes.submap_of(earlier.routes));
                if is_consistent(before) {
                    assert(earlier.routes.dom().contains(labels@[index as int]@));
                    lemma_destroyed(earlier, label);
                    lemma_one_more_torn_down(before, labels@, index as int);
                    assert forall|place: int| 0 <= place < labels@.len() && place
                        != index implies self@.routes.dom().contains((#[trigger] labels@[place])@)
                        == earlier.routes.dom().contains(labels@[place]@) by {
                        if place < index {
                            assert(labels@[place]@ != labels@[index as int]@);
                        } else {
                            assert(labels@[index as int]@ != labels@[place]@);
                        }
                    }
                    if is_removable(before, label) {
                        if exists|place: int|
                            0 <= place < index + 1 && self@.routes.dom().contains(
                                (#[trigger] labels@[place])@,
                            ) {
                            let place = choose|place: int|
                                0 <= place < index + 1 && self@.routes.dom().contains(
                                    (#[trigger] labels@[place])@,
                                );
                            assert(place < index);
                            assert(earlier.routes.dom().contains(labels@[place]@));
                        }
                        if exists|place: int|
                            0 <= place < index && earlier.routes.dom().contains(
                                (#[trigger] labels@[place])@,
                            ) {
                            let place = choose|place: int|
                                0 <= place < index && earlier.routes.dom().contains(
                                    (#[trigger] labels@[place])@,
                                );
                            assert(self@.routes.dom().contains(labels@[place]@));
                        }
                    } else {
                        assert(self@.routes.dom().contains(labels@[index as int]@));
                    }
                }
            }
            index += 1;
        }
        proof {
            if is_consistent(before) {
                assert forall|label: Seq<char>| #[trigger]
                    before.routes.dom().contains(label) implies (self@.routes.dom().contains(label)
                    <==> !is_removable(before, label)) by {
                    let place = choose|place: int|
                        0 <= place < labels@.len() && (#[trigger] labels@[place])@ == label;
                    assert(labels@[place]@ == label);
                }
                assert(self@.routes =~= cleaned_up(before).routes);
                lemma_all_torn_down(before, labels@);
                if exists|label: Seq<char>| self@.routes.dom().contains(label) {
                    let label = choose|label: Seq<char>| self@.routes.dom().contains(label);
                    assert(before.routes.dom().contains(label));
                    let place = choose|place: int|
                        0 <= place < labels@.len() && (#[trigger] labels@[place])@ == label;
                    assert(self@.routes.dom().contains(labels@[place]@));
                }
            }
        }
    }

    /// Returns redacted diagnostics of every window, in the order of their labels.
    pub fn diagnostics(&self) -> (windows: Vec<WindowDiagnostics>)
        ensures
            in_label_order(windows@),
            lists(windows@, self@.routes),
    {
        let labels = self.registry.labels();
        let mut windows: Vec<WindowDiagnostics> = Vec::new();
        let mut index: usize = 0;
        while index < labels.len()
            invariant
                index <= labels@.len(),
                in_label_order(windows@),
                forall|place: int|
                    0 <= place < labels@.len() ==> self@.routes.dom().contains(
                        (#[trigger] labels@[place])@,
                    ),
                forall|left: int, right: int|
                    0 <= left < right < labels@.len() ==> (#[trigger] labels@[left])@ != (
                    #[trigger] labels@[right])@,
                forall|label: Seq<char>| #[trigger]
                    self@.routes.dom().contains(label) ==> exists|place: int|
                        0 <= place < labels@.len() && (#[trigger] labels@[place])@ == label,
                forall|place: int|
                    0 <= place < index ==> is_listed(windows@, (#[trigger] labels@[place])@),
                forall|place: int|
                    0 <= place < windows@.len() ==> {
                        &&& self@.routes.dom().contains((#[trigger] windows@[place]).label@)
                        &&& windows@[place].generation
                            == self@.routes[windows@[place].label@].generation@
                        &&& exists|source: int|
                            0 <= source < index && (#[trigger] labels@[source])@
                                == windows@[place].label@
                    },
                forall|left: int, right: int|
                    0 <= left < right < windows@.len() ==> (#[trigger] windows@[left]).label@ != (
                    #[trigger] windows@[right]).label@,
            decreases labels@.len() - index,
        {
            let label = labels[index].as_str();
            let generation: u64 = match self.registry.generation(label) {
                Some(generation) => generation.get(),
                None => 0,
            };
            let place: usize = find_window_place(&windows, label);
            let window = WindowDiagnostics { label: String::from_str(label), generation };
            let ghost before = windows@;
            proof {
                assert(self@.routes.dom().contains(labels@[index as int]@));
                assert forall|other: int| 0 <= other < before.len() implies (
                #[trigger] before[other]).label@ != label@ by {
                    let source = choose|source: int|
                        0 <= source < index
                            && (#[trigger] labels@[source])@ == before[other].label@;
                    assert(labels@[source]@ != labels@[index as int]@);
                }
            }
            windows.insert(place, window);
            proof {
                lemma_window_inserted(before, window, place as int);
                assert forall|source: int| 0 <= source < index + 1 implies is_listed(
                    windows@,
                    (#[trigger] labels@[source])@,
                ) by {
                    if source < index {
                        assert(is_listed(before, labels@[source]@));
                        let other = choose|other: int|
                            0 <= other < before.len() && (#[trigger] before[other]).label@
                                == labels@[source]@;
                        let moved = if other < place {
                            other
                        } else {
                            other + 1
                        };
                        assert(windows@[moved] == before[other]);
                    } else {
                        assert(windows@[place as int].label@ == label@);
                    }
                }
                assert forall|other: int| 0 <= other < windows@.len() implies {
                    &&& self@.routes.dom().contains((#[trigger] windows@[other]).label@)
                    &&& windows@[other].generation
                        == self@.routes[windows@[other].label@].generation@
                    &&& exists|source: int|
                        0 <= source < index + 1 && (#[trigger] labels@[source])@
                            == windows@[other].label@
                } by {
                    if other == place {
                        assert(labels@[index as int]@ == windows@[other].label@);
                    } else {
                        let earlier = if other < place {
                            other
                        } else {
                            other - 1
                        };
                        assert(windows@[other] == before[earlier]);
                        let source = choose|source: int|
                            0 <= source < index && (#[trigger] labels@[source])@
                                == before[earlier].label@;
                        assert(labels@[source]@ == windows@[other].label@);
                    }
                }
            }
            index += 1;
        }
        proof {
            assert forall|label: Seq<char>| #[trigger]
                self@.routes.dom().contains(label) implies exists|place: int|
                0 <= place < windows@.len() && (#[trigger] windows@[place]).label@ == label by {
                let source = choose|source: int|
                    0 <= source < labels@.len() && (#[trigger] labels@[source])@ == label;
                assert(is_listed(windows@, labels@[source]@));
            }
        }
        windows
    }

    /// Leaves the failure of a callback that cannot return one.
    pub fn record_callback_failure(&mut self, error: ErrorReport)
        ensures
            final(self)@ == old(self)@,
            final(self).spec_host().spec_plan() == old(self).spec_host().spec_plan(),
            final(self).left_failure() == Some(error),
    {
        self.registry.record_callback_failure(error);
    }

    /// Returns the last lifecycle failure captured by a Tauri callback.
    pub fn take_callback_failure(&mut self) -> (failure: Option<ErrorReport>)
        ensures
            final(self)@ == old(self)@,
            final(self).spec_host().spec_plan() == old(self).spec_host().spec_plan(),
            final(self).left_failure() is None,
            failure == old(self).left_failure(),
    {
        self.registry.take_callback_failure()
    }
}

/// A call that may change which windows there are, with what became of it.
pub enum WindowCall {
    /// A window was registered.
    Register(Seq<char>, SessionId, Generation, Result<(), ErrorReport>),
    /// A window's renderer attached.
    Attach(Seq<char>, Generation, Result<(), ErrorReport>),
    /// A window's renderer was replaced.
    Replace(Seq<char>, Generation, Result<Generation, ErrorReport>),
    /// A window was removed.
    Remove(Seq<char>, Generation, Result<(), ErrorReport>),
    /// A window was destroyed, and removed or not.
    Destroy(Seq<char>, bool),
    /// Every window was cleaned up, but for these.
    CleanUp(Set<Seq<char>>),
}

/// Whether a call moves an adapter from one state to another.
pub open spec fn windows_moved(
    before: RegistryView,
    call: WindowCall,
    after: RegistryView,
) -> bool {
    match call {
        WindowCall::Register(label, session, generation, outcome) => (outcome, after)
            == window_registered(before, label, session, generation),
        WindowCall::Attach(label, generation, outcome) => (outcome, after) == label_attached(
            before,
            tauri_operations(),
            label,
            generation,
        ),
        WindowCall::Replace(label, generation, outcome) => (outcome, after) == label_replaced(
            before,
            tauri_operations(),
            label,
            generation,
        ),
        WindowCall::Remove(label, generation, outcome) => (outcome, after) == label_removed(
            before,
            tauri_operations(),
            label,
            generation,
        ),
        WindowCall::Destroy(label, removed) => {
            &&& after == window_destroyed(before, None, label).0
            &&& removed == (before.routes.dom().contains(label) && is_removable(before, label))
        },
        WindowCall::CleanUp(kept) => {
            &&& is_consistent(before) ==> is_consistent(after) && after == cleaned_up(before)
            &&& forall|label: Seq<char>| #[trigger]
                kept.contains(label) <==> before.routes.dom().contains(label) && !is_removable(
                    before,
                    label,
                )
        },
    }
}

/// The windows with their generations after one more call: a registration that went well adds
/// one, a replacement that went well gives it the next generation, and a removal that went well
/// takes it away.
pub open spec fn windows_after(windows: Map<Seq<char>, u64>, call: WindowCall) -> Map<
    Seq<char>,
    u64,
> {
    match call {
        WindowCall::Register(label, _, generation, Ok(_)) => windows.insert(label, generation@),
        WindowCall::Replace(label, _, Ok(next)) => windows.insert(label, next@),
        WindowCall::Remove(label, _, Ok(_)) => windows.remove(label),
        WindowCall::Destroy(label, true) => windows.remove(label),
        WindowCall::CleanUp(kept) => windows.restrict(kept),
        _ => windows,
    }
}

/// The windows with their generations after a run of calls of a new adapter.
pub open spec fn windows_of(calls: Seq<WindowCall>) -> Map<Seq<char>, u64>
    decreases calls.len(),
{
    if calls.len() == 0 {
        Map::empty()
    } else {
        windows_after(windows_of(calls.drop_last()), calls.last())
    }
}

/// After any run of calls of a new adapter, its diagnostics list exactly the windows that were
/// registered and not removed since, each once with its current generation.
pub proof fn law_diagnostics_list_the_current_windows(
    states: Seq<RegistryView>,
    calls: Seq<WindowCall>,
    listed: Seq<WindowDiagnostics>,
)
    requires
        states.len() == calls.len() + 1,
        states[0].routes == Map::<Seq<char>, RoutedSession>::empty(),
        forall|index: int|
            0 <= index < calls.len() ==> windows_moved(
                states[index],
                #[trigger] calls[index],
                states[index + 1],
            ),
        lists(listed, states.last().routes),
    ensures
        is_consistent(states.last()),
        forall|label: Seq<char>| #[trigger]
            windows_of(calls).dom().contains(label) <==> exists|index: int|
                0 <= index < listed.len() && (#[trigger] listed[index]).label@ == label,
        forall|index: int|
            0 <= index < listed.len() ==> (#[trigger] listed[index]).generation
                == windows_of(calls)[listed[index].label@],
        forall|left: int, right: int|
            0 <= left < right < listed.len() ==> (#[trigger] listed[left]).label@ != (
            #[trigger] listed[right]).label@,
{
    lemma_windows_of(states, calls);
    let routes = states.last().routes;
    assert forall|label: Seq<char>| #[trigger] windows_of(calls).dom().contains(label)
        implies exists|
        index: int,
    |
        0 <= index < listed.len() && (#[trigger] listed[index]).label@ == label by {
        assert(routes.dom().contains(label));
    }
}

/// After a run of calls the routes are the windows that the calls tell.
proof fn lemma_windows_of(states: Seq<RegistryView>, calls: Seq<WindowCall>)
    requires
        states.len() == calls.len() + 1,
        states[0].routes == Map::<Seq<char>, RoutedSession>::empty(),
        forall|index: int|
            0 <= index < calls.len() ==> windows_moved(
                states[index],
                #[trigger] calls[index],
                states[index + 1],
            ),
    ensures
        is_consistent(states.last()),
        windows_of(calls).dom() == states.last().routes.dom(),
        forall|label: Seq<char>| #[trigger]
            states.last().routes.dom().contains(label) ==> windows_of(calls)[label]
                == states.last().routes[label].generation@,
    decreases calls.len(),
{
    if calls.len() > 0 {
        let earlier = states.drop_last();
        let fewer = calls.drop_last();
        assert forall|index: int| 0 <= index < fewer.len() implies windows_moved(
            earlier[index],
            #[trigger] fewer[index],
            earlier[index + 1],
        ) by {
            assert(fewer[index] == calls[index]);
        }
        lemma_windows_of(earlier, fewer);
        lemma_windows_step(earlier.last(), calls.last(), states.last(), windows_of(fewer));
    }
}

proof fn lemma_windows_step(
    before: RegistryView,
    call: WindowCall,
    after: RegistryView,
    windows: Map<Seq<char>, u64>,
)
    requires
        is_consistent(before),
        windows_moved(before, call, after),
        windows.dom() == before.routes.dom(),
        forall|label: Seq<char>| #[trigger]
            before.routes.dom().contains(label) ==> windows[label]
                == before.routes[label].generation@,
    ensures
        is_consistent(after),
        windows_after(windows, call).dom() == after.routes.dom(),
        forall|label: Seq<char>| #[trigger]
            after.routes.dom().contains(label) ==> windows_after(windows, call)[label]
                == after.routes[label].generation@,
{
    match call {
        WindowCall::Register(label, session, generation, _) => {
            law_labels_stand_for_active_generations(
                before,
                tauri_operations(),
                label,
                session,
                generation,
            );
        },
        WindowCall::Attach(label, generation, _) => {
            law_labels_stand_for_active_generations(
                before,
                tauri_operations(),
                label,
                before.routes[label].session,
                generation,
            );
        },
        WindowCall::Replace(label, generation, _) => {
            law_labels_stand_for_active_generations(
                before,
                tauri_operations(),
                label,
                before.routes[label].session,
                generation,
            );
        },
        WindowCall::Remove(label, generation, _) => {
            law_labels_stand_for_active_generations(
                before,
                tauri_operations(),
                label,
                before.routes[label].session,
                generation,
            );
        },
        WindowCall::Destroy(label, _) => {
            if before.routes.dom().contains(label) {
                lemma_destroyed(before, label);
            }
        },
        WindowCall::CleanUp(kept) => {
            assert forall|label: Seq<char>| #[trigger]
                after.routes.dom().contains(label) implies windows_after(windows, call)[label]
                == after.routes[label].generation@ by {
                assert(before.routes.dom().contains(label));
            }
            assert forall|label: Seq<char>|
                windows_after(windows, call).dom().contains(label)
                    == after.routes.dom().contains(label) by {
                if after.routes.dom().contains(label) {
                    assert(before.routes.dom().contains(label));
                }
                if windows.dom().contains(label) {
                    assert(before.routes.dom().contains(label));
                }
            }
        },
    }
    assert(windows_after(windows, call).dom() =~= after.routes.dom());
}

/// Whether the session of a label can be torn down.
pub open spec fn is_removable(view: RegistryView, label: Seq<char>) -> bool {
    endpoint_expected(view.hosted[view.routes[label].session@].state)
}

/// The sessions of the windows that a cleanup can tear down.
pub open spec fn torn_down(view: RegistryView) -> Set<u128> {
    Set::new(
        |session: u128|
            exists|label: Seq<char>| #[trigger]
                view.routes.dom().contains(label) && is_removable(view, label)
                    && view.routes[label].session@ == session,
    )
}

/// What a cleanup of every window leaves: the windows whose sessions cannot be torn down, and every
/// hosted session but those that were torn down.
pub open spec fn cleaned_up(view: RegistryView) -> RegistryView {
    RegistryView {
        routes: view.routes.restrict(Set::new(|label: Seq<char>| !is_removable(view, label))),
        hosted: view.hosted.remove_keys(torn_down(view)),
    }
}

/// A cleanup tears the session of every window down that can be torn down.
///
/// Its window and its hosted session are gone then. A window whose session cannot be torn down
/// keeps both, and so does every hosted session that no window stands for.
pub proof fn law_a_cleanup_tears_sessions_down(view: RegistryView)
    requires
        is_consistent(view),
    ensures
        forall|label: Seq<char>| #[trigger]
            view.routes.dom().contains(label) && is_removable(view, label) ==> {
                &&& !cleaned_up(view).routes.dom().contains(label)
                &&& !cleaned_up(view).hosted.dom().contains(view.routes[label].session@)
            },
        forall|label: Seq<char>| #[trigger]
            view.routes.dom().contains(label) && !is_removable(view, label) ==> {
                let session = view.routes[label].session@;
                &&& cleaned_up(view).routes.dom().contains(label)
                &&& cleaned_up(view).routes[label] == view.routes[label]
                &&& cleaned_up(view).hosted.dom().contains(session)
                &&& cleaned_up(view).hosted[session] == view.hosted[session]
            },
        forall|session: u128| #[trigger]
            view.hosted.dom().contains(session) && !torn_down(view).contains(session) ==> {
                &&& cleaned_up(view).hosted.dom().contains(session)
                &&& cleaned_up(view).hosted[session] == view.hosted[session]
            },
{
    assert forall|label: Seq<char>| #[trigger]
        view.routes.dom().contains(label) && !is_removable(view, label) implies !torn_down(
        view,
    ).contains(view.routes[label].session@) by {
        if torn_down(view).contains(view.routes[label].session@) {
            let other = choose|other: Seq<char>| #[trigger]
                view.routes.dom().contains(other) && is_removable(view, other)
                    && view.routes[other].session@ == view.routes[label].session@;
            assert(view.routes[other].session == view.routes[label].session);
            assert(other == label);
        }
    }
}

/// The sessions that a cleanup can tear down of the first windows in a list.
spec fn torn_down_among(view: RegistryView, labels: Seq<String>, count: int) -> Set<u128> {
    Set::new(
        |session: u128|
            exists|place: int|
                0 <= place < count && is_removable(view, (#[trigger] labels[place])@)
                    && view.routes[labels[place]@].session@ == session,
    )
}

proof fn lemma_one_more_torn_down(view: RegistryView, labels: Seq<String>, index: int)
    requires
        0 <= index < labels.len(),
    ensures
        torn_down_among(view, labels, index + 1) == if is_removable(view, labels[index]@) {
            torn_down_among(view, labels, index).insert(view.routes[labels[index]@].session@)
        } else {
            torn_down_among(view, labels, index)
        },
{
    let more = if is_removable(view, labels[index]@) {
        torn_down_among(view, labels, index).insert(view.routes[labels[index]@].session@)
    } else {
        torn_down_among(view, labels, index)
    };
    assert forall|session: u128|
        torn_down_among(view, labels, index + 1).contains(session) == more.contains(session) by {
        if more.contains(session) && torn_down_among(view, labels, index).contains(session) {
            let place = choose|place: int|
                0 <= place < index && is_removable(view, (#[trigger] labels[place])@)
                    && view.routes[labels[place]@].session@ == session;
            assert(is_removable(view, labels[place]@));
        }
    }
    assert(torn_down_among(view, labels, index + 1) =~= more);
}

proof fn lemma_all_torn_down(view: RegistryView, labels: Seq<String>)
    requires
        forall|place: int|
            0 <= place < labels.len() ==> view.routes.dom().contains((#[trigger] labels[place])@),
        forall|label: Seq<char>| #[trigger]
            view.routes.dom().contains(label) ==> exists|place: int|
                0 <= place < labels.len() && (#[trigger] labels[place])@ == label,
    ensures
        torn_down_among(view, labels, labels.len() as int) == torn_down(view),
{
    assert forall|session: u128|
        torn_down(view).contains(session) implies torn_down_among(
        view,
        labels,
        labels.len() as int,
    ).contains(session) by {
        let label = choose|label: Seq<char>| #[trigger]
            view.routes.dom().contains(label) && is_removable(view, label)
                && view.routes[label].session@ == session;
        let place = choose|place: int|
            0 <= place < labels.len() && (#[trigger] labels[place])@ == label;
        assert(is_removable(view, labels[place]@));
    }
    assert(torn_down_among(view, labels, labels.len() as int) =~= torn_down(view));
}

proof fn lemma_destroyed(view: RegistryView, label: Seq<char>)
    requires
        is_consistent(view),
        view.routes.dom().contains(label),
    ensures
        ({
            let after = window_destroyed(view, None, label).0;
            &&& is_consistent(after)
            &&& after.routes == if is_removable(view, label) {
                view.routes.remove(label)
            } else {
                view.routes
            }
            &&& after.hosted == if is_removable(view, label) {
                view.hosted.remove(view.routes[label].session@)
            } else {
                view.hosted
            }
            &&& forall|other: Seq<char>| #[trigger]
                after.routes.dom().contains(other) ==> is_removable(after, other) == is_removable(
                    view,
                    other,
                )
            &&& forall|left: Option<ErrorReport>|
                (#[trigger] window_destroyed(view, left, label)) == (
                    after,
                    if is_removable(view, label) {
                        left
                    } else {
                        Some(invalid_transition_report())
                    },
                )
        }),
{
    law_labels_stand_for_active_generations(
        view,
        tauri_operations(),
        label,
        view.routes[label].session,
        view.routes[label].generation,
    );
    assert(view.routes.dom().contains(label));
    let session = view.routes[label].session;
    assert forall|other: Seq<char>| view.routes.dom().contains(other) && other != label implies (
    #[trigger] view.routes[other]).session@ != session@ by {
        assert(view.routes.dom().contains(other) && view.routes.dom().contains(label));
        assert(view.routes[other].session != session);
    }
}

spec fn is_listed(windows: Seq<WindowDiagnostics>, label: Seq<char>) -> bool {
    exists|place: int| 0 <= place < windows.len() && (#[trigger] windows[place]).label@ == label
}

/// Whether a label belongs to a place of the listed windows.
spec fn belongs_at(windows: Seq<WindowDiagnostics>, label: Seq<char>, place: int) -> bool {
    &&& 0 <= place <= windows.len()
    &&& forall|other: int|
        0 <= other < place ==> !comes_before(
            encode_utf8(label),
            encode_utf8((#[trigger] windows[other]).label@),
        )
    &&& forall|other: int|
        place <= other < windows.len() ==> !comes_before(
            encode_utf8((#[trigger] windows[other]).label@),
            encode_utf8(label),
        )
}

fn find_window_place(windows: &Vec<WindowDiagnostics>, label: &str) -> (place: usize)
    requires
        in_label_order(windows@),
    ensures
        belongs_at(windows@, label@, place as int),
{
    let mut place: usize = windows.len();
    while place > 0
        invariant
            place <= windows@.len(),
            in_label_order(windows@),
            forall|other: int|
                place <= other < windows@.len() ==> !comes_before(
                    encode_utf8((#[trigger] windows@[other]).label@),
                    encode_utf8(label@),
                ),
        decreases place,
    {
        let listed = windows[place - 1].label.as_str();
        if !bytes_come_before(label.as_bytes(), listed.as_bytes()) {
            proof {
                assert forall|other: int| 0 <= other < place implies !comes_before(
                    encode_utf8(label@),
                    encode_utf8((#[trigger] windows@[other]).label@),
                ) by {
                    let last = windows@[place - 1];
                    if other < place - 1 {
                        assert(!comes_before(
                            encode_utf8(last.label@),
                            encode_utf8(windows@[other].label@),
                        ));
                        lemma_not_before_is_transitive(
                            encode_utf8(windows@[other].label@),
                            encode_utf8(last.label@),
                            encode_utf8(label@),
                        );
                    }
                }
            }
            return place;
        }
        proof {
            lemma_comes_before_is_asymmetric(
                encode_utf8(label@),
                encode_utf8(windows@[place - 1].label@),
            );
        }
        place -= 1;
    }
    place
}

proof fn lemma_window_inserted(
    windows: Seq<WindowDiagnostics>,
    window: WindowDiagnostics,
    place: int,
)
    requires
        in_label_order(windows),
        belongs_at(windows, window.label@, place),
        forall|other: int|
            0 <= other < windows.len() ==> (#[trigger] windows[other]).label@ != window.label@,
        forall|left: int, right: int|
            0 <= left < right < windows.len() ==> (#[trigger] windows[left]).label@ != (
            #[trigger] windows[right]).label@,
    ensures
        in_label_order(windows.insert(place, window)),
        forall|left: int, right: int|
            0 <= left < right < windows.insert(place, window).len() ==> (
            #[trigger] windows.insert(place, window)[left]).label@ != (
            #[trigger] windows.insert(place, window)[right]).label@,
{
    let after = windows.insert(place, window);
    assert forall|left: int, right: int| 0 <= left < right < after.len() implies {
        &&& (#[trigger] after[left]).label@ != (#[trigger] after[right]).label@
        &&& !comes_before(encode_utf8(after[right].label@), encode_utf8(after[left].label@))
    } by {
        let first = if left < place {
            left
        } else {
            left - 1
        };
        let second = if right < place {
            right
        } else {
            right - 1
        };
        if left != place {
            assert(after[left] == windows[first]);
        }
        if right != place {
            assert(after[right] == windows[second]);
        }
    }
}

/// A window is registered under every label of one to 128 bytes as any label is, and under no
/// other one.
pub proof fn law_windows_have_bounded_labels(
    view: RegistryView,
    label: Seq<char>,
    session: SessionId,
    generation: Generation,
)
    ensures
        ({
            let (registered, after) = window_registered(view, label, session, generation);
            let bounded = 0 < encode_utf8(label).len() <= 128;
            &&& registered is Ok <==> bounded && !view.routes.dom().contains(label)
                && !view.hosted.dom().contains(session@)
            &&& registered is Ok ==> after.routes[label] == RoutedSession { session, generation }
            &&& registered is Err ==> after == view
            &&& !bounded ==> registered is Err && registered->Err_0.code is InvalidRange
        }),
{
}

/// A window that is destroyed is gone with its session where that could be torn down; one that is
/// not known changes nothing, and nothing but a teardown that failed leaves a failure behind.
pub proof fn law_destroyed_windows_are_gone(
    view: RegistryView,
    left: Option<ErrorReport>,
    label: Seq<char>,
)
    requires
        is_consistent(view),
    ensures
        ({
            let (after, failure) = window_destroyed(view, left, label);
            let session = view.routes[label].session;
            &&& !view.routes.dom().contains(label) ==> after == view && failure == left
            &&& view.routes.dom().contains(label) && endpoint_expected(
                view.hosted[session@].state,
            ) ==> {
                &&& after.routes == view.routes.remove(label)
                &&& after.hosted == view.hosted.remove(session@)
                &&& failure == left
            }
            &&& view.routes.dom().contains(label) && !endpoint_expected(
                view.hosted[session@].state,
            ) ==> after == view && failure == Some(invalid_transition_report())
        }),
{
}

/// An application that gives up is told the failure, and one that goes on goes without an adapter.
pub proof fn law_applications_decide_over_failures(
    error: ErrorReport,
    decision: FallbackDecision,
    outcome: Result<Option<TauriAdapter>, ErrorReport>,
)
    requires
        call_ensures(TauriAdapter::after_failure, (error, decision), outcome),
    ensures
        decision is Abort <==> outcome is Err,
        outcome matches Err(told) ==> told == error,
        outcome matches Ok(adapter) ==> adapter is None,
{
}

} // verus!
