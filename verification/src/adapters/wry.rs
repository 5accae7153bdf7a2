//! Wry control-plane integration for the production macOS `WebKit` transport.

use vstd::prelude::*;
use vstd::utf8::encode_utf8;

use crate::adapters::appkit::{configure_host, is_planned, startup_rejection, BundleInspection};
use crate::adapters::registry::{
    adapter_error, adapter_report, label_attached, label_registered, label_removed, label_replaced,
    HostRegistry, RegistryOperations, RegistryView, RoutedSession,
};
use crate::domain::error::{ErrorCode, ErrorReport};
use crate::domain::types::{Generation, SessionId};
use crate::facade::session::Session;
use crate::macos::host::{plan_applied, HostedSession, MacosHost, WebViewConfigurator};
use crate::macos::spi::SpiProbe;

verus! {

/// Most bytes of a label.
pub const MAX_LABEL_LENGTH: usize = 128;

/// Whether a text may be a label.
pub open spec fn valid_label(text: Seq<char>) -> bool {
    0 < encode_utf8(text).len() <= MAX_LABEL_LENGTH
}

/// Decides whether a text may be a label.
pub(crate) fn is_valid_label(text: &str) -> (valid: bool)
    ensures
        valid == valid_label(text@),
{
    let length: usize = text.as_bytes().len();
    0 < length && length <= MAX_LABEL_LENGTH
}

/// Stable application identity for one Wry webview.
#[derive(Clone, Debug, PartialEq, Eq, Hash)]
pub struct WebViewId {
    value: String,
}

impl View for WebViewId {
    type V = Seq<char>;

    closed spec fn view(&self) -> Seq<char> {
        self.value@
    }
}

impl WebViewId {
    /// Validates an application-provided webview ID.
    ///
    /// Empty IDs and IDs longer than 128 bytes are rejected.
    pub fn new(value: String) -> (created: Result<Self, ErrorReport>)
        ensures
            match created {
                Ok(webview) => valid_label(value@) && webview@ == value@,
                Err(error) => !valid_label(value@) && error == adapter_report(
                    ErrorCode::InvalidRange,
                    "Wry webview identity",
                ),
            },
    {
        if !is_valid_label(value.as_str()) {
            return Err(adapter_error(ErrorCode::InvalidRange, "Wry webview identity"));
        }
        Ok(WebViewId { value })
    }

    /// Returns the application-provided ID.
    pub fn as_str(&self) -> (value: &str)
        ensures
            value@ == self@,
    {
        self.value.as_str()
    }
}

/// Names of the operations that this adapter reports.
pub open spec fn wry_operations() -> RegistryOperations {
    RegistryOperations {
        unknown: "unknown Wry webview",
        stale: "stale Wry webview event",
        duplicate: "duplicate Wry webview",
    }
}

fn operations() -> (names: RegistryOperations)
    ensures
        names == wry_operations(),
{
    RegistryOperations {
        unknown: "unknown Wry webview",
        stale: "stale Wry webview event",
        duplicate: "duplicate Wry webview",
    }
}

/// Wry lifecycle bridge. It owns no event loop, thread, process, or payload path.
pub struct WryAdapter {
    registry: HostRegistry,
}

impl View for WryAdapter {
    type V = RegistryView;

    closed spec fn view(&self) -> RegistryView {
        self.registry@
    }
}

impl WryAdapter {
    /// The control-plane host.
    pub closed spec fn spec_host(self) -> MacosHost {
        self.registry.spec_host()
    }

    /// The failure that a callback left behind.
    pub closed spec fn left_failure(self) -> Option<ErrorReport> {
        self.registry.left_failure()
    }

    /// Probes `WebKit` SPI and prepares a configuration plan before any webview is built.
    ///
    /// Fails closed for unsupported `WebKit`, an invalid bundle, or invalid initialization data.
    pub fn configure<Probe: SpiProbe>(
        probe: &Probe,
        inspection: BundleInspection<'_>,
        initialization: &[u8],
    ) -> (configured: Result<Self, ErrorReport>)
        ensures
            match startup_rejection(
                *probe,
                inspection.files,
                inspection.build,
                initialization@,
            ) {
                Some(error) => configured is Err && configured->Err_0 == error,
                None => {
                    &&& configured matches Ok(adapter)
                    &&& is_planned(
                        adapter.spec_host(),
                        *probe,
                        inspection.bundle@,
                        initialization@,
                    )
                    &&& adapter@.routes == Map::<Seq<char>, RoutedSession>::empty()
                    &&& adapter@.hosted == Map::<u128, HostedSession>::empty()
                    &&& adapter.left_failure() is None
                },
            },
    {
        let host = configure_host(probe, inspection, initialization)?;
        Ok(WryAdapter { registry: HostRegistry::new(host) })
    }

    /// Applies the process-pool settings to an existing `WebKit` configuration.
    ///
    /// Existing public Wry builder options remain owned by Wry; this method only applies the
    /// injected-bundle and initialization settings required by the host plan. Configuration
    /// failures are passed on before a webview is registered.
    pub fn configure_webview<Configurator: WebViewConfigurator>(
        &self,
        configurator: &mut Configurator,
    ) -> (applied: Result<(), ErrorReport>)
        ensures
            plan_applied(
                self.spec_host().spec_plan().spec_bundle(),
                self.spec_host().spec_plan().spec_initialization(),
                old(configurator).configured(),
                final(configurator).configured(),
                applied,
            ),
    {
        self.registry.host().plan().apply(configurator)
    }

    /// Maps a Wry webview ID to one active session generation.
    ///
    /// Duplicate webview IDs and duplicate session identities are rejected.
    pub fn register(&mut self, webview: WebViewId, session: SessionId, generation: Generation) -> (
        registered: Result<(), ErrorReport>)
        ensures
            final(self).left_failure() == old(self).left_failure(),
            final(self).spec_host().spec_plan() == old(self).spec_host().spec_plan(),
            (registered, final(self)@) == label_registered(
                old(self)@,
                wry_operations(),
                webview@,
                session,
                generation,
            ),
    {
        self.registry.register(operations(), webview.value, session, generation)
    }

    /// Maps a Wry webview to a session allocated by the public facade.
    ///
    /// Duplicate webview IDs and duplicate session identities are rejected.
    pub fn register_session(&mut self, webview: WebViewId, session: &Session) -> (registered:
        Result<(), ErrorReport>)
        ensures
            final(self).left_failure() == old(self).left_failure(),
            final(self).spec_host().spec_plan() == old(self).spec_host().spec_plan(),
            (registered, final(self)@) == label_registered(
                old(self)@,
                wry_operations(),
                webview@,
                session.spec_handle().session_id,
                session.spec_handle().generation,
            ),
    {
        self.register(webview, session.id(), session.generation())
    }

    /// Routes Wry's successful page attachment event.
    ///
    /// Unknown or stale webview events are rejected.
    pub fn renderer_attached(&mut self, webview: &WebViewId, generation: Generation) -> (attached:
        Result<(), ErrorReport>)
        ensures
            final(self).left_failure() == old(self).left_failure(),
            final(self).spec_host().spec_plan() == old(self).spec_host().spec_plan(),
            (attached, final(self)@) == label_attached(
                old(self)@,
                wry_operations(),
                webview@,
                generation,
            ),
    {
        self.registry.renderer_attached(operations(), webview.as_str(), generation)
    }

    /// Replaces the generation after Wry reports `WebContent` termination.
    ///
    /// Unknown or stale webview events are rejected.
    pub fn renderer_terminated(&mut self, webview: &WebViewId, generation: Generation) -> (replaced:
        Result<Generation, ErrorReport>)
        ensures
            final(self).left_failure() == old(self).left_failure(),
            final(self).spec_host().spec_plan() == old(self).spec_host().spec_plan(),
            (replaced, final(self)@) == label_replaced(
                old(self)@,
                wry_operations(),
                webview@,
                generation,
            ),
    {
        self.registry.replace(operations(), webview.as_str(), generation)
    }

    /// Routes the termination of whatever generation a webview has, from a callback that cannot
    /// return a failure: it is left behind instead.
    pub fn web_content_terminated(&mut self, webview: &WebViewId)
        ensures
            final(self).spec_host().spec_plan() == old(self).spec_host().spec_plan(),
            ({
                let (replaced, after) = label_replaced(
                    old(self)@,
                    wry_operations(),
                    webview@,
                    old(self)@.routes[webview@].generation,
                );
                &&& final(self)@ == after
                &&& final(self).left_failure() == match replaced {
                    Ok(_) => old(self).left_failure(),
                    Err(error) => Some(error),
                }
            }),
    {
        match self.registry.replace_current(operations(), webview.as_str()) {
            Ok(_) => {},
            Err(error) => {
                self.registry.record_callback_failure(error);
            },
        }
    }

    /// Removes the Wry mapping and closes its host-side generation.
    ///
    /// Unknown or stale webview events are rejected.
    pub fn remove(&mut self, webview: &WebViewId, generation: Generation) -> (removed: Result<
        (),
        ErrorReport,
    >)
        ensures
            final(self).left_failure() == old(self).left_failure(),
            final(self).spec_host().spec_plan() == old(self).spec_host().spec_plan(),
            (removed, final(self)@) == label_removed(
                old(self)@,
                wry_operations(),
                webview@,
                generation,
            ),
    {
        self.registry.remove(operations(), webview.as_str(), generation)
    }

    /// Returns the current generation mapped to a Wry webview.
    pub fn generation(&self, webview: &WebViewId) -> (generation: Option<Generation>)
        ensures
            generation == if self@.routes.dom().contains(webview@) {
                Some(self@.routes[webview@].generation)
            } else {
                None
            },
    {
        self.registry.generation(webview.as_str())
    }

    /// Leaves the failure of a callback that cannot return one.
    pub fn record_callback_failure(&mut self, error: ErrorReport)
        ensures
            final(self)@ == old(self)@,
            final(self).spec_host().spec_plan() == old(self).spec_host().spec_plan(),
            final(self).left_failure() == Some(error),
    {
        self.registry.record_callback_failure(error);
    }

    /// Returns the last lifecycle failure captured by a callback that cannot return an error.
    pub fn take_callback_failure(&mut self) -> (failure: Option<ErrorReport>)
        ensures
            final(self)@ == old(self)@,
            final(self).spec_host().spec_plan() == old(self).spec_host().spec_plan(),
            final(self).left_failure() is None,
            failure == old(self).left_failure(),
    {
        self.registry.take_callback_failure()
    }
}

/// Every text of one to 128 bytes is an identity of a webview, and no other one is.
pub proof fn law_webviews_have_bounded_identities(
    value: String,
    created: Result<WebViewId, ErrorReport>,
)
    requires
        call_ensures(WebViewId::new, (value,), created),
    ensures
        created is Ok <==> 0 < encode_utf8(value@).len() <= 128,
        created matches Ok(webview) ==> webview@ == value@,
        created matches Err(error) ==> error.code is InvalidRange,
{
}

} // verus!
