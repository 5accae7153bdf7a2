//! Reference `AppKit` control-plane adapter with explicit capability diagnostics.

use vstd::prelude::*;

use crate::domain::capabilities::{direct_topology, TransportTopology};
use crate::domain::error::ErrorReport;
use crate::domain::types::{Generation, SessionId};
use crate::macos::artifact::{artifact_rejection, ArtifactFiles, BuildIdentity, MacosArtifact};
use crate::macos::host::{
    host_attached, host_registered, host_replaced, plan_rejection, HostedSession, MacosHost,
    WebViewPlan,
};
use crate::macos::spi::{
    incompatible_report, offers_required, outcome_of, CompatibilityOutcome, MacosSpi, SpiProbe,
};

verus! {

/// User-visible adapter status. Unsupported configurations never become silent no-ops.
#[derive(Clone, Debug, PartialEq, Eq)]
pub enum AppKitStatus {
    /// SPI, bundle, and topology validation completed.
    Ready,
    /// Startup failed with a structured public error.
    Failed(ErrorReport),
}

/// The injected bundle of a host, as it was found on disk.
pub struct BundleInspection<'a> {
    /// Path of the bundle.
    pub bundle: String,
    /// Path of its executable.
    pub executable: String,
    /// What was found of it.
    pub files: ArtifactFiles<'a>,
    /// The build that it has to belong to.
    pub build: BuildIdentity<'a>,
}

/// Why no host comes of a system, a bundle and initialization data, if none does.
pub open spec fn startup_rejection<Probe: SpiProbe>(
    probe: Probe,
    files: ArtifactFiles<'_>,
    build: BuildIdentity<'_>,
    initialization: Seq<u8>,
) -> Option<ErrorReport> {
    match outcome_of(
        probe.probed_version(),
        probe.probed_build(),
        probe.probed_architecture(),
        offers_required(probe),
    ) {
        CompatibilityOutcome::Incompatible(reason) => Some(incompatible_report(reason)),
        CompatibilityOutcome::Runnable(_) => match artifact_rejection(files, build) {
            Some(error) => Some(error),
            None => plan_rejection(initialization, direct_topology()),
        },
    }
}

/// Whether an access token tells the version, the architecture and the support that a probe found.
pub open spec fn is_token_of<Probe: SpiProbe>(spi: MacosSpi, probe: Probe) -> bool {
    &&& probe.probed_version() == Some(spi.spec_version())
    &&& probe.probed_architecture() == spi.spec_architecture()
    &&& outcome_of(
        probe.probed_version(),
        probe.probed_build(),
        probe.probed_architecture(),
        offers_required(probe),
    ) == CompatibilityOutcome::Runnable(spi.spec_support())
}

/// Whether a host stands before any `WebView`, with the plan for them.
pub open spec fn is_planned<Probe: SpiProbe>(
    host: MacosHost,
    probe: Probe,
    bundle: Seq<char>,
    initialization: Seq<u8>,
) -> bool {
    &&& host@ == Map::<u128, HostedSession>::empty()
    &&& is_token_of(host.spec_plan().spec_spi(), probe)
    &&& host.spec_plan().spec_bundle() == bundle
    &&& host.spec_plan().spec_initialization() == initialization
}

/// Probes SPI, inspects the bundle, and plans the configuration of every `WebView`.
///
/// Fails closed for an unknown system, missing SPI, an invalid artifact, or invalid initialization
/// data.
pub(crate) fn configure_host<Probe: SpiProbe>(
    probe: &Probe,
    inspection: BundleInspection<'_>,
    initialization: &[u8],
) -> (configured: Result<MacosHost, ErrorReport>)
    ensures
        match startup_rejection(
            *probe,
            inspection.files,
            inspection.build,
            initialization@,
        ) {
            Some(error) => configured is Err && configured->Err_0 == error,
            None => configured matches Ok(host) && is_planned(
                host,
                *probe,
                inspection.bundle@,
                initialization@,
            ),
        },
{
    let spi = MacosSpi::probe(probe)?;
    let artifact = MacosArtifact::inspect(
        inspection.bundle,
        inspection.executable,
        inspection.files,
        inspection.build,
    )?;
    let plan = WebViewPlan::new(spi, artifact, initialization, TransportTopology::direct())?;
    Ok(MacosHost::new(plan))
}

/// Reference host owner.
pub struct AppKitAdapter {
    host: MacosHost,
}

impl AppKitAdapter {
    /// The control-plane host.
    pub closed spec fn spec_host(self) -> MacosHost {
        self.host
    }

    /// Probes SPI, inspects the bundle, and produces a pre-WebView configuration.
    ///
    /// Fails closed for an unknown OS/build, missing SPI, invalid artifact, or invalid bootstrap.
    pub fn configure<Probe: SpiProbe>(
        probe: &Probe,
        inspection: BundleInspection<'_>,
        initialization: &[u8],
    ) -> (configured: Result<Self, ErrorReport>)
        ensures
            match startup_rejection(
                *probe,
                inspection.files,
                inspection.build,
                initialization@,
            ) {
                Some(error) => configured is Err && configured->Err_0 == error,
                None => configured matches Ok(adapter) && is_planned(
                    adapter.spec_host(),
                    *probe,
                    inspection.bundle@,
                    initialization@,
                ),
            },
    {
        let host = configure_host(probe, inspection, initialization)?;
        Ok(AppKitAdapter { host })
    }

    /// Registers a session that owns peer and renderer bootstrap resources.
    ///
    /// Duplicate session identities are rejected.
    pub fn register_session(&mut self, session: SessionId, generation: Generation) -> (registered:
        Result<(), ErrorReport>)
        ensures
            final(self).spec_host().spec_plan() == old(self).spec_host().spec_plan(),
            (registered, final(self).spec_host()@) == host_registered(
                old(self).spec_host()@,
                session,
                generation,
            ),
    {
        self.host.register(session, generation)
    }

    /// Routes successful injected-bundle attachment into the session lifecycle.
    ///
    /// Unknown, stale, and duplicate renderer attachment events are rejected.
    pub fn renderer_attached(&mut self, session: SessionId, generation: Generation) -> (attached:
        Result<(), ErrorReport>)
        ensures
            final(self).spec_host().spec_plan() == old(self).spec_host().spec_plan(),
            (attached, final(self).spec_host()@) == host_attached(
                old(self).spec_host()@,
                session,
                generation,
            ),
    {
        self.host.renderer_attached(session, generation)
    }

    /// Routes a renderer reload or `WebContent` process exit to generation replacement.
    ///
    /// Unknown and stale session generations are rejected.
    pub fn renderer_replaced(&mut self, session: SessionId, generation: Generation) -> (replaced:
        Result<Generation, ErrorReport>)
        ensures
            final(self).spec_host().spec_plan() == old(self).spec_host().spec_plan(),
            (replaced, final(self).spec_host()@) == host_replaced(
                old(self).spec_host()@,
                session,
                generation,
            ),
    {
        self.host.replace_renderer(session, generation)
    }

    /// Exposes only the control-plane host for `WebView` construction.
    pub fn host(&self) -> (host: &MacosHost)
        ensures
            *host == self.spec_host(),
    {
        &self.host
    }
}

/// A host starts exactly on a system that is runnable, with a bundle of its build and with
/// initialization data within their bounds; an unknown system is told before anything else, and a
/// foreign bundle before the data.
pub proof fn law_hosts_start_on_runnable_systems<Probe: SpiProbe>(
    probe: Probe,
    files: ArtifactFiles<'_>,
    build: BuildIdentity<'_>,
    initialization: Seq<u8>,
)
    ensures
        ({
            let outcome = outcome_of(
                probe.probed_version(),
                probe.probed_build(),
                probe.probed_architecture(),
                offers_required(probe),
            );
            let rejection = startup_rejection(probe, files, build, initialization);
            &&& rejection is None <==> outcome is Runnable && artifact_rejection(
                files,
                build,
            ) is None && 0 < initialization.len() <= 16384
            &&& outcome matches CompatibilityOutcome::Incompatible(reason) ==> rejection == Some(
                incompatible_report(reason),
            )
            &&& outcome is Runnable && artifact_rejection(files, build) is Some ==> rejection
                == artifact_rejection(files, build)
        }),
{
}

} // verus!
