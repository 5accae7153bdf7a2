use std::collections::HashMap;

use nwipc::bootstrap::renderer::{RendererAttachment, RendererBootstrap, RendererProviders};
use nwipc::bootstrap::schema::{
    BootstrapEnvelope, BootstrapSecret, EndpointRole, OpaqueDescriptor, ProtocolRange, ProviderKind,
};
use nwipc::domain::capabilities::{
    TransportCapabilities, TransportTopology, AUTHENTICATED_ENCRYPTION,
};
use nwipc::domain::error::{ErrorCode, ErrorReport};
use nwipc::domain::state::{SessionEvent, SessionState};
use nwipc::domain::types::{DocumentGeneration, Generation, SessionId};
use nwipc::macos::artifact::{
    current_manifest, validate_manifest, ArtifactFiles, BuildIdentity, MacosArtifact,
    EXECUTABLE_METADATA,
};
use nwipc::macos::bundle::{BindingInstaller, MacosBundle};
use nwipc::macos::bundle_api::{
    BundleEntrypoint, BundleEvent, FrameContext, FrameId, InitializationData, PageId, ScriptWorld,
};
use nwipc::macos::bundle_shim::{
    begin_echo, continue_echo, notification_is_allowed, EchoState, EchoStep, EntrypointSlot,
};
use nwipc::macos::configuration::{
    decode_memory, decode_signals, encode_memory, encode_signals, plan_endpoint,
    production_capabilities, ChannelConfiguration, FaultInjection, MacosRendererTransportFactory,
    NotificationFault, NotificationPosts, WriterCrashPoint,
};
use nwipc::macos::host::{HostedSession, MacosHost, WebViewConfigurator, WebViewPlan};
use nwipc::macos::spi::{
    minimum_x86_64_os, parse_os_version, required_spi, CompatibilityOutcome, IncompatibilityReason,
    MacosArchitecture, MacosSpi, MacosSupport, OsVersion, SpiEntry, SpiProbe,
};
use nwipc::memory::iosurface::IoSurfaceDescriptor;

const BUILD: BuildIdentity<'static> = BuildIdentity {
    bundle_version: "0.1.0",
    architecture: "aarch64",
};

#[derive(Clone, Copy)]
struct Probe {
    version: Option<OsVersion>,
    build: Option<&'static str>,
    architecture: MacosArchitecture,
    missing: Option<&'static str>,
}

impl SpiProbe for Probe {
    fn os_version(&self) -> Option<OsVersion> {
        self.version
    }
    fn os_build(&self) -> Option<String> {
        self.build.map(str::to_owned)
    }
    fn architecture(&self) -> MacosArchitecture {
        self.architecture
    }
    fn has_entry(&self, entry: SpiEntry) -> bool {
        self.missing != Some(entry.name)
    }
}

fn supported() -> Probe {
    Probe {
        version: Some(OsVersion::new(26, 2, 0)),
        build: Some("25C56"),
        architecture: MacosArchitecture::Arm64,
        missing: None,
    }
}

#[test]
fn exact_e2e_system_is_verified() {
    let verified = supported();
    let spi = MacosSpi::probe(&verified).ok().unwrap();
    assert!(spi.version() == OsVersion::new(26, 2, 0));
    assert!(spi.architecture() == MacosArchitecture::Arm64);
    assert!(spi.support() == MacosSupport::Verified);
}

#[test]
fn unverified_systems_with_required_spi_run_best_effort() {
    for probe in [
        Probe {
            version: Some(OsVersion::new(26, 2, 1)),
            build: Some("25C57"),
            architecture: MacosArchitecture::Arm64,
            missing: None,
        },
        Probe {
            version: Some(OsVersion::new(27, 0, 0)),
            build: Some("26A1"),
            architecture: MacosArchitecture::Arm64,
            missing: None,
        },
        Probe {
            version: Some(minimum_x86_64_os()),
            build: None,
            architecture: MacosArchitecture::X86_64,
            missing: None,
        },
    ] {
        assert!(MacosSpi::probe(&probe).ok().unwrap().support() == MacosSupport::BestEffort);
    }
}

#[test]
fn missing_required_spi_is_incompatible() {
    let missing = Probe {
        missing: Some(required_spi()[1].name),
        ..supported()
    };
    assert!(
        MacosSpi::assess(&missing).outcome()
            == CompatibilityOutcome::Incompatible(IncompatibilityReason::MissingRequiredSpi)
    );
    assert_eq!(
        MacosSpi::probe(&missing).err().unwrap().code(),
        ErrorCode::Unsupported
    );
}

#[test]
fn deployment_target_and_architecture_boundaries_are_incompatible() {
    let too_old_x86 = Probe {
        version: Some(OsVersion::new(10, 11, 6)),
        build: None,
        architecture: MacosArchitecture::X86_64,
        missing: None,
    };
    assert!(
        MacosSpi::assess(&too_old_x86).outcome()
            == CompatibilityOutcome::Incompatible(IncompatibilityReason::BelowDeploymentTarget)
    );
    let too_old_arm = Probe {
        version: Some(OsVersion::new(10, 15, 7)),
        architecture: MacosArchitecture::Arm64,
        ..too_old_x86
    };
    assert!(
        MacosSpi::assess(&too_old_arm).outcome()
            == CompatibilityOutcome::Incompatible(IncompatibilityReason::BelowDeploymentTarget)
    );
    let other_architecture = Probe {
        version: Some(OsVersion::new(26, 2, 0)),
        architecture: MacosArchitecture::Other,
        ..too_old_x86
    };
    assert!(
        MacosSpi::assess(&other_architecture).outcome()
            == CompatibilityOutcome::Incompatible(IncompatibilityReason::UnsupportedArchitecture)
    );
}

#[test]
fn unknown_os_version_is_incompatible() {
    let probe = Probe {
        version: None,
        build: None,
        architecture: MacosArchitecture::Arm64,
        missing: None,
    };
    assert!(
        MacosSpi::assess(&probe).outcome()
            == CompatibilityOutcome::Incompatible(IncompatibilityReason::UnknownOsVersion)
    );
}

#[test]
fn os_versions_are_parsed_by_their_components() {
    assert!(parse_os_version("26.2") == Some(OsVersion::new(26, 2, 0)));
    assert!(parse_os_version("10.15.7") == Some(OsVersion::new(10, 15, 7)));
    assert!(parse_os_version("").is_none());
    assert!(parse_os_version("26.x").is_none());
}

#[test]
fn current_manifest_round_trips() {
    validate_manifest(&current_manifest(BUILD), BUILD).unwrap();
}

#[test]
fn mismatch_and_unknown_fields_are_rejected() {
    assert!(validate_manifest(
        &current_manifest(BUILD).replace("protocolVersion=1", "protocolVersion=2"),
        BUILD
    )
    .is_err());
    assert!(validate_manifest(&(current_manifest(BUILD) + "optional=yes\n"), BUILD).is_err());
}

#[test]
fn artifacts_report_what_is_missing() {
    let manifest = current_manifest(BUILD);
    let inspect = |complete: bool, plist: Option<&str>, manifest: Option<&str>| {
        MacosArtifact::inspect(
            "bundle".into(),
            "bundle/executable".into(),
            ArtifactFiles {
                complete,
                plist,
                manifest,
            },
            BUILD,
        )
        .map(|artifact| artifact.bundle_path().to_owned())
        .map_err(|error| error.context())
    };
    assert_eq!(
        inspect(false, None, None),
        Err("injected bundle layout")
    );
    assert_eq!(inspect(true, None, None), Err("injected bundle plist"));
    assert_eq!(
        inspect(true, Some("<plist/>"), None),
        Err("injected bundle executable metadata")
    );
    assert_eq!(
        inspect(true, Some(EXECUTABLE_METADATA), None),
        Err("injected bundle manifest")
    );
    assert_eq!(
        inspect(true, Some(EXECUTABLE_METADATA), Some(&manifest)),
        Ok("bundle".to_owned())
    );
}

#[test]
fn only_main_normal_world_is_eligible() {
    let page = PageId::new(1).unwrap();
    let frame = FrameId::new(2).unwrap();
    for (main, world, expected) in [
        (true, ScriptWorld::Normal, true),
        (false, ScriptWorld::Normal, false),
        (true, ScriptWorld::Isolated, false),
    ] {
        assert_eq!(
            FrameContext {
                page,
                frame,
                is_main_frame: main,
                world
            }
            .binding_is_allowed(),
            expected
        );
    }
}

#[test]
fn initialization_data_is_bounded_and_redacted() {
    assert!(InitializationData::copy_from(&[]).is_err());
    let data = InitializationData::copy_from(b"secret").ok().unwrap();
    assert!(!data.to_text().contains("secret"));
    assert_eq!(data.as_bytes(), b"secret");
    assert!(InitializationData::copy_from(&vec![0; 16385]).is_err());
}

#[derive(Default)]
struct Installer {
    installed: usize,
    invalidated: usize,
}

impl BindingInstaller for Installer {
    fn install(&mut self, _: FrameContext, _: DocumentGeneration) -> Result<(), ErrorReport> {
        self.installed += 1;
        Ok(())
    }
    fn invalidate(&mut self, _: PageId, _: DocumentGeneration) {
        self.invalidated += 1;
    }
}

struct Providers;

impl RendererProviders for Providers {
    type Memory = ();
    type Signal = ();
    fn attach_memory(&mut self, _: &OpaqueDescriptor) -> Result<(), ErrorReport> {
        Ok(())
    }
    fn attach_signal(&mut self, _: &OpaqueDescriptor) -> Result<(), ErrorReport> {
        Ok(())
    }
}

fn attachment() -> RendererAttachment<(), ()> {
    let envelope = BootstrapEnvelope::new(
        SessionId::from_u128(1).unwrap(),
        Generation::new(1).unwrap(),
        ProtocolRange::new(1, 1).ok().unwrap(),
        EndpointRole::Renderer,
        OpaqueDescriptor::new(ProviderKind::IoSurface, vec![1]).ok().unwrap(),
        OpaqueDescriptor::new(ProviderKind::Hybrid, vec![2]).ok().unwrap(),
        BootstrapSecret::new(vec![3]).ok().unwrap(),
    )
    .ok()
    .unwrap();
    RendererBootstrap::attach(
        envelope,
        SessionId::from_u128(1).unwrap(),
        Generation::new(1).unwrap(),
        1,
        &mut Providers,
    )
    .ok()
    .unwrap()
}

#[test]
fn binding_requires_initialization_and_attachment() {
    let page = PageId::new(1).unwrap();
    let frame = FrameId::new(2).unwrap();
    let context = FrameContext {
        page,
        frame,
        is_main_frame: true,
        world: ScriptWorld::Normal,
    };
    let mut bundle = MacosBundle::new(Installer::default());
    bundle.handle(BundleEvent::PageCreated(page)).unwrap();
    assert!(bundle
        .handle(BundleEvent::WindowObjectCleared(context))
        .is_err());
    bundle.handle(BundleEvent::Initialize(b"plist")).unwrap();
    bundle.activate(attachment());
    bundle
        .handle(BundleEvent::WindowObjectCleared(context))
        .unwrap();
    assert!(bundle.binding_is_installed(page));
}

#[test]
fn subframes_are_ignored_and_reload_invalidates_old_document() {
    let page = PageId::new(1).unwrap();
    let frame = FrameId::new(2).unwrap();
    let mut bundle = MacosBundle::new(Installer::default());
    bundle.handle(BundleEvent::Initialize(b"plist")).unwrap();
    bundle.activate(attachment());
    bundle.handle(BundleEvent::PageCreated(page)).unwrap();
    bundle
        .handle(BundleEvent::WindowObjectCleared(FrameContext {
            page,
            frame,
            is_main_frame: false,
            world: ScriptWorld::Normal,
        }))
        .unwrap();
    assert!(!bundle.binding_is_installed(page));
    bundle
        .handle(BundleEvent::WindowObjectCleared(FrameContext {
            page,
            frame,
            is_main_frame: true,
            world: ScriptWorld::Normal,
        }))
        .unwrap();
    bundle
        .handle(BundleEvent::DocumentInvalidated(page))
        .unwrap();
    assert!(!bundle.binding_is_installed(page));
}

#[test]
fn destroyed_pages_are_not_created_again() {
    let page = PageId::new(4).unwrap();
    let mut bundle: MacosBundle<Installer, (), ()> = MacosBundle::new(Installer::default());
    bundle.handle(BundleEvent::PageCreated(page)).unwrap();
    assert!(bundle.handle(BundleEvent::PageCreated(page)).is_err());
    bundle.handle(BundleEvent::PageDestroyed(page)).unwrap();
    assert!(bundle.handle(BundleEvent::PageCreated(page)).is_err());
}

#[test]
fn entrypoint_slots_report_missing_duplicate_and_panicking_entrypoints() {
    let mut slot: EntrypointSlot<u8> = EntrypointSlot::new();
    assert_eq!(
        slot.begin().err().unwrap().context(),
        "missing bundle entrypoint"
    );
    slot.install_entrypoint(1).ok().unwrap();
    assert_eq!(
        slot.install_entrypoint(2).err().unwrap().context(),
        "duplicate bundle entrypoint"
    );
    let entrypoint = slot.begin().ok().unwrap();
    assert!(slot.finish(entrypoint, Some(Ok(()))).is_ok());
    assert!(!slot.initialization_failed());
    let entrypoint = slot.begin().ok().unwrap();
    assert_eq!(
        slot.finish(entrypoint, None).err().unwrap().context(),
        "bundle callback panic"
    );
    assert!(slot.initialization_failed());
}

#[test]
fn notifications_stay_under_their_prefix() {
    assert!(notification_is_allowed("dev.nwipc.run", "dev.nwipc."));
    assert!(!notification_is_allowed("dev.other", "dev.nwipc."));
    assert!(!notification_is_allowed(
        &format!("dev.nwipc.{}", "x".repeat(119)),
        "dev.nwipc."
    ));
}

#[test]
fn replacement_rejects_old_generation() {
    let mut sessions = HashMap::new();
    let session = SessionId::from_u128(1).unwrap();
    sessions.insert(
        session,
        HostedSession {
            generation: Generation::new(4).unwrap(),
            state: SessionState::WaitingForRenderer,
        },
    );
    let hosted = sessions.get_mut(&session).unwrap();
    hosted.state = hosted
        .state
        .transition(SessionEvent::RendererReady)
        .unwrap();
    hosted.state = hosted.state.transition(SessionEvent::Disconnect).unwrap();
    hosted.state = hosted.state.transition(SessionEvent::Close).unwrap();
    hosted.generation = hosted.generation.checked_next().unwrap();
    assert_eq!(hosted.generation.get(), 5);
}

#[test]
fn unregister_closes_and_removes_generation() {
    let session = SessionId::from_u128(9).unwrap();
    let generation = Generation::new(2).unwrap();
    let mut sessions = HashMap::new();
    sessions.insert(
        session,
        HostedSession {
            generation,
            state: SessionState::WaitingForRenderer,
        },
    );
    let hosted = sessions.get_mut(&session).unwrap();
    hosted.state = hosted.state.transition(SessionEvent::Disconnect).unwrap();
    hosted.state = hosted.state.transition(SessionEvent::Close).unwrap();
    sessions.remove(&session);
    assert!(!sessions.contains_key(&session));
}

struct Configuration(Vec<&'static str>);

impl WebViewConfigurator for Configuration {
    fn set_injected_bundle(&mut self, _: &str) -> Result<(), ErrorReport> {
        self.0.push("bundle");
        Ok(())
    }
    fn set_initialization_data(&mut self, _: &[u8]) -> Result<(), ErrorReport> {
        self.0.push("bootstrap");
        Ok(())
    }
    fn commit_process_pool_configuration(&mut self) -> Result<(), ErrorReport> {
        self.0.push("commit");
        Ok(())
    }
}

#[test]
fn webview_configuration_surface_has_no_payload_operation() {
    let mut configuration = Configuration(Vec::new());
    configuration.set_injected_bundle("bundle").unwrap();
    configuration.set_initialization_data(b"bootstrap").unwrap();
    configuration.commit_process_pool_configuration().unwrap();
    assert_eq!(configuration.0, ["bundle", "bootstrap", "commit"]);
}

fn artifact() -> MacosArtifact {
    let manifest = current_manifest(BUILD);
    MacosArtifact::inspect(
        "bundle".into(),
        "bundle/executable".into(),
        ArtifactFiles {
            complete: true,
            plist: Some(EXECUTABLE_METADATA),
            manifest: Some(&manifest),
        },
        BUILD,
    )
    .ok()
    .unwrap()
}

#[test]
fn hosts_route_only_the_active_generation() {
    let spi = MacosSpi::probe(&supported()).ok().unwrap();
    assert!(WebViewPlan::new(spi, artifact(), b"", TransportTopology::direct()).is_err());
    let plan = WebViewPlan::new(spi, artifact(), b"plist", TransportTopology::direct())
        .ok()
        .unwrap();
    let mut host = MacosHost::new(plan);
    let mut configuration = Configuration(Vec::new());
    host.plan().apply(&mut configuration).unwrap();
    assert_eq!(configuration.0, ["bundle", "bootstrap", "commit"]);

    let session = SessionId::from_u128(5).unwrap();
    let first = Generation::new(1).unwrap();
    assert_eq!(
        host.renderer_attached(session, first).unwrap_err().code(),
        ErrorCode::Closed
    );
    host.register(session, first).unwrap();
    assert!(host.register(session, first).is_err());
    host.renderer_attached(session, first).unwrap();
    let second = host.replace_renderer(session, first).unwrap();
    assert_eq!(second.get(), 2);
    assert_eq!(
        host.renderer_attached(session, first).unwrap_err().code(),
        ErrorCode::StaleGeneration
    );
    host.unregister(session, second).unwrap();
    assert!(host.generation(session).is_none());
    let last = Generation::new(u64::MAX).unwrap();
    host.register(session, last).unwrap();
    assert_eq!(
        host.replace_renderer(session, last).unwrap_err().code(),
        ErrorCode::Internal
    );
}

#[test]
fn configuration_rejects_invalid_watermarks() {
    let invalid = ChannelConfiguration {
        low_watermark: 200,
        high_watermark: 100,
        ..ChannelConfiguration::default()
    };
    assert_eq!(
        invalid.validate().err().unwrap().code(),
        ErrorCode::InvalidRange
    );
}

#[test]
fn malformed_descriptor_bundles_fail_closed() {
    assert!(decode_memory(b"NWM1").is_err());
    assert!(decode_signals(b"NWS1").is_err());
}

#[test]
fn production_requires_authenticated_encryption() {
    assert!(production_capabilities()
        .contains(TransportCapabilities::from_bits(AUTHENTICATED_ENCRYPTION)));
}

fn surface(surface_id: u32) -> IoSurfaceDescriptor {
    IoSurfaceDescriptor {
        surface_id,
        byte_len: 4096,
        generation: Generation::new(3).unwrap(),
    }
}

#[test]
fn descriptor_bundles_round_trip() {
    let configuration = ChannelConfiguration::default();
    let memory = encode_memory(configuration, &surface(1), &surface(2)).ok().unwrap();
    assert_eq!(&memory[..4], b"NWM1");
    let decoded = decode_memory(&memory).ok().unwrap();
    assert!(decoded.configuration == configuration);
    assert!(decoded.renderer == surface(1));
    assert!(decoded.peer == surface(2));
    assert!(decode_memory(&memory[..memory.len() - 1]).is_err());
    let signals = encode_signals(b"renderer", b"peer").ok().unwrap();
    assert_eq!(&signals[..4], b"NWS1");
    assert!(decode_signals(&signals).ok().unwrap() == (b"renderer".to_vec(), b"peer".to_vec()));
    assert!(decode_signals(&signals[..signals.len() - 1]).is_err());
}

fn planned_envelope(role: EndpointRole) -> BootstrapEnvelope {
    let memory = encode_memory(ChannelConfiguration::default(), &surface(1), &surface(2))
        .ok()
        .unwrap();
    let signals = encode_signals(b"renderer", b"peer").ok().unwrap();
    BootstrapEnvelope::new(
        SessionId::from_u128(1).unwrap(),
        Generation::new(3).unwrap(),
        ProtocolRange::new(1, 1).ok().unwrap(),
        role,
        OpaqueDescriptor::new(ProviderKind::IoSurface, memory).ok().unwrap(),
        OpaqueDescriptor::new(ProviderKind::Hybrid, signals).ok().unwrap(),
        BootstrapSecret::new(vec![3; 32]).ok().unwrap(),
    )
    .ok()
    .unwrap()
}

#[test]
fn endpoints_of_one_generation_face_each_other() {
    let renderer = plan_endpoint(&planned_envelope(EndpointRole::Renderer), EndpointRole::Renderer)
        .ok()
        .unwrap();
    let peer = plan_endpoint(&planned_envelope(EndpointRole::Peer), EndpointRole::Peer)
        .ok()
        .unwrap();
    assert!(renderer.outbound == peer.inbound && renderer.inbound == peer.outbound);
    assert_eq!(renderer.outbound_signal, peer.inbound_signal);
    assert_eq!(renderer.inbound_signal, peer.outbound_signal);
    assert!(renderer.outbound == surface(1));
    assert!(
        plan_endpoint(&planned_envelope(EndpointRole::Peer), EndpointRole::Renderer).is_err()
    );
}

#[test]
fn notification_faults_change_what_is_posted() {
    let posts = |immediate, delayed| NotificationPosts { immediate, delayed };
    let factory = MacosRendererTransportFactory::default();
    assert!(factory.faults == FaultInjection::default());
    assert!(factory.faults.notification.posts() == posts(1, 0));
    assert!(NotificationFault::Dropped.posts() == posts(0, 0));
    assert!(NotificationFault::Duplicate.posts() == posts(2, 0));
    let delayed = MacosRendererTransportFactory::with_fault_injection(FaultInjection {
        notification: NotificationFault::Delayed,
        writer_crash: WriterCrashPoint::AfterCommit,
    });
    assert!(delayed.faults.notification.posts() == posts(0, 1));
}

#[test]
fn artifact_names_its_executable() {
    let manifest = current_manifest(BUILD);
    let artifact = MacosArtifact::inspect(
        "bundle".into(),
        "bundle/executable".into(),
        ArtifactFiles {
            complete: true,
            plist: Some(EXECUTABLE_METADATA),
            manifest: Some(&manifest),
        },
        BUILD,
    )
    .ok()
    .unwrap();
    assert_eq!(artifact.executable_path(), "bundle/executable");
}

#[test]
fn echo_is_verified_once() {
    assert_eq!(begin_echo(None), EchoStep::WriteRequest);
    assert_eq!(begin_echo(Some(EchoState::PeerEcho)), EchoStep::WriteRequest);
    assert_eq!(begin_echo(Some(EchoState::RendererVerified)), EchoStep::Done);
    assert_eq!(continue_echo(false, None, false), Ok(EchoStep::ReadAgain));
    assert_eq!(
        continue_echo(false, Some(EchoState::RendererRequest), true),
        Ok(EchoStep::ReadAgain)
    );
    assert_eq!(
        continue_echo(false, Some(EchoState::PeerEcho), true),
        Ok(EchoStep::WriteVerified)
    );
    assert_eq!(
        continue_echo(false, Some(EchoState::PeerEcho), false).unwrap_err().context(),
        "renderer peer echo mismatch"
    );
    assert_eq!(
        continue_echo(true, Some(EchoState::PeerEcho), true).unwrap_err().context(),
        "renderer peer echo timeout"
    );
}

#[test]
fn bindings_follow_activation_and_the_last_document_event() {
    let first = PageId::new(1).unwrap();
    let second = PageId::new(2).unwrap();
    let context = |page: PageId| FrameContext {
        page,
        frame: FrameId::new(3).unwrap(),
        is_main_frame: true,
        world: ScriptWorld::Normal,
    };
    let mut bundle = MacosBundle::new(Installer::default());
    bundle.handle(BundleEvent::PageCreated(first)).unwrap();
    bundle.handle(BundleEvent::PageCreated(second)).unwrap();
    bundle.activate(attachment());
    assert!(bundle
        .handle(BundleEvent::WindowObjectCleared(context(first)))
        .is_err());
    assert!(!bundle.binding_is_installed(first));
    bundle.handle(BundleEvent::Initialize(b"plist")).unwrap();
    bundle
        .handle(BundleEvent::WindowObjectCleared(context(first)))
        .unwrap();
    bundle
        .handle(BundleEvent::WindowObjectCleared(context(second)))
        .unwrap();
    assert!(bundle.binding_is_installed(first) && bundle.binding_is_installed(second));
    bundle
        .handle(BundleEvent::DocumentInvalidated(first))
        .unwrap();
    assert!(!bundle.binding_is_installed(first) && bundle.binding_is_installed(second));
    bundle
        .handle(BundleEvent::WindowObjectCleared(context(first)))
        .unwrap();
    bundle.handle(BundleEvent::PageDestroyed(second)).unwrap();
    assert!(bundle.binding_is_installed(first) && !bundle.binding_is_installed(second));
}
