use std::cell::Cell;

use nwipc::adapters::appkit::{AppKitAdapter, BundleInspection};
use nwipc::adapters::tauri::{
    FallbackDecision, FallbackPolicy, TauriAdapter, WindowDiagnostics,
};
use nwipc::adapters::wry::{WebViewId, WryAdapter};
use nwipc::domain::error::{ErrorCode, ErrorReport};
use nwipc::domain::types::{Generation, SessionId};
use nwipc::macos::artifact::{
    current_manifest, ArtifactFiles, BuildIdentity, EXECUTABLE_METADATA,
};
use nwipc::macos::host::WebViewConfigurator;
use nwipc::macos::spi::{MacosArchitecture, MacosSupport, OsVersion, SpiEntry, SpiProbe};

const BUILD: BuildIdentity<'static> = BuildIdentity {
    bundle_version: "0.1.0",
    architecture: "aarch64",
};

struct SupportedProbe;

impl SpiProbe for SupportedProbe {
    fn os_version(&self) -> Option<OsVersion> {
        Some(OsVersion {
            major: 26,
            minor: 2,
            patch: 0,
        })
    }

    fn os_build(&self) -> Option<String> {
        None
    }

    fn architecture(&self) -> MacosArchitecture {
        MacosArchitecture::Arm64
    }

    fn has_entry(&self, _: SpiEntry) -> bool {
        true
    }
}

struct UnsupportedProbe;

impl SpiProbe for UnsupportedProbe {
    fn os_version(&self) -> Option<OsVersion> {
        None
    }

    fn os_build(&self) -> Option<String> {
        None
    }

    fn architecture(&self) -> MacosArchitecture {
        MacosArchitecture::Arm64
    }

    fn has_entry(&self, _: SpiEntry) -> bool {
        false
    }
}

fn bundle(manifest: &str) -> BundleInspection<'_> {
    BundleInspection {
        bundle: "fixture".into(),
        executable: "fixture/executable".into(),
        files: ArtifactFiles {
            complete: true,
            plist: Some(EXECUTABLE_METADATA),
            manifest: Some(manifest),
        },
        build: BUILD,
    }
}

fn missing() -> BundleInspection<'static> {
    BundleInspection {
        bundle: "missing".into(),
        executable: "missing/executable".into(),
        files: ArtifactFiles {
            complete: false,
            plist: None,
            manifest: None,
        },
        build: BUILD,
    }
}

fn generation(value: u64) -> Generation {
    Generation::new(value).unwrap()
}

fn session(value: u128) -> SessionId {
    SessionId::from_u128(value).unwrap()
}

#[test]
fn reload_replaces_generation_and_rejects_stale_events() {
    let manifest = current_manifest(BUILD);
    let mut adapter = AppKitAdapter::configure(&SupportedProbe, bundle(&manifest), b"plist")
        .ok()
        .unwrap();
    let session = session(1);
    let first = generation(1);
    adapter.register_session(session, first).unwrap();
    adapter.renderer_attached(session, first).unwrap();
    let replacement = adapter.renderer_replaced(session, first).unwrap();
    assert_eq!(replacement.get(), 2);
    assert!(adapter.renderer_attached(session, first).is_err());
    assert_eq!(adapter.host().plan().bundle_path(), "fixture");
}

#[test]
fn startup_fails_closed() {
    let manifest = current_manifest(BUILD);
    assert_eq!(
        AppKitAdapter::configure(&UnsupportedProbe, bundle(&manifest), b"plist")
            .err()
            .unwrap()
            .code(),
        ErrorCode::Unsupported
    );
    assert_eq!(
        AppKitAdapter::configure(&SupportedProbe, missing(), b"plist")
            .err()
            .unwrap()
            .context(),
        "injected bundle layout"
    );
    assert!(AppKitAdapter::configure(&SupportedProbe, bundle(&manifest), b"").is_err());
}

#[derive(Default)]
struct Configuration(Vec<&'static str>);

impl WebViewConfigurator for Configuration {
    fn set_injected_bundle(&mut self, _: &str) -> Result<(), ErrorReport> {
        self.0.push("bundle");
        Ok(())
    }

    fn set_initialization_data(&mut self, _: &[u8]) -> Result<(), ErrorReport> {
        self.0.push("bootstrap");
        Ok(())
    }

    fn commit_process_pool_configuration(&mut self) -> Result<(), ErrorReport> {
        self.0.push("commit");
        Ok(())
    }
}

#[test]
fn builder_configuration_and_lifecycle_preserve_identity() {
    let manifest = current_manifest(BUILD);
    let mut adapter = WryAdapter::configure(&SupportedProbe, bundle(&manifest), b"plist")
        .ok()
        .unwrap();
    let mut configuration = Configuration::default();
    adapter.configure_webview(&mut configuration).unwrap();
    assert_eq!(configuration.0, ["bundle", "bootstrap", "commit"]);

    let webview = WebViewId::new("main".into()).ok().unwrap();
    let session = session(1);
    let seventh = generation(7);
    adapter.register(webview.clone(), session, seventh).unwrap();
    adapter.renderer_attached(&webview, seventh).unwrap();
    assert_eq!(
        adapter.renderer_terminated(&webview, seventh).unwrap().get(),
        8
    );
    assert_eq!(adapter.generation(&webview).unwrap().get(), 8);
    assert_eq!(
        adapter
            .renderer_attached(&webview, seventh)
            .unwrap_err()
            .code(),
        ErrorCode::StaleGeneration
    );
    let replacement = generation(8);
    adapter.renderer_attached(&webview, replacement).unwrap();
    adapter.remove(&webview, replacement).unwrap();
    assert!(adapter.generation(&webview).is_none());
}

#[test]
fn rejects_duplicate_and_invalid_webview_ids() {
    assert!(WebViewId::new("".into()).is_err());
    assert!(WebViewId::new("x".repeat(129)).is_err());
    assert!(WebViewId::new("x".repeat(128)).is_ok());

    let manifest = current_manifest(BUILD);
    let mut adapter = WryAdapter::configure(&SupportedProbe, bundle(&manifest), b"plist")
        .ok()
        .unwrap();
    let webview = WebViewId::new("main".into()).ok().unwrap();
    adapter
        .register(webview.clone(), session(1), generation(1))
        .unwrap();
    assert!(adapter
        .register(webview, session(2), generation(1))
        .is_err());
    assert_eq!(
        adapter
            .register(
                WebViewId::new("other".into()).ok().unwrap(),
                session(1),
                generation(1)
            )
            .unwrap_err()
            .context(),
        "duplicate host session"
    );
}

#[test]
fn terminated_web_content_is_replaced_or_leaves_a_failure() {
    let manifest = current_manifest(BUILD);
    let mut adapter = WryAdapter::configure(&SupportedProbe, bundle(&manifest), b"plist")
        .ok()
        .unwrap();
    let webview = WebViewId::new("main".into()).ok().unwrap();
    adapter
        .register(webview.clone(), session(1), generation(1))
        .unwrap();
    adapter.web_content_terminated(&webview);
    assert_eq!(adapter.generation(&webview).unwrap().get(), 2);
    assert!(adapter.take_callback_failure().is_none());
    adapter.web_content_terminated(&WebViewId::new("gone".into()).ok().unwrap());
    assert_eq!(
        adapter.take_callback_failure().unwrap().context(),
        "unknown Wry webview"
    );
    assert!(adapter.take_callback_failure().is_none());
}

struct Continue;

impl FallbackPolicy for Continue {
    fn on_unavailable(&self, _: &ErrorReport) -> FallbackDecision {
        FallbackDecision::ContinueWithoutNwipc
    }
}

struct Abort;

impl FallbackPolicy for Abort {
    fn on_unavailable(&self, _: &ErrorReport) -> FallbackDecision {
        FallbackDecision::Abort
    }
}

#[test]
fn maps_labels_replaces_generations_and_cleans_up() {
    let manifest = current_manifest(BUILD);
    let mut adapter = TauriAdapter::configure(&SupportedProbe, bundle(&manifest), b"plist")
        .ok()
        .unwrap();
    let session = session(1);
    let third = generation(3);
    adapter.register_window("main".into(), session, third).unwrap();
    adapter.renderer_attached("main", third).unwrap();
    assert_eq!(adapter.renderer_replaced("main", third).unwrap().get(), 4);
    assert_eq!(
        adapter.renderer_attached("main", third).unwrap_err().code(),
        ErrorCode::StaleGeneration
    );
    assert_eq!(
        adapter.diagnostics(),
        [WindowDiagnostics {
            label: "main".into(),
            generation: 4,
        }]
    );
    adapter.remove_window("main", generation(4)).unwrap();
    assert!(adapter.diagnostics().is_empty());
}

#[test]
fn fallback_is_explicit_and_labels_are_bounded() {
    assert!(TauriAdapter::configure_with_fallback(
        &UnsupportedProbe,
        missing(),
        b"plist",
        &Continue
    )
    .ok()
    .unwrap()
    .is_none());
    assert_eq!(
        TauriAdapter::configure_with_fallback(&UnsupportedProbe, missing(), b"plist", &Abort)
            .err()
            .unwrap()
            .code(),
        ErrorCode::Unsupported
    );

    let manifest = current_manifest(BUILD);
    let mut adapter = TauriAdapter::configure(&SupportedProbe, bundle(&manifest), b"plist")
        .ok()
        .unwrap();
    assert!(adapter
        .register_window("".into(), session(1), generation(1))
        .is_err());
}

#[test]
fn windows_are_listed_in_the_order_of_their_labels() {
    let manifest = current_manifest(BUILD);
    let mut adapter = TauriAdapter::configure(&SupportedProbe, bundle(&manifest), b"plist")
        .ok()
        .unwrap();
    for (index, label) in ["settings", "about", "main", "b"].iter().enumerate() {
        adapter
            .register_window((*label).into(), session(index as u128 + 1), generation(1))
            .unwrap();
    }
    let labels: Vec<String> = adapter
        .diagnostics()
        .into_iter()
        .map(|window| window.label)
        .collect();
    assert_eq!(labels, ["about", "b", "main", "settings"]);
    adapter.remove_window_current("unknown");
    assert!(adapter.take_callback_failure().is_none());
    adapter.cleanup_all();
    assert!(adapter.diagnostics().is_empty());
    assert!(adapter.take_callback_failure().is_none());
}

#[test]
fn windows_that_cannot_be_torn_down_stay() {
    let manifest = current_manifest(BUILD);
    let mut adapter = TauriAdapter::configure(&SupportedProbe, bundle(&manifest), b"plist")
        .ok()
        .unwrap();
    let last = generation(u64::MAX);
    adapter.register_window("stuck".into(), session(1), last).unwrap();
    adapter
        .register_window("free".into(), session(2), generation(1))
        .unwrap();
    assert!(adapter.renderer_replaced("stuck", last).is_err());
    adapter.cleanup_all();
    assert_eq!(adapter.diagnostics().len(), 1);
    assert_eq!(
        adapter.take_callback_failure().unwrap().code(),
        ErrorCode::InvalidStateTransition
    );
}

struct Recording {
    asked: Cell<u32>,
    decision: FallbackDecision,
}

impl FallbackPolicy for Recording {
    fn on_unavailable(&self, _: &ErrorReport) -> FallbackDecision {
        self.asked.set(self.asked.get() + 1);
        self.decision
    }
}

#[test]
fn fallback_policy_is_asked_once_and_only_on_failure() {
    for decision in [
        FallbackDecision::Abort,
        FallbackDecision::ContinueWithoutNwipc,
    ] {
        let policy = Recording {
            asked: Cell::new(0),
            decision,
        };
        let manifest = current_manifest(BUILD);
        assert!(TauriAdapter::configure_with_fallback(
            &SupportedProbe,
            bundle(&manifest),
            b"plist",
            &policy
        )
        .ok()
        .unwrap()
        .is_some());
        assert_eq!(policy.asked.get(), 0);
        let refused = TauriAdapter::configure_with_fallback(
            &UnsupportedProbe,
            missing(),
            b"plist",
            &policy,
        );
        assert_eq!(policy.asked.get(), 1);
        assert_eq!(refused.is_err(), decision == FallbackDecision::Abort);
    }
}

#[test]
fn diagnostics_list_the_windows_of_the_moment() {
    let manifest = current_manifest(BUILD);
    let mut adapter = TauriAdapter::configure(&SupportedProbe, bundle(&manifest), b"plist")
        .ok()
        .unwrap();
    let listed = |adapter: &TauriAdapter| -> Vec<(String, u64)> {
        adapter
            .diagnostics()
            .into_iter()
            .map(|window| (window.label, window.generation))
            .collect()
    };
    adapter
        .register_window("main".into(), session(1), generation(1))
        .unwrap();
    adapter
        .register_window("about".into(), session(2), generation(5))
        .unwrap();
    assert!(adapter
        .register_window("main".into(), session(3), generation(1))
        .is_err());
    adapter.renderer_attached("main", generation(1)).unwrap();
    adapter.renderer_replaced("main", generation(1)).unwrap();
    assert!(adapter.renderer_replaced("main", generation(1)).is_err());
    assert!(adapter.remove_window("about", generation(4)).is_err());
    assert_eq!(listed(&adapter), [("about".into(), 5), ("main".into(), 2)]);
    adapter.remove_window("about", generation(5)).unwrap();
    assert_eq!(listed(&adapter), [("main".into(), 2)]);
}

#[test]
fn a_cleanup_tears_every_session_down_that_it_can() {
    let manifest = current_manifest(BUILD);
    let mut adapter = TauriAdapter::configure(&SupportedProbe, bundle(&manifest), b"plist")
        .ok()
        .unwrap();
    let last = generation(u64::MAX);
    adapter.register_window("stuck".into(), session(1), last).unwrap();
    adapter
        .register_window("free".into(), session(2), generation(1))
        .unwrap();
    assert!(adapter.renderer_replaced("stuck", last).is_err());
    adapter.cleanup_all();
    assert_eq!(
        adapter
            .register_window("other".into(), session(1), generation(1))
            .unwrap_err()
            .context(),
        "duplicate host session"
    );
    adapter
        .register_window("free".into(), session(2), generation(9))
        .unwrap();
    adapter.renderer_attached("free", generation(9)).unwrap();
}

#[test]
fn the_plan_carries_the_token_of_the_probe() {
    let manifest = current_manifest(BUILD);
    let adapter = AppKitAdapter::configure(&SupportedProbe, bundle(&manifest), b"plist")
        .ok()
        .unwrap();
    let spi = adapter.host().plan().spi();
    assert_eq!(
        spi.version(),
        OsVersion {
            major: 26,
            minor: 2,
            patch: 0,
        }
    );
    assert_eq!(spi.architecture(), MacosArchitecture::Arm64);
    assert_eq!(spi.support(), MacosSupport::BestEffort);
    assert_eq!(adapter.host().plan().initialization_data(), b"plist");
}

#[test]
fn a_recorded_failure_is_taken_once() {
    let manifest = current_manifest(BUILD);
    let mut windows = TauriAdapter::configure(&SupportedProbe, bundle(&manifest), b"plist")
        .ok()
        .unwrap();
    windows.record_callback_failure(ErrorReport::unsupported("first"));
    windows.record_callback_failure(ErrorReport::unsupported("second"));
    assert_eq!(windows.take_callback_failure().unwrap().context(), "second");
    assert!(windows.take_callback_failure().is_none());
    let mut views = WryAdapter::configure(&SupportedProbe, bundle(&manifest), b"plist")
        .ok()
        .unwrap();
    views.record_callback_failure(ErrorReport::unsupported("view"));
    assert_eq!(views.take_callback_failure().unwrap().context(), "view");
    assert!(views.take_callback_failure().is_none());
}
