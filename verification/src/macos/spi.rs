//! Runtime discovery and evidence classification of the private `WebKit` host surface.

use vstd::prelude::*;
use vstd::slice::slice_subrange;
use vstd::string::StringSliceAdditionalSpecFns;

use crate::domain::bytes::{find_place, first_place};
use crate::domain::error::{report, ErrorCategory, ErrorCode, ErrorReport, Recoverability};
use crate::domain::text::{bounded_decimal, parse_decimal_bytes, texts_equal};

verus! {

/// One symbol or Objective-C selector used by the adapter.
#[derive(Clone, Copy, Debug, PartialEq, Eq)]
pub struct SpiEntry {
    /// Objective-C class queried for the method.
    pub class_name: &'static str,
    /// Stable lookup name.
    pub name: &'static str,
    /// Lookup namespace.
    pub kind: SpiKind,
    /// Whether startup can proceed without the entry.
    pub requirement: SpiRequirement,
}

impl SpiEntry {
    /// The selector manifest entry of a class.
    pub open spec fn of_selector(
        class_name: &'static str,
        name: &'static str,
        requirement: SpiRequirement,
    ) -> SpiEntry {
        SpiEntry { class_name, name, kind: SpiKind::Selector, requirement }
    }

    /// Creates a selector manifest entry.
    pub fn selector(
        class_name: &'static str,
        name: &'static str,
        requirement: SpiRequirement,
    ) -> (entry: Self)
        ensures
            entry == SpiEntry::of_selector(class_name, name, requirement),
    {
        SpiEntry { class_name, name, kind: SpiKind::Selector, requirement }
    }
}

/// Namespace containing an SPI entry.
#[derive(Clone, Copy, Debug, PartialEq, Eq, Structural)]
pub enum SpiKind {
    /// Objective-C selector.
    Selector,
    /// Dynamic linker symbol.
    Symbol,
}

/// Availability policy for an entry.
#[derive(Clone, Copy, Debug, PartialEq, Eq, Structural)]
pub enum SpiRequirement {
    /// Missing entry makes the platform unsupported.
    Required,
    /// Missing entry disables only an optional diagnostic.
    Optional,
}

/// SPI entries required by the vertical slice.
pub open spec fn required_entries() -> Seq<SpiEntry> {
    seq![
        SpiEntry::of_selector(
            "_WKProcessPoolConfiguration",
            "setInjectedBundleURL:",
            SpiRequirement::Required,
        ),
        SpiEntry::of_selector("WKProcessPool", "_initWithConfiguration:", SpiRequirement::Required),
        SpiEntry::of_selector(
            "WKProcessPool",
            "_setObject:forBundleParameter:",
            SpiRequirement::Required,
        ),
        SpiEntry::of_selector(
            "WKWebViewConfiguration",
            "setProcessPool:",
            SpiRequirement::Required,
        ),
    ]
}

/// SPI entries required by the vertical slice.
pub fn required_spi() -> (entries: Vec<SpiEntry>)
    ensures
        entries@ == required_entries(),
{
    let mut entries: Vec<SpiEntry> = Vec::new();
    entries.push(
        SpiEntry::selector(
            "_WKProcessPoolConfiguration",
            "setInjectedBundleURL:",
            SpiRequirement::Required,
        ),
    );
    entries.push(
        SpiEntry::selector("WKProcessPool", "_initWithConfiguration:", SpiRequirement::Required),
    );
    entries.push(
        SpiEntry::selector(
            "WKProcessPool",
            "_setObject:forBundleParameter:",
            SpiRequirement::Required,
        ),
    );
    entries.push(
        SpiEntry::selector("WKWebViewConfiguration", "setProcessPool:", SpiRequirement::Required),
    );
    proof {
        assert(entries@ =~= required_entries());
    }
    entries
}

/// Numeric operating-system version used by compatibility assessment.
#[derive(Clone, Copy, Debug, PartialEq, Eq, Structural)]
pub struct OsVersion {
    /// Major release.
    pub major: u16,
    /// Minor release.
    pub minor: u16,
    /// Patch release.
    pub patch: u16,
}

impl OsVersion {
    /// Creates a numeric macOS product version.
    pub fn new(major: u16, minor: u16, patch: u16) -> (version: Self)
        ensures
            version == (OsVersion { major, minor, patch }),
    {
        OsVersion { major, minor, patch }
    }

    /// Whether a version is older than another.
    pub open spec fn is_older(self, other: OsVersion) -> bool {
        ||| self.major < other.major
        ||| self.major == other.major && self.minor < other.minor
        ||| self.major == other.major && self.minor == other.minor && self.patch < other.patch
    }

    /// Whether a version is older than another.
    pub fn older_than(self, other: OsVersion) -> (answer: bool)
        ensures
            answer == self.is_older(other),
    {
        self.major < other.major || (self.major == other.major && (self.minor < other.minor || (
        self.minor == other.minor && self.patch < other.patch)))
    }
}

/// Lowest macOS release supported by Rust's `x86_64` Apple target.
pub open spec fn minimum_x86_64() -> OsVersion {
    OsVersion { major: 10, minor: 12, patch: 0 }
}

/// Lowest macOS release supported by Rust's arm64 Apple target.
pub open spec fn minimum_arm64() -> OsVersion {
    OsVersion { major: 11, minor: 0, patch: 0 }
}

/// Lowest macOS release supported by Rust's `x86_64` Apple target.
pub fn minimum_x86_64_os() -> (version: OsVersion)
    ensures
        version == minimum_x86_64(),
{
    OsVersion::new(10, 12, 0)
}

/// Lowest macOS release supported by Rust's arm64 Apple target.
pub fn minimum_arm64_os() -> (version: OsVersion)
    ensures
        version == minimum_arm64(),
{
    OsVersion::new(11, 0, 0)
}

/// CPU architecture relevant to deployment-target and verification evidence.
#[derive(Clone, Copy, Debug, PartialEq, Eq, Structural)]
pub enum MacosArchitecture {
    /// Apple Silicon target.
    Arm64,
    /// 64-bit Intel target.
    X86_64,
    /// A target for which NWIPC does not build macOS artifacts.
    Other,
}

/// One exact system with signed, hardened E2E evidence.
#[derive(Clone, Copy, Debug, PartialEq, Eq)]
pub struct VerifiedSystem {
    /// macOS product version.
    pub version: OsVersion,
    /// macOS build identifier.
    pub build: &'static str,
    /// CPU architecture.
    pub architecture: MacosArchitecture,
}

/// Signed, hardened systems that completed the production `WKWebView` E2E matrix.
pub open spec fn evidence() -> Seq<VerifiedSystem> {
    seq![
        VerifiedSystem {
            version: OsVersion { major: 26, minor: 2, patch: 0 },
            build: "25C56",
            architecture: MacosArchitecture::Arm64,
        },
    ]
}

/// Signed, hardened systems that completed the production `WKWebView` E2E matrix.
pub fn verified_systems() -> (systems: Vec<VerifiedSystem>)
    ensures
        systems@ == evidence(),
{
    let mut systems: Vec<VerifiedSystem> = Vec::new();
    systems.push(
        VerifiedSystem {
            version: OsVersion::new(26, 2, 0),
            build: "25C56",
            architecture: MacosArchitecture::Arm64,
        },
    );
    proof {
        assert(systems@ =~= evidence());
    }
    systems
}

/// Runtime support level for an executable macOS configuration.
#[derive(Clone, Copy, Debug, PartialEq, Eq, Structural)]
pub enum MacosSupport {
    /// The exact OS build and architecture completed the production E2E matrix.
    Verified,
    /// Required runtime capabilities exist, but this exact system has no E2E guarantee.
    BestEffort,
}

/// Reason a configuration cannot logically execute the macOS `WebKit` path.
#[derive(Clone, Copy, Debug, PartialEq, Eq, Structural)]
pub enum IncompatibilityReason {
    /// The operating-system version could not be determined.
    UnknownOsVersion,
    /// The binary's Rust target does not support this operating-system version.
    BelowDeploymentTarget,
    /// NWIPC does not build macOS artifacts for this CPU architecture.
    UnsupportedArchitecture,
    /// A private class or selector required for invocation is absent.
    MissingRequiredSpi,
}

/// Result of checking execution viability separately from verification evidence.
#[derive(Clone, Copy, Debug, PartialEq, Eq, Structural)]
pub enum CompatibilityOutcome {
    /// Startup can proceed at the reported support level.
    Runnable(MacosSupport),
    /// Startup cannot safely reach the required implementation.
    Incompatible(IncompatibilityReason),
}

/// Complete, non-secret result of the macOS compatibility probe.
#[derive(Clone, Copy, Debug, PartialEq, Eq, Structural)]
pub struct CompatibilityAssessment {
    version: Option<OsVersion>,
    architecture: MacosArchitecture,
    outcome: CompatibilityOutcome,
}

impl CompatibilityAssessment {
    /// Reported version.
    pub closed spec fn spec_version(self) -> Option<OsVersion> {
        self.version
    }

    /// Reported architecture.
    pub closed spec fn spec_architecture(self) -> MacosArchitecture {
        self.architecture
    }

    /// Execution viability.
    pub closed spec fn spec_outcome(self) -> CompatibilityOutcome {
        self.outcome
    }

    /// Reported macOS product version, when the system query succeeded.
    pub fn version(self) -> (version: Option<OsVersion>)
        ensures
            version == self.spec_version(),
    {
        self.version
    }

    /// Reported CPU architecture.
    pub fn architecture(self) -> (architecture: MacosArchitecture)
        ensures
            architecture == self.spec_architecture(),
    {
        self.architecture
    }

    /// Execution viability and verification level.
    pub fn outcome(self) -> (outcome: CompatibilityOutcome)
        ensures
            outcome == self.spec_outcome(),
    {
        self.outcome
    }
}

/// Injectable runtime queries, keeping raw Objective-C objects inside the adapter.
pub trait SpiProbe {
    /// Version that the probe reports.
    open spec fn probed_version(&self) -> Option<OsVersion> {
        arbitrary()
    }

    /// Build identifier that the probe reports.
    open spec fn probed_build(&self) -> Option<Seq<char>> {
        arbitrary()
    }

    /// Architecture that the probe reports.
    open spec fn probed_architecture(&self) -> MacosArchitecture {
        arbitrary()
    }

    /// Whether the probe reports an entry as callable.
    open spec fn offers(&self, entry: SpiEntry) -> bool {
        arbitrary()
    }

    /// Reports the running macOS version.
    fn os_version(&self) -> (version: Option<OsVersion>)
        ensures
            version == self.probed_version(),
    ;

    /// Reports the macOS build identifier.
    fn os_build(&self) -> (build: Option<String>)
        ensures
            match build {
                Some(build) => self.probed_build() == Some(build@),
                None => self.probed_build() is None,
            },
    ;

    /// Reports the current CPU architecture.
    fn architecture(&self) -> (architecture: MacosArchitecture)
        ensures
            architecture == self.probed_architecture(),
    ;

    /// Reports whether the named entry is callable on the configured object.
    fn has_entry(&self, entry: SpiEntry) -> (present: bool)
        ensures
            present == self.offers(entry),
    ;
}

/// Whether every required entry is offered.
pub open spec fn offers_required<Probe: SpiProbe>(probe: Probe) -> bool {
    forall|index: int|
        0 <= index < required_entries().len() ==> probe.offers(#[trigger] required_entries()[index])
}

/// Whether a system is one with evidence.
pub open spec fn is_evidenced(
    version: OsVersion,
    build: Option<Seq<char>>,
    architecture: MacosArchitecture,
) -> bool {
    exists|index: int| #![trigger evidence()[index]]
        0 <= index < evidence().len() && evidence()[index].version == version
            && evidence()[index].architecture == architecture && build == Some(
            evidence()[index].build@,
        )
}

/// The lowest release that the target of an architecture supports.
pub open spec fn minimum_of(architecture: MacosArchitecture) -> Option<OsVersion> {
    match architecture {
        MacosArchitecture::Arm64 => Some(minimum_arm64()),
        MacosArchitecture::X86_64 => Some(minimum_x86_64()),
        MacosArchitecture::Other => None,
    }
}

/// The outcome of assessing a system.
pub open spec fn outcome_of(
    version: Option<OsVersion>,
    build: Option<Seq<char>>,
    architecture: MacosArchitecture,
    complete: bool,
) -> CompatibilityOutcome {
    match (version, minimum_of(architecture)) {
        (None, _) => CompatibilityOutcome::Incompatible(IncompatibilityReason::UnknownOsVersion),
        (Some(_), None) => CompatibilityOutcome::Incompatible(
            IncompatibilityReason::UnsupportedArchitecture,
        ),
        (Some(version), Some(minimum)) => if version.is_older(minimum) {
            CompatibilityOutcome::Incompatible(IncompatibilityReason::BelowDeploymentTarget)
        } else if !complete {
            CompatibilityOutcome::Incompatible(IncompatibilityReason::MissingRequiredSpi)
        } else if is_evidenced(version, build, architecture) {
            CompatibilityOutcome::Runnable(MacosSupport::Verified)
        } else {
            CompatibilityOutcome::Runnable(MacosSupport::BestEffort)
        },
    }
}

/// The operation of an incompatibility.
pub open spec fn incompatible_operation(reason: IncompatibilityReason) -> &'static str {
    match reason {
        IncompatibilityReason::UnknownOsVersion => "macos version compatibility probe",
        IncompatibilityReason::BelowDeploymentTarget => "macos deployment target compatibility",
        IncompatibilityReason::UnsupportedArchitecture => "macos architecture compatibility",
        IncompatibilityReason::MissingRequiredSpi => "webkit spi compatibility probe",
    }
}

/// The report of an incompatibility.
pub open spec fn incompatible_report(reason: IncompatibilityReason) -> ErrorReport {
    report(
        ErrorCategory::Unsupported,
        ErrorCode::Unsupported,
        Recoverability::Terminal,
        incompatible_operation(reason),
    )
}

fn incompatible(reason: IncompatibilityReason) -> (created: ErrorReport)
    ensures
        created == incompatible_report(reason),
{
    let operation = match reason {
        IncompatibilityReason::UnknownOsVersion => "macos version compatibility probe",
        IncompatibilityReason::BelowDeploymentTarget => "macos deployment target compatibility",
        IncompatibilityReason::UnsupportedArchitecture => "macos architecture compatibility",
        IncompatibilityReason::MissingRequiredSpi => "webkit spi compatibility probe",
    };
    ErrorReport::new(
        ErrorCategory::Unsupported,
        ErrorCode::Unsupported,
        Recoverability::Terminal,
        operation,
    )
}

/// A system runs only where its version is known and supported and every required entry is there,
/// and only a system with evidence runs as verified.
pub proof fn law_runnable_systems_are_complete(
    version: Option<OsVersion>,
    build: Option<Seq<char>>,
    architecture: MacosArchitecture,
    complete: bool,
)
    ensures
        outcome_of(version, build, architecture, complete) is Runnable <==> (version is Some
            && minimum_of(architecture) is Some && !version->0.is_older(
            minimum_of(architecture)->0,
        ) && complete),
        outcome_of(version, build, architecture, complete) == CompatibilityOutcome::Runnable(
            MacosSupport::Verified,
        ) ==> is_evidenced(version->0, build, architecture),
{
}

/// Versions are ordered by their major release, then their minor release, then their patch release.
///
/// The order is strict and total: of two different versions exactly one is older, and what is older
/// than an older version is older.
pub proof fn law_versions_are_ordered(left: OsVersion, right: OsVersion, third: OsVersion)
    ensures
        left.major < right.major ==> left.is_older(right) && !right.is_older(left),
        left.major == right.major && left.minor < right.minor ==> left.is_older(right)
            && !right.is_older(left),
        left.major == right.major && left.minor == right.minor && left.patch < right.patch
            ==> left.is_older(right) && !right.is_older(left),
        !left.is_older(left),
        left != right ==> left.is_older(right) != right.is_older(left),
        left.is_older(right) && right.is_older(third) ==> left.is_older(third),
{
}

/// The deployment target bounds releases from below alone: every release with a larger major number
/// than the lowest one runs where its entries are complete, and where a release runs, so does
/// every newer one.
pub proof fn law_newer_releases_run(
    older: OsVersion,
    newer: OsVersion,
    build: Option<Seq<char>>,
    architecture: MacosArchitecture,
)
    ensures
        minimum_of(architecture) matches Some(minimum) ==> {
            &&& newer.major > minimum.major || newer == minimum ==> outcome_of(
                Some(newer),
                build,
                architecture,
                true,
            ) is Runnable
            &&& newer.major < minimum.major ==> outcome_of(Some(newer), build, architecture, true)
                == CompatibilityOutcome::Incompatible(IncompatibilityReason::BelowDeploymentTarget)
        },
        older.is_older(newer) && outcome_of(Some(older), build, architecture, true) is Runnable
            ==> outcome_of(Some(newer), build, architecture, true) is Runnable,
        architecture is Other <==> minimum_of(architecture) is None,
{
}

/// Every reason has its own cause: a system without a version, without artifacts, below the lowest
/// release of its architecture, or without a required entry. Nothing else keeps it from running.
pub proof fn law_incompatibilities_have_their_cause(
    version: Option<OsVersion>,
    build: Option<Seq<char>>,
    architecture: MacosArchitecture,
    complete: bool,
    reason: IncompatibilityReason,
)
    ensures
        ({
            let outcome = outcome_of(version, build, architecture, complete);
            let low = version is Some && architecture !is Other && version->0.is_older(
                minimum_of(architecture)->0,
            );
            outcome == CompatibilityOutcome::Incompatible(reason) <==> match reason {
                IncompatibilityReason::UnknownOsVersion => version is None,
                IncompatibilityReason::UnsupportedArchitecture => version is Some
                    && architecture is Other,
                IncompatibilityReason::BelowDeploymentTarget => low,
                IncompatibilityReason::MissingRequiredSpi => version is Some
                    && architecture !is Other && !low && !complete,
            }
        }),
{
}

/// A system runs as verified exactly where its version, its build and its architecture are those of
/// one system with evidence; any other system that can run does so best effort.
pub proof fn law_verification_is_exact(
    version: OsVersion,
    build: Option<Seq<char>>,
    architecture: MacosArchitecture,
)
    requires
        outcome_of(Some(version), build, architecture, true) is Runnable,
    ensures
        outcome_of(Some(version), build, architecture, true) == CompatibilityOutcome::Runnable(
            MacosSupport::Verified,
        ) <==> exists|index: int|
            #![trigger evidence()[index]]
            0 <= index < evidence().len() && evidence()[index].version == version && Some(
                evidence()[index].build@,
            ) == build && evidence()[index].architecture == architecture,
        build is None ==> outcome_of(Some(version), build, architecture, true)
            == CompatibilityOutcome::Runnable(MacosSupport::BestEffort),
{
}

/// A probe that lacks one required entry is incompatible, whichever one it lacks.
pub proof fn law_no_required_entry_may_be_missing<Probe: SpiProbe>(
    probe: Probe,
    class_name: &'static str,
    name: &'static str,
)
    requires
        required_entries().contains(
            SpiEntry::of_selector(class_name, name, SpiRequirement::Required),
        ),
        !probe.offers(SpiEntry::of_selector(class_name, name, SpiRequirement::Required)),
    ensures
        outcome_of(
            probe.probed_version(),
            probe.probed_build(),
            probe.probed_architecture(),
            offers_required(probe),
        ) is Incompatible,
{
    let entry = SpiEntry::of_selector(class_name, name, SpiRequirement::Required);
    let index = choose|index: int|
        0 <= index < required_entries().len() && required_entries()[index] == entry;
    assert(!probe.offers(required_entries()[index]));
}

fn entries_complete<Probe: SpiProbe>(probe: &Probe) -> (complete: bool)
    ensures
        complete == offers_required(*probe),
{
    let entries = required_spi();
    let mut index: usize = 0;
    while index < entries.len()
        invariant
            index <= entries@.len(),
            entries@ == required_entries(),
            forall|seen: int| 0 <= seen < index
                ==> probe.offers(#[trigger] required_entries()[seen]),
        decreases entries@.len() - index,
    {
        let entry = entries[index];
        match entry.requirement {
            SpiRequirement::Required => {
                if !probe.has_entry(entry) {
                    proof {
                        assert(!probe.offers(required_entries()[index as int]));
                    }
                    return false;
                }
            },
            SpiRequirement::Optional => {},
        }
        index += 1;
    }
    true
}

fn has_evidence(version: OsVersion, build: &Option<String>, architecture: MacosArchitecture) -> (
    answer: bool)
    ensures
        answer == is_evidenced(
            version,
            match build {
                Some(build) => Some(build@),
                None => None,
            },
            architecture,
        ),
{
    let systems = verified_systems();
    let mut index: usize = 0;
    let ghost reported = match build {
        Some(build) => Some(build@),
        None => None,
    };
    while index < systems.len()
        invariant
            index <= systems@.len(),
            systems@ == evidence(),
            reported == match build {
                Some(build) => Some(build@),
                None => None,
            },
            forall|seen: int| #![trigger evidence()[seen]]
                0 <= seen < index ==> !(evidence()[seen].version == version
                    && evidence()[seen].architecture == architecture && reported == Some(
                    evidence()[seen].build@,
                )),
        decreases systems@.len() - index,
    {
        let system = systems[index];
        let same_build = match build {
            Some(build) => texts_equal(build.as_str(), system.build),
            None => false,
        };
        if system.version == version && system.architecture == architecture && same_build {
            proof {
                assert(evidence()[index as int] == system);
            }
            return true;
        }
        index += 1;
    }
    false
}

/// Verified access token required by the host configuration API.
#[derive(Clone, Copy, Debug, PartialEq, Eq, Structural)]
pub struct MacosSpi {
    version: OsVersion,
    architecture: MacosArchitecture,
    support: MacosSupport,
}

impl MacosSpi {
    /// Running version.
    pub closed spec fn spec_version(self) -> OsVersion {
        self.version
    }

    /// Running architecture.
    pub closed spec fn spec_architecture(self) -> MacosArchitecture {
        self.architecture
    }

    /// Evidence level.
    pub closed spec fn spec_support(self) -> MacosSupport {
        self.support
    }

    /// Assesses whether the current system can execute the required private surface.
    pub fn assess<Probe: SpiProbe>(probe: &Probe) -> (assessment: CompatibilityAssessment)
        ensures
            assessment.spec_version() == probe.probed_version(),
            assessment.spec_architecture() == probe.probed_architecture(),
            assessment.spec_outcome() == outcome_of(
                probe.probed_version(),
                probe.probed_build(),
                probe.probed_architecture(),
                offers_required(*probe),
            ),
    {
        let version = probe.os_version();
        let architecture = probe.architecture();
        let outcome = match version {
            None => CompatibilityOutcome::Incompatible(IncompatibilityReason::UnknownOsVersion),
            Some(version) => assess_known_system(probe, version, architecture),
        };
        CompatibilityAssessment { version, architecture, outcome }
    }

    /// Probes execution viability and returns a token for runnable systems.
    ///
    /// `Unsupported` is returned only when the binary cannot reach every required implementation.
    pub fn probe<Probe: SpiProbe>(probe: &Probe) -> (probed: Result<Self, ErrorReport>)
        ensures
            match outcome_of(
                probe.probed_version(),
                probe.probed_build(),
                probe.probed_architecture(),
                offers_required(*probe),
            ) {
                CompatibilityOutcome::Runnable(support) => {
                    &&& probed is Ok
                    &&& Some(probed->Ok_0.spec_version()) == probe.probed_version()
                    &&& probed->Ok_0.spec_architecture() == probe.probed_architecture()
                    &&& probed->Ok_0.spec_support() == support
                },
                CompatibilityOutcome::Incompatible(reason) => probed == Err::<Self, ErrorReport>(
                    incompatible_report(reason),
                ),
            },
    {
        let assessment = MacosSpi::assess(probe);
        match (assessment.version, assessment.outcome) {
            (Some(version), CompatibilityOutcome::Runnable(support)) => Ok(
                MacosSpi { version, architecture: assessment.architecture, support },
            ),
            (None, CompatibilityOutcome::Runnable(_)) => Err(
                incompatible(IncompatibilityReason::UnknownOsVersion),
            ),
            (_, CompatibilityOutcome::Incompatible(reason)) => Err(incompatible(reason)),
        }
    }

    /// Running OS version that passed the viability probe.
    pub fn version(self) -> (version: OsVersion)
        ensures
            version == self.spec_version(),
    {
        self.version
    }

    /// Running CPU architecture.
    pub fn architecture(self) -> (architecture: MacosArchitecture)
        ensures
            architecture == self.spec_architecture(),
    {
        self.architecture
    }

    /// Evidence level for this exact OS build and architecture.
    pub fn support(self) -> (support: MacosSupport)
        ensures
            support == self.spec_support(),
    {
        self.support
    }
}

fn assess_known_system<Probe: SpiProbe>(
    probe: &Probe,
    version: OsVersion,
    architecture: MacosArchitecture,
) -> (outcome: CompatibilityOutcome)
    ensures
        outcome == outcome_of(
            Some(version),
            probe.probed_build(),
            architecture,
            offers_required(*probe),
        ),
{
    let minimum = match architecture {
        MacosArchitecture::Arm64 => minimum_arm64_os(),
        MacosArchitecture::X86_64 => minimum_x86_64_os(),
        MacosArchitecture::Other => {
            return CompatibilityOutcome::Incompatible(
                IncompatibilityReason::UnsupportedArchitecture,
            );
        },
    };
    if version.older_than(minimum) {
        return CompatibilityOutcome::Incompatible(IncompatibilityReason::BelowDeploymentTarget);
    }
    if !entries_complete(probe) {
        return CompatibilityOutcome::Incompatible(IncompatibilityReason::MissingRequiredSpi);
    }
    let build = probe.os_build();
    if has_evidence(version, &build, architecture) {
        CompatibilityOutcome::Runnable(MacosSupport::Verified)
    } else {
        CompatibilityOutcome::Runnable(MacosSupport::BestEffort)
    }
}

/// The first component of a dotted text.
pub open spec fn first_component(text: Seq<u8>) -> Seq<u8> {
    text.take(first_place(text, 46) as int)
}

/// What follows the first component of a dotted text, if anything does.
pub open spec fn further_components(text: Seq<u8>) -> Option<Seq<u8>> {
    if first_place(text, 46) < text.len() {
        Some(text.skip(first_place(text, 46) as int + 1))
    } else {
        None
    }
}

/// The number in the first component, where a missing text counts as zero.
pub open spec fn component_number(text: Option<Seq<u8>>) -> Option<u64> {
    match text {
        Some(text) => bounded_decimal(first_component(text), 65535),
        None => Some(0),
    }
}

/// What follows the first component of an optional text.
pub open spec fn components_after(text: Option<Seq<u8>>) -> Option<Seq<u8>> {
    match text {
        Some(text) => further_components(text),
        None => None,
    }
}

/// The version that a text spells: a major release, and a minor and a patch release that default
/// to zero.
pub open spec fn version_of(text: Seq<u8>) -> Option<OsVersion> {
    let minors = further_components(text);
    match (
        component_number(Some(text)),
        component_number(minors),
        component_number(components_after(minors)),
    ) {
        (Some(major), Some(minor), Some(patch)) => Some(
            OsVersion { major: major as u16, minor: minor as u16, patch: patch as u16 },
        ),
        _ => None,
    }
}

/// Parses a macOS product version such as `26.2.1`.
pub fn parse_os_version(text: &str) -> (version: Option<OsVersion>)
    ensures
        version == version_of(text.spec_bytes()),
{
    let source = text.as_bytes();
    let first: usize = find_place(source, 46);
    proof {
        assert(source@.subrange(0, first as int) =~= first_component(source@));
    }
    let major = parse_decimal_bytes(slice_subrange(source, 0, first), 65535)?;
    if first == source.len() {
        return Some(OsVersion { major: major as u16, minor: 0, patch: 0 });
    }
    let minors = slice_subrange(source, first + 1, source.len());
    proof {
        assert(minors@ =~= source@.skip(first + 1));
    }
    let second: usize = find_place(minors, 46);
    proof {
        assert(minors@.subrange(0, second as int) =~= first_component(minors@));
    }
    let minor = parse_decimal_bytes(slice_subrange(minors, 0, second), 65535)?;
    if second == minors.len() {
        return Some(OsVersion { major: major as u16, minor: minor as u16, patch: 0 });
    }
    let patches = slice_subrange(minors, second + 1, minors.len());
    proof {
        assert(patches@ =~= minors@.skip(second + 1));
    }
    let third: usize = find_place(patches, 46);
    proof {
        assert(patches@.subrange(0, third as int) =~= first_component(patches@));
    }
    let patch = parse_decimal_bytes(slice_subrange(patches, 0, third), 65535)?;
    Some(OsVersion { major: major as u16, minor: minor as u16, patch: patch as u16 })
}

/// Every entry that the slice asks for is a selector without which it does not start.
pub proof fn law_asked_entries_are_required(index: int)
    requires
        0 <= index < required_entries().len(),
    ensures
        required_entries()[index].requirement is Required,
        required_entries()[index].kind is Selector,
{
    assert(index == 0 || index == 1 || index == 2 || index == 3);
}

} // verus!
