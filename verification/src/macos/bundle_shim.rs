//! Entrypoint slot, callback outcomes and end-to-end test configuration of the injected bundle.

use vstd::prelude::*;
use vstd::string::StringSliceAdditionalSpecFns;

use crate::domain::bytes::{bytes_equal, starts_with};
use crate::domain::error::{report, ErrorCategory, ErrorCode, ErrorReport, Recoverability};
use crate::domain::text::{
    bounded_decimal, decimal_digits, decode_hex, hex_bytes, hex_text, law_decimal_round_trip,
    law_hex_round_trip, lemma_hex_text, lemma_plain_bytes, parse_decimal, texts_equal,
};

verus! {

/// Prefix accepted for per-run E2E bundle-load notifications.
pub const E2E_BUNDLE_LOAD_NOTIFICATION_PREFIX: &'static str = "dev.nwipc.webkit-e2e.bundle-loaded.";

/// Prefix accepted for per-run renderer-to-peer echo completion notifications.
pub const E2E_BINARY_ECHO_NOTIFICATION_PREFIX: &'static str = "dev.nwipc.webkit-e2e.binary-echo.";

/// Longest notification name in bytes.
pub const MAXIMUM_NOTIFICATION_LENGTH: usize = 128;

/// Operation of a callback that panicked.
pub const PANIC_OPERATION: &'static str = "bundle callback panic";

/// The report of a shim failure.
pub open spec fn shim_report(operation: &'static str) -> ErrorReport {
    report(
        ErrorCategory::Platform,
        ErrorCode::Internal,
        Recoverability::ReplaceEndpoint,
        operation,
    )
}

/// Creates the report of a shim failure.
pub fn shim_error(operation: &'static str) -> (created: ErrorReport)
    ensures
        created == shim_report(operation),
{
    ErrorReport::new(
        ErrorCategory::Platform,
        ErrorCode::Internal,
        Recoverability::ReplaceEndpoint,
        operation,
    )
}

/// Where the orchestration object is kept for `WebKit`'s callbacks.
pub struct EntrypointSlot<Entrypoint> {
    /// The orchestration object, once it is installed.
    pub entrypoint: Option<Entrypoint>,
    /// Whether the boundary caught a panic or was initialized without an object.
    pub failed: bool,
}

/// What a callback came to: nothing, if it panicked.
pub open spec fn callback_outcome(returned: Option<Result<(), ErrorReport>>) -> Result<
    (),
    ErrorReport,
> {
    match returned {
        Some(outcome) => outcome,
        None => Err(shim_report(PANIC_OPERATION)),
    }
}

/// Whether an outcome reports a panic.
pub open spec fn reports_panic(outcome: Result<(), ErrorReport>) -> bool {
    outcome is Err && outcome->Err_0.context@ == PANIC_OPERATION@
}

impl<Entrypoint> EntrypointSlot<Entrypoint> {
    /// Creates an empty slot.
    pub fn new() -> (slot: Self)
        ensures
            slot.entrypoint is None,
            !slot.failed,
    {
        EntrypointSlot { entrypoint: None, failed: false }
    }

    /// Installs the orchestration object before `WebKit` invokes the exported entrypoint.
    ///
    /// Duplicate installation is rejected.
    pub fn install_entrypoint(&mut self, entrypoint: Entrypoint) -> (installed: Result<
        (),
        ErrorReport,
    >)
        ensures
            final(self).failed == old(self).failed,
            if old(self).entrypoint is Some {
                installed == Err::<(), ErrorReport>(shim_report("duplicate bundle entrypoint"))
                    && final(self).entrypoint == old(self).entrypoint
            } else {
                installed is Ok && final(self).entrypoint == Some(entrypoint)
            },
    {
        if self.entrypoint.is_some() {
            return Err(shim_error("duplicate bundle entrypoint"));
        }
        self.entrypoint = Some(entrypoint);
        Ok(())
    }

    /// Takes the orchestration object out for one callback.
    ///
    /// A missing object is rejected.
    pub fn begin(&mut self) -> (taken: Result<Entrypoint, ErrorReport>)
        ensures
            final(self).failed == old(self).failed,
            match old(self).entrypoint {
                Some(entrypoint) => taken is Ok && taken->Ok_0 == entrypoint
                    && final(self).entrypoint is None,
                None => taken is Err && taken->Err_0 == shim_report("missing bundle entrypoint")
                    && final(self).entrypoint is None,
            },
    {
        match self.entrypoint.take() {
            Some(entrypoint) => Ok(entrypoint),
            None => Err(shim_error("missing bundle entrypoint")),
        }
    }

    /// Puts the orchestration object back after a callback, which returned an outcome or panicked.
    pub fn finish(&mut self, entrypoint: Entrypoint, returned: Option<Result<(), ErrorReport>>) -> (
        outcome: Result<(), ErrorReport>)
        ensures
            outcome == callback_outcome(returned),
            final(self).entrypoint == Some(entrypoint),
            final(self).failed == (old(self).failed || reports_panic(callback_outcome(returned))),
    {
        self.entrypoint = Some(entrypoint);
        let outcome = match returned {
            Some(outcome) => outcome,
            None => Err(shim_error(PANIC_OPERATION)),
        };
        let panicked = match &outcome {
            Ok(()) => false,
            Err(error) => texts_equal(error.context(), PANIC_OPERATION),
        };
        if panicked {
            self.failed = true;
        }
        outcome
    }

    /// Records that `WebKit` initialized the bundle: without an object, initialization failed.
    pub fn initialize(&mut self)
        ensures
            final(self).entrypoint == old(self).entrypoint,
            final(self).failed == (old(self).failed || old(self).entrypoint is None),
    {
        if self.entrypoint.is_none() {
            self.failed = true;
        }
    }

    /// Whether initialization failed.
    pub fn initialization_failed(&self) -> (failed: bool)
        ensures
            failed == self.failed,
    {
        self.failed
    }
}

/// Whether a name starts with a prefix.
pub open spec fn has_prefix(name: Seq<u8>, prefix: Seq<u8>) -> bool {
    prefix.len() <= name.len() && name.subrange(0, prefix.len() as int) == prefix
}

/// Whether a notification may be posted under a name.
pub fn notification_is_allowed(name: &str, prefix: &str) -> (allowed: bool)
    ensures
        allowed == (has_prefix(name.spec_bytes(), prefix.spec_bytes())
            && name.spec_bytes().len() <= MAXIMUM_NOTIFICATION_LENGTH),
{
    starts_with(name.as_bytes(), prefix.as_bytes()) && name.as_bytes().len()
        <= MAXIMUM_NOTIFICATION_LENGTH
}

/// Bundle parameters of an end-to-end test run.
pub struct E2eParameters {
    /// Whether the run is enabled.
    pub enabled: Option<String>,
    /// Hexadecimal `IOSurface` descriptor.
    pub descriptor: Option<String>,
    /// Name of the load notification.
    pub load_notification: Option<String>,
    /// Name of the echo notification.
    pub echo_notification: Option<String>,
    /// Seconds to wait for the echo.
    pub timeout: Option<String>,
}

/// Configuration of an end-to-end test run.
pub struct E2eConfiguration {
    /// Encoded `IOSurface` descriptor.
    pub descriptor: Vec<u8>,
    /// Name of the load notification.
    pub load_notification: String,
    /// Name of the echo notification.
    pub echo_notification: String,
    /// Seconds to wait for the echo.
    pub timeout_seconds: u64,
}

/// Bytes of the descriptor of a run.
pub const E2E_DESCRIPTOR_LENGTH: usize = 20;

/// The bytes that a text of an exact length spells in hexadecimal.
pub open spec fn exact_hex(text: Seq<u8>, length: nat) -> Option<Seq<u8>> {
    if text.len() == 2 * length {
        hex_bytes(text)
    } else {
        None
    }
}

/// Decodes exactly `length` bytes of hexadecimal text.
pub fn decode_exact_hex(text: &str, length: usize) -> (bytes: Option<Vec<u8>>)
    requires
        2 * length <= usize::MAX,
    ensures
        match bytes {
            Some(bytes) => exact_hex(text.spec_bytes(), length as nat) == Some(bytes@),
            None => exact_hex(text.spec_bytes(), length as nat) is None,
        },
{
    if text.as_bytes().len() != 2 * length {
        return None;
    }
    decode_hex(text)
}

/// The seconds that a run waits: one to 300, and 20 where nothing valid is given.
pub open spec fn timeout_of(text: Option<Seq<u8>>) -> u64 {
    match text {
        Some(text) => match bounded_decimal(text, u64::MAX) {
            Some(seconds) => if 1 <= seconds <= 300 {
                seconds
            } else {
                20
            },
            None => 20,
        },
        None => 20,
    }
}

/// The bytes of an optional text.
pub open spec fn text_bytes(text: Option<String>) -> Option<Seq<u8>> {
    match text {
        Some(text) => Some(vstd::utf8::encode_utf8(text@)),
        None => None,
    }
}

/// Whether parameters configure a run.
pub open spec fn configures(parameters: E2eParameters) -> bool {
    &&& text_bytes(parameters.enabled) == Some("1".spec_bytes())
    &&& parameters.descriptor is Some
    &&& parameters.load_notification is Some
    &&& parameters.echo_notification is Some
    &&& exact_hex(text_bytes(parameters.descriptor)->0, E2E_DESCRIPTOR_LENGTH as nat) is Some
    &&& has_prefix(
        text_bytes(parameters.load_notification)->0,
        E2E_BUNDLE_LOAD_NOTIFICATION_PREFIX.spec_bytes(),
    )
    &&& has_prefix(
        text_bytes(parameters.echo_notification)->0,
        E2E_BINARY_ECHO_NOTIFICATION_PREFIX.spec_bytes(),
    )
}

/// Validates the parameters of a run; nothing comes of parameters that do not configure one.
pub fn configure_e2e(parameters: E2eParameters) -> (configuration: Option<E2eConfiguration>)
    ensures
        match configuration {
            Some(configuration) => {
                &&& configures(parameters)
                &&& exact_hex(
                    text_bytes(parameters.descriptor)->0,
                    E2E_DESCRIPTOR_LENGTH as nat,
                ) == Some(configuration.descriptor@)
                &&& Some(configuration.load_notification) == parameters.load_notification
                &&& Some(configuration.echo_notification) == parameters.echo_notification
                &&& configuration.timeout_seconds == timeout_of(text_bytes(parameters.timeout))
            },
            None => !configures(parameters),
        },
{
    let enabled = match &parameters.enabled {
        Some(enabled) => bytes_equal(enabled.as_str().as_bytes(), "1".as_bytes()),
        None => false,
    };
    if !enabled {
        return None;
    }
    let descriptor = parameters.descriptor?;
    let load_notification = parameters.load_notification?;
    let echo_notification = parameters.echo_notification?;
    let timeout_seconds: u64 = match &parameters.timeout {
        Some(timeout) => match parse_decimal(timeout.as_str(), u64::MAX) {
            Some(seconds) => if seconds >= 1 && seconds <= 300 {
                seconds
            } else {
                20
            },
            None => 20,
        },
        None => 20,
    };
    let descriptor = decode_exact_hex(descriptor.as_str(), E2E_DESCRIPTOR_LENGTH)?;
    if !starts_with(
        load_notification.as_str().as_bytes(),
        E2E_BUNDLE_LOAD_NOTIFICATION_PREFIX.as_bytes(),
    ) || !starts_with(
        echo_notification.as_str().as_bytes(),
        E2E_BINARY_ECHO_NOTIFICATION_PREFIX.as_bytes(),
    ) {
        return None;
    }
    Some(E2eConfiguration { descriptor, load_notification, echo_notification, timeout_seconds })
}

/// Where an echo stands in the shared region.
#[derive(Clone, Copy, Debug, PartialEq, Eq, Structural)]
pub enum EchoState {
    /// The renderer asked for an echo.
    RendererRequest,
    /// The peer echoed.
    PeerEcho,
    /// The renderer verified the echo.
    RendererVerified,
}

/// What the renderer does next in an echo.
#[derive(Clone, Copy, Debug, PartialEq, Eq, Structural)]
pub enum EchoStep {
    /// Nothing is left to do.
    Done,
    /// The request is written.
    WriteRequest,
    /// The region is read again.
    ReadAgain,
    /// The verification is written, and its notification is posted.
    WriteVerified,
}

/// Begins an echo with the frame in the region, if there is a valid one.
pub fn begin_echo(state: Option<EchoState>) -> (step: EchoStep)
    ensures
        step == if state == Some(EchoState::RendererVerified) {
            EchoStep::Done
        } else {
            EchoStep::WriteRequest
        },
{
    match state {
        Some(EchoState::RendererVerified) => EchoStep::Done,
        _ => EchoStep::WriteRequest,
    }
}

/// Goes on with an echo.
///
/// An expired wait and an echo of another payload are rejected.
pub fn continue_echo(
    expired: bool,
    state: Option<EchoState>,
    payload_matches: bool,
) -> (step: Result<
    EchoStep,
    ErrorReport,
>)
    ensures
        step == if expired {
            Err::<EchoStep, ErrorReport>(shim_report("renderer peer echo timeout"))
        } else if state != Some(EchoState::PeerEcho) {
            Ok(EchoStep::ReadAgain)
        } else if !payload_matches {
            Err(shim_report("renderer peer echo mismatch"))
        } else {
            Ok(EchoStep::WriteVerified)
        },
{
    if expired {
        return Err(shim_error("renderer peer echo timeout"));
    }
    match state {
        Some(EchoState::PeerEcho) => {
            if !payload_matches {
                return Err(shim_error("renderer peer echo mismatch"));
            }
            Ok(EchoStep::WriteVerified)
        },
        _ => Ok(EchoStep::ReadAgain),
    }
}

/// A run waits from one second to 300: as long as it is told in decimal digits where that is within
/// these bounds, and 20 seconds where it is told anything else or nothing.
pub proof fn law_waits_are_bounded(text: Option<Seq<u8>>, seconds: u64)
    ensures
        1 <= timeout_of(text) <= 300,
        timeout_of(None) == 20,
        timeout_of(Some(vstd::utf8::encode_utf8(decimal_digits(seconds as nat)))) == if 1
            <= seconds && seconds <= 300 {
            seconds
        } else {
            20
        },
{
    law_decimal_round_trip(seconds as nat);
}

/// A callback that returned is told what it returned; one that did not is told as a panic, and it
/// is the only one that is unless its own report names a panic.
pub proof fn law_panics_are_told(returned: Option<Result<(), ErrorReport>>)
    ensures
        returned matches Some(outcome) ==> callback_outcome(returned) == outcome,
        returned is None ==> reports_panic(callback_outcome(returned)) && (callback_outcome(
            returned,
        ) matches Err(error) && error.code is Internal),
        returned matches Some(Ok(_)) ==> !reports_panic(callback_outcome(returned)),
{
}

/// An echo is asked for unless it was verified, read for again until the peer answered, and
/// verified only in time and with the very payload that was sent.
pub proof fn law_echoes_are_verified_once(
    state: Option<EchoState>,
    expired: bool,
    payload_matches: bool,
    begun: EchoStep,
    step: Result<EchoStep, ErrorReport>,
)
    requires
        call_ensures(begin_echo, (state,), begun),
        call_ensures(continue_echo, (expired, state, payload_matches), step),
    ensures
        begun is Done <==> (state matches Some(EchoState::RendererVerified)),
        begun is WriteRequest <==> !(state matches Some(EchoState::RendererVerified)),
        step matches Ok(EchoStep::WriteVerified) ==> !expired && payload_matches && (
        state matches Some(EchoState::PeerEcho)),
        !expired && payload_matches && (state matches Some(EchoState::PeerEcho)) ==> (
        step matches Ok(EchoStep::WriteVerified)),
        step is Err <==> expired || ((state matches Some(EchoState::PeerEcho))
            && !payload_matches),
        step matches Ok(found) ==> found is WriteVerified || found is ReadAgain,
{
}

/// A name under which a notification may be posted is its prefix and something behind it, and not
/// longer than 128 bytes.
pub proof fn law_notifications_keep_their_prefix(name: &str, prefix: &str, allowed: bool)
    requires
        call_ensures(notification_is_allowed, (name, prefix), allowed),
    ensures
        allowed <==> name.spec_bytes().len() <= 128 && prefix.spec_bytes().is_prefix_of(
            name.spec_bytes(),
        ),
{
    if prefix.spec_bytes().len() <= name.spec_bytes().len() {
        let count = prefix.spec_bytes().len() as int;
        assert(name.spec_bytes().subrange(0, count) =~= name.spec_bytes().take(count));
        if prefix.spec_bytes().is_prefix_of(name.spec_bytes()) {
            assert(name.spec_bytes().subrange(0, count) =~= prefix.spec_bytes());
        }
    }
}

/// A descriptor is decoded from exactly twice as many digits as it has bytes, and no other text
/// gives that many bytes.
pub proof fn law_exact_texts_have_two_digits_a_byte(bytes: Seq<u8>, text: Seq<u8>, length: nat)
    ensures
        exact_hex(vstd::utf8::encode_utf8(hex_text(bytes)), bytes.len()) == Some(bytes),
        text.len() != 2 * length ==> exact_hex(text, length) is None,
{
    law_hex_round_trip(bytes);
    lemma_hex_text(bytes);
    lemma_plain_bytes(hex_text(bytes));
}

} // verus!
