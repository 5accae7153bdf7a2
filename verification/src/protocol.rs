//! HELLO/ACK handshake that selects version, capabilities and message limit of a session.

use vstd::prelude::*;
use vstd::slice::slice_subrange;

use crate::domain::bytes::{
    bytes_equal, le_at, le_bytes, lemma_le_at_append, lemma_le_bytes_len, lemma_le_limits,
    push_bytes, push_u128, push_u32, push_u64, read_u128, read_u32, read_u64,
};
use crate::domain::capabilities::{
    negotiate, negotiated, NegotiatedCapabilities, RequestedCapabilities, RequiredCapabilities,
    SupportedCapabilities, TransportCapabilities,
};
use crate::domain::error::{report, ErrorCategory, ErrorCode, ErrorReport, Recoverability};
use crate::domain::types::{group_identities, Generation, SessionId};

verus! {

broadcast use group_identities;

/// First byte of a HELLO.
pub const HELLO_KIND: u8 = 1;

/// First byte of an ACK.
pub const ACK_KIND: u8 = 2;

/// Bytes of a HELLO before its proof.
pub const HELLO_HEADER: usize = 51;

/// Bytes of an ACK before its proof.
pub const ACK_HEADER: usize = 41;

/// Major version of the current protocol.
pub const CURRENT_MAJOR: u8 = 1;

/// Minor version of the current protocol.
pub const CURRENT_MINOR: u8 = 0;

/// One endpoint of a handshake.
#[derive(Clone, Copy, Debug, PartialEq, Eq, Structural)]
pub enum EndpointRole {
    /// `WebKit` renderer.
    Renderer,
    /// Native peer.
    Peer,
    /// Parent control plane.
    Coordinator,
}

impl EndpointRole {
    /// The stable wire value.
    pub open spec fn wire(self) -> u8 {
        match self {
            EndpointRole::Renderer => 1,
            EndpointRole::Peer => 2,
            EndpointRole::Coordinator => 3,
        }
    }

    /// Encodes the stable wire value.
    pub fn to_wire(self) -> (value: u8)
        ensures
            value == self.wire(),
    {
        match self {
            EndpointRole::Renderer => 1,
            EndpointRole::Peer => 2,
            EndpointRole::Coordinator => 3,
        }
    }
}

/// A protocol version.
#[derive(Clone, Copy, Debug, PartialEq, Eq, Structural)]
pub struct ProtocolVersion {
    /// Incompatible revisions.
    pub major: u8,
    /// Compatible revisions.
    pub minor: u8,
}

impl ProtocolVersion {
    /// The version as one number that orders versions.
    pub open spec fn rank(self) -> int {
        self.major * 256 + self.minor
    }

    /// Creates a version.
    pub fn new(major: u8, minor: u8) -> (version: Self)
        ensures
            version == (ProtocolVersion { major, minor }),
    {
        ProtocolVersion { major, minor }
    }

    /// The current version.
    pub fn current() -> (version: Self)
        ensures
            version == (ProtocolVersion { major: CURRENT_MAJOR, minor: CURRENT_MINOR }),
    {
        ProtocolVersion { major: CURRENT_MAJOR, minor: CURRENT_MINOR }
    }

    fn number(self) -> (number: u16)
        ensures
            number == self.rank(),
    {
        self.major as u16 * 256 + self.minor as u16
    }
}

/// Supported versions, inclusive at both ends.
#[derive(Clone, Copy, Debug, PartialEq, Eq, Structural)]
pub struct VersionRange {
    /// Lowest version.
    pub minimum: ProtocolVersion,
    /// Highest version.
    pub maximum: ProtocolVersion,
}

/// The newest version of two intervals, if they meet.
pub open spec fn common_version(left: VersionRange, right: VersionRange) -> Option<
    ProtocolVersion,
> {
    let low = if left.minimum.rank() >= right.minimum.rank() {
        left.minimum
    } else {
        right.minimum
    };
    let high = if left.maximum.rank() <= right.maximum.rank() {
        left.maximum
    } else {
        right.maximum
    };
    if low.rank() <= high.rank() {
        Some(high)
    } else {
        None
    }
}

impl VersionRange {
    /// The interval of one version.
    pub fn exact(version: ProtocolVersion) -> (range: Self)
        ensures
            range == (VersionRange { minimum: version, maximum: version }),
    {
        VersionRange { minimum: version, maximum: version }
    }

    /// Selects the newest version of both intervals.
    pub fn select(self, other: Self) -> (selected: Option<ProtocolVersion>)
        ensures
            selected == common_version(self, other),
    {
        let low = if self.minimum.number() >= other.minimum.number() {
            self.minimum
        } else {
            other.minimum
        };
        let high = if self.maximum.number() <= other.maximum.number() {
            self.maximum
        } else {
            other.maximum
        };
        if low.number() <= high.number() {
            Some(high)
        } else {
            None
        }
    }
}

/// Who takes part in a handshake, and in which session generation.
#[derive(Clone, Copy, PartialEq, Eq, Structural)]
pub struct HandshakeIdentity {
    /// Session identity.
    pub session_id: SessionId,
    /// Resource generation.
    pub generation: Generation,
    /// Local role.
    pub role: EndpointRole,
}

/// What a completed handshake selected.
#[derive(Clone, Copy, Debug, PartialEq, Eq, Structural)]
pub struct NegotiatedProtocol {
    /// Selected version.
    pub version: ProtocolVersion,
    /// Selected capabilities.
    pub capabilities: NegotiatedCapabilities,
    /// Largest message that both sides accept.
    pub maximum_message: u32,
}

/// What the initiating side offers.
pub struct InitiatorConfig {
    /// Local identity.
    pub identity: HandshakeIdentity,
    /// Role of the other side.
    pub remote_role: EndpointRole,
    /// Offered versions.
    pub versions: VersionRange,
    /// Wanted capabilities.
    pub requested: RequestedCapabilities,
    /// Needed capabilities.
    pub required: RequiredCapabilities,
    /// Largest message that this side accepts.
    pub maximum_message: u32,
    /// One-shot authentication material.
    pub proof_bytes: Vec<u8>,
}

/// What the accepting side provides.
pub struct AcceptorConfig {
    /// Local identity.
    pub identity: HandshakeIdentity,
    /// Role of the other side.
    pub remote_role: EndpointRole,
    /// Supported versions.
    pub versions: VersionRange,
    /// Supported capabilities.
    pub supported: SupportedCapabilities,
    /// Largest message that this side accepts.
    pub maximum_message: u32,
    /// One-shot authentication material.
    pub proof_bytes: Vec<u8>,
}

/// The report of a rejected handshake.
pub open spec fn handshake_report(code: ErrorCode, operation: &'static str) -> ErrorReport {
    report(
        if code is AuthenticationFailed {
            ErrorCategory::Security
        } else {
            ErrorCategory::Protocol
        },
        code,
        Recoverability::ReplaceEndpoint,
        operation,
    )
}

fn handshake_error(code: ErrorCode, operation: &'static str) -> (created: ErrorReport)
    ensures
        created == handshake_report(code, operation),
{
    let category = match code {
        ErrorCode::AuthenticationFailed => ErrorCategory::Security,
        _ => ErrorCategory::Protocol,
    };
    ErrorReport::new(category, code, Recoverability::ReplaceEndpoint, operation)
}

/// Why a side may not start a handshake, if it may not.
pub open spec fn offer_rejection(
    versions: VersionRange,
    maximum_message: u32,
    proof_bytes: Seq<u8>,
) -> Option<
    ErrorReport,
> {
    if versions.minimum.major == 0 || versions.minimum.rank() > versions.maximum.rank() {
        Some(handshake_report(ErrorCode::LayoutVersionMismatch, "handshake version"))
    } else if maximum_message == 0 {
        Some(handshake_report(ErrorCode::InvalidRange, "handshake message limit"))
    } else if proof_bytes.len() == 0 {
        Some(handshake_report(ErrorCode::InvalidRange, "handshake proof"))
    } else {
        None
    }
}

fn check_offer(
    versions: VersionRange,
    maximum_message: u32,
    proof_bytes: &[u8],
) -> (checked: Result<
    (),
    ErrorReport,
>)
    ensures
        match checked {
            Ok(_) => offer_rejection(versions, maximum_message, proof_bytes@) is None,
            Err(error) => offer_rejection(versions, maximum_message, proof_bytes@) == Some(error),
        },
{
    if versions.minimum.major == 0 || versions.minimum.number() > versions.maximum.number() {
        return Err(handshake_error(ErrorCode::LayoutVersionMismatch, "handshake version"));
    }
    if maximum_message == 0 {
        return Err(handshake_error(ErrorCode::InvalidRange, "handshake message limit"));
    }
    if proof_bytes.len() == 0 {
        return Err(handshake_error(ErrorCode::InvalidRange, "handshake proof"));
    }
    Ok(())
}

/// The HELLO of an initiator.
pub open spec fn hello_bytes(config: InitiatorConfig) -> Seq<u8> {
    seq![
        HELLO_KIND,
        config.identity.role.wire(),
        config.remote_role.wire(),
        config.versions.minimum.major,
        config.versions.minimum.minor,
        config.versions.maximum.major,
        config.versions.maximum.minor,
    ] + le_bytes(config.identity.session_id@ as nat, 16) + le_bytes(
        config.identity.generation@ as nat,
        8,
    ) + le_bytes(config.requested.set.bits as nat, 8) + le_bytes(
        config.required.set.bits as nat,
        8,
    ) + le_bytes(config.maximum_message as nat, 4) + config.proof_bytes@
}

/// The ACK of an acceptor.
pub open spec fn ack_bytes(config: AcceptorConfig, selected: NegotiatedProtocol) -> Seq<u8> {
    seq![
        ACK_KIND,
        config.identity.role.wire(),
        config.remote_role.wire(),
        selected.version.major,
        selected.version.minor,
    ] + le_bytes(config.identity.session_id@ as nat, 16) + le_bytes(
        config.identity.generation@ as nat,
        8,
    ) + le_bytes(selected.capabilities.set.bits as nat, 8) + le_bytes(
        selected.maximum_message as nat,
        4,
    ) + config.proof_bytes@
}

/// The versions that a HELLO offers.
pub open spec fn hello_versions(frame: Seq<u8>) -> VersionRange {
    VersionRange {
        minimum: ProtocolVersion { major: frame[3], minor: frame[4] },
        maximum: ProtocolVersion { major: frame[5], minor: frame[6] },
    }
}

/// What an acceptor with this configuration selects for a HELLO.
pub open spec fn acceptance(config: AcceptorConfig, frame: Seq<u8>) -> Result<
    NegotiatedProtocol,
    ErrorReport,
> {
    if frame.len() < HELLO_HEADER {
        Err(handshake_report(ErrorCode::Truncated, "handshake hello"))
    } else if frame[0] != HELLO_KIND || frame[1] != config.remote_role.wire() || frame[2]
        != config.identity.role.wire() || le_at(frame, 7, 16) != config.identity.session_id@ {
        Err(handshake_report(ErrorCode::ProtocolViolation, "handshake identity"))
    } else if le_at(frame, 23, 8) != config.identity.generation@ {
        Err(handshake_report(ErrorCode::StaleGeneration, "handshake generation"))
    } else if frame.subrange(HELLO_HEADER as int, frame.len() as int) != config.proof_bytes@ {
        Err(handshake_report(ErrorCode::AuthenticationFailed, "handshake proof"))
    } else if common_version(config.versions, hello_versions(frame)) is None {
        Err(handshake_report(ErrorCode::LayoutVersionMismatch, "handshake version"))
    } else if le_at(frame, 47, 4) == 0 {
        Err(handshake_report(ErrorCode::InvalidRange, "handshake message limit"))
    } else {
        let offered = le_at(frame, 47, 4) as u32;
        match negotiated(
            config.supported,
            RequestedCapabilities {
                set: TransportCapabilities { bits: le_at(frame, 31, 8) as u64 },
            },
            RequiredCapabilities {
                set: TransportCapabilities { bits: le_at(frame, 39, 8) as u64 },
            },
        ) {
            Ok(capabilities) => Ok(
                NegotiatedProtocol {
                    version: common_version(config.versions, hello_versions(frame))->0,
                    capabilities,
                    maximum_message: if offered <= config.maximum_message {
                        offered
                    } else {
                        config.maximum_message
                    },
                },
            ),
            Err(error) => Err(error),
        }
    }
}

/// What an initiator with this configuration makes of an ACK.
pub open spec fn acknowledgement(config: InitiatorConfig, frame: Seq<u8>) -> Result<
    NegotiatedProtocol,
    ErrorReport,
> {
    let version = ProtocolVersion { major: frame[3], minor: frame[4] };
    let exact = VersionRange { minimum: version, maximum: version };
    let selected = TransportCapabilities { bits: le_at(frame, 29, 8) as u64 };
    if frame.len() < ACK_HEADER {
        Err(handshake_report(ErrorCode::Truncated, "handshake acknowledgement"))
    } else if frame[0] != ACK_KIND || frame[1] != config.remote_role.wire() || frame[2]
        != config.identity.role.wire() || le_at(frame, 5, 16) != config.identity.session_id@ {
        Err(handshake_report(ErrorCode::ProtocolViolation, "handshake identity"))
    } else if le_at(frame, 21, 8) != config.identity.generation@ {
        Err(handshake_report(ErrorCode::StaleGeneration, "handshake generation"))
    } else if frame.subrange(ACK_HEADER as int, frame.len() as int) != config.proof_bytes@ {
        Err(handshake_report(ErrorCode::AuthenticationFailed, "handshake proof"))
    } else if common_version(config.versions, exact) is None {
        Err(handshake_report(ErrorCode::LayoutVersionMismatch, "handshake version"))
    } else if !selected.includes(config.required.set) || !config.requested.set.includes(selected) {
        Err(
            handshake_report(ErrorCode::RequiredCapabilityMissing, "handshake capabilities"),
        )
    } else if le_at(frame, 37, 4) == 0 || le_at(frame, 37, 4) > config.maximum_message {
        Err(handshake_report(ErrorCode::InvalidRange, "handshake message limit"))
    } else {
        Ok(
            NegotiatedProtocol {
                version,
                capabilities: NegotiatedCapabilities { set: selected },
                maximum_message: le_at(frame, 37, 4) as u32,
            },
        )
    }
}

/// How far a handshake has come.
#[derive(Clone, Copy, Debug, PartialEq, Eq, Structural)]
pub enum HandshakeStep {
    /// Nothing was exchanged.
    Created,
    /// The HELLO was emitted.
    Offered,
    /// The handshake succeeded or failed.
    Finished,
}

/// The report of a handshake step out of order.
pub open spec fn order_report() -> ErrorReport {
    handshake_report(ErrorCode::InvalidStateTransition, "handshake order")
}

/// Initiating side of a handshake.
pub struct InitiatorHandshake {
    /// What this side offers.
    pub config: InitiatorConfig,
    /// How far the handshake has come.
    pub step: HandshakeStep,
}

impl InitiatorHandshake {
    /// Starts a handshake.
    ///
    /// An invalid version interval, message limit, or proof is rejected before any byte is
    /// emitted.
    pub fn new(config: InitiatorConfig) -> (created: Result<Self, ErrorReport>)
        ensures
            match created {
                Ok(handshake) => {
                    &&& offer_rejection(
                        config.versions,
                        config.maximum_message,
                        config.proof_bytes@,
                    ) is None
                    &&& handshake.config == config
                    &&& handshake.step is Created
                },
                Err(error) => offer_rejection(
                    config.versions,
                    config.maximum_message,
                    config.proof_bytes@,
                ) == Some(error),
            },
    {
        match check_offer(config.versions, config.maximum_message, config.proof_bytes.as_slice()) {
            Ok(_) => Ok(InitiatorHandshake { config, step: HandshakeStep::Created }),
            Err(error) => Err(error),
        }
    }

    /// Emits the HELLO, once.
    pub fn hello(&mut self) -> (frame: Result<Vec<u8>, ErrorReport>)
        ensures
            final(self).config == old(self).config,
            match frame {
                Ok(bytes) => {
                    &&& old(self).step is Created
                    &&& final(self).step is Offered
                    &&& bytes@ == hello_bytes(old(self).config)
                },
                Err(error) => {
                    &&& !(old(self).step is Created)
                    &&& error == order_report()
                    &&& final(self).step == old(self).step
                },
            },
    {
        match self.step {
            HandshakeStep::Created => {},
            _ => {
                return Err(handshake_error(ErrorCode::InvalidStateTransition, "handshake order"));
            },
        }
        let mut frame: Vec<u8> = Vec::new();
        frame.push(HELLO_KIND);
        frame.push(self.config.identity.role.to_wire());
        frame.push(self.config.remote_role.to_wire());
        frame.push(self.config.versions.minimum.major);
        frame.push(self.config.versions.minimum.minor);
        frame.push(self.config.versions.maximum.major);
        frame.push(self.config.versions.maximum.minor);
        push_u128(&mut frame, self.config.identity.session_id.get());
        push_u64(&mut frame, self.config.identity.generation.get());
        push_u64(&mut frame, self.config.requested.set.bits);
        push_u64(&mut frame, self.config.required.set.bits);
        push_u32(&mut frame, self.config.maximum_message);
        push_bytes(&mut frame, self.config.proof_bytes.as_slice());
        proof {
            assert(frame@ =~= hello_bytes(self.config));
        }
        self.step = HandshakeStep::Offered;
        Ok(frame)
    }

    /// Checks the ACK and finishes the handshake.
    ///
    /// A malformed, stale, or unauthenticated ACK, or one that selects what was not offered, is
    /// rejected; a handshake is finished by either outcome.
    pub fn acknowledge(&mut self, frame: &[u8]) -> (outcome: Result<
        NegotiatedProtocol,
        ErrorReport,
    >)
        ensures
            final(self).config == old(self).config,
            if old(self).step is Offered {
                outcome == acknowledgement(old(self).config, frame@) && final(self).step is Finished
            } else {
                outcome == Err::<NegotiatedProtocol, ErrorReport>(order_report())
                    && final(self).step == old(self).step
            },
    {
        match self.step {
            HandshakeStep::Offered => {},
            _ => {
                return Err(handshake_error(ErrorCode::InvalidStateTransition, "handshake order"));
            },
        }
        self.step = HandshakeStep::Finished;
        check_ack(&self.config, frame)
    }
}

fn check_ack(config: &InitiatorConfig, frame: &[u8]) -> (outcome: Result<
    NegotiatedProtocol,
    ErrorReport,
>)
    ensures
        outcome == acknowledgement(*config, frame@),
{
    if frame.len() < ACK_HEADER {
        return Err(handshake_error(ErrorCode::Truncated, "handshake acknowledgement"));
    }
    if frame[0] != ACK_KIND || frame[1] != config.remote_role.to_wire() || frame[2]
        != config.identity.role.to_wire() || read_u128(frame, 5) != config.identity.session_id.get() {
        return Err(handshake_error(ErrorCode::ProtocolViolation, "handshake identity"));
    }
    if read_u64(frame, 21) != config.identity.generation.get() {
        return Err(handshake_error(ErrorCode::StaleGeneration, "handshake generation"));
    }
    if !bytes_equal(
        slice_subrange(frame, ACK_HEADER, frame.len()),
        config.proof_bytes.as_slice(),
    ) {
        return Err(handshake_error(ErrorCode::AuthenticationFailed, "handshake proof"));
    }
    let version = ProtocolVersion::new(frame[3], frame[4]);
    if config.versions.select(VersionRange::exact(version)).is_none() {
        return Err(handshake_error(ErrorCode::LayoutVersionMismatch, "handshake version"));
    }
    let selected = TransportCapabilities::from_bits(read_u64(frame, 29));
    if !selected.contains(config.required.set) || !config.requested.set.contains(selected) {
        return Err(
            handshake_error(ErrorCode::RequiredCapabilityMissing, "handshake capabilities"),
        );
    }
    let maximum_message: u32 = read_u32(frame, 37);
    if maximum_message == 0 || maximum_message > config.maximum_message {
        return Err(handshake_error(ErrorCode::InvalidRange, "handshake message limit"));
    }
    Ok(
        NegotiatedProtocol {
            version,
            capabilities: NegotiatedCapabilities::new(selected),
            maximum_message,
        },
    )
}

/// Accepting side of a handshake.
pub struct AcceptorHandshake {
    /// What this side provides.
    pub config: AcceptorConfig,
    /// How far the handshake has come.
    pub step: HandshakeStep,
}

impl AcceptorHandshake {
    /// Starts a handshake.
    ///
    /// An invalid version interval, message limit, or proof is rejected.
    pub fn new(config: AcceptorConfig) -> (created: Result<Self, ErrorReport>)
        ensures
            match created {
                Ok(handshake) => {
                    &&& offer_rejection(
                        config.versions,
                        config.maximum_message,
                        config.proof_bytes@,
                    ) is None
                    &&& handshake.config == config
                    &&& handshake.step is Created
                },
                Err(error) => offer_rejection(
                    config.versions,
                    config.maximum_message,
                    config.proof_bytes@,
                ) == Some(error),
            },
    {
        match check_offer(config.versions, config.maximum_message, config.proof_bytes.as_slice()) {
            Ok(_) => Ok(AcceptorHandshake { config, step: HandshakeStep::Created }),
            Err(error) => Err(error),
        }
    }

    /// Checks a HELLO and answers it, once.
    ///
    /// A malformed, stale, or unauthenticated HELLO, or one that cannot be satisfied, is
    /// rejected; a handshake is finished by either outcome.
    pub fn accept(&mut self, frame: &[u8]) -> (outcome: Result<
        (Vec<u8>, NegotiatedProtocol),
        ErrorReport,
    >)
        ensures
            final(self).config == old(self).config,
            match outcome {
                Ok((ack, selected)) => {
                    &&& old(self).step is Created
                    &&& final(self).step is Finished
                    &&& acceptance(old(self).config, frame@) == Ok::<
                        NegotiatedProtocol,
                        ErrorReport,
                    >(selected)
                    &&& ack@ == ack_bytes(old(self).config, selected)
                },
                Err(error) => if old(self).step is Created {
                    &&& acceptance(old(self).config, frame@) == Err::<
                        NegotiatedProtocol,
                        ErrorReport,
                    >(error)
                    &&& final(self).step is Finished
                } else {
                    error == order_report() && final(self).step == old(self).step
                },
            },
    {
        match self.step {
            HandshakeStep::Created => {},
            _ => {
                return Err(handshake_error(ErrorCode::InvalidStateTransition, "handshake order"));
            },
        }
        self.step = HandshakeStep::Finished;
        let selected = check_hello(&self.config, frame)?;
        let mut ack: Vec<u8> = Vec::new();
        ack.push(ACK_KIND);
        ack.push(self.config.identity.role.to_wire());
        ack.push(self.config.remote_role.to_wire());
        ack.push(selected.version.major);
        ack.push(selected.version.minor);
        push_u128(&mut ack, self.config.identity.session_id.get());
        push_u64(&mut ack, self.config.identity.generation.get());
        push_u64(&mut ack, selected.capabilities.set.bits);
        push_u32(&mut ack, selected.maximum_message);
        push_bytes(&mut ack, self.config.proof_bytes.as_slice());
        proof {
            assert(ack@ =~= ack_bytes(self.config, selected));
        }
        Ok((ack, selected))
    }
}

fn check_hello(config: &AcceptorConfig, frame: &[u8]) -> (outcome: Result<
    NegotiatedProtocol,
    ErrorReport,
>)
    ensures
        outcome == acceptance(*config, frame@),
{
    if frame.len() < HELLO_HEADER {
        return Err(handshake_error(ErrorCode::Truncated, "handshake hello"));
    }
    if frame[0] != HELLO_KIND || frame[1] != config.remote_role.to_wire() || frame[2]
        != config.identity.role.to_wire() || read_u128(frame, 7) != config.identity.session_id.get() {
        return Err(handshake_error(ErrorCode::ProtocolViolation, "handshake identity"));
    }
    if read_u64(frame, 23) != config.identity.generation.get() {
        return Err(handshake_error(ErrorCode::StaleGeneration, "handshake generation"));
    }
    if !bytes_equal(
        slice_subrange(frame, HELLO_HEADER, frame.len()),
        config.proof_bytes.as_slice(),
    ) {
        return Err(handshake_error(ErrorCode::AuthenticationFailed, "handshake proof"));
    }
    let offered = VersionRange {
        minimum: ProtocolVersion::new(frame[3], frame[4]),
        maximum: ProtocolVersion::new(frame[5], frame[6]),
    };
    let version = match config.versions.select(offered) {
        Some(version) => version,
        None => {
            return Err(handshake_error(ErrorCode::LayoutVersionMismatch, "handshake version"));
        },
    };
    let limit: u32 = read_u32(frame, 47);
    if limit == 0 {
        return Err(handshake_error(ErrorCode::InvalidRange, "handshake message limit"));
    }
    let capabilities = negotiate(
        config.supported,
        RequestedCapabilities::new(TransportCapabilities::from_bits(read_u64(frame, 31))),
        RequiredCapabilities::new(TransportCapabilities::from_bits(read_u64(frame, 39))),
    )?;
    let maximum_message: u32 = if limit <= config.maximum_message {
        limit
    } else {
        config.maximum_message
    };
    Ok(NegotiatedProtocol { version, capabilities, maximum_message })
}

/// Whether an acceptor is the counterpart that an initiator expects, and vice versa.
pub open spec fn counterparts(initiator: InitiatorConfig, acceptor: AcceptorConfig) -> bool {
    &&& initiator.identity.session_id == acceptor.identity.session_id
    &&& initiator.identity.generation == acceptor.identity.generation
    &&& initiator.identity.role == acceptor.remote_role
    &&& initiator.remote_role == acceptor.identity.role
    &&& initiator.proof_bytes@ == acceptor.proof_bytes@
}

/// Counterparts agree: whatever the acceptor selects for the HELLO, the initiator reads from the
/// ACK, and the acceptor fails exactly where no version or required capability is common.
pub proof fn law_handshake_agrees(initiator: InitiatorConfig, acceptor: AcceptorConfig)
    requires
        counterparts(initiator, acceptor),
        offer_rejection(
            initiator.versions,
            initiator.maximum_message,
            initiator.proof_bytes@,
        ) is None,
        offer_rejection(acceptor.versions, acceptor.maximum_message, acceptor.proof_bytes@) is None,
    ensures
        match acceptance(acceptor, hello_bytes(initiator)) {
            Ok(selected) => {
                &&& acknowledgement(initiator, ack_bytes(acceptor, selected)) == Ok::<
                    NegotiatedProtocol,
                    ErrorReport,
                >(selected)
                &&& common_version(acceptor.versions, initiator.versions) == Some(selected.version)
                &&& negotiated(acceptor.supported, initiator.requested, initiator.required) == Ok::<
                    NegotiatedCapabilities,
                    ErrorReport,
                >(selected.capabilities)
            },
            Err(_) => {
                ||| common_version(acceptor.versions, initiator.versions) is None
                ||| negotiated(acceptor.supported, initiator.requested, initiator.required) is Err
            },
        },
{
    lemma_hello_parts(initiator);
    match acceptance(acceptor, hello_bytes(initiator)) {
        Ok(selected) => {
            lemma_ack_parts(acceptor, selected);
            crate::domain::capabilities::law_negotiation_is_mutual(
                acceptor.supported,
                initiator.requested,
                initiator.required,
            );
        },
        Err(_) => {},
    }
}

/// A HELLO of another generation, session or proof is never accepted.
pub proof fn law_strangers_are_rejected(initiator: InitiatorConfig, acceptor: AcceptorConfig)
    requires
        initiator.identity.session_id != acceptor.identity.session_id
            || initiator.identity.generation != acceptor.identity.generation
            || initiator.proof_bytes@ != acceptor.proof_bytes@,
    ensures
        acceptance(acceptor, hello_bytes(initiator)) is Err,
{
    lemma_hello_parts(initiator);
}

/// The numbers behind a head are where they are read.
proof fn lemma_hello_parts(config: InitiatorConfig)
    ensures
        ({
            let frame = hello_bytes(config);
            &&& frame.len() == HELLO_HEADER + config.proof_bytes@.len()
            &&& frame[0] == HELLO_KIND
            &&& frame[1] == config.identity.role.wire()
            &&& frame[2] == config.remote_role.wire()
            &&& hello_versions(frame) == config.versions
            &&& le_at(frame, 7, 16) == config.identity.session_id@
            &&& le_at(frame, 23, 8) == config.identity.generation@
            &&& le_at(frame, 31, 8) == config.requested.set.bits
            &&& le_at(frame, 39, 8) == config.required.set.bits
            &&& le_at(frame, 47, 4) == config.maximum_message
            &&& frame.subrange(HELLO_HEADER as int, frame.len() as int) == config.proof_bytes@
        }),
{
    let frame = hello_bytes(config);
    let head = seq![
        HELLO_KIND,
        config.identity.role.wire(),
        config.remote_role.wire(),
        config.versions.minimum.major,
        config.versions.minimum.minor,
        config.versions.maximum.major,
        config.versions.maximum.minor,
    ];
    let session = config.identity.session_id@ as nat;
    let generation = config.identity.generation@ as nat;
    let requested = config.requested.set.bits as nat;
    let required = config.required.set.bits as nat;
    let limit = config.maximum_message as nat;
    lemma_le_limits();
    lemma_le_bytes_len(session, 16);
    lemma_le_bytes_len(generation, 8);
    lemma_le_bytes_len(requested, 8);
    lemma_le_bytes_len(required, 8);
    lemma_le_bytes_len(limit, 4);
    let a = le_bytes(session, 16);
    let b = le_bytes(generation, 8);
    let c = le_bytes(requested, 8);
    let d = le_bytes(required, 8);
    let e = le_bytes(limit, 4);
    let tail = config.proof_bytes@;
    lemma_le_at_append(head, session, 16, b + c + d + e + tail);
    assert(frame =~= head + a + (b + c + d + e + tail));
    lemma_le_at_append(head + a, generation, 8, c + d + e + tail);
    assert(frame =~= head + a + b + (c + d + e + tail));
    lemma_le_at_append(head + a + b, requested, 8, d + e + tail);
    assert(frame =~= head + a + b + c + (d + e + tail));
    lemma_le_at_append(head + a + b + c, required, 8, e + tail);
    assert(frame =~= head + a + b + c + d + (e + tail));
    lemma_le_at_append(head + a + b + c + d, limit, 4, tail);
    assert(frame.subrange(HELLO_HEADER as int, frame.len() as int) =~= tail);
}

/// The numbers behind a head are where they are read.
proof fn lemma_ack_parts(config: AcceptorConfig, selected: NegotiatedProtocol)
    ensures
        ({
            let frame = ack_bytes(config, selected);
            &&& frame.len() == ACK_HEADER + config.proof_bytes@.len()
            &&& frame[0] == ACK_KIND
            &&& frame[1] == config.identity.role.wire()
            &&& frame[2] == config.remote_role.wire()
            &&& frame[3] == selected.version.major
            &&& frame[4] == selected.version.minor
            &&& le_at(frame, 5, 16) == config.identity.session_id@
            &&& le_at(frame, 21, 8) == config.identity.generation@
            &&& le_at(frame, 29, 8) == selected.capabilities.set.bits
            &&& le_at(frame, 37, 4) == selected.maximum_message
            &&& frame.subrange(ACK_HEADER as int, frame.len() as int) == config.proof_bytes@
        }),
{
    let frame = ack_bytes(config, selected);
    let head = seq![
        ACK_KIND,
        config.identity.role.wire(),
        config.remote_role.wire(),
        selected.version.major,
        selected.version.minor,
    ];
    let session = config.identity.session_id@ as nat;
    let generation = config.identity.generation@ as nat;
    let bits = selected.capabilities.set.bits as nat;
    let limit = selected.maximum_message as nat;
    lemma_le_limits();
    lemma_le_bytes_len(session, 16);
    lemma_le_bytes_len(generation, 8);
    lemma_le_bytes_len(bits, 8);
    lemma_le_bytes_len(limit, 4);
    let a = le_bytes(session, 16);
    let b = le_bytes(generation, 8);
    let c = le_bytes(bits, 8);
    let d = le_bytes(limit, 4);
    let tail = config.proof_bytes@;
    lemma_le_at_append(head, session, 16, b + c + d + tail);
    assert(frame =~= head + a + (b + c + d + tail));
    lemma_le_at_append(head + a, generation, 8, c + d + tail);
    assert(frame =~= head + a + b + (c + d + tail));
    lemma_le_at_append(head + a + b, bits, 8, d + tail);
    assert(frame =~= head + a + b + c + (d + tail));
    lemma_le_at_append(head + a + b + c, limit, 4, tail);
    assert(frame.subrange(ACK_HEADER as int, frame.len() as int) =~= tail);
}

/// Roles are told apart by their wire values.
pub proof fn law_roles_are_their_wire_values(role: EndpointRole, other: EndpointRole)
    ensures
        role.wire() == other.wire() <==> role == other,
        role.wire() != 0,
{
}

/// Versions are ordered by their major revision, and by their minor one within it.
pub proof fn law_versions_are_ordered(left: ProtocolVersion, right: ProtocolVersion)
    ensures
        left.major < right.major ==> left.rank() < right.rank(),
        left.major == right.major ==> (left.rank() < right.rank() <==> left.minor < right.minor),
        left.rank() == right.rank() <==> left == right,
{
}

/// The version that is selected is the newest of both intervals: it lies in both, no later one
/// does, and where none is selected none lies in both. Either side selects the same one.
pub proof fn law_the_newest_common_version_is_selected(
    left: VersionRange,
    right: VersionRange,
    selected: Option<ProtocolVersion>,
    reversed: Option<ProtocolVersion>,
    version: ProtocolVersion,
)
    requires
        call_ensures(VersionRange::select, (left, right), selected),
        call_ensures(VersionRange::select, (right, left), reversed),
    ensures
        ({
            let common = left.minimum.rank() <= version.rank() && version.rank()
                <= left.maximum.rank() && right.minimum.rank() <= version.rank() && version.rank()
                <= right.maximum.rank();
            &&& selected == reversed
            &&& selected is None ==> !common
            &&& selected matches Some(newest) ==> {
                &&& left.minimum.rank() <= newest.rank() <= left.maximum.rank()
                &&& right.minimum.rank() <= newest.rank() <= right.maximum.rank()
                &&& common ==> version.rank() <= newest.rank()
            }
        }),
{
    law_versions_are_ordered(left.maximum, right.maximum);
}

/// A side may start a handshake exactly with versions from the first major one on, with room for
/// a message and with something to prove itself by.
pub proof fn law_offers_are_complete(versions: VersionRange, maximum_message: u32, proof: Seq<u8>)
    ensures
        offer_rejection(versions, maximum_message, proof) is None <==> {
            &&& versions.minimum.major > 0
            &&& versions.minimum.rank() <= versions.maximum.rank()
            &&& maximum_message > 0
            &&& proof.len() > 0
        },
{
}

/// What an acceptor selects suits both sides: a version that both offer, no more than the smaller
/// of the two message limits, all that is required, nothing that was not requested and nothing
/// that is not supported.
pub proof fn law_selections_suit_both_sides(config: AcceptorConfig, frame: Seq<u8>)
    requires
        acceptance(config, frame) is Ok,
    ensures
        ({
            let selected = acceptance(config, frame)->Ok_0;
            let offered = le_at(frame, 47, 4);
            let requested = TransportCapabilities { bits: le_at(frame, 31, 8) as u64 };
            let required = TransportCapabilities { bits: le_at(frame, 39, 8) as u64 };
            &&& frame[0] == HELLO_KIND
            &&& frame[1] == config.remote_role.wire()
            &&& frame[2] == config.identity.role.wire()
            &&& le_at(frame, 7, 16) == config.identity.session_id@
            &&& le_at(frame, 23, 8) == config.identity.generation@
            &&& frame.subrange(51, frame.len() as int) == config.proof_bytes@
            &&& config.versions.minimum.rank() <= selected.version.rank()
                <= config.versions.maximum.rank()
            &&& hello_versions(frame).minimum.rank() <= selected.version.rank()
                <= hello_versions(frame).maximum.rank()
            &&& selected.maximum_message <= offered
            &&& selected.maximum_message <= config.maximum_message
            &&& selected.maximum_message == offered || selected.maximum_message
                == config.maximum_message
            &&& config.maximum_message > 0 ==> selected.maximum_message > 0
            &&& negotiated(
                config.supported,
                RequestedCapabilities { set: requested },
                RequiredCapabilities { set: required },
            ) == Ok::<NegotiatedCapabilities, ErrorReport>(selected.capabilities)
        }),
{
    crate::domain::bytes::lemma_le_value_bound(frame.subrange(47, 51));
    lemma_le_limits();
}

/// What an initiator accepts lies within what it offered, and comes from the very side, session and
/// generation that it asked.
pub proof fn law_acknowledgements_stay_within_the_offer(config: InitiatorConfig, frame: Seq<u8>)
    requires
        acknowledgement(config, frame) is Ok,
    ensures
        ({
            let selected = acknowledgement(config, frame)->Ok_0;
            &&& frame[0] == ACK_KIND
            &&& frame[1] == config.remote_role.wire()
            &&& frame[2] == config.identity.role.wire()
            &&& le_at(frame, 5, 16) == config.identity.session_id@
            &&& le_at(frame, 21, 8) == config.identity.generation@
            &&& frame.subrange(41, frame.len() as int) == config.proof_bytes@
            &&& config.versions.minimum.rank() <= selected.version.rank()
                <= config.versions.maximum.rank()
            &&& selected.capabilities.set.includes(config.required.set)
            &&& config.requested.set.includes(selected.capabilities.set)
            &&& 0 < selected.maximum_message <= config.maximum_message
        }),
{
    crate::domain::bytes::lemma_le_value_bound(frame.subrange(37, 41));
    lemma_le_limits();
}

/// Whether a frame is stale or not proved is only told to whoever named the right session and
/// roles, and whether it is proved only to whoever named the right generation.
pub proof fn law_refusals_are_told_in_order(config: AcceptorConfig, frame: Seq<u8>)
    ensures
        acceptance(config, frame) matches Err(error) ==> {
            let known = frame.len() >= 51 && frame[0] == HELLO_KIND && frame[1]
                == config.remote_role.wire() && frame[2] == config.identity.role.wire() && le_at(
                frame,
                7,
                16,
            ) == config.identity.session_id@;
            &&& error.code is Truncated <==> frame.len() < 51
            &&& error.code is ProtocolViolation <==> frame.len() >= 51 && !known
            &&& error.code is StaleGeneration <==> known && le_at(frame, 23, 8)
                != config.identity.generation@
            &&& error.code is AuthenticationFailed <==> known && le_at(frame, 23, 8)
                == config.identity.generation@ && frame.subrange(51, frame.len() as int)
                != config.proof_bytes@
            &&& error.category is Security <==> error.code is AuthenticationFailed
        },
{
}

/// A failure of a handshake keeps its code, and another endpoint gets over it; one of a proof is a
/// matter of security, any other one of the protocol.
pub proof fn law_handshake_failures_have_their_class(code: ErrorCode, operation: &'static str)
    ensures
        handshake_report(code, operation).code == code,
        handshake_report(code, operation).context == operation,
        handshake_report(code, operation).category is Security <==> code is AuthenticationFailed,
        handshake_report(code, operation).category is Protocol <==> !(code is AuthenticationFailed),
        handshake_report(code, operation).recoverability is ReplaceEndpoint,
{
}

/// An offer is refused for its versions before it is for its limits.
pub proof fn law_refused_offers_are_told_apart(
    versions: VersionRange,
    maximum_message: u32,
    proof_bytes: Seq<u8>,
)
    ensures
        offer_rejection(versions, maximum_message, proof_bytes) matches Some(error) ==> {
            let versioned = versions.minimum.major != 0 && versions.minimum.rank()
                <= versions.maximum.rank();
            &&& error.code is LayoutVersionMismatch <==> !versioned
            &&& error.code is InvalidRange <==> versioned
        },
{
}

/// Of an acknowledgement, its length is looked at first, then its sender, its generation, its proof
/// and its version, and at last what it grants.
pub proof fn law_refused_acknowledgements_are_told_in_order(config: InitiatorConfig, frame: Seq<u8>)
    ensures
        acknowledgement(config, frame) matches Err(error) ==> {
            let named = frame[0] == ACK_KIND && frame[1] == config.remote_role.wire() && frame[2]
                == config.identity.role.wire()
                    && le_at(frame, 5, 16) == config.identity.session_id@;
            let current = le_at(frame, 21, 8) == config.identity.generation@;
            let proved = frame.skip(ACK_HEADER as int) == config.proof_bytes@;
            &&& error.code is Truncated <==> frame.len() < ACK_HEADER
            &&& frame.len() >= ACK_HEADER ==> {
                &&& error.code is ProtocolViolation <==> !named
                &&& error.code is StaleGeneration <==> named && !current
                &&& error.code is AuthenticationFailed <==> named && current && !proved
                &&& error.code is RequiredCapabilityMissing ==> named && current && proved
                &&& error.code is InvalidRange ==> le_at(frame, 37, 4) == 0 || le_at(frame, 37, 4)
                    > config.maximum_message
                &&& error.code is ProtocolViolation || error.code is StaleGeneration
                    || error.code is AuthenticationFailed || error.code is LayoutVersionMismatch
                    || error.code is RequiredCapabilityMissing || error.code is InvalidRange
            }
        },
{
    if frame.len() >= ACK_HEADER {
        assert(frame.skip(ACK_HEADER as int) =~= frame.subrange(
            ACK_HEADER as int,
            frame.len() as int,
        ));
    }
}

} // verus!
