//! Stable, redacted errors exposed across public boundaries.

use vstd::prelude::*;
use vstd::string::StringExecFns;

verus! {

/// Broad error category suitable for policy decisions.
#[derive(Clone, Copy, Debug, PartialEq, Eq, Structural)]
pub enum ErrorCategory {
    /// The requested provider or operation is unavailable.
    Unsupported,
    /// Input violated a protocol or state contract.
    Protocol,
    /// A resource could not be acquired or retained.
    Resource,
    /// An operation exceeded its bounded deadline.
    Timeout,
    /// The endpoint has closed.
    Closed,
    /// An internal invariant failed without exposing implementation data.
    Internal,
    /// A lifecycle event was rejected.
    Lifecycle,
    /// A configuration value was rejected.
    Configuration,
    /// A mapped region or one of its ranges was rejected.
    Memory,
    /// Bootstrap material was rejected.
    Bootstrap,
    /// Authentication or replay protection rejected a value.
    Security,
    /// A native platform call failed.
    Platform,
}

/// Stable machine-readable error codes.
#[derive(Clone, Copy, Debug, PartialEq, Eq, Structural)]
pub enum ErrorCode {
    /// The requested capability is not implemented on this build or platform.
    Unsupported,
    /// A required capability was not negotiated.
    RequiredCapabilityMissing,
    /// A state-machine transition was rejected.
    InvalidStateTransition,
    /// A protocol value was malformed or inconsistent.
    ProtocolViolation,
    /// A bounded operation timed out.
    Timeout,
    /// The endpoint is closed.
    Closed,
    /// An internal invariant failed.
    Internal,
    /// A value was not aligned as required.
    InvalidAlignment,
    /// A value or range was outside its limits.
    InvalidRange,
    /// A ring cursor was inconsistent.
    InvalidCursor,
    /// Bounded capacity is exhausted for now.
    Backpressured,
    /// A message exceeds its negotiated limit.
    MessageTooLarge,
    /// Input ended early.
    Truncated,
    /// A value belongs to another resource generation.
    StaleGeneration,
    /// A format marker was absent.
    InvalidMagic,
    /// A layout or protocol version is not supported.
    LayoutVersionMismatch,
    /// A required flag or field is unknown.
    UnknownRequiredFlag,
    /// Authentication failed.
    AuthenticationFailed,
    /// A value was presented again or out of order.
    ReplayDetected,
}

/// Whether retrying or replacing the endpoint can recover an operation.
#[derive(Clone, Copy, Debug, PartialEq, Eq, Structural)]
pub enum Recoverability {
    /// Retrying the same operation may succeed.
    Retryable,
    /// A new endpoint generation is required.
    ReplaceEndpoint,
    /// The failure is terminal for the current request.
    Terminal,
}

/// A redacted error value safe to expose at public API boundaries.
#[derive(Clone, Copy, Debug, PartialEq, Eq)]
pub struct ErrorReport {
    /// Broad category.
    pub category: ErrorCategory,
    /// Stable machine-readable code.
    pub code: ErrorCode,
    /// Recovery guidance.
    pub recoverability: Recoverability,
    /// Name of the failed operation.
    pub context: &'static str,
}

/// The report with the given fields.
pub open spec fn report(
    category: ErrorCategory,
    code: ErrorCode,
    recoverability: Recoverability,
    context: &'static str,
) -> ErrorReport {
    ErrorReport { category, code, recoverability, context }
}

/// The report of an operation that this build does not implement.
pub open spec fn unsupported_report(context: &'static str) -> ErrorReport {
    report(
        ErrorCategory::Unsupported,
        ErrorCode::Unsupported,
        Recoverability::Terminal,
        context,
    )
}

impl ErrorReport {
    /// Creates a report from stable public fields.
    pub fn new(
        category: ErrorCategory,
        code: ErrorCode,
        recoverability: Recoverability,
        context: &'static str,
    ) -> (created: Self)
        ensures
            created == report(category, code, recoverability, context),
    {
        ErrorReport { category, code, recoverability, context }
    }

    /// Creates an explicit unsupported-operation report.
    pub fn unsupported(context: &'static str) -> (created: Self)
        ensures
            created == unsupported_report(context),
    {
        Self::new(
            ErrorCategory::Unsupported,
            ErrorCode::Unsupported,
            Recoverability::Terminal,
            context,
        )
    }

    /// Returns the broad category.
    pub fn category(&self) -> (category: ErrorCategory)
        ensures
            category == self.category,
    {
        self.category
    }

    /// Returns the stable machine-readable code.
    pub fn code(&self) -> (code: ErrorCode)
        ensures
            code == self.code,
    {
        self.code
    }

    /// Returns recovery guidance.
    pub fn recoverability(&self) -> (recoverability: Recoverability)
        ensures
            recoverability == self.recoverability,
    {
        self.recoverability
    }

    /// Returns the name of the failed operation.
    pub fn context(&self) -> (context: &'static str)
        ensures
            context == self.context,
    {
        self.context
    }

    /// Renders the operation name followed by the code in parentheses.
    pub fn to_text(&self) -> (text: String)
        ensures
            text@ == self.context@ + " ("@ + code_name(self.code)@ + ")"@,
    {
        let mut text: String = String::from_str(self.context);
        text.append(" (");
        text.append(self.code.name());
        text.append(")");
        text
    }
}

/// The printed name of a code.
pub open spec fn code_name(code: ErrorCode) -> &'static str {
    match code {
        ErrorCode::Unsupported => "Unsupported",
        ErrorCode::RequiredCapabilityMissing => "RequiredCapabilityMissing",
        ErrorCode::InvalidStateTransition => "InvalidStateTransition",
        ErrorCode::ProtocolViolation => "ProtocolViolation",
        ErrorCode::Timeout => "Timeout",
        ErrorCode::Closed => "Closed",
        ErrorCode::Internal => "Internal",
        ErrorCode::InvalidAlignment => "InvalidAlignment",
        ErrorCode::InvalidRange => "InvalidRange",
        ErrorCode::InvalidCursor => "InvalidCursor",
        ErrorCode::Backpressured => "Backpressured",
        ErrorCode::MessageTooLarge => "MessageTooLarge",
        ErrorCode::Truncated => "Truncated",
        ErrorCode::StaleGeneration => "StaleGeneration",
        ErrorCode::InvalidMagic => "InvalidMagic",
        ErrorCode::LayoutVersionMismatch => "LayoutVersionMismatch",
        ErrorCode::UnknownRequiredFlag => "UnknownRequiredFlag",
        ErrorCode::AuthenticationFailed => "AuthenticationFailed",
        ErrorCode::ReplayDetected => "ReplayDetected",
    }
}

impl ErrorCode {
    /// Returns the printed name of the code.
    pub fn name(self) -> (name: &'static str)
        ensures
            name == code_name(self),
    {
        match self {
            ErrorCode::Unsupported => "Unsupported",
            ErrorCode::RequiredCapabilityMissing => "RequiredCapabilityMissing",
            ErrorCode::InvalidStateTransition => "InvalidStateTransition",
            ErrorCode::ProtocolViolation => "ProtocolViolation",
            ErrorCode::Timeout => "Timeout",
            ErrorCode::Closed => "Closed",
            ErrorCode::Internal => "Internal",
            ErrorCode::InvalidAlignment => "InvalidAlignment",
            ErrorCode::InvalidRange => "InvalidRange",
            ErrorCode::InvalidCursor => "InvalidCursor",
            ErrorCode::Backpressured => "Backpressured",
            ErrorCode::MessageTooLarge => "MessageTooLarge",
            ErrorCode::Truncated => "Truncated",
            ErrorCode::StaleGeneration => "StaleGeneration",
            ErrorCode::InvalidMagic => "InvalidMagic",
            ErrorCode::LayoutVersionMismatch => "LayoutVersionMismatch",
            ErrorCode::UnknownRequiredFlag => "UnknownRequiredFlag",
            ErrorCode::AuthenticationFailed => "AuthenticationFailed",
            ErrorCode::ReplayDetected => "ReplayDetected",
        }
    }
}

/// An outcome without its value.
pub open spec fn plain_outcome<Value>(outcome: Result<Value, ErrorReport>) -> Result<
    (),
    ErrorReport,
> {
    match outcome {
        Ok(_) => Ok(()),
        Err(error) => Err(error),
    }
}

/// What is not supported is told apart from every other failure and is never worth another try.
pub proof fn law_unsupported_operations_are_final(context: &'static str)
    ensures
        unsupported_report(context).code is Unsupported,
        unsupported_report(context).category is Unsupported,
        unsupported_report(context).recoverability is Terminal,
        unsupported_report(context).context == context,
{
}

/// No two codes have the same name.
pub proof fn law_codes_are_told_apart_by_name(code: ErrorCode, other: ErrorCode)
    ensures
        code_name(code)@ == code_name(other)@ <==> code == other,
{
    reveal_strlit("Unsupported");
    reveal_strlit("RequiredCapabilityMissing");
    reveal_strlit("InvalidStateTransition");
    reveal_strlit("ProtocolViolation");
    reveal_strlit("Timeout");
    reveal_strlit("Closed");
    reveal_strlit("Internal");
    reveal_strlit("InvalidAlignment");
    reveal_strlit("InvalidRange");
    reveal_strlit("InvalidCursor");
    reveal_strlit("Backpressured");
    reveal_strlit("MessageTooLarge");
    reveal_strlit("Truncated");
    reveal_strlit("StaleGeneration");
    reveal_strlit("InvalidMagic");
    reveal_strlit("LayoutVersionMismatch");
    reveal_strlit("UnknownRequiredFlag");
    reveal_strlit("AuthenticationFailed");
    reveal_strlit("ReplayDetected");
    assert("InvalidRange"@[7] != "InvalidMagic"@[7]);
    assert("InvalidCursor"@[0] != "Backpressured"@[0]);
    assert("MessageTooLarge"@[0] != "StaleGeneration"@[0]);
    assert(code == other ==> code_name(code)@ == code_name(other)@);
    if code_name(code)@ == code_name(other)@ {
        assert(code_name(code)@.len() == code_name(other)@.len());
        assert(code_name(code)@[0] == code_name(other)@[0]);
        assert(code_name(code)@[7] == code_name(other)@[7]);
    }
}

} // verus!
