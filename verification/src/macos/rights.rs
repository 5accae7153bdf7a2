//! Ownership of native rights as plain values.
//!
//! A right that verified code no longer needs is handed back to its caller as a [`NativeRight`]
//! to release, so what is owned and in which order it is released can be stated and proved.

use vstd::prelude::*;

use crate::domain::error::{
    report, unsupported_report, ErrorCategory, ErrorCode, ErrorReport, Recoverability,
};

verus! {

/// The name that stands for no port.
pub const MACH_PORT_NULL: u32 = 0;

/// A native resource that the current task owns.
#[derive(Clone, Copy, PartialEq, Eq, Structural)]
pub enum NativeRight {
    /// One reference of a send right.
    Send(u32),
    /// A port with its receive right; releasing it destroys the port.
    Receive(u32),
    /// A mapped range of memory.
    Memory(u64, u64),
    /// A worker that answers on a control port and owns the right that it hands out.
    Service(u32),
    /// A consumed sandbox extension.
    Extension(i64),
}

/// A native operation that failed, with what it leaves to release.
pub struct NativeFailure {
    /// Why it failed.
    pub error: ErrorReport,
    /// Rights to release, in order.
    pub release: Vec<NativeRight>,
}

/// The report on a name that stands for no right.
pub open spec fn null_right_report(operation: &'static str) -> ErrorReport {
    report(
        ErrorCategory::Resource,
        ErrorCode::RequiredCapabilityMissing,
        Recoverability::Terminal,
        operation,
    )
}

/// Why a name cannot be adopted as a right, if it cannot.
pub open spec fn adoption_rejection(native: bool, raw: u32, operation: &'static str) -> Option<
    ErrorReport,
> {
    if !native {
        Some(unsupported_report(operation))
    } else if raw == MACH_PORT_NULL {
        Some(null_right_report(operation))
    } else {
        None
    }
}

fn validate_raw(native: bool, raw: u32, operation: &'static str) -> (checked: Result<
    (),
    ErrorReport,
>)
    ensures
        match adoption_rejection(native, raw, operation) {
            None => checked is Ok,
            Some(error) => checked == Err::<(), ErrorReport>(error),
        },
{
    if !native {
        return Err(ErrorReport::unsupported(operation));
    }
    if raw == MACH_PORT_NULL {
        return Err(
            ErrorReport::new(
                ErrorCategory::Resource,
                ErrorCode::RequiredCapabilityMissing,
                Recoverability::Terminal,
                operation,
            ),
        );
    }
    Ok(())
}

/// Owned Mach send right.
///
/// The raw constructor is a native ownership boundary, not a serialized handle.
pub struct OwnedMachSendRight {
    raw: u32,
}

impl OwnedMachSendRight {
    /// Task-local name of the right.
    pub closed spec fn name(self) -> u32 {
        self.raw
    }

    /// The resource that this right owns.
    pub open spec fn right(self) -> NativeRight {
        NativeRight::Send(self.name())
    }

    /// Takes ownership of one send-right reference that is valid in the current task, given
    /// whether the platform has Mach rights.
    ///
    /// A null right is rejected, and `Unsupported` is returned on other platforms.
    pub fn from_raw(native: bool, raw: u32) -> (adopted: Result<Self, ErrorReport>)
        ensures
            match adopted {
                Ok(right) => adoption_rejection(native, raw, "adopt Mach send right") is None
                    && right.name() == raw,
                Err(error) => adoption_rejection(native, raw, "adopt Mach send right") == Some(
                    error,
                ),
            },
    {
        validate_raw(native, raw, "adopt Mach send right")?;
        Ok(OwnedMachSendRight { raw })
    }

    /// Owns a name that the current task got from a native call.
    pub(crate) fn owning(raw: u32) -> (right: Self)
        ensures
            right.name() == raw,
    {
        OwnedMachSendRight { raw }
    }

    /// Releases the wrapper without releasing the native right.
    ///
    /// The returned value must not be serialized, logged, or placed in a property list.
    pub fn into_raw(self) -> (raw: u32)
        ensures
            raw == self.name(),
    {
        self.raw
    }

    /// Renders the right without its name.
    pub fn to_text(&self) -> (text: String)
        ensures
            text@ == "OwnedMachSendRight(<redacted>)"@,
    {
        String::from_str("OwnedMachSendRight(<redacted>)")
    }
}

/// Owned Mach receive right.
///
/// The raw constructor is a native ownership boundary, not a serialized handle.
pub struct OwnedMachReceiveRight {
    raw: u32,
}

impl OwnedMachReceiveRight {
    /// Task-local name of the right.
    pub closed spec fn name(self) -> u32 {
        self.raw
    }

    /// The resource that this right owns.
    pub open spec fn right(self) -> NativeRight {
        NativeRight::Receive(self.name())
    }

    /// Takes ownership of a receive right that is valid in the current task, given whether the
    /// platform has Mach rights.
    ///
    /// A null right is rejected, and `Unsupported` is returned on other platforms.
    pub fn from_raw(native: bool, raw: u32) -> (adopted: Result<Self, ErrorReport>)
        ensures
            match adopted {
                Ok(right) => adoption_rejection(native, raw, "adopt Mach receive right") is None
                    && right.name() == raw,
                Err(error) => adoption_rejection(native, raw, "adopt Mach receive right") == Some(
                    error,
                ),
            },
    {
        validate_raw(native, raw, "adopt Mach receive right")?;
        Ok(OwnedMachReceiveRight { raw })
    }

    /// Owns a name that the current task got from a native call.
    pub(crate) fn owning(raw: u32) -> (right: Self)
        ensures
            right.name() == raw,
    {
        OwnedMachReceiveRight { raw }
    }

    /// Releases the wrapper without destroying the native right.
    ///
    /// The returned value must not be serialized, logged, or placed in a property list.
    pub fn into_raw(self) -> (raw: u32)
        ensures
            raw == self.name(),
    {
        self.raw
    }

    /// Renders the right without its name.
    pub fn to_text(&self) -> (text: String)
        ensures
            text@ == "OwnedMachReceiveRight(<redacted>)"@,
    {
        String::from_str("OwnedMachReceiveRight(<redacted>)")
    }
}

/// Every name but that of no port is adopted, where there are rights, and given back as it is.
pub proof fn law_rights_keep_their_name(
    native: bool,
    raw: u32,
    send: Result<OwnedMachSendRight, ErrorReport>,
    receive: Result<OwnedMachReceiveRight, ErrorReport>,
    send_name: u32,
    receive_name: u32,
)
    requires
        call_ensures(OwnedMachSendRight::from_raw, (native, raw), send),
        call_ensures(OwnedMachReceiveRight::from_raw, (native, raw), receive),
        send matches Ok(right) ==> call_ensures(OwnedMachSendRight::into_raw, (right,), send_name),
        receive matches Ok(right) ==> call_ensures(
            OwnedMachReceiveRight::into_raw,
            (right,),
            receive_name,
        ),
    ensures
        send is Ok <==> native && raw != 0,
        receive is Ok <==> native && raw != 0,
        send is Ok ==> send_name == raw,
        receive is Ok ==> receive_name == raw,
        send matches Err(error) ==> (error.code is Unsupported <==> !native) && (
        error.code is RequiredCapabilityMissing <==> native),
        receive matches Err(error) ==> (error.code is Unsupported <==> !native),
{
}

/// A send right and a receive right are never the same resource, even under one name.
pub proof fn law_rights_are_told_apart(
    send: OwnedMachSendRight,
    other: OwnedMachSendRight,
    receive: OwnedMachReceiveRight,
)
    ensures
        send.right() != receive.right(),
        send.right() == other.right() <==> send.name() == other.name(),
{
}

} // verus!
