//! Runtime-neutral decisions of an asynchronous peer.
//!
//! An executor performs the waits. Each step makes the nonblocking attempts between two waits and
//! says what to do next, so that no readiness edge is lost: a step that makes no progress asks
//! for a registration first, tries again, and only then asks to await.

use vstd::prelude::*;

use crate::domain::error::{report, ErrorCategory, ErrorCode, ErrorReport, Recoverability};
use crate::peer::port::{PeerPort, PortEvent, PortState};

verus! {

/// Readiness direction awaited after a nonblocking operation makes no progress.
#[derive(Clone, Copy, Debug, PartialEq, Eq, Structural)]
pub enum Interest {
    /// A receive operation may now produce an event.
    Readable,
    /// Outbound capacity may now accept a message.
    Writable,
}

/// What an executor does next.
#[derive(Debug, PartialEq, Eq)]
pub enum AsyncStep<T> {
    /// Hand the result to the caller.
    Finish(T),
    /// Register interest in a direction, then take the next step as registered.
    Register(Interest),
    /// Await the registered readiness, then take the next step as unregistered.
    Await(Interest),
    /// Register interest in a direction and await it at once.
    RegisterAndAwait(Interest),
}

/// Whether a failure is worth another attempt.
pub open spec fn retryable(error: ErrorReport) -> bool {
    error.code is Backpressured && error.recoverability is Retryable
}

/// Returns whether a failure is worth another attempt.
pub fn is_retryable_backpressure(error: &ErrorReport) -> (answer: bool)
    ensures
        answer == retryable(*error),
{
    match (error.code(), error.recoverability()) {
        (ErrorCode::Backpressured, Recoverability::Retryable) => true,
        _ => false,
    }
}

/// Whether this step follows such an attempt to send.
pub open spec fn send_follows(
    outcome: Result<(), ErrorReport>,
    registered: bool,
    step: Result<AsyncStep<()>, ErrorReport>,
) -> bool {
    match outcome {
        Ok(_) => step == Ok::<AsyncStep<()>, ErrorReport>(AsyncStep::Finish(())),
        Err(error) => if !retryable(error) {
            step == Err::<AsyncStep<()>, ErrorReport>(error)
        } else if registered {
            step == Ok::<AsyncStep<()>, ErrorReport>(AsyncStep::Await(Interest::Writable))
        } else {
            step == Ok::<AsyncStep<()>, ErrorReport>(AsyncStep::Register(Interest::Writable))
        },
    }
}

/// Decides what follows a send attempt.
pub fn after_send(outcome: Result<(), ErrorReport>, registered: bool) -> (step: Result<
    AsyncStep<()>,
    ErrorReport,
>)
    ensures
        send_follows(outcome, registered, step),
{
    match outcome {
        Ok(_) => Ok(AsyncStep::Finish(())),
        Err(error) => {
            if !is_retryable_backpressure(&error) {
                Err(error)
            } else if registered {
                Ok(AsyncStep::Await(Interest::Writable))
            } else {
                Ok(AsyncStep::Register(Interest::Writable))
            }
        },
    }
}

/// Whether this step follows such an attempt to receive.
pub open spec fn receive_follows(
    outcome: Result<Option<PortEvent>, ErrorReport>,
    registered: bool,
    step: Result<AsyncStep<PortEvent>, ErrorReport>,
) -> bool {
    match outcome {
        Ok(Some(event)) => step == Ok::<AsyncStep<PortEvent>, ErrorReport>(
            AsyncStep::Finish(event),
        ),
        Ok(None) => step == Ok::<AsyncStep<PortEvent>, ErrorReport>(
            if registered {
                AsyncStep::Await(Interest::Readable)
            } else {
                AsyncStep::Register(Interest::Readable)
            },
        ),
        Err(error) => step == Err::<AsyncStep<PortEvent>, ErrorReport>(error),
    }
}

/// Decides what follows a receive attempt.
pub fn after_receive(outcome: Result<Option<PortEvent>, ErrorReport>, registered: bool) -> (step:
    Result<AsyncStep<PortEvent>, ErrorReport>)
    ensures
        receive_follows(outcome, registered, step),
{
    match outcome {
        Ok(Some(event)) => Ok(AsyncStep::Finish(event)),
        Ok(None) => {
            if registered {
                Ok(AsyncStep::Await(Interest::Readable))
            } else {
                Ok(AsyncStep::Register(Interest::Readable))
            }
        },
        Err(error) => Err(error),
    }
}

/// Whether this step follows such an attempt to close.
pub open spec fn close_follows(
    outcome: Result<(), ErrorReport>,
    step: Result<AsyncStep<()>, ErrorReport>,
) -> bool {
    match outcome {
        Ok(_) => step == Ok::<AsyncStep<()>, ErrorReport>(AsyncStep::Finish(())),
        Err(error) => if retryable(error) {
            step == Ok::<AsyncStep<()>, ErrorReport>(
                AsyncStep::RegisterAndAwait(Interest::Writable),
            )
        } else {
            step == Err::<AsyncStep<()>, ErrorReport>(error)
        },
    }
}

/// Decides what follows a close attempt.
pub fn after_close(outcome: Result<(), ErrorReport>) -> (step: Result<AsyncStep<()>, ErrorReport>)
    ensures
        close_follows(outcome, step),
{
    match outcome {
        Ok(_) => Ok(AsyncStep::Finish(())),
        Err(error) => {
            if is_retryable_backpressure(&error) {
                Ok(AsyncStep::RegisterAndAwait(Interest::Writable))
            } else {
                Err(error)
            }
        },
    }
}

/// Asynchronous operations layered over a synchronous nonblocking port and readiness source.
pub struct AsyncPeer<Port, Ready> {
    port: Port,
    readiness: Ready,
}

impl<Port, Ready> AsyncPeer<Port, Ready> {
    /// The underlying port.
    pub closed spec fn inner_port(self) -> Port {
        self.port
    }

    /// The readiness registration source.
    pub closed spec fn inner_readiness(self) -> Ready {
        self.readiness
    }

    /// Wraps an owned port without starting a thread or executor.
    pub fn new(port: Port, readiness: Ready) -> (peer: Self)
        ensures
            peer.inner_port() == port,
            peer.inner_readiness() == readiness,
    {
        AsyncPeer { port, readiness }
    }

    /// Returns the underlying port.
    pub fn port(&self) -> (port: &Port)
        ensures
            *port == self.inner_port(),
    {
        &self.port
    }

    /// Returns the underlying port mutably for nonblocking operations.
    pub fn port_mut(&mut self) -> (port: &mut Port)
        ensures
            *port == old(self).inner_port(),
            final(self).inner_port() == *final(port),
            final(self).inner_readiness() == old(self).inner_readiness(),
    {
        &mut self.port
    }

    /// Returns the readiness registration source.
    pub fn readiness(&self) -> (readiness: &Ready)
        ensures
            *readiness == self.inner_readiness(),
    {
        &self.readiness
    }

    /// Releases the port and readiness source.
    pub fn into_parts(self) -> (parts: (Port, Ready))
        ensures
            parts == (self.inner_port(), self.inner_readiness()),
    {
        (self.port, self.readiness)
    }
}

impl<Port: PeerPort, Ready> AsyncPeer<Port, Ready> {
    /// Attempts to send one complete message and decides what to do next.
    pub fn send_step(&mut self, payload: &[u8], registered: bool) -> (step: Result<
        AsyncStep<()>,
        ErrorReport,
    >)
        ensures
            final(self).inner_readiness() == old(self).inner_readiness(),
            exists|outcome: Result<(), ErrorReport>| #[trigger]
                old(self).inner_port().sends(final(self).inner_port(), payload@, outcome)
                    && send_follows(outcome, registered, step),
    {
        let outcome = self.port.try_send(payload);
        proof {
            assert(old(self).inner_port().sends(self.inner_port(), payload@, outcome));
        }
        after_send(outcome, registered)
    }

    /// Attempts to receive the next event and decides what to do next.
    pub fn receive_step(&mut self, registered: bool) -> (step: Result<
        AsyncStep<PortEvent>,
        ErrorReport,
    >)
        ensures
            final(self).inner_readiness() == old(self).inner_readiness(),
            exists|outcome: Result<Option<PortEvent>, ErrorReport>| #[trigger]
                old(self).inner_port().receives(final(self).inner_port(), outcome)
                    && receive_follows(outcome, registered, step),
    {
        let outcome = self.port.try_receive();
        proof {
            assert(old(self).inner_port().receives(self.inner_port(), outcome));
        }
        after_receive(outcome, registered)
    }

    /// Attempts to close the peer and decides what to do next.
    pub fn close_step(&mut self) -> (step: Result<AsyncStep<()>, ErrorReport>)
        ensures
            final(self).inner_readiness() == old(self).inner_readiness(),
            exists|outcome: Result<(), ErrorReport>| #[trigger]
                old(self).inner_port().closes(final(self).inner_port(), outcome) && close_follows(
                    outcome,
                    step,
                ),
    {
        let outcome = self.port.close();
        proof {
            assert(old(self).inner_port().closes(self.inner_port(), outcome));
        }
        after_close(outcome)
    }

    /// Returns the current synchronous port state.
    pub fn state(&self) -> (state: PortState)
        ensures
            state == self.inner_port().standing(),
    {
        self.port.state()
    }
}

/// Default correctness-poll interval in nanoseconds when no provider hint arrives.
pub const DEFAULT_POLL_NANOS: u128 = 1_000_000;

/// The report of a poll interval that would never wait.
pub open spec fn interval_report() -> ErrorReport {
    report(
        ErrorCategory::Configuration,
        ErrorCode::InvalidRange,
        Recoverability::Terminal,
        "tokio poll interval",
    )
}

/// Checks a correctness-poll interval.
///
/// `InvalidRange` is returned when the interval is zero.
pub fn check_poll_interval(nanos: u128) -> (checked: Result<u128, ErrorReport>)
    ensures
        checked == if nanos == 0 {
            Err::<u128, ErrorReport>(interval_report())
        } else {
            Ok(nanos)
        },
{
    if nanos == 0 {
        return Err(
            ErrorReport::new(
                ErrorCategory::Configuration,
                ErrorCode::InvalidRange,
                Recoverability::Terminal,
                "tokio poll interval",
            ),
        );
    }
    Ok(nanos)
}

/// A message that was sent finishes; one that met retryable backpressure is tried again once
/// interest is registered, and only then awaited; any other failure is handed to the caller.
pub proof fn law_sends_are_tried_again_before_a_wait(
    outcome: Result<(), ErrorReport>,
    first: Result<AsyncStep<()>, ErrorReport>,
    second: Result<AsyncStep<()>, ErrorReport>,
)
    requires
        call_ensures(after_send, (outcome, false), first),
        call_ensures(after_send, (outcome, true), second),
    ensures
        outcome is Ok <==> first is Ok && first->Ok_0 is Finish,
        outcome is Ok <==> second is Ok && second->Ok_0 is Finish,
        outcome matches Err(error) ==> if error.code is Backpressured
            && error.recoverability is Retryable {
            &&& first matches Ok(AsyncStep::Register(interest)) && interest is Writable
            &&& second matches Ok(AsyncStep::Await(interest)) && interest is Writable
        } else {
            &&& first is Err && first->Err_0 == error
            &&& second is Err && second->Err_0 == error
        },
{
}

/// An event that was received finishes with itself; where there is none, interest in reading is
/// registered and the port looked at once more before it is awaited; a failure is handed on.
pub proof fn law_receives_look_again_before_a_wait(
    outcome: Result<Option<PortEvent>, ErrorReport>,
    first: Result<AsyncStep<PortEvent>, ErrorReport>,
    second: Result<AsyncStep<PortEvent>, ErrorReport>,
)
    requires
        call_ensures(after_receive, (outcome, false), first),
        call_ensures(after_receive, (outcome, true), second),
    ensures
        match outcome {
            Ok(Some(event)) => {
                &&& first matches Ok(AsyncStep::Finish(found)) && found == event
                &&& second matches Ok(AsyncStep::Finish(found)) && found == event
            },
            Ok(None) => {
                &&& first matches Ok(AsyncStep::Register(interest)) && interest is Readable
                &&& second matches Ok(AsyncStep::Await(interest)) && interest is Readable
            },
            Err(error) => {
                &&& first is Err && first->Err_0 == error
                &&& second is Err && second->Err_0 == error
            },
        },
{
}

/// A close finishes, waits for room where it met retryable backpressure, or fails; it never
/// finishes where the port did not.
pub proof fn law_closes_wait_for_room(
    outcome: Result<(), ErrorReport>,
    step: Result<AsyncStep<()>, ErrorReport>,
)
    requires
        call_ensures(after_close, (outcome,), step),
    ensures
        outcome is Ok <==> step is Ok && step->Ok_0 is Finish,
        outcome matches Err(error) ==> if error.code is Backpressured
            && error.recoverability is Retryable {
            step matches Ok(AsyncStep::RegisterAndAwait(interest)) && interest is Writable
        } else {
            step is Err && step->Err_0 == error
        },
{
}

/// Every interval but an empty one is kept as it is.
pub proof fn law_intervals_wait(nanos: u128, checked: Result<u128, ErrorReport>)
    requires
        call_ensures(check_poll_interval, (nanos,), checked),
    ensures
        checked is Err <==> nanos == 0,
        checked matches Ok(kept) ==> kept == nanos,
        checked matches Err(error) ==> error.code is InvalidRange
            && error.category is Configuration,
{
}

} // verus!
