//! Contract between a renderer binding and the transport behind it.

use vstd::prelude::*;

use crate::domain::error::ErrorReport;

verus! {

/// What became of a sent message.
#[derive(Clone, Copy, Debug, PartialEq, Eq, Structural)]
pub enum SendDisposition {
    /// The message was sent.
    Sent,
    /// The message was sent, and the sender should wait for the writable edge.
    Backpressured,
}

/// One event of a renderer transport.
#[derive(Debug, PartialEq, Eq)]
pub enum RendererEvent {
    /// Complete binary application message.
    Message(Vec<u8>),
    /// Outbound capacity is available again.
    Writable,
    /// The endpoint failed, and the failure is reported in its turn.
    Error(ErrorReport),
    /// The remote endpoint closed.
    Closed,
}

/// Non-secret wakeup counters of a transport.
#[derive(Clone, Copy, Debug, PartialEq, Eq, Structural)]
pub struct TransportDiagnostics {
    /// Wakeups by a primary notification.
    pub primary_wakeups: u64,
    /// Wakeups by a correctness poll.
    pub polling_wakeups: u64,
    /// Notifications that were coalesced.
    pub coalesced_wakeups: u64,
    /// Polls that found progress without a notification.
    pub polling_recoveries: u64,
    /// Notifications that could not be posted.
    pub signal_failures: u64,
}

/// Message transport of one renderer endpoint.
pub trait RendererTransport: Sized {
    /// How sending a payload with this outcome changes the transport.
    open spec fn sends(
        self,
        after: Self,
        payload: Seq<u8>,
        sent: Result<SendDisposition, ErrorReport>,
    ) -> bool {
        arbitrary()
    }

    /// Whether this may be told of the bytes that the remote endpoint has not consumed yet.
    open spec fn buffers(self, amount: Result<u32, ErrorReport>) -> bool {
        arbitrary()
    }

    /// How polling with this outcome changes the transport.
    open spec fn polls(
        self,
        after: Self,
        polled: Result<Option<RendererEvent>, ErrorReport>,
    ) -> bool {
        arbitrary()
    }

    /// How closing with this outcome changes the transport.
    open spec fn closes(self, after: Self, closed: Result<(), ErrorReport>) -> bool {
        arbitrary()
    }

    /// Non-secret wakeup counters.
    open spec fn counted(&self) -> TransportDiagnostics {
        arbitrary()
    }

    /// Sends one complete message.
    ///
    /// A transport failure is returned.
    fn send(&mut self, payload: &[u8]) -> (sent: Result<SendDisposition, ErrorReport>)
        ensures
            old(self).sends(*final(self), payload@, sent),
    ;

    /// Bytes that the remote endpoint has not consumed yet.
    ///
    /// A transport failure is returned.
    fn buffered_amount(&self) -> (amount: Result<u32, ErrorReport>)
        ensures
            self.buffers(amount),
    ;

    /// Receives one event, or `None` when there is none.
    ///
    /// A transport failure is returned.
    fn poll(&mut self) -> (polled: Result<Option<RendererEvent>, ErrorReport>)
        ensures
            old(self).polls(*final(self), polled),
    ;

    /// Closes the transport. Calls are idempotent.
    ///
    /// A transport failure is returned.
    fn close(&mut self) -> (closed: Result<(), ErrorReport>)
        ensures
            old(self).closes(*final(self), closed),
    ;

    /// Non-secret wakeup counters.
    fn diagnostics(&self) -> (diagnostics: TransportDiagnostics)
        ensures
            diagnostics == self.counted(),
    ;
}

} // verus!
