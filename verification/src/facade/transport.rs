//! Renderer transport whose operations are recorded.

use vstd::prelude::*;

use crate::domain::error::ErrorReport;
use crate::facade::record::{FacadeRecord, SessionHandle};
use crate::observability::diagnostics::FailureStage;
use crate::renderer::{RendererEvent, RendererTransport, SendDisposition, TransportDiagnostics};

verus! {

/// The counters of a transport that did nothing yet.
pub open spec fn no_wakeups() -> TransportDiagnostics {
    TransportDiagnostics {
        primary_wakeups: 0,
        polling_wakeups: 0,
        coalesced_wakeups: 0,
        polling_recoveries: 0,
        signal_failures: 0,
    }
}

/// Transport whose results are those of another one, each of them recorded.
pub struct ObservedRendererTransport<Transport> {
    inner: Transport,
    handle: SessionHandle,
    seen: TransportDiagnostics,
}

impl<Transport> ObservedRendererTransport<Transport> {
    /// The transport behind this one.
    pub closed spec fn observed_transport(self) -> Transport {
        self.inner
    }

    /// The generation that failures are recorded with.
    pub closed spec fn spec_handle(self) -> SessionHandle {
        self.handle
    }

    /// The counters that are recorded already.
    pub closed spec fn recorded_wakeups(self) -> TransportDiagnostics {
        self.seen
    }

    pub(crate) fn new(inner: Transport, handle: SessionHandle) -> (transport: Self)
        ensures
            transport.observed_transport() == inner,
            transport.spec_handle() == handle,
            transport.recorded_wakeups() == no_wakeups(),
    {
        ObservedRendererTransport {
            inner,
            handle,
            seen: TransportDiagnostics {
                primary_wakeups: 0,
                polling_wakeups: 0,
                coalesced_wakeups: 0,
                polling_recoveries: 0,
                signal_failures: 0,
            },
        }
    }
}

impl<Transport: RendererTransport> ObservedRendererTransport<Transport> {
    /// Whether every wakeup of the transport is recorded.
    pub open spec fn is_synced(self) -> bool {
        self.recorded_wakeups() == self.observed_transport().counted()
    }

    fn sync_provider_diagnostics(&mut self, record: &mut FacadeRecord)
        ensures
            final(self).observed_transport() == old(self).observed_transport(),
            final(self).spec_handle() == old(self).spec_handle(),
            final(self).is_synced(),
            final(record)@ == old(record)@.synced(
                old(self).recorded_wakeups(),
                final(self).recorded_wakeups(),
            ),
    {
        let now = self.inner.diagnostics();
        record.observe_wakeups(self.seen, now);
        self.seen = now;
    }

    /// Sends one complete message.
    ///
    /// A transport failure is recorded and passed on.
    pub fn send(&mut self, record: &mut FacadeRecord, payload: &[u8]) -> (sent: Result<
        SendDisposition,
        ErrorReport,
    >)
        ensures
            final(self).spec_handle() == old(self).spec_handle(),
            final(self).is_synced(),
            old(self).observed_transport().sends(
                final(self).observed_transport(),
                payload@,
                sent,
            ),
            final(record)@ == old(record)@.sent(
                old(self).spec_handle(),
                payload@.len(),
                sent,
            ).synced(old(self).recorded_wakeups(), final(self).recorded_wakeups()),
    {
        let sent = self.inner.send(payload);
        record.observe_send(self.handle, payload.len(), &sent);
        self.sync_provider_diagnostics(record);
        sent
    }

    /// Bytes that the remote endpoint has not consumed yet.
    ///
    /// A transport failure is recorded and passed on.
    pub fn buffered_amount(&mut self, record: &mut FacadeRecord) -> (amount: Result<
        u32,
        ErrorReport,
    >)
        ensures
            final(self).spec_handle() == old(self).spec_handle(),
            final(self).is_synced(),
            final(self).observed_transport() == old(self).observed_transport(),
            old(self).observed_transport().buffers(amount),
            final(record)@ == old(record)@.settled(
                old(self).spec_handle(),
                FailureStage::Transport,
                amount,
            ).synced(old(self).recorded_wakeups(), final(self).recorded_wakeups()),
    {
        let amount = self.inner.buffered_amount();
        record.observe_outcome(self.handle, FailureStage::Transport, &amount);
        self.sync_provider_diagnostics(record);
        amount
    }

    /// Receives one event, or `None` when there is none.
    ///
    /// A transport failure is recorded and passed on.
    pub fn poll(&mut self, record: &mut FacadeRecord) -> (polled: Result<
        Option<RendererEvent>,
        ErrorReport,
    >)
        ensures
            final(self).spec_handle() == old(self).spec_handle(),
            final(self).is_synced(),
            old(self).observed_transport().polls(final(self).observed_transport(), polled),
            final(record)@ == old(record)@.polled(old(self).spec_handle(), polled).synced(
                old(self).recorded_wakeups(),
                final(self).recorded_wakeups(),
            ),
    {
        let polled = self.inner.poll();
        record.observe_poll(self.handle, &polled);
        self.sync_provider_diagnostics(record);
        polled
    }

    /// Closes the transport. Calls are idempotent.
    ///
    /// A transport failure is recorded and passed on.
    pub fn close(&mut self, record: &mut FacadeRecord) -> (closed: Result<(), ErrorReport>)
        ensures
            final(self).spec_handle() == old(self).spec_handle(),
            final(self).is_synced(),
            old(self).observed_transport().closes(final(self).observed_transport(), closed),
            final(record)@ == old(record)@.settled(
                old(self).spec_handle(),
                FailureStage::Transport,
                closed,
            ).synced(old(self).recorded_wakeups(), final(self).recorded_wakeups()),
    {
        let closed = self.inner.close();
        record.observe_outcome(self.handle, FailureStage::Transport, &closed);
        self.sync_provider_diagnostics(record);
        closed
    }

    /// Non-secret wakeup counters.
    pub fn diagnostics(&self) -> (diagnostics: TransportDiagnostics)
        ensures
            diagnostics == self.observed_transport().counted(),
    {
        self.inner.diagnostics()
    }
}

} // verus!
