//! Operational counters with provider-independent snapshots.

use std::sync::Arc;

use vstd::prelude::*;
use vstd::rwlock::{RwLock, RwLockPredicate};
use vstd::string::StringExecFns;

use crate::domain::text::{decimal, decimal_digits};

verus! {

/// Immutable counter values suitable for diagnostics export.
#[derive(Clone, Copy, Debug, PartialEq, Eq, Structural)]
pub struct MetricsSnapshot {
    /// Logical sessions successfully created.
    pub sessions_created: u64,
    /// Logical sessions closed by the public facade.
    pub sessions_closed: u64,
    /// Messages accepted for sending.
    pub messages_sent: u64,
    /// Messages delivered to a receiver.
    pub messages_received: u64,
    /// Application payload bytes accepted for sending.
    pub bytes_sent: u64,
    /// Application payload bytes delivered to a receiver.
    pub bytes_received: u64,
    /// Backpressure observations.
    pub backpressure: u64,
    /// Writable recovery edges.
    pub writable: u64,
    /// Primary provider wake-ups observed by a transport.
    pub primary_wakeups: u64,
    /// Correctness-poll wake-ups requested by a transport.
    pub polling_wakeups: u64,
    /// Notification posts suppressed because shared state was already pending.
    pub coalesced_wakeups: u64,
    /// Correctness polls which found shared-state progress independent of a notification.
    pub polling_recoveries: u64,
    /// Notification provider failures.
    pub signal_failures: u64,
    /// Validation or protocol-contract failures.
    pub validation_failures: u64,
    /// Authentication or trust failures.
    pub authentication_failures: u64,
    /// Stable failures observed at a public boundary.
    pub failures: u64,
    /// Generation replacements.
    pub replacements: u64,
}

/// Counters that counted nothing.
pub open spec fn zero_metrics() -> MetricsSnapshot {
    MetricsSnapshot {
        sessions_created: 0,
        sessions_closed: 0,
        messages_sent: 0,
        messages_received: 0,
        bytes_sent: 0,
        bytes_received: 0,
        backpressure: 0,
        writable: 0,
        primary_wakeups: 0,
        polling_wakeups: 0,
        coalesced_wakeups: 0,
        polling_recoveries: 0,
        signal_failures: 0,
        validation_failures: 0,
        authentication_failures: 0,
        failures: 0,
        replacements: 0,
    }
}

impl Default for MetricsSnapshot {
    fn default() -> (snapshot: Self)
        ensures
            snapshot == zero_metrics(),
    {
        MetricsSnapshot {
            sessions_created: 0,
            sessions_closed: 0,
            messages_sent: 0,
            messages_received: 0,
            bytes_sent: 0,
            bytes_received: 0,
            backpressure: 0,
            writable: 0,
            primary_wakeups: 0,
            polling_wakeups: 0,
            coalesced_wakeups: 0,
            polling_recoveries: 0,
            signal_failures: 0,
            validation_failures: 0,
            authentication_failures: 0,
            failures: 0,
            replacements: 0,
        }
    }
}

/// A counter that stops at its largest value.
pub open spec fn counted(counter: u64, value: u64) -> u64 {
    if counter + value > u64::MAX {
        u64::MAX
    } else {
        (counter + value) as u64
    }
}

fn increment(counter: &mut u64, value: u64)
    ensures
        *final(counter) == counted(*old(counter), value),
{
    *counter = counter.saturating_add(value);
}

/// Whether no counter went back.
pub open spec fn grew(before: MetricsSnapshot, after: MetricsSnapshot) -> bool {
    &&& before.sessions_created <= after.sessions_created
    &&& before.sessions_closed <= after.sessions_closed
    &&& before.messages_sent <= after.messages_sent
    &&& before.messages_received <= after.messages_received
    &&& before.bytes_sent <= after.bytes_sent
    &&& before.bytes_received <= after.bytes_received
    &&& before.backpressure <= after.backpressure
    &&& before.writable <= after.writable
    &&& before.primary_wakeups <= after.primary_wakeups
    &&& before.polling_wakeups <= after.polling_wakeups
    &&& before.coalesced_wakeups <= after.coalesced_wakeups
    &&& before.polling_recoveries <= after.polling_recoveries
    &&& before.signal_failures <= after.signal_failures
    &&& before.validation_failures <= after.validation_failures
    &&& before.authentication_failures <= after.authentication_failures
    &&& before.failures <= after.failures
    &&& before.replacements <= after.replacements
}

/// One thing that is counted.
#[derive(Clone, Copy, Debug, PartialEq, Eq, Structural)]
pub enum MetricsEvent {
    /// One logical session was created.
    SessionCreated,
    /// One logical session was closed.
    SessionClosed,
    /// An outbound application message of this many bytes was accepted.
    Sent(u64),
    /// An inbound application message of this many bytes was delivered.
    Received(u64),
    /// Backpressure was observed.
    Backpressure,
    /// A writable recovery edge was observed.
    Writable,
    /// Provider-independent wake-ups were observed: primary, polling, coalesced and recovered.
    Wakeups(u64, u64, u64, u64),
    /// Notification-provider failures were observed.
    SignalFailures(u64),
    /// A validation or protocol-contract failure was observed.
    ValidationFailure,
    /// An authentication or trust failure was observed.
    AuthenticationFailure,
    /// A stable public failure was observed.
    Failure,
    /// A generation was replaced.
    Replacement,
}

/// The counters after an event.
pub open spec fn recorded(before: MetricsSnapshot, event: MetricsEvent) -> MetricsSnapshot {
    match event {
        MetricsEvent::SessionCreated => MetricsSnapshot {
            sessions_created: counted(before.sessions_created, 1),
            ..before
        },
        MetricsEvent::SessionClosed => MetricsSnapshot {
            sessions_closed: counted(before.sessions_closed, 1),
            ..before
        },
        MetricsEvent::Sent(bytes) => MetricsSnapshot {
            messages_sent: counted(before.messages_sent, 1),
            bytes_sent: counted(before.bytes_sent, bytes),
            ..before
        },
        MetricsEvent::Received(bytes) => MetricsSnapshot {
            messages_received: counted(before.messages_received, 1),
            bytes_received: counted(before.bytes_received, bytes),
            ..before
        },
        MetricsEvent::Backpressure => MetricsSnapshot {
            backpressure: counted(before.backpressure, 1),
            ..before
        },
        MetricsEvent::Writable => MetricsSnapshot {
            writable: counted(before.writable, 1),
            ..before
        },
        MetricsEvent::Wakeups(primary, polling, coalesced, recovered) => MetricsSnapshot {
            primary_wakeups: counted(before.primary_wakeups, primary),
            polling_wakeups: counted(before.polling_wakeups, polling),
            coalesced_wakeups: counted(before.coalesced_wakeups, coalesced),
            polling_recoveries: counted(before.polling_recoveries, recovered),
            ..before
        },
        MetricsEvent::SignalFailures(failures) => MetricsSnapshot {
            signal_failures: counted(before.signal_failures, failures),
            ..before
        },
        MetricsEvent::ValidationFailure => MetricsSnapshot {
            validation_failures: counted(before.validation_failures, 1),
            ..before
        },
        MetricsEvent::AuthenticationFailure => MetricsSnapshot {
            authentication_failures: counted(before.authentication_failures, 1),
            ..before
        },
        MetricsEvent::Failure => MetricsSnapshot {
            failures: counted(before.failures, 1),
            ..before
        },
        MetricsEvent::Replacement => MetricsSnapshot {
            replacements: counted(before.replacements, 1),
            ..before
        },
    }
}

/// Counters only grow.
pub proof fn law_counters_are_monotonic(before: MetricsSnapshot, event: MetricsEvent)
    ensures
        grew(before, recorded(before, event)),
{
}

/// A named counter.
pub open spec fn counter_text(name: &'static str, value: u64) -> Seq<char> {
    name@ + ": "@ + decimal_digits(value as nat) + ", "@
}

fn push_counter(text: &mut String, name: &'static str, value: u64)
    ensures
        final(text)@ == old(text)@ + counter_text(name, value),
{
    text.append(name);
    text.append(": ");
    text.append(decimal(value).as_str());
    text.append(", ");
    proof {
        assert(text@ =~= old(text)@ + counter_text(name, value));
    }
}

/// The counters, each by its name.
pub open spec fn metrics_text(metrics: MetricsSnapshot) -> Seq<char> {
    counter_text("sessions_created", metrics.sessions_created)
        + counter_text("sessions_closed", metrics.sessions_closed)
        + counter_text("messages_sent", metrics.messages_sent)
        + counter_text("messages_received", metrics.messages_received)
        + counter_text("bytes_sent", metrics.bytes_sent)
        + counter_text("bytes_received", metrics.bytes_received)
        + counter_text("backpressure", metrics.backpressure)
        + counter_text("writable", metrics.writable)
        + counter_text("primary_wakeups", metrics.primary_wakeups)
        + counter_text("polling_wakeups", metrics.polling_wakeups)
        + counter_text("coalesced_wakeups", metrics.coalesced_wakeups)
        + counter_text("polling_recoveries", metrics.polling_recoveries)
        + counter_text("signal_failures", metrics.signal_failures)
        + counter_text("validation_failures", metrics.validation_failures)
        + counter_text("authentication_failures", metrics.authentication_failures)
        + counter_text("failures", metrics.failures)
        + counter_text("replacements", metrics.replacements)
}

impl MetricsSnapshot {
    /// Renders every counter by its name.
    pub fn to_text(&self) -> (text: String)
        ensures
            text@ == metrics_text(*self),
    {
        let mut text = String::from_str("");
        proof {
            reveal_strlit("");
            assert(text@ =~= Seq::<char>::empty());
        }
        push_counter(&mut text, "sessions_created", self.sessions_created);
        push_counter(&mut text, "sessions_closed", self.sessions_closed);
        push_counter(&mut text, "messages_sent", self.messages_sent);
        push_counter(&mut text, "messages_received", self.messages_received);
        push_counter(&mut text, "bytes_sent", self.bytes_sent);
        push_counter(&mut text, "bytes_received", self.bytes_received);
        push_counter(&mut text, "backpressure", self.backpressure);
        push_counter(&mut text, "writable", self.writable);
        push_counter(&mut text, "primary_wakeups", self.primary_wakeups);
        push_counter(&mut text, "polling_wakeups", self.polling_wakeups);
        push_counter(&mut text, "coalesced_wakeups", self.coalesced_wakeups);
        push_counter(&mut text, "polling_recoveries", self.polling_recoveries);
        push_counter(&mut text, "signal_failures", self.signal_failures);
        push_counter(&mut text, "validation_failures", self.validation_failures);
        push_counter(&mut text, "authentication_failures", self.authentication_failures);
        push_counter(&mut text, "failures", self.failures);
        push_counter(&mut text, "replacements", self.replacements);
        proof {
            assert(text@ =~= metrics_text(*self));
        }
        text
    }

    /// Counts an event.
    pub fn record(&mut self, event: MetricsEvent)
        ensures
            *final(self) == recorded(*old(self), event),
    {
        match event {
            MetricsEvent::SessionCreated => increment(&mut self.sessions_created, 1),
            MetricsEvent::SessionClosed => increment(&mut self.sessions_closed, 1),
            MetricsEvent::Sent(bytes) => {
                increment(&mut self.messages_sent, 1);
                increment(&mut self.bytes_sent, bytes);
            },
            MetricsEvent::Received(bytes) => {
                increment(&mut self.messages_received, 1);
                increment(&mut self.bytes_received, bytes);
            },
            MetricsEvent::Backpressure => increment(&mut self.backpressure, 1),
            MetricsEvent::Writable => increment(&mut self.writable, 1),
            MetricsEvent::Wakeups(primary, polling, coalesced, recovered) => {
                increment(&mut self.primary_wakeups, primary);
                increment(&mut self.polling_wakeups, polling);
                increment(&mut self.coalesced_wakeups, coalesced);
                increment(&mut self.polling_recoveries, recovered);
            },
            MetricsEvent::SignalFailures(failures) => increment(
                &mut self.signal_failures,
                failures,
            ),
            MetricsEvent::ValidationFailure => increment(&mut self.validation_failures, 1),
            MetricsEvent::AuthenticationFailure => increment(&mut self.authentication_failures, 1),
            MetricsEvent::Failure => increment(&mut self.failures, 1),
            MetricsEvent::Replacement => increment(&mut self.replacements, 1),
        }
    }
}

/// The counters after a history of events, counted on from where they started.
pub open spec fn counted_history(
    start: MetricsSnapshot,
    events: Seq<MetricsEvent>,
) -> MetricsSnapshot
    decreases events.len(),
{
    if events.len() == 0 {
        start
    } else {
        recorded(counted_history(start, events.drop_last()), events.last())
    }
}

/// Counters with the events that they counted.
pub struct CountedEvents {
    /// The counters.
    pub snapshot: MetricsSnapshot,
    /// The events, in their order.
    pub events: Ghost<Seq<MetricsEvent>>,
}

/// What stands behind the lock of a recorder: counters that counted exactly their events.
pub struct CountsItsEvents {
    /// The counters before the first event.
    pub start: MetricsSnapshot,
}

impl RwLockPredicate<CountedEvents> for CountsItsEvents {
    open spec fn inv(self, counted: CountedEvents) -> bool {
        counted.snapshot == counted_history(self.start, counted.events@)
    }
}

/// Cheaply cloneable metrics recorder without a telemetry SDK dependency.
///
/// Clones share their counters, which other owners may change between any two calls: each call
/// counts by [`MetricsSnapshot::record`].
pub struct Metrics {
    counters: Arc<RwLock<CountedEvents, CountsItsEvents>>,
}

impl Clone for Metrics {
    fn clone(&self) -> (copy: Self)
        ensures
            copy == *self,
    {
        Metrics { counters: self.counters.clone() }
    }
}

impl Metrics {
    /// The counters before the first event of this recorder or a clone of it.
    pub closed spec fn start(self) -> MetricsSnapshot {
        self.counters.pred().start
    }

    /// Creates an empty recorder.
    pub fn new() -> (created: Self)
        ensures
            created.start() == zero_metrics(),
    {
        let counted = CountedEvents {
            snapshot: MetricsSnapshot::default(),
            events: Ghost(Seq::empty()),
        };
        let ghost predicate = CountsItsEvents { start: zero_metrics() };
        Metrics { counters: Arc::new(RwLock::new(counted, Ghost(predicate))) }
    }

    /// Counts an event.
    pub fn record(&self, event: MetricsEvent) {
        let (mut counted, handle) = self.counters.acquire_write();
        let ghost events = counted.events@.push(event);
        proof {
            assert(events.drop_last() =~= counted.events@);
        }
        counted.snapshot.record(event);
        counted.events = Ghost(events);
        handle.release_write(counted);
    }

    /// Records creation of one logical session.
    pub fn record_session_created(&self) {
        self.record(MetricsEvent::SessionCreated);
    }

    /// Records closure of one logical session.
    pub fn record_session_closed(&self) {
        self.record(MetricsEvent::SessionClosed);
    }

    /// Records an accepted outbound application message.
    pub fn record_sent(&self, bytes: usize) {
        self.record(MetricsEvent::Sent(bytes as u64));
    }

    /// Records a delivered inbound application message.
    pub fn record_received(&self, bytes: usize) {
        self.record(MetricsEvent::Received(bytes as u64));
    }

    /// Records a backpressure observation.
    pub fn record_backpressure(&self) {
        self.record(MetricsEvent::Backpressure);
    }

    /// Records a writable recovery edge.
    pub fn record_writable(&self) {
        self.record(MetricsEvent::Writable);
    }

    /// Adds provider-independent wake-up observations.
    pub fn record_wakeups(&self, primary: u64, polling: u64, coalesced: u64, recovered: u64) {
        self.record(MetricsEvent::Wakeups(primary, polling, coalesced, recovered));
    }

    /// Adds notification-provider failures.
    pub fn record_signal_failures(&self, failures: u64) {
        self.record(MetricsEvent::SignalFailures(failures));
    }

    /// Records a validation or protocol-contract failure.
    pub fn record_validation_failure(&self) {
        self.record(MetricsEvent::ValidationFailure);
    }

    /// Records an authentication or trust failure.
    pub fn record_authentication_failure(&self) {
        self.record(MetricsEvent::AuthenticationFailure);
    }

    /// Records one stable public failure.
    pub fn record_failure(&self) {
        self.record(MetricsEvent::Failure);
    }

    /// Records generation replacement.
    pub fn record_replacement(&self) {
        self.record(MetricsEvent::Replacement);
    }

    /// Reads the counters, which counted exactly the events since the recorder was created.
    pub fn snapshot(&self) -> (snapshot: MetricsSnapshot)
        ensures
            exists|events: Seq<MetricsEvent>|
                snapshot == #[trigger] counted_history(self.start(), events),
    {
        let handle = self.counters.acquire_read();
        let snapshot = handle.borrow().snapshot;
        proof {
            assert(snapshot == counted_history(self.start(), handle.view().events@));
        }
        handle.release_read();
        snapshot
    }
}

/// A counter grows by what is counted, and stands still at its largest value.
pub proof fn law_counters_stop_at_their_largest_value(counter: u64, value: u64, more: u64)
    ensures
        counter + value <= u64::MAX ==> counted(counter, value) == counter + value,
        counter + value >= u64::MAX ==> counted(counter, value) == u64::MAX,
        counted(counted(counter, value), more) == counted(counted(counter, more), value),
{
}

/// Every event counts what it is about, as many times as it says, and nothing else.
pub proof fn law_events_count_what_they_are_about(before: MetricsSnapshot, event: MetricsEvent)
    ensures
        ({
            let after = recorded(before, event);
            let one = |counter: u64, told: bool|
                if told {
                    counted(counter, 1)
                } else {
                    counter
                };
            &&& after.sessions_created == one(before.sessions_created, event is SessionCreated)
            &&& after.sessions_closed == one(before.sessions_closed, event is SessionClosed)
            &&& after.messages_sent == one(before.messages_sent, event is Sent)
            &&& after.messages_received == one(before.messages_received, event is Received)
            &&& after.backpressure == one(before.backpressure, event is Backpressure)
            &&& after.writable == one(before.writable, event is Writable)
            &&& after.validation_failures == one(
                before.validation_failures,
                event is ValidationFailure,
            )
            &&& after.authentication_failures == one(
                before.authentication_failures,
                event is AuthenticationFailure,
            )
            &&& after.failures == one(before.failures, event is Failure)
            &&& after.replacements == one(before.replacements, event is Replacement)
            &&& after.bytes_sent == match event {
                MetricsEvent::Sent(bytes) => counted(before.bytes_sent, bytes),
                _ => before.bytes_sent,
            }
            &&& after.bytes_received == match event {
                MetricsEvent::Received(bytes) => counted(before.bytes_received, bytes),
                _ => before.bytes_received,
            }
            &&& after.signal_failures == match event {
                MetricsEvent::SignalFailures(failures) => counted(
                    before.signal_failures,
                    failures,
                ),
                _ => before.signal_failures,
            }
            &&& match event {
                MetricsEvent::Wakeups(primary, polling, coalesced, recovered) => {
                    &&& after.primary_wakeups == counted(before.primary_wakeups, primary)
                    &&& after.polling_wakeups == counted(before.polling_wakeups, polling)
                    &&& after.coalesced_wakeups == counted(before.coalesced_wakeups, coalesced)
                    &&& after.polling_recoveries == counted(before.polling_recoveries, recovered)
                },
                _ => {
                    &&& after.primary_wakeups == before.primary_wakeups
                    &&& after.polling_wakeups == before.polling_wakeups
                    &&& after.coalesced_wakeups == before.coalesced_wakeups
                    &&& after.polling_recoveries == before.polling_recoveries
                },
            }
        }),
{
}

/// A history that follows another one is counted on from where that one ended.
pub proof fn law_histories_are_counted_on(
    start: MetricsSnapshot,
    earlier: Seq<MetricsEvent>,
    later: Seq<MetricsEvent>,
)
    ensures
        counted_history(start, earlier + later) == counted_history(
            counted_history(start, earlier),
            later,
        ),
        grew(counted_history(start, earlier), counted_history(start, earlier + later)),
    decreases later.len(),
{
    if later.len() == 0 {
        assert(earlier + later =~= earlier);
    } else {
        law_histories_are_counted_on(start, earlier, later.drop_last());
        assert((earlier + later).drop_last() =~= earlier + later.drop_last());
        law_counters_are_monotonic(
            counted_history(start, earlier + later.drop_last()),
            later.last(),
        );
    }
}

} // verus!
