//! Redacted operational snapshots shared by public adapters.

use vstd::prelude::*;
use vstd::string::StringExecFns;

use crate::domain::bytes::le_bytes;
use crate::domain::capabilities::{TransportCapabilities, TransportTopology};
use crate::domain::error::{code_name, ErrorCategory, ErrorCode, ErrorReport, Recoverability};
use crate::domain::text::{decimal, decimal_digits};
use crate::domain::state::SessionState;
use crate::domain::types::{Generation, SessionId};
use crate::observability::metrics::{metrics_text, MetricsSnapshot};

verus! {

/// Stable memory backend name without a native descriptor or handle.
#[derive(Clone, Copy, Debug, PartialEq, Eq, Structural)]
pub enum MemoryBackend {
    /// Deterministic process-test memory.
    ProcessTest,
    /// macOS `IOSurface` memory.
    IoSurface,
    /// Mach memory entries.
    Mach,
}

/// Stable signal backend name without a notification name or token.
#[derive(Clone, Copy, Debug, PartialEq, Eq, Structural)]
pub enum SignalBackend {
    /// Poll-only correctness path.
    Poll,
    /// Darwin notifications plus correctness polling.
    Hybrid,
    /// Mach ports.
    Mach,
}

/// Stage of an endpoint's life in which a failure was observed.
#[derive(Clone, Copy, Debug, PartialEq, Eq, Structural)]
pub enum FailureStage {
    /// While bootstrap material was handed over.
    Bootstrap,
    /// While the endpoints negotiated.
    Handshake,
    /// While messages were exchanged.
    Transport,
    /// While a lifecycle event was routed.
    Lifecycle,
    /// While resources were released.
    Cleanup,
}

/// How far the resources of a generation are released.
#[derive(Clone, Copy, Debug, PartialEq, Eq, Structural)]
pub enum CleanupStatus {
    /// Resources are still owned.
    Pending,
    /// Every resource was released.
    Complete,
    /// A resource could not be released.
    Failed,
}

/// Redacted failure: the operation's name and native details are absent by type.
#[derive(Clone, Copy, Debug, PartialEq, Eq, Structural)]
pub struct FailureDiagnostics {
    /// Stage in which the failure was observed.
    pub stage: FailureStage,
    /// Broad category.
    pub category: ErrorCategory,
    /// Stable machine-readable code.
    pub code: ErrorCode,
    /// Recovery guidance.
    pub recoverability: Recoverability,
}

/// What diagnostics keep of a report.
pub open spec fn redacted(stage: FailureStage, error: ErrorReport) -> FailureDiagnostics {
    FailureDiagnostics {
        stage,
        category: error.category,
        code: error.code,
        recoverability: error.recoverability,
    }
}

impl FailureDiagnostics {
    /// Keeps the stable parts of a report.
    pub fn from_report(stage: FailureStage, error: &ErrorReport) -> (failure: Self)
        ensures
            failure == redacted(stage, *error),
    {
        FailureDiagnostics {
            stage,
            category: error.category(),
            code: error.code(),
            recoverability: error.recoverability(),
        }
    }
}

/// Redacted state of one public session generation.
#[derive(Clone, Copy, PartialEq, Eq, Structural)]
pub struct SessionDiagnostics {
    /// Stable logical session identity.
    pub session_id: SessionId,
    /// Active resource generation.
    pub generation: Generation,
    /// Canonical lifecycle state.
    pub state: SessionState,
    /// Direct renderer-to-peer topology.
    pub topology: TransportTopology,
    /// Negotiated or configured transport capabilities.
    pub capabilities: TransportCapabilities,
    /// Selected memory backend.
    pub memory_backend: MemoryBackend,
    /// Selected notification backend.
    pub signal_backend: SignalBackend,
    /// Most recent stable failure code, if any.
    pub last_error: Option<ErrorCode>,
    /// Most recent failure, if any.
    pub last_failure: Option<FailureDiagnostics>,
    /// Whether generation resources completed cleanup.
    pub resources_cleaned: bool,
    /// Release of the generation's resources.
    pub cleanup: CleanupStatus,
}

/// Whether one byte string comes before another one in the order of their bytes.
pub open spec fn comes_before(left: Seq<u8>, right: Seq<u8>) -> bool
    decreases left.len(),
{
    if right.len() == 0 {
        false
    } else if left.len() == 0 {
        true
    } else if left[0] != right[0] {
        left[0] < right[0]
    } else {
        comes_before(left.drop_first(), right.drop_first())
    }
}

/// The bytes by which a session is sorted.
pub open spec fn sort_key(session: SessionDiagnostics) -> Seq<u8> {
    le_bytes(session.session_id@ as nat, 16)
}

/// The place behind every session that does not come after a new one.
pub open spec fn place_of(sessions: Seq<SessionDiagnostics>, added: SessionDiagnostics) -> int
    decreases sessions.len(),
{
    if sessions.len() == 0 || !comes_before(sort_key(added), sort_key(sessions.last())) {
        sessions.len() as int
    } else {
        place_of(sessions.drop_last(), added)
    }
}

/// Sessions in the order of their identity bytes; sessions with one identity keep their order.
pub open spec fn sorted_sessions(sessions: Seq<SessionDiagnostics>) -> Seq<SessionDiagnostics>
    decreases sessions.len(),
{
    if sessions.len() == 0 {
        Seq::empty()
    } else {
        let earlier = sorted_sessions(sessions.drop_last());
        earlier.insert(place_of(earlier, sessions.last()), sessions.last())
    }
}

/// Whether no session comes before the one in front of it.
pub open spec fn is_sorted(sessions: Seq<SessionDiagnostics>) -> bool {
    forall|left: int, right: int|
        0 <= left < right < sessions.len() ==> !comes_before(
            sort_key(#[trigger] sessions[right]),
            sort_key(#[trigger] sessions[left]),
        )
}

proof fn lemma_place_bounds(sessions: Seq<SessionDiagnostics>, added: SessionDiagnostics)
    ensures
        0 <= place_of(sessions, added) <= sessions.len(),
        forall|index: int|
            place_of(sessions, added) <= index < sessions.len() ==> comes_before(
                sort_key(added),
                sort_key(#[trigger] sessions[index]),
            ),
        place_of(sessions, added) > 0 ==> !comes_before(
            sort_key(added),
            sort_key(sessions[place_of(sessions, added) - 1]),
        ),
    decreases sessions.len(),
{
    if sessions.len() > 0 && comes_before(sort_key(added), sort_key(sessions.last())) {
        lemma_place_bounds(sessions.drop_last(), added);
        assert forall|index: int|
            place_of(sessions, added) <= index < sessions.len() implies comes_before(
            sort_key(added),
            sort_key(#[trigger] sessions[index]),
        ) by {
            if index < sessions.len() - 1 {
                assert(sessions.drop_last()[index] == sessions[index]);
            }
        }
    }
}

/// Of two byte strings at most one comes before the other.
pub proof fn lemma_comes_before_is_asymmetric(left: Seq<u8>, right: Seq<u8>)
    requires
        comes_before(left, right),
    ensures
        !comes_before(right, left),
    decreases left.len(),
{
    if left.len() > 0 && right.len() > 0 && left[0] == right[0] {
        lemma_comes_before_is_asymmetric(left.drop_first(), right.drop_first());
    }
}

/// What does not come after a byte string that does not come after another one does not come after that.
pub proof fn lemma_not_before_is_transitive(first: Seq<u8>, second: Seq<u8>, third: Seq<u8>)
    requires
        !comes_before(second, first),
        !comes_before(third, second),
    ensures
        !comes_before(third, first),
    decreases first.len(),
{
    if first.len() > 0 && third.len() > 0 && second.len() > 0 && first[0] == third[0] && first[0]
        == second[0] {
        lemma_not_before_is_transitive(
            first.drop_first(),
            second.drop_first(),
            third.drop_first(),
        );
    }
}

/// A snapshot holds exactly its sessions, sorted by their identity bytes.
pub proof fn law_snapshots_are_sorted(sessions: Seq<SessionDiagnostics>)
    ensures
        is_sorted(sorted_sessions(sessions)),
        sorted_sessions(sessions).to_multiset() == sessions.to_multiset(),
    decreases sessions.len(),
{
    broadcast use vstd::seq_lib::group_to_multiset_ensures;

    if sessions.len() == 0 {
        assert(sorted_sessions(sessions) =~= sessions);
    } else {
        let last = sessions.last();
        let earlier = sorted_sessions(sessions.drop_last());
        let place = place_of(earlier, last);
        let after = sorted_sessions(sessions);
        law_snapshots_are_sorted(sessions.drop_last());
        lemma_place_bounds(earlier, last);
        assert forall|left: int, right: int|
            0 <= left < right < after.len() implies !comes_before(
            sort_key(#[trigger] after[right]),
            sort_key(#[trigger] after[left]),
        ) by {
            if right < place {
                assert(after[left] == earlier[left] && after[right] == earlier[right]);
            } else if right == place {
                assert(after[left] == earlier[left] && after[right] == last);
                if left < place - 1 {
                    assert(!comes_before(
                        sort_key(earlier[place - 1]),
                        sort_key(earlier[left]),
                    ));
                    lemma_not_before_is_transitive(
                        sort_key(earlier[left]),
                        sort_key(earlier[place - 1]),
                        sort_key(last),
                    );
                }
            } else if left == place {
                assert(after[left] == last && after[right] == earlier[right - 1]);
                lemma_comes_before_is_asymmetric(sort_key(last), sort_key(earlier[right - 1]));
            } else if left < place {
                assert(after[left] == earlier[left] && after[right] == earlier[right - 1]);
            } else {
                assert(after[left] == earlier[left - 1] && after[right] == earlier[right - 1]);
            }
        }
        assert(sessions =~= sessions.drop_last().push(last));
        assert(after.to_multiset() =~= earlier.to_multiset().insert(last));
        assert(sessions.to_multiset() =~= sessions.drop_last().to_multiset().insert(last));
    }
}

/// Decides which of two byte strings comes first.
pub fn bytes_come_before(left: &[u8], right: &[u8]) -> (answer: bool)
    ensures
        answer == comes_before(left@, right@),
{
    let mut index: usize = 0;
    proof {
        assert(left@.skip(0) =~= left@);
        assert(right@.skip(0) =~= right@);
    }
    while index < left.len() && index < right.len()
        invariant
            index <= left@.len(),
            index <= right@.len(),
            comes_before(left@, right@) == comes_before(
                left@.skip(index as int),
                right@.skip(index as int),
            ),
        decreases left@.len() - index,
    {
        if left[index] != right[index] {
            return left[index] < right[index];
        }
        proof {
            assert(left@.skip(index as int).drop_first() =~= left@.skip(index + 1));
            assert(right@.skip(index as int).drop_first() =~= right@.skip(index + 1));
        }
        index += 1;
    }
    index < right.len()
}

fn find_session_place(
    sessions: &Vec<SessionDiagnostics>,
    added: SessionDiagnostics,
) -> (place: usize)
    ensures
        place == place_of(sessions@, added),
        place <= sessions@.len(),
{
    let key = added.session_id.to_bytes();
    let mut place: usize = sessions.len();
    proof {
        assert(sessions@.take(place as int) =~= sessions@);
    }
    while place > 0
        invariant
            place <= sessions@.len(),
            key@ == sort_key(added),
            place_of(sessions@, added) == place_of(sessions@.take(place as int), added),
        decreases place,
    {
        let other = sessions[place - 1].session_id.to_bytes();
        proof {
            assert(sessions@.take(place as int).last() == sessions@[place - 1]);
            assert(sessions@.take(place as int).drop_last() =~= sessions@.take(place - 1));
        }
        if !bytes_come_before(key.as_slice(), other.as_slice()) {
            return place;
        }
        place -= 1;
    }
    place
}

/// A session without its identity.
pub open spec fn session_text(session: SessionDiagnostics) -> Seq<char> {
    "generation "@ + decimal_digits(session.generation@ as nat) + (match session.last_error {
        Some(code) => " failed with "@ + code_name(code)@,
        None => ""@,
    }) + "; "@
}

/// Sessions, each without its identity.
pub open spec fn sessions_text(sessions: Seq<SessionDiagnostics>) -> Seq<char>
    decreases sessions.len(),
{
    if sessions.len() == 0 {
        Seq::empty()
    } else {
        sessions_text(sessions.drop_last()) + session_text(sessions.last())
    }
}

/// A snapshot as text.
pub open spec fn snapshot_text(snapshot: DiagnosticsSnapshot) -> Seq<char> {
    "DiagnosticsSnapshot "@ + decimal_digits(snapshot.schema_version as nat) + " { "@
        + metrics_text(snapshot.metrics) + sessions_text(snapshot.sessions@) + "}"@
}

fn push_session(text: &mut String, session: SessionDiagnostics)
    ensures
        final(text)@ == old(text)@ + session_text(session),
{
    text.append("generation ");
    text.append(decimal(session.generation.get()).as_str());
    match session.last_error {
        Some(code) => {
            text.append(" failed with ");
            text.append(code.name());
        },
        None => {
            text.append("");
        },
    }
    text.append("; ");
    proof {
        assert(text@ =~= old(text)@ + session_text(session));
    }
}

/// Complete public diagnostics snapshot. Payloads, secrets, and native handles are absent by type.
#[derive(Clone)]
pub struct DiagnosticsSnapshot {
    /// Schema version for forward-compatible consumers.
    pub schema_version: u16,
    /// Runtime-wide monotonic counters.
    pub metrics: MetricsSnapshot,
    /// Redacted active session entries.
    pub sessions: Vec<SessionDiagnostics>,
}

impl DiagnosticsSnapshot {
    /// Current diagnostics schema version.
    pub const SCHEMA_VERSION: u16 = 1;

    /// Creates a snapshot and sorts sessions by stable identity bytes.
    pub fn new(metrics: MetricsSnapshot, sessions: Vec<SessionDiagnostics>) -> (snapshot: Self)
        ensures
            snapshot.schema_version == DiagnosticsSnapshot::SCHEMA_VERSION,
            snapshot.metrics == metrics,
            snapshot.sessions@ == sorted_sessions(sessions@),
    {
        let mut sorted: Vec<SessionDiagnostics> = Vec::new();
        let mut index: usize = 0;
        proof {
            assert(sessions@.take(0) =~= Seq::<SessionDiagnostics>::empty());
            assert(sorted@ =~= sorted_sessions(sessions@.take(0)));
        }
        while index < sessions.len()
            invariant
                index <= sessions@.len(),
                sorted@ == sorted_sessions(sessions@.take(index as int)),
            decreases sessions@.len() - index,
        {
            let added = sessions[index];
            let place: usize = find_session_place(&sorted, added);
            sorted.insert(place, added);
            proof {
                let next = sessions@.take(index + 1);
                assert(next.drop_last() =~= sessions@.take(index as int));
                assert(next.last() == added);
            }
            index += 1;
        }
        proof {
            assert(sessions@.take(index as int) =~= sessions@);
        }
        DiagnosticsSnapshot {
            schema_version: DiagnosticsSnapshot::SCHEMA_VERSION,
            metrics,
            sessions: sorted,
        }
    }

    /// Renders the counters and the sessions, without any identity.
    pub fn to_text(&self) -> (text: String)
        ensures
            text@ == snapshot_text(*self),
    {
        let mut text = String::from_str("DiagnosticsSnapshot ");
        text.append(decimal(self.schema_version as u64).as_str());
        text.append(" { ");
        text.append(self.metrics.to_text().as_str());
        let ghost heading = text@;
        let mut index: usize = 0;
        while index < self.sessions.len()
            invariant
                index <= self.sessions@.len(),
                text@ == heading + sessions_text(self.sessions@.take(index as int)),
            decreases self.sessions@.len() - index,
        {
            let ghost before = text@;
            push_session(&mut text, self.sessions[index]);
            proof {
                let next = self.sessions@.take(index + 1);
                assert(next.drop_last() =~= self.sessions@.take(index as int));
                assert(text@ =~= heading + sessions_text(next));
            }
            index += 1;
        }
        text.append("}");
        proof {
            assert(self.sessions@.take(index as int) =~= self.sessions@);
            assert(text@ =~= snapshot_text(*self));
        }
        text
    }
}

/// The first byte in which two byte strings differ decides which comes first; where one is the
/// start of the other, the shorter one does.
pub proof fn law_the_first_difference_decides(left: Seq<u8>, right: Seq<u8>, place: nat)
    requires
        place <= left.len(),
        place <= right.len(),
        left.take(place as int) == right.take(place as int),
    ensures
        place < left.len() && place < right.len() && left[place as int] != right[place as int]
            ==> (comes_before(left, right) <==> left[place as int] < right[place as int]),
        place == left.len() ==> (comes_before(left, right) <==> left.len() < right.len()),
    decreases place,
{
    if place > 0 {
        assert(left.take(place as int)[0] == left[0]);
        assert(right.take(place as int)[0] == right[0]);
        let left_rest = left.drop_first();
        let right_rest = right.drop_first();
        assert(left_rest.take(place - 1) =~= left.take(place as int).drop_first());
        assert(right_rest.take(place - 1) =~= right.take(place as int).drop_first());
        law_the_first_difference_decides(left_rest, right_rest, (place - 1) as nat);
        if place < left.len() {
            assert(left_rest[place - 1] == left[place as int]);
        }
        if place < right.len() {
            assert(right_rest[place - 1] == right[place as int]);
        }
    }
}

/// What is kept of a failure is where it was observed, its category, its code and what may be done
/// about it.
pub proof fn law_failures_keep_their_code(
    stage: FailureStage,
    error: ErrorReport,
    failure: FailureDiagnostics,
)
    requires
        call_ensures(FailureDiagnostics::from_report, (stage, &error), failure),
    ensures
        failure.stage == stage,
        failure.category == error.category,
        failure.code == error.code,
        failure.recoverability == error.recoverability,
{
}

/// The text of a snapshot does not depend on the identities of its sessions, nor on anything else
/// of them but their generations and failures.
pub proof fn law_texts_tell_no_identity(
    sessions: Seq<SessionDiagnostics>,
    others: Seq<SessionDiagnostics>,
)
    requires
        sessions.len() == others.len(),
        forall|index: int|
            0 <= index < sessions.len() ==> (#[trigger] sessions[index]).generation
                == others[index].generation && sessions[index].last_error
                == others[index].last_error,
    ensures
        sessions_text(sessions) == sessions_text(others),
    decreases sessions.len(),
{
    if sessions.len() > 0 {
        assert forall|index: int| 0 <= index < sessions.len() - 1 implies (
        #[trigger] sessions.drop_last()[index]).generation == others.drop_last()[index].generation
            && sessions.drop_last()[index].last_error == others.drop_last()[index].last_error by {
            assert(sessions.drop_last()[index] == sessions[index]);
        }
        law_texts_tell_no_identity(sessions.drop_last(), others.drop_last());
        let last = sessions[sessions.len() - 1];
        assert(last.generation == others.last().generation);
    }
}

} // verus!
