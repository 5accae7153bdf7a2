//! Bounded history of observed generations.

use vstd::prelude::*;

use crate::domain::error::ErrorReport;
use crate::domain::state::SessionState;
use crate::domain::types::{generation_of_view, generation_view_of, Generation, SessionId};
use crate::observability::diagnostics::{
    redacted, CleanupStatus, FailureDiagnostics, FailureStage,
};

verus! {

/// Generations of one session that are kept.
pub const RETAINED_GENERATIONS_PER_SESSION: usize = 16;

/// What was last observed of a generation.
#[derive(Clone, Copy, Debug, PartialEq, Eq, Structural)]
pub struct GenerationObservation {
    /// Lifecycle state.
    pub state: SessionState,
    /// Release of its resources.
    pub cleanup: CleanupStatus,
    /// Most recent failure, if any.
    pub last_failure: Option<FailureDiagnostics>,
}

/// The observation of a generation whose resources are ready.
pub open spec fn prepared_observation() -> GenerationObservation {
    GenerationObservation {
        state: SessionState::WaitingForRenderer,
        cleanup: CleanupStatus::Pending,
        last_failure: None,
    }
}

impl GenerationObservation {
    /// A generation whose resources are ready and that waits for its renderer.
    pub fn prepared() -> (observation: Self)
        ensures
            observation == prepared_observation(),
    {
        GenerationObservation {
            state: SessionState::WaitingForRenderer,
            cleanup: CleanupStatus::Pending,
            last_failure: None,
        }
    }

    /// The observation after a failure.
    pub open spec fn failed(self, stage: FailureStage, error: ErrorReport) -> Self {
        GenerationObservation {
            state: self.state,
            cleanup: if stage is Cleanup {
                CleanupStatus::Failed
            } else {
                self.cleanup
            },
            last_failure: Some(redacted(stage, error)),
        }
    }
}

/// An observed generation.
#[derive(Clone, Copy, PartialEq, Eq, Structural)]
pub struct ObservedGeneration {
    /// Logical session.
    pub session_id: SessionId,
    /// Generation of the session.
    pub generation: Generation,
    /// What was last observed.
    pub observation: GenerationObservation,
}

impl ObservedGeneration {
    /// Whether this is a generation of a session.
    pub open spec fn is(self, session_id: SessionId, generation: Generation) -> bool {
        self.session_id == session_id && self.generation == generation
    }
}

/// The place of a generation, if it is observed.
pub open spec fn place_of(
    entries: Seq<ObservedGeneration>,
    session_id: SessionId,
    generation: Generation,
) -> Option<int>
    decreases entries.len(),
{
    if entries.len() == 0 {
        None
    } else if entries.last().is(session_id, generation) {
        Some(entries.len() - 1)
    } else {
        place_of(entries.drop_last(), session_id, generation)
    }
}

/// What was observed of a generation, if it is observed.
pub open spec fn observation_of(
    entries: Seq<ObservedGeneration>,
    session_id: SessionId,
    generation: Generation,
) -> Option<GenerationObservation> {
    match place_of(entries, session_id, generation) {
        Some(place) => Some(entries[place].observation),
        None => None,
    }
}

/// The entries with another observation of one generation, where it is observed.
pub open spec fn observed(
    entries: Seq<ObservedGeneration>,
    session_id: SessionId,
    generation: Generation,
    observation: GenerationObservation,
) -> Seq<ObservedGeneration> {
    match place_of(entries, session_id, generation) {
        Some(place) => entries.update(
            place,
            ObservedGeneration { session_id, generation, observation },
        ),
        None => entries,
    }
}

/// The entries with an observation of one generation.
pub open spec fn entered(
    entries: Seq<ObservedGeneration>,
    session_id: SessionId,
    generation: Generation,
    observation: GenerationObservation,
) -> Seq<ObservedGeneration> {
    if place_of(entries, session_id, generation) is None {
        entries.push(ObservedGeneration { session_id, generation, observation })
    } else {
        observed(entries, session_id, generation, observation)
    }
}

/// How many generations of a session are observed.
pub open spec fn generations_of(entries: Seq<ObservedGeneration>, session_id: SessionId) -> nat
    decreases entries.len(),
{
    if entries.len() == 0 {
        0
    } else {
        generations_of(entries.drop_last(), session_id) + if entries.last().session_id
            == session_id {
            1nat
        } else {
            0nat
        }
    }
}

/// How many newer generations of a session are observed.
pub open spec fn newer_than(
    entries: Seq<ObservedGeneration>,
    session_id: SessionId,
    generation: Generation,
) -> nat
    decreases entries.len(),
{
    if entries.len() == 0 {
        0
    } else {
        newer_than(entries.drop_last(), session_id, generation) + if entries.last().session_id
            == session_id && entries.last().generation@ > generation@ {
            1nat
        } else {
            0nat
        }
    }
}

/// Whether an entry is kept when only the newest generations of a session are.
pub open spec fn is_kept(
    all: Seq<ObservedGeneration>,
    session_id: SessionId,
    entry: ObservedGeneration,
) -> bool {
    entry.session_id == session_id ==> newer_than(all, session_id, entry.generation)
        < RETAINED_GENERATIONS_PER_SESSION
}

/// The entries that are kept of some, in their order.
pub open spec fn kept(
    all: Seq<ObservedGeneration>,
    session_id: SessionId,
    entries: Seq<ObservedGeneration>,
) -> Seq<ObservedGeneration>
    decreases entries.len(),
{
    if entries.len() == 0 {
        Seq::empty()
    } else {
        let earlier = kept(all, session_id, entries.drop_last());
        if is_kept(all, session_id, entries.last()) {
            earlier.push(entries.last())
        } else {
            earlier
        }
    }
}

/// The entries without those of a session that have enough newer generations.
pub open spec fn retained(entries: Seq<ObservedGeneration>, session_id: SessionId) -> Seq<
    ObservedGeneration,
> {
    kept(entries, session_id, entries)
}

/// Whether no generation occurs twice.
pub open spec fn distinct(entries: Seq<ObservedGeneration>) -> bool {
    forall|left: int, right: int|
        0 <= left < right < entries.len() ==> !(#[trigger] entries[left]).is(
            (#[trigger] entries[right]).session_id,
            entries[right].generation,
        )
}

/// Whether no session has more generations than are kept.
pub open spec fn bounded(entries: Seq<ObservedGeneration>) -> bool {
    forall|session_id: SessionId| #[trigger]
        generations_of(entries, session_id) <= RETAINED_GENERATIONS_PER_SESSION
}

proof fn lemma_place(
    entries: Seq<ObservedGeneration>,
    session_id: SessionId,
    generation: Generation,
)
    ensures
        match place_of(entries, session_id, generation) {
            Some(place) => 0 <= place < entries.len() && entries[place].is(session_id, generation),
            None => forall|index: int|
                0 <= index < entries.len() ==> !(#[trigger] entries[index]).is(
                    session_id,
                    generation,
                ),
        },
    decreases entries.len(),
{
    if entries.len() > 0 && !entries.last().is(session_id, generation) {
        lemma_place(entries.drop_last(), session_id, generation);
        assert forall|index: int|
            place_of(entries, session_id, generation) is None && 0 <= index
                < entries.len() implies !(#[trigger] entries[index]).is(session_id, generation) by {
            if index < entries.len() - 1 {
                assert(entries.drop_last()[index] == entries[index]);
            }
        }
    }
}

/// A generation that was observed again is found with its last observation.
pub proof fn lemma_observed_is_found(
    entries: Seq<ObservedGeneration>,
    session_id: SessionId,
    generation: Generation,
    observation: GenerationObservation,
)
    requires
        observation_of(entries, session_id, generation) is Some,
    ensures
        observation_of(
            observed(entries, session_id, generation, observation),
            session_id,
            generation,
        ) == Some(observation),
    decreases entries.len(),
{
    let after = observed(entries, session_id, generation, observation);
    lemma_place(entries, session_id, generation);
    let place = place_of(entries, session_id, generation)->Some_0;
    if place < entries.len() - 1 {
        lemma_place(entries.drop_last(), session_id, generation);
        lemma_observed_is_found(entries.drop_last(), session_id, generation, observation);
        assert(after.drop_last() =~= observed(
            entries.drop_last(),
            session_id,
            generation,
            observation,
        ));
        lemma_place(after.drop_last(), session_id, generation);
    }
}

proof fn lemma_update_keeps_counts(
    entries: Seq<ObservedGeneration>,
    place: int,
    entry: ObservedGeneration,
    session_id: SessionId,
)
    requires
        0 <= place < entries.len(),
        entries[place].is(entry.session_id, entry.generation),
    ensures
        generations_of(entries.update(place, entry), session_id) == generations_of(
            entries,
            session_id,
        ),
    decreases entries.len(),
{
    let updated = entries.update(place, entry);
    if place < entries.len() - 1 {
        lemma_update_keeps_counts(entries.drop_last(), place, entry, session_id);
        assert(updated.drop_last() =~= entries.drop_last().update(place, entry));
    } else {
        assert(updated.drop_last() =~= entries.drop_last());
    }
}

proof fn lemma_update_keeps_keys(
    entries: Seq<ObservedGeneration>,
    place: int,
    entry: ObservedGeneration,
)
    requires
        0 <= place < entries.len(),
        entries[place].is(entry.session_id, entry.generation),
        distinct(entries),
    ensures
        distinct(entries.update(place, entry)),
        bounded(entries) ==> bounded(entries.update(place, entry)),
{
    let updated = entries.update(place, entry);
    assert forall|left: int, right: int| 0 <= left < right < updated.len() implies !(
    #[trigger] updated[left]).is(
        (#[trigger] updated[right]).session_id,
        updated[right].generation,
    ) by {
        assert(!entries[left].is(entries[right].session_id, entries[right].generation));
    }
    if bounded(entries) {
        assert forall|session_id: SessionId| #[trigger]
            generations_of(updated, session_id) <= RETAINED_GENERATIONS_PER_SESSION by {
            lemma_update_keeps_counts(entries, place, entry, session_id);
            assert(generations_of(entries, session_id) <= RETAINED_GENERATIONS_PER_SESSION);
        }
    }
}

proof fn lemma_kept_members(
    all: Seq<ObservedGeneration>,
    session_id: SessionId,
    entries: Seq<ObservedGeneration>,
)
    requires
        distinct(entries),
    ensures
        distinct(kept(all, session_id, entries)),
        forall|index: int|
            0 <= index < kept(all, session_id, entries).len() ==> {
                &&& is_kept(all, session_id, #[trigger] kept(all, session_id, entries)[index])
                &&& entries.contains(kept(all, session_id, entries)[index])
            },
    decreases entries.len(),
{
    if entries.len() > 0 {
        let earlier = entries.drop_last();
        let last = entries.last();
        let before = kept(all, session_id, earlier);
        let after = kept(all, session_id, entries);
        assert forall|left: int, right: int| 0 <= left < right < earlier.len() implies !(
        #[trigger] earlier[left]).is(
            (#[trigger] earlier[right]).session_id,
            earlier[right].generation,
        ) by {
            assert(!entries[left].is(entries[right].session_id, entries[right].generation));
        }
        lemma_kept_members(all, session_id, earlier);
        assert forall|index: int| 0 <= index < after.len() implies {
            &&& is_kept(all, session_id, #[trigger] after[index])
            &&& entries.contains(after[index])
        } by {
            if index < before.len() {
                assert(after[index] == before[index]);
                let source = choose|source: int|
                    0 <= source < earlier.len() && earlier[source] == before[index];
                assert(entries[source] == before[index]);
            } else {
                assert(entries[entries.len() - 1] == last);
            }
        }
        assert forall|left: int, right: int| 0 <= left < right < after.len() implies !(
        #[trigger] after[left]).is((#[trigger] after[right]).session_id, after[right].generation) by {
            if right < before.len() {
                assert(!before[left].is(before[right].session_id, before[right].generation));
            } else {
                assert(after[left] == before[left]);
                let source = choose|source: int|
                    0 <= source < earlier.len() && earlier[source] == before[left];
                assert(entries[source] == before[left]);
                assert(!entries[source].is(last.session_id, last.generation));
            }
        }
    }
}

proof fn lemma_kept_counts(
    all: Seq<ObservedGeneration>,
    session_id: SessionId,
    entries: Seq<ObservedGeneration>,
    other: SessionId,
    generation: Generation,
)
    ensures
        newer_than(kept(all, session_id, entries), other, generation) <= newer_than(
            entries,
            other,
            generation,
        ),
        other != session_id ==> generations_of(kept(all, session_id, entries), other)
            == generations_of(entries, other),
    decreases entries.len(),
{
    if entries.len() > 0 {
        lemma_kept_counts(all, session_id, entries.drop_last(), other, generation);
        if is_kept(all, session_id, entries.last()) {
            let earlier = kept(all, session_id, entries.drop_last());
            assert(earlier.push(entries.last()).drop_last() =~= earlier);
        }
    }
}

/// Whether a generation of a session is observed, and none older than it is.
spec fn is_oldest(
    entries: Seq<ObservedGeneration>,
    session_id: SessionId,
    generation: Generation,
) -> bool {
    &&& exists|index: int|
        0 <= index < entries.len() && (#[trigger] entries[index]).is(session_id, generation)
    &&& forall|index: int|
        0 <= index < entries.len() && (#[trigger] entries[index]).session_id == session_id
            ==> generation@ <= entries[index].generation@
}

proof fn lemma_oldest_exists(entries: Seq<ObservedGeneration>, session_id: SessionId)
    requires
        generations_of(entries, session_id) > 0,
    ensures
        exists|generation: Generation| is_oldest(entries, session_id, generation),
    decreases entries.len(),
{
    let earlier = entries.drop_last();
    let last = entries.last();
    if generations_of(earlier, session_id) == 0 {
        lemma_none_observed(earlier, session_id);
        assert(entries[entries.len() - 1].is(session_id, last.generation));
        assert forall|index: int|
            0 <= index < entries.len() && (#[trigger] entries[index]).session_id
                == session_id implies last.generation@ <= entries[index].generation@ by {
            if index < earlier.len() {
                assert(earlier[index] == entries[index]);
            }
        }
        assert(is_oldest(entries, session_id, last.generation));
    } else {
        lemma_oldest_exists(earlier, session_id);
        let oldest = choose|generation: Generation| is_oldest(earlier, session_id, generation);
        let source = choose|index: int|
            0 <= index < earlier.len() && (#[trigger] earlier[index]).is(session_id, oldest);
        let found = if last.session_id == session_id && last.generation@ < oldest@ {
            last.generation
        } else {
            oldest
        };
        assert(entries[source] == earlier[source]);
        assert(entries[entries.len() - 1] == last);
        assert forall|index: int|
            0 <= index < entries.len() && (#[trigger] entries[index]).session_id
                == session_id implies found@ <= entries[index].generation@ by {
            if index < earlier.len() {
                assert(earlier[index] == entries[index]);
            }
        }
        assert(is_oldest(entries, session_id, found));
    }
}

proof fn lemma_none_observed(entries: Seq<ObservedGeneration>, session_id: SessionId)
    requires
        generations_of(entries, session_id) == 0,
    ensures
        forall|index: int|
            0 <= index < entries.len() ==> (#[trigger] entries[index]).session_id != session_id,
    decreases entries.len(),
{
    if entries.len() > 0 {
        lemma_none_observed(entries.drop_last(), session_id);
        assert forall|index: int| 0 <= index < entries.len() implies (
        #[trigger] entries[index]).session_id != session_id by {
            if index < entries.len() - 1 {
                assert(entries.drop_last()[index] == entries[index]);
            }
        }
    }
}

proof fn lemma_newer_than_oldest(
    entries: Seq<ObservedGeneration>,
    session_id: SessionId,
    generation: Generation,
)
    requires
        distinct(entries),
        forall|index: int|
            0 <= index < entries.len() && (#[trigger] entries[index]).session_id == session_id
                ==> generation@ <= entries[index].generation@,
    ensures
        generations_of(entries, session_id) == newer_than(entries, session_id, generation) + (
        if place_of(entries, session_id, generation) is Some {
            1int
        } else {
            0int
        }),
    decreases entries.len(),
{
    if entries.len() > 0 {
        let earlier = entries.drop_last();
        let last = entries.last();
        assert forall|left: int, right: int| 0 <= left < right < earlier.len() implies !(
        #[trigger] earlier[left]).is(
            (#[trigger] earlier[right]).session_id,
            earlier[right].generation,
        ) by {
            assert(!entries[left].is(entries[right].session_id, entries[right].generation));
        }
        assert forall|index: int|
            0 <= index < earlier.len() && (#[trigger] earlier[index]).session_id
                == session_id implies generation@ <= earlier[index].generation@ by {
            assert(earlier[index] == entries[index]);
        }
        lemma_newer_than_oldest(earlier, session_id, generation);
        lemma_place(earlier, session_id, generation);
        assert(entries[entries.len() - 1] == last);
        if last.is(session_id, generation) {
            if let Some(place) = place_of(earlier, session_id, generation) {
                assert(!entries[place].is(last.session_id, last.generation));
                assert(earlier[place] == entries[place]);
            }
        } else if last.session_id == session_id {
            assert(last.generation@ != generation@) by {
                generation_of_view(last.generation);
                generation_of_view(generation);
            }
        }
    }
}

/// No more generations of a session than are kept stay after the oldest ones went, and other
/// sessions lose none.
pub proof fn law_history_is_bounded(
    entries: Seq<ObservedGeneration>,
    session_id: SessionId,
    other: SessionId,
)
    requires
        distinct(entries),
    ensures
        generations_of(retained(entries, session_id), session_id)
            <= RETAINED_GENERATIONS_PER_SESSION,
        other != session_id ==> generations_of(retained(entries, session_id), other)
            == generations_of(entries, other),
{
    let after = retained(entries, session_id);
    lemma_kept_members(entries, session_id, entries);
    lemma_kept_counts(entries, session_id, entries, other, arbitrary());
    if generations_of(after, session_id) > 0 {
        lemma_oldest_exists(after, session_id);
        let oldest = choose|generation: Generation| is_oldest(after, session_id, generation);
        let source = choose|index: int|
            0 <= index < after.len() && (#[trigger] after[index]).is(session_id, oldest);
        assert(is_kept(entries, session_id, after[source]));
        lemma_kept_counts(entries, session_id, entries, session_id, oldest);
        lemma_newer_than_oldest(after, session_id, oldest);
    }
}

/// Whether no newer generation of a session is observed.
pub open spec fn no_newer(
    entries: Seq<ObservedGeneration>,
    session_id: SessionId,
    generation: Generation,
) -> bool {
    forall|index: int|
        0 <= index < entries.len() && (#[trigger] entries[index]).session_id == session_id
            ==> entries[index].generation@ <= generation@
}

/// Observing the newest generation again leaves it the newest.
pub proof fn lemma_observed_keeps_newest(
    entries: Seq<ObservedGeneration>,
    session_id: SessionId,
    generation: Generation,
    observation: GenerationObservation,
)
    requires
        no_newer(entries, session_id, generation),
    ensures
        no_newer(
            observed(entries, session_id, generation, observation),
            session_id,
            generation,
        ),
{
    lemma_place(entries, session_id, generation);
    let after = observed(entries, session_id, generation, observation);
    assert forall|index: int|
        0 <= index < after.len() && (#[trigger] after[index]).session_id
            == session_id implies after[index].generation@ <= generation@ by {
        assert(entries[index].session_id == session_id || after[index].generation == generation);
    }
}

proof fn lemma_none_newer(
    entries: Seq<ObservedGeneration>,
    session_id: SessionId,
    generation: Generation,
)
    requires
        no_newer(entries, session_id, generation),
    ensures
        newer_than(entries, session_id, generation) == 0,
    decreases entries.len(),
{
    if entries.len() > 0 {
        assert forall|index: int|
            0 <= index < entries.len() - 1 && (#[trigger] entries.drop_last()[index]).session_id
                == session_id implies entries.drop_last()[index].generation@ <= generation@ by {
            assert(entries.drop_last()[index] == entries[index]);
        }
        lemma_none_newer(entries.drop_last(), session_id, generation);
        assert(entries.last() == entries[entries.len() - 1]);
    }
}

/// A generation that has few newer ones is found among the kept entries as among all.
proof fn lemma_kept_is_found(
    all: Seq<ObservedGeneration>,
    session_id: SessionId,
    entries: Seq<ObservedGeneration>,
    generation: Generation,
)
    requires
        newer_than(all, session_id, generation) < RETAINED_GENERATIONS_PER_SESSION,
    ensures
        observation_of(kept(all, session_id, entries), session_id, generation) == observation_of(
            entries,
            session_id,
            generation,
        ),
    decreases entries.len(),
{
    if entries.len() > 0 {
        let earlier = kept(all, session_id, entries.drop_last());
        let after = kept(all, session_id, entries);
        lemma_kept_is_found(all, session_id, entries.drop_last(), generation);
        lemma_place(entries.drop_last(), session_id, generation);
        lemma_place(earlier, session_id, generation);
        if is_kept(all, session_id, entries.last()) {
            assert(after.drop_last() =~= earlier);
        }
    }
}

/// A generation newer than all others is entered and found, and the newest one before it stays as
/// it was observed.
pub proof fn lemma_newest_is_entered(
    entries: Seq<ObservedGeneration>,
    session_id: SessionId,
    newest: Generation,
    next: Generation,
    observation: GenerationObservation,
)
    requires
        no_newer(entries, session_id, newest),
        newest@ < next@,
    ensures
        ({
            let after = retained(entered(entries, session_id, next, observation), session_id);
            &&& observation_of(after, session_id, next) == Some(observation)
            &&& observation_of(after, session_id, newest) == observation_of(
                entries,
                session_id,
                newest,
            )
        }),
{
    lemma_place(entries, session_id, next);
    let all = entered(entries, session_id, next, observation);
    if let Some(place) = place_of(entries, session_id, next) {
        assert(entries[place].session_id == session_id);
        assert(false);
    }
    assert(all.drop_last() =~= entries);
    lemma_none_newer(entries, session_id, newest);
    lemma_place(entries, session_id, newest);
    assert(no_newer(all, session_id, next)) by {
        assert forall|index: int|
            0 <= index < all.len() && (#[trigger] all[index]).session_id
                == session_id implies all[index].generation@ <= next@ by {
            if index < entries.len() {
                assert(all[index] == entries[index]);
            }
        }
    }
    lemma_none_newer(all, session_id, next);
    assert(newer_than(all, session_id, newest) <= 1);
    lemma_kept_is_found(all, session_id, all, next);
    lemma_kept_is_found(all, session_id, all, newest);
}

/// Entries that are kept are not newer than all entries are.
proof fn lemma_kept_is_no_newer(
    all: Seq<ObservedGeneration>,
    session_id: SessionId,
    entries: Seq<ObservedGeneration>,
    generation: Generation,
)
    requires
        no_newer(entries, session_id, generation),
    ensures
        no_newer(kept(all, session_id, entries), session_id, generation),
    decreases entries.len(),
{
    if entries.len() > 0 {
        let shorter = entries.drop_last();
        assert forall|index: int|
            0 <= index < shorter.len() && (#[trigger] shorter[index]).session_id
                == session_id implies shorter[index].generation@ <= generation@ by {
            assert(shorter[index] == entries[index]);
        }
        lemma_kept_is_no_newer(all, session_id, shorter, generation);
        let earlier = kept(all, session_id, shorter);
        let after = kept(all, session_id, entries);
        assert(entries[entries.len() - 1] == entries.last());
        assert forall|index: int|
            0 <= index < after.len() && (#[trigger] after[index]).session_id
                == session_id implies after[index].generation@ <= generation@ by {
            if index < earlier.len() {
                assert(after[index] == earlier[index]);
            }
        }
    }
}

/// The first generation of a session is entered and found, and it is the newest.
pub proof fn lemma_first_is_entered(
    entries: Seq<ObservedGeneration>,
    session_id: SessionId,
    generation: Generation,
    observation: GenerationObservation,
)
    requires
        forall|index: int|
            0 <= index < entries.len() ==> (#[trigger] entries[index]).session_id != session_id,
        0 < generation@,
    ensures
        ({
            let after = retained(entered(entries, session_id, generation, observation), session_id);
            &&& observation_of(after, session_id, generation) == Some(observation)
            &&& no_newer(after, session_id, generation)
        }),
{
    generation_view_of(0);
    lemma_newest_is_entered(
        entries,
        session_id,
        Generation::of(0),
        generation,
        observation,
    );
    lemma_place(entries, session_id, generation);
    let all = entered(entries, session_id, generation, observation);
    assert forall|index: int|
        0 <= index < all.len() && (#[trigger] all[index]).session_id == session_id implies all[
        index].generation@ <= generation@ by {
        if index < entries.len() {
            assert(all[index] == entries[index]);
        }
    }
    lemma_kept_is_no_newer(all, session_id, all, generation);
}

/// What was observed of a generation is one of the entries.
pub proof fn lemma_observation_is_an_entry(
    entries: Seq<ObservedGeneration>,
    session_id: SessionId,
    generation: Generation,
)
    requires
        observation_of(entries, session_id, generation) is Some,
    ensures
        entries.contains(
            ObservedGeneration {
                session_id,
                generation,
                observation: observation_of(entries, session_id, generation)->0,
            },
        ),
{
    lemma_place(entries, session_id, generation);
    let place = place_of(entries, session_id, generation)->Some_0;
    assert(entries[place] == (ObservedGeneration {
        session_id,
        generation,
        observation: observation_of(entries, session_id, generation)->0,
    }));
}

/// Observed generations, of each session no more than a fixed number of the newest.
pub struct ObservationCatalog {
    entries: Vec<ObservedGeneration>,
}

impl View for ObservationCatalog {
    type V = Seq<ObservedGeneration>;

    closed spec fn view(&self) -> Seq<ObservedGeneration> {
        self.entries@
    }
}

impl ObservationCatalog {
    #[verifier::type_invariant]
    spec fn is_valid(self) -> bool {
        distinct(self.entries@) && bounded(self.entries@)
    }

    /// Creates a catalog that observed nothing.
    pub fn new() -> (created: Self)
        ensures
            created@ == Seq::<ObservedGeneration>::empty(),
    {
        ObservationCatalog { entries: Vec::new() }
    }

    /// Number of observed generations.
    pub fn len(&self) -> (count: usize)
        ensures
            count == self@.len(),
            distinct(self@),
            bounded(self@),
    {
        proof {
            use_type_invariant(self);
        }
        self.entries.len()
    }

    /// An observed generation by its place.
    pub fn entry(&self, index: usize) -> (entry: ObservedGeneration)
        requires
            index < self@.len(),
        ensures
            entry == self@[index as int],
    {
        self.entries[index]
    }

    fn find(entries: &Vec<ObservedGeneration>, session_id: SessionId, generation: Generation) -> (
        found: Option<usize>)
        ensures
            match found {
                Some(place) => place_of(entries@, session_id, generation) == Some(place as int)
                    && place < entries@.len() && entries@[place as int].is(session_id, generation),
                None => place_of(entries@, session_id, generation) is None,
            },
    {
        let mut place: usize = entries.len();
        proof {
            assert(entries@.take(place as int) =~= entries@);
        }
        while place > 0
            invariant
                place <= entries@.len(),
                place_of(entries@, session_id, generation) == place_of(
                    entries@.take(place as int),
                    session_id,
                    generation,
                ),
            decreases place,
        {
            let entry = entries[place - 1];
            proof {
                assert(entries@.take(place as int).last() == entry);
                assert(entries@.take(place as int).drop_last() =~= entries@.take(place - 1));
            }
            if entry.session_id == session_id && entry.generation == generation {
                return Some(place - 1);
            }
            place -= 1;
        }
        None
    }

    /// What was observed of a generation.
    pub fn get(&self, session_id: SessionId, generation: Generation) -> (found: Option<
        GenerationObservation,
    >)
        ensures
            found == observation_of(self@, session_id, generation),
    {
        match ObservationCatalog::find(&self.entries, session_id, generation) {
            Some(place) => Some(self.entries[place].observation),
            None => None,
        }
    }

    fn set(&mut self, session_id: SessionId, generation: Generation, place: usize, observation:
        GenerationObservation)
        requires
            place_of(old(self)@, session_id, generation) == Some(place as int),
        ensures
            final(self)@ == observed(old(self)@, session_id, generation, observation),
    {
        proof {
            use_type_invariant(&*self);
            lemma_place(self.entries@, session_id, generation);
            lemma_update_keeps_keys(
                self.entries@,
                place as int,
                ObservedGeneration { session_id, generation, observation },
            );
        }
        let mut entries: Vec<ObservedGeneration> = Vec::new();
        proof {
            assert(bounded(entries@));
        }
        std::mem::swap(&mut entries, &mut self.entries);
        entries.set(place, ObservedGeneration { session_id, generation, observation });
        self.entries = entries;
    }

    /// Keeps a failure with its generation, where that is observed.
    pub fn observe_failure(
        &mut self,
        session_id: SessionId,
        generation: Generation,
        stage: FailureStage,
        error: &ErrorReport,
    )
        ensures
            final(self)@ == match observation_of(old(self)@, session_id, generation) {
                Some(observation) => observed(
                    old(self)@,
                    session_id,
                    generation,
                    observation.failed(stage, *error),
                ),
                None => old(self)@,
            },
    {
        match ObservationCatalog::find(&self.entries, session_id, generation) {
            Some(place) => {
                let mut observation = self.entries[place].observation;
                observation.last_failure = Some(FailureDiagnostics::from_report(stage, error));
                if stage == FailureStage::Cleanup {
                    observation.cleanup = CleanupStatus::Failed;
                }
                self.set(session_id, generation, place, observation);
            },
            None => {},
        }
    }

    /// Keeps the state of a generation and the release of its resources, where it is observed.
    pub fn update(
        &mut self,
        session_id: SessionId,
        generation: Generation,
        state: SessionState,
        cleanup: CleanupStatus,
    )
        ensures
            final(self)@ == match observation_of(old(self)@, session_id, generation) {
                Some(observation) => observed(
                    old(self)@,
                    session_id,
                    generation,
                    (GenerationObservation {
                        state,
                        cleanup,
                        last_failure: observation.last_failure,
                    }),
                ),
                None => old(self)@,
            },
    {
        match ObservationCatalog::find(&self.entries, session_id, generation) {
            Some(place) => {
                let last_failure = self.entries[place].observation.last_failure;
                self.set(
                    session_id,
                    generation,
                    place,
                    GenerationObservation { state, cleanup, last_failure },
                );
            },
            None => {},
        }
    }

    fn count_newer(
        entries: &Vec<ObservedGeneration>,
        session_id: SessionId,
        generation: Generation,
    ) -> (count: usize)
        ensures
            count == newer_than(entries@, session_id, generation),
    {
        let mut count: usize = 0;
        let mut index: usize = 0;
        proof {
            assert(entries@.take(0) =~= Seq::<ObservedGeneration>::empty());
        }
        while index < entries.len()
            invariant
                count <= index <= entries@.len(),
                count == newer_than(entries@.take(index as int), session_id, generation),
            decreases entries@.len() - index,
        {
            let entry = entries[index];
            proof {
                let next = entries@.take(index + 1);
                assert(next.drop_last() =~= entries@.take(index as int));
                assert(next.last() == entry);
            }
            if entry.session_id == session_id && entry.generation.get() > generation.get() {
                count += 1;
            }
            index += 1;
        }
        proof {
            assert(entries@.take(index as int) =~= entries@);
        }
        count
    }

    fn retain(entries: &Vec<ObservedGeneration>, session_id: SessionId) -> (remaining: Vec<
        ObservedGeneration,
    >)
        ensures
            remaining@ == retained(entries@, session_id),
    {
        let mut remaining: Vec<ObservedGeneration> = Vec::new();
        let mut index: usize = 0;
        proof {
            assert(entries@.take(0) =~= Seq::<ObservedGeneration>::empty());
            assert(remaining@ =~= kept(entries@, session_id, entries@.take(0)));
        }
        while index < entries.len()
            invariant
                index <= entries@.len(),
                remaining@ == kept(entries@, session_id, entries@.take(index as int)),
            decreases entries@.len() - index,
        {
            let entry = entries[index];
            proof {
                let next = entries@.take(index + 1);
                assert(next.drop_last() =~= entries@.take(index as int));
                assert(next.last() == entry);
            }
            if entry.session_id != session_id || ObservationCatalog::count_newer(
                entries,
                session_id,
                entry.generation,
            ) < RETAINED_GENERATIONS_PER_SESSION {
                remaining.push(entry);
            }
            index += 1;
        }
        proof {
            assert(entries@.take(index as int) =~= entries@);
        }
        remaining
    }

    /// Enters what was observed of a generation. Of its session only the newest generations stay.
    pub fn insert(
        &mut self,
        session_id: SessionId,
        generation: Generation,
        observation: GenerationObservation,
    )
        ensures
            final(self)@ == retained(
                entered(old(self)@, session_id, generation, observation),
                session_id,
            ),
    {
        proof {
            use_type_invariant(&*self);
        }
        let ghost before = self.entries@;
        let entry = ObservedGeneration { session_id, generation, observation };
        let mut entries: Vec<ObservedGeneration> = Vec::new();
        proof {
            assert(bounded(entries@));
        }
        std::mem::swap(&mut entries, &mut self.entries);
        match ObservationCatalog::find(&entries, session_id, generation) {
            Some(place) => {
                proof {
                    lemma_update_keeps_keys(entries@, place as int, entry);
                }
                entries.set(place, entry);
            },
            None => {
                proof {
                    lemma_place(entries@, session_id, generation);
                    lemma_pushed(entries@, entry);
                }
                entries.push(entry);
            },
        }
        let remaining = ObservationCatalog::retain(&entries, session_id);
        proof {
            lemma_kept_members(entries@, session_id, entries@);
            assert forall|other: SessionId| #[trigger]
                generations_of(remaining@, other) <= RETAINED_GENERATIONS_PER_SESSION by {
                law_history_is_bounded(entries@, session_id, other);
                assert(generations_of(before, other) <= RETAINED_GENERATIONS_PER_SESSION);
                if other != session_id {
                    if place_of(before, session_id, generation) is None {
                        assert(before.push(entry).drop_last() =~= before);
                    } else {
                        lemma_update_keeps_counts(
                            before,
                            place_of(before, session_id, generation)->Some_0,
                            entry,
                            other,
                        );
                    }
                }
            }
        }
        self.entries = remaining;
    }
}

proof fn lemma_pushed(entries: Seq<ObservedGeneration>, entry: ObservedGeneration)
    requires
        distinct(entries),
        forall|index: int|
            0 <= index < entries.len() ==> !(#[trigger] entries[index]).is(
                entry.session_id,
                entry.generation,
            ),
    ensures
        distinct(entries.push(entry)),
{
    let pushed = entries.push(entry);
    assert forall|left: int, right: int| 0 <= left < right < pushed.len() implies !(
    #[trigger] pushed[left]).is((#[trigger] pushed[right]).session_id, pushed[right].generation) by {
        if right < entries.len() {
            assert(!entries[left].is(entries[right].session_id, entries[right].generation));
        } else {
            assert(!entries[left].is(entry.session_id, entry.generation));
        }
    }
}

/// Observing one generation leaves what is known of every other one.
pub proof fn law_observations_are_kept_apart(
    entries: Seq<ObservedGeneration>,
    session_id: SessionId,
    generation: Generation,
    observation: GenerationObservation,
    other_session: SessionId,
    other_generation: Generation,
)
    requires
        other_session != session_id || other_generation != generation,
    ensures
        observation_of(
            observed(entries, session_id, generation, observation),
            other_session,
            other_generation,
        ) == observation_of(entries, other_session, other_generation),
        observation_of(
            entered(entries, session_id, generation, observation),
            other_session,
            other_generation,
        ) == observation_of(entries, other_session, other_generation),
    decreases entries.len(),
{
    let after = observed(entries, session_id, generation, observation);
    lemma_place(entries, session_id, generation);
    lemma_place(entries, other_session, other_generation);
    if entries.len() > 0 {
        let earlier = entries.drop_last();
        law_observations_are_kept_apart(
            earlier,
            session_id,
            generation,
            observation,
            other_session,
            other_generation,
        );
        lemma_place(earlier, session_id, generation);
        lemma_place(earlier, other_session, other_generation);
        let changed = observed(earlier, session_id, generation, observation);
        lemma_place(changed, other_session, other_generation);
        if entries.last().is(session_id, generation) {
            assert(after.drop_last() =~= earlier);
        } else {
            assert(after.drop_last() =~= changed);
            assert(after.last() == entries.last());
        }
    }
    let longer = entries.push(ObservedGeneration { session_id, generation, observation });
    assert(longer.drop_last() =~= entries);
}

/// What was observed of a generation is what was observed last, whether or not it was known
/// before.
pub proof fn law_the_last_observation_is_found(
    entries: Seq<ObservedGeneration>,
    session_id: SessionId,
    generation: Generation,
    observation: GenerationObservation,
)
    ensures
        observation_of(
            entered(entries, session_id, generation, observation),
            session_id,
            generation,
        ) == Some(observation),
        observation_of(entries, session_id, generation) is None ==> observed(
            entries,
            session_id,
            generation,
            observation,
        ) == entries,
{
    if observation_of(entries, session_id, generation) is Some {
        lemma_observed_is_found(entries, session_id, generation, observation);
    } else {
        let longer = entries.push(ObservedGeneration { session_id, generation, observation });
        assert(longer.last().is(session_id, generation));
    }
}

/// A failure changes neither the state of a generation nor, unless its resources could not be
/// released, what is known of their release; the failure that is kept is that one.
pub proof fn law_failures_keep_the_state(
    observation: GenerationObservation,
    stage: FailureStage,
    error: ErrorReport,
)
    ensures
        observation.failed(stage, error).state == observation.state,
        observation.failed(stage, error).cleanup is Failed <==> stage is Cleanup
            || observation.cleanup is Failed,
        !(stage is Cleanup) ==> observation.failed(stage, error).cleanup == observation.cleanup,
        observation.failed(stage, error).last_failure matches Some(failure) && failure.code
            == error.code && failure.stage == stage && failure.category == error.category
            && failure.recoverability == error.recoverability,
{
}

/// Whether a generation is kept is decided by how many newer ones of its session there are, and
/// never for those of another session; every entry that is kept was there.
pub proof fn law_the_newest_generations_are_kept(
    entries: Seq<ObservedGeneration>,
    session_id: SessionId,
    entry: ObservedGeneration,
)
    ensures
        retained(entries, session_id).contains(entry) <==> entries.contains(entry) && (
        entry.session_id != session_id || newer_than(entries, session_id, entry.generation) < 16),
{
    lemma_kept_are_the_newest(entries, session_id, entries, entry);
}

proof fn lemma_kept_are_the_newest(
    all: Seq<ObservedGeneration>,
    session_id: SessionId,
    entries: Seq<ObservedGeneration>,
    entry: ObservedGeneration,
)
    ensures
        kept(all, session_id, entries).contains(entry) <==> entries.contains(entry) && (
        entry.session_id != session_id || newer_than(all, session_id, entry.generation) < 16),
    decreases entries.len(),
{
    if entries.len() > 0 {
        let earlier = entries.drop_last();
        let before = kept(all, session_id, earlier);
        let after = kept(all, session_id, entries);
        lemma_kept_are_the_newest(all, session_id, earlier, entry);
        assert(entries =~= earlier.push(entries.last()));
        if earlier.contains(entry) {
            let place = choose|place: int| 0 <= place < earlier.len() && earlier[place] == entry;
            assert(entries[place] == entry);
        }
        if entries.contains(entry) && !earlier.contains(entry) {
            let place = choose|place: int| 0 <= place < entries.len() && entries[place] == entry;
            if place < earlier.len() {
                assert(earlier[place] == entry);
            }
            assert(entry == entries.last());
        }
        if is_kept(all, session_id, entries.last()) {
            assert(after == before.push(entries.last()));
            assert(after[before.len() as int] == entries.last());
            if before.contains(entry) {
                let place = choose|place: int| 0 <= place < before.len() && before[place] == entry;
                assert(after[place] == entry);
            }
            if after.contains(entry) && !before.contains(entry) {
                let place = choose|place: int| 0 <= place < after.len() && after[place] == entry;
                if place < before.len() {
                    assert(before[place] == entry);
                }
                assert(entry == entries.last());
                assert(entries[entries.len() - 1] == entry);
            }
        }
    }
}

} // verus!
