//! Bounded fixed-size payload slabs with loan, commit, borrow, and release ownership.
//!
//! A slab is free, loaned to the producer, ready for the consumer, or received by it. The state
//! of all slabs is one value behind a lock. A loan or receipt that is dropped posts its slab to a
//! mailbox, which every later operation empties before it looks at the state.

use std::collections::VecDeque;
use std::sync::mpsc::{Receiver, Sender};
use std::sync::Arc;

use vstd::prelude::*;
use vstd::rwlock::{RwLock, RwLockPredicate};
use vstd::slice::slice_subrange;

use crate::domain::error::{
    plain_outcome, report, ErrorCategory, ErrorCode, ErrorReport, Recoverability,
};

verus! {

/// The report of a pool operation.
pub open spec fn pool_report(
    code: ErrorCode,
    recoverability: Recoverability,
    operation: &'static str,
) -> ErrorReport {
    report(ErrorCategory::Resource, code, recoverability, operation)
}

/// The report of an unusable pool size.
pub open spec fn configuration_report() -> ErrorReport {
    pool_report(ErrorCode::InvalidRange, Recoverability::Terminal, "configure chunk pool")
}

/// The report of a pool that could not be allocated.
pub open spec fn allocation_report() -> ErrorReport {
    pool_report(ErrorCode::Backpressured, Recoverability::Terminal, "allocate chunk pool")
}

/// The report of a loan for which no slab is free.
pub open spec fn backpressure_report() -> ErrorReport {
    pool_report(ErrorCode::Backpressured, Recoverability::Retryable, "loan chunk")
}

/// The report of a loan larger than a slab.
pub open spec fn oversize_report() -> ErrorReport {
    pool_report(ErrorCode::MessageTooLarge, Recoverability::Terminal, "loan chunk")
}

/// The report of a slab that is not held as claimed.
pub open spec fn ownership_report() -> ErrorReport {
    pool_report(ErrorCode::Internal, Recoverability::Terminal, "chunk pool ownership")
}

fn pool_error(code: ErrorCode, recoverability: Recoverability, operation: &'static str) -> (created:
    ErrorReport)
    ensures
        created == pool_report(code, recoverability, operation),
{
    ErrorReport::new(ErrorCategory::Resource, code, recoverability, operation)
}

/// Point-in-time counts for every exclusive chunk ownership state.
#[derive(Clone, Copy, Debug, PartialEq, Eq, Structural)]
pub struct PoolDiagnostics {
    /// Total fixed slab count.
    pub chunk_count: usize,
    /// Slabs currently available to loan.
    pub free: usize,
    /// Slabs held by uncommitted producer loans.
    pub loaned: usize,
    /// Committed slabs waiting for the consumer.
    pub ready: usize,
    /// Slabs currently borrowed by the consumer.
    pub received: usize,
}

/// Who held a slab that was handed back.
#[derive(Clone, Copy, Debug, PartialEq, Eq, Structural)]
pub enum SlabHolder {
    /// An uncommitted producer loan.
    Loan,
    /// A consumer receipt.
    Receipt,
}

/// A slab that was handed back.
pub struct ReturnedSlab {
    /// Who held it.
    pub holder: SlabHolder,
    /// Its index.
    pub index: usize,
    /// Its bytes.
    pub buffer: Vec<u8>,
}

/// Ownership of every slab at one moment.
pub struct PoolState {
    /// Bytes of one slab.
    pub chunk_capacity: usize,
    /// The slabs that nobody holds.
    pub slots: Vec<Option<Vec<u8>>>,
    /// Slabs to loan, oldest first.
    pub free: VecDeque<usize>,
    /// Committed slabs with their payload lengths, oldest first.
    pub ready: VecDeque<(usize, usize)>,
    /// Number of uncommitted loans.
    pub loaned: usize,
    /// Number of receipts.
    pub received: usize,
}

/// Where every slab of a pool is, in terms of sequences and numbers.
#[verifier::ext_equal]
pub struct PoolContents {
    /// Bytes of one slab.
    pub chunk_capacity: usize,
    /// The slabs that nobody holds.
    pub slots: Seq<Option<Vec<u8>>>,
    /// Slabs to loan, oldest first.
    pub free: Seq<usize>,
    /// Committed slabs with their payload lengths, oldest first.
    pub ready: Seq<(usize, usize)>,
    /// Number of uncommitted loans.
    pub loaned: int,
    /// Number of receipts.
    pub received: int,
}

/// Whether a slab that was handed back was held outside of the pool as it claims.
pub open spec fn was_held(contents: PoolContents, returned: ReturnedSlab) -> bool {
    &&& returned.index < contents.slots.len()
    &&& contents.slots[returned.index as int] is None
    &&& returned.buffer@.len() == contents.chunk_capacity
    &&& match returned.holder {
        SlabHolder::Loan => contents.loaned > 0,
        SlabHolder::Receipt => contents.received > 0,
    }
}

/// The pool after a slab was handed back: one that was held is free again, any other is ignored.
pub open spec fn settled(contents: PoolContents, returned: ReturnedSlab) -> PoolContents {
    if was_held(contents, returned) {
        PoolContents {
            slots: contents.slots.update(returned.index as int, Some(returned.buffer)),
            free: contents.free.push(returned.index),
            loaned: contents.loaned - if returned.holder is Loan {
                1int
            } else {
                0
            },
            received: contents.received - if returned.holder is Receipt {
                1int
            } else {
                0
            },
            ..contents
        }
    } else {
        contents
    }
}

/// The pool after slabs were handed back one after the other.
pub open spec fn settled_all(contents: PoolContents, returned: Seq<ReturnedSlab>) -> PoolContents
    decreases returned.len(),
{
    if returned.len() == 0 {
        contents
    } else {
        settled(settled_all(contents, returned.drop_last()), returned.last())
    }
}

/// The slabs of committed payloads.
pub open spec fn ready_slabs(ready: Seq<(usize, usize)>) -> Seq<usize> {
    Seq::new(ready.len(), |i: int| ready[i].0)
}

impl PoolState {
    /// Number of slabs.
    pub open spec fn chunk_count(self) -> nat {
        self.slots@.len()
    }

    /// Whether a slab is free or ready.
    pub open spec fn is_queued(self, slab: usize) -> bool {
        self.free@.contains(slab) || ready_slabs(self.ready@).contains(slab)
    }

    /// Every slab is in exactly one place, and none is lost.
    pub open spec fn wf(self) -> bool {
        &&& 0 < self.chunk_capacity
        &&& 0 < self.chunk_count()
        &&& self.free@.len() + self.ready@.len() + self.loaned + self.received == self.chunk_count()
        &&& self.free@.no_duplicates()
        &&& ready_slabs(self.ready@).no_duplicates()
        &&& forall|slab: usize|
            #![trigger self.free@.contains(slab)]
            self.free@.contains(slab) ==> !ready_slabs(self.ready@).contains(slab)
        &&& forall|slab: usize| #[trigger]
            self.is_queued(slab) ==> slab < self.chunk_count() && self.slots@[slab as int] is Some
        &&& forall|slab: usize|
            slab < self.chunk_count() && (#[trigger] self.slots@[slab as int]) is Some
                ==> self.is_queued(slab) && self.slots@[slab as int]->0@.len()
                == self.chunk_capacity
        &&& forall|i: int|
            0 <= i < self.ready@.len() ==> (#[trigger] self.ready@[i]).1 <= self.chunk_capacity
    }

    /// The counts of the state.
    pub open spec fn counts(self) -> PoolDiagnostics {
        PoolDiagnostics {
            chunk_count: self.slots@.len() as usize,
            free: self.free@.len() as usize,
            loaned: self.loaned,
            ready: self.ready@.len() as usize,
            received: self.received,
        }
    }

    /// Returns the counts of the state.
    pub fn diagnostics(&self) -> (counts: PoolDiagnostics)
        ensures
            counts == self.counts(),
    {
        PoolDiagnostics {
            chunk_count: self.slots.len(),
            free: self.free.len(),
            loaned: self.loaned,
            ready: self.ready.len(),
            received: self.received,
        }
    }

    /// Takes the oldest free slab out of the pool.
    ///
    /// `MessageTooLarge` is returned when `length` exceeds the slab capacity and `Backpressured`
    /// when every slab is loaned, ready, or borrowed by the consumer.
    pub fn loan(&mut self, length: usize) -> (loaned: Result<(usize, Vec<u8>), ErrorReport>)
        requires
            old(self).wf(),
        ensures
            final(self).wf(),
            final(self).chunk_capacity == old(self).chunk_capacity,
            final(self).chunk_count() == old(self).chunk_count(),
            match loaned {
                Ok((index, buffer)) => {
                    &&& length <= old(self).chunk_capacity
                    &&& old(self).free@.len() > 0
                    &&& index == old(self).free@[0]
                    &&& index < old(self).chunk_count()
                    &&& old(self).slots@[index as int] == Some(buffer)
                    &&& buffer@.len() == old(self).chunk_capacity
                    &&& final(self).slots@ == old(self).slots@.update(index as int, None)
                    &&& final(self).free@ == old(self).free@.subrange(
                        1,
                        old(self).free@.len() as int,
                    )
                    &&& final(self).ready@ == old(self).ready@
                    &&& final(self).loaned == old(self).loaned + 1
                    &&& final(self).received == old(self).received
                    &&& pool_moved(*old(self), PoolStep::Loan(index), *final(self))
                },
                Err(error) => {
                    &&& *final(self) == *old(self)
                    &&& error == if length > old(self).chunk_capacity {
                        oversize_report()
                    } else {
                        backpressure_report()
                    }
                    &&& length > old(self).chunk_capacity || old(self).free@.len() == 0
                },
            },
    {
        if length > self.chunk_capacity {
            return Err(
                pool_error(ErrorCode::MessageTooLarge, Recoverability::Terminal, "loan chunk"),
            );
        }
        if self.free.len() == 0 {
            return Err(
                pool_error(ErrorCode::Backpressured, Recoverability::Retryable, "loan chunk"),
            );
        }
        let ghost before = *self;
        proof {
            assert(before.free@.contains(before.free@[0]));
            assert(before.is_queued(before.free@[0]));
        }
        let _count: usize = self.slots.len();
        let index: usize = self.free.pop_front().unwrap();
        self.loaned = self.loaned + 1;
        let buffer = self.slots[index].take().unwrap();
        proof {
            lemma_unqueued(before.free@);
            lemma_loaned(before, *self);
        }
        Ok((index, buffer))
    }

    /// Takes the oldest committed slab out of the pool.
    pub fn receive(&mut self) -> (received: Option<(usize, usize, Vec<u8>)>)
        requires
            old(self).wf(),
        ensures
            final(self).wf(),
            final(self).chunk_capacity == old(self).chunk_capacity,
            final(self).chunk_count() == old(self).chunk_count(),
            match received {
                Some((index, length, buffer)) => {
                    &&& old(self).ready@.len() > 0
                    &&& old(self).ready@[0] == (index, length)
                    &&& index < old(self).chunk_count()
                    &&& old(self).slots@[index as int] == Some(buffer)
                    &&& buffer@.len() == old(self).chunk_capacity
                    &&& length <= old(self).chunk_capacity
                    &&& final(self).slots@ == old(self).slots@.update(index as int, None)
                    &&& final(self).ready@ == old(self).ready@.subrange(
                        1,
                        old(self).ready@.len() as int,
                    )
                    &&& final(self).free@ == old(self).free@
                    &&& final(self).loaned == old(self).loaned
                    &&& final(self).received == old(self).received + 1
                    &&& pool_moved(
                        *old(self),
                        PoolStep::Receive(index, length, buffer),
                        *final(self),
                    )
                },
                None => old(self).ready@.len() == 0 && *final(self) == *old(self),
            },
    {
        if self.ready.len() == 0 {
            return None;
        }
        let ghost before = *self;
        proof {
            assert(ready_slabs(before.ready@)[0] == before.ready@[0].0);
            assert(ready_slabs(before.ready@).contains(before.ready@[0].0));
            assert(before.is_queued(before.ready@[0].0));
        }
        let _count: usize = self.slots.len();
        let (index, length): (usize, usize) = self.ready.pop_front().unwrap();
        self.received = self.received + 1;
        let buffer = self.slots[index].take().unwrap();
        proof {
            lemma_unqueued(ready_slabs(before.ready@));
            assert(ready_slabs(self.ready@) =~= ready_slabs(before.ready@).subrange(
                1,
                before.ready@.len() as int,
            ));
            lemma_received(before, *self);
        }
        Some((index, length, buffer))
    }

    /// Whether a slab with these bytes is held outside of the pool by somebody of a kind.
    pub open spec fn is_held(self, holder: SlabHolder, index: usize, buffer: Seq<u8>) -> bool {
        &&& index < self.chunk_count()
        &&& self.slots@[index as int] is None
        &&& buffer.len() == self.chunk_capacity
        &&& match holder {
            SlabHolder::Loan => self.loaned > 0,
            SlabHolder::Receipt => self.received > 0,
        }
    }

    fn holds(&self, holder: SlabHolder, index: usize, buffer: &Vec<u8>) -> (held: bool)
        ensures
            held == self.is_held(holder, index, buffer@),
    {
        index < self.slots.len() && self.slots[index].is_none() && buffer.len()
            == self.chunk_capacity && match holder {
            SlabHolder::Loan => self.loaned > 0,
            SlabHolder::Receipt => self.received > 0,
        }
    }

    /// Publishes a loaned slab to the ready queue.
    ///
    /// `Internal` is returned for a slab that is not loaned.
    pub fn commit(&mut self, index: usize, length: usize, buffer: Vec<u8>) -> (committed: Result<
        (),
        ErrorReport,
    >)
        requires
            old(self).wf(),
        ensures
            final(self).wf(),
            final(self).chunk_capacity == old(self).chunk_capacity,
            final(self).chunk_count() == old(self).chunk_count(),
            match committed {
                Ok(_) => {
                    &&& old(self).is_held(SlabHolder::Loan, index, buffer@)
                    &&& length <= old(self).chunk_capacity
                    &&& final(self).slots@ == old(self).slots@.update(index as int, Some(buffer))
                    &&& final(self).ready@ == old(self).ready@.push((index, length))
                    &&& final(self).free@ == old(self).free@
                    &&& final(self).loaned == old(self).loaned - 1
                    &&& final(self).received == old(self).received
                    &&& pool_moved(
                        *old(self),
                        PoolStep::Commit(index, length, buffer),
                        *final(self),
                    )
                },
                Err(error) => {
                    &&& !old(self).is_held(SlabHolder::Loan, index, buffer@) || length
                        > old(self).chunk_capacity
                    &&& error == ownership_report()
                    &&& *final(self) == *old(self)
                },
            },
    {
        if !self.holds(SlabHolder::Loan, index, &buffer) || length > self.chunk_capacity {
            return Err(
                pool_error(
                    ErrorCode::Internal,
                    Recoverability::Terminal,
                    "chunk pool ownership",
                ),
            );
        }
        let ghost before = *self;
        self.slots.set(index, Some(buffer));
        self.loaned = self.loaned - 1;
        self.ready.push_back((index, length));
        proof {
            assert(!before.is_queued(index));
            lemma_queued(ready_slabs(before.ready@), index);
            assert(ready_slabs(self.ready@) =~= ready_slabs(before.ready@).push(index));
            lemma_committed(before, *self, index, length, buffer);
        }
        Ok(())
    }

    /// Where every slab is.
    pub open spec fn contents(self) -> PoolContents {
        PoolContents {
            chunk_capacity: self.chunk_capacity,
            slots: self.slots@,
            free: self.free@,
            ready: self.ready@,
            loaned: self.loaned as int,
            received: self.received as int,
        }
    }

    /// Returns a slab that was handed back to the free queue; one that nobody held is ignored.
    pub fn settle(&mut self, returned: ReturnedSlab)
        requires
            old(self).wf(),
        ensures
            final(self).wf(),
            final(self).contents() == settled(old(self).contents(), returned),
            final(self).chunk_capacity == old(self).chunk_capacity,
            final(self).chunk_count() == old(self).chunk_count(),
            final(self).ready@ == old(self).ready@,
            if old(self).is_held(returned.holder, returned.index, returned.buffer@) {
                &&& final(self).slots@ == old(self).slots@.update(
                    returned.index as int,
                    Some(returned.buffer),
                )
                &&& final(self).free@ == old(self).free@.push(returned.index)
                &&& final(self).loaned == old(self).loaned - if returned.holder is Loan {
                    1int
                } else {
                    0
                }
                &&& final(self).received == old(self).received - if returned.holder is Receipt {
                    1int
                } else {
                    0
                }
            } else {
                *final(self) == *old(self)
            },
    {
        if !self.holds(returned.holder, returned.index, &returned.buffer) {
            return;
        }
        let ghost before = *self;
        let ReturnedSlab { holder, index, buffer } = returned;
        self.slots.set(index, Some(buffer));
        match holder {
            SlabHolder::Loan => {
                self.loaned = self.loaned - 1;
            },
            SlabHolder::Receipt => {
                self.received = self.received - 1;
            },
        }
        self.free.push_back(index);
        proof {
            assert(!before.is_queued(index));
            lemma_queued(before.free@, index);
            lemma_settled(before, *self, index, buffer);
        }
    }
}

/// The first of distinct slabs does not occur again.
proof fn lemma_unqueued(queue: Seq<usize>)
    requires
        queue.no_duplicates(),
        queue.len() > 0,
    ensures
        ({
            let rest = queue.subrange(1, queue.len() as int);
            &&& rest.no_duplicates()
            &&& forall|slab: usize| #[trigger]
                rest.contains(slab) <==> (queue.contains(slab) && slab != queue[0])
        }),
{
    let rest = queue.subrange(1, queue.len() as int);
    assert forall|i: int, j: int| 0 <= i < rest.len() && 0 <= j < rest.len() && i != j
        implies rest[i]
        != rest[j] by {
        assert(rest[i] == queue[i + 1] && rest[j] == queue[j + 1]);
    }
    assert forall|slab: usize| #[trigger] rest.contains(slab) <==> (queue.contains(slab) && slab
        != queue[0]) by {
        if rest.contains(slab) {
            let i = choose|i: int| 0 <= i < rest.len() && rest[i] == slab;
            assert(queue[i + 1] == slab);
        }
        if queue.contains(slab) && slab != queue[0] {
            let i = choose|i: int| 0 <= i < queue.len() && queue[i] == slab;
            assert(rest[i - 1] == slab);
        }
    }
}

/// A slab that is not in a queue can be added to it.
proof fn lemma_queued(queue: Seq<usize>, slab: usize)
    requires
        queue.no_duplicates(),
        !queue.contains(slab),
    ensures
        queue.push(slab).no_duplicates(),
        forall|other: usize| #[trigger]
            queue.push(slab).contains(other) <==> (queue.contains(other) || other == slab),
{
    let more = queue.push(slab);
    assert forall|i: int, j: int| 0 <= i < more.len() && 0 <= j < more.len() && i != j
        implies more[i]
        != more[j] by {
        if i < queue.len() {
            assert(queue.contains(queue[i]));
        }
        if j < queue.len() {
            assert(queue.contains(queue[j]));
        }
    }
    assert forall|other: usize| #[trigger] more.contains(other) <==> (queue.contains(other) || other
        == slab) by {
        if queue.contains(other) {
            let i = choose|i: int| 0 <= i < queue.len() && queue[i] == other;
            assert(more[i] == other);
        }
        if other == slab {
            assert(more[queue.len() as int] == other);
        }
        if more.contains(other) && other != slab {
            let i = choose|i: int| 0 <= i < more.len() && more[i] == other;
            assert(queue[i] == other);
        }
    }
}

proof fn lemma_loaned(before: PoolState, after: PoolState)
    requires
        before.wf(),
        before.free@.len() > 0,
        after.chunk_capacity == before.chunk_capacity,
        after.slots@ == before.slots@.update(before.free@[0] as int, None),
        after.free@ == before.free@.subrange(1, before.free@.len() as int),
        after.ready@ == before.ready@,
        after.loaned == before.loaned + 1,
        after.received == before.received,
    ensures
        after.wf(),
{
    let index = before.free@[0];
    lemma_unqueued(before.free@);
    assert(before.free@.contains(index));
    assert(before.is_queued(index));
    assert forall|slab: usize| #[trigger] after.is_queued(slab) implies slab < after.chunk_count()
        && after.slots@[slab as int] is Some by {
        assert(before.is_queued(slab));
    }
    assert forall|slab: usize|
        slab < after.chunk_count() && (#[trigger] after.slots@[slab as int]) is Some
            implies after.is_queued(slab)
        && after.slots@[slab as int]->0@.len() == after.chunk_capacity by {
        assert(before.slots@[slab as int] is Some);
        assert(before.is_queued(slab));
    }
}

proof fn lemma_received(before: PoolState, after: PoolState)
    requires
        before.wf(),
        before.ready@.len() > 0,
        after.chunk_capacity == before.chunk_capacity,
        after.slots@ == before.slots@.update(before.ready@[0].0 as int, None),
        after.free@ == before.free@,
        after.ready@ == before.ready@.subrange(1, before.ready@.len() as int),
        after.loaned == before.loaned,
        after.received == before.received + 1,
    ensures
        after.wf(),
{
    let slabs = ready_slabs(before.ready@);
    let index = slabs[0];
    lemma_unqueued(slabs);
    assert(ready_slabs(after.ready@) =~= slabs.subrange(1, slabs.len() as int));
    assert(slabs.contains(index));
    assert(before.is_queued(index));
    assert(!before.free@.contains(index));
    assert forall|slab: usize| #[trigger] after.is_queued(slab) implies slab < after.chunk_count()
        && after.slots@[slab as int] is Some by {
        assert(before.is_queued(slab));
    }
    assert forall|slab: usize|
        slab < after.chunk_count() && (#[trigger] after.slots@[slab as int]) is Some
            implies after.is_queued(slab)
        && after.slots@[slab as int]->0@.len() == after.chunk_capacity by {
        assert(before.slots@[slab as int] is Some);
        assert(before.is_queued(slab));
    }
    assert forall|i: int| 0 <= i < after.ready@.len() implies (#[trigger] after.ready@[i]).1
        <= after.chunk_capacity by {
        assert(after.ready@[i] == before.ready@[i + 1]);
    }
}

proof fn lemma_committed(
    before: PoolState,
    after: PoolState,
    index: usize,
    length: usize,
    buffer: Vec<u8>,
)
    requires
        before.wf(),
        before.is_held(SlabHolder::Loan, index, buffer@),
        length <= before.chunk_capacity,
        after.chunk_capacity == before.chunk_capacity,
        after.slots@ == before.slots@.update(index as int, Some(buffer)),
        after.free@ == before.free@,
        after.ready@ == before.ready@.push((index, length)),
        after.loaned == before.loaned - 1,
        after.received == before.received,
    ensures
        after.wf(),
{
    let slabs = ready_slabs(before.ready@);
    assert(!before.is_queued(index));
    lemma_queued(slabs, index);
    assert(ready_slabs(after.ready@) =~= slabs.push(index));
    assert forall|slab: usize| #[trigger] after.is_queued(slab) implies slab < after.chunk_count()
        && after.slots@[slab as int] is Some by {
        if slab != index {
            assert(before.is_queued(slab));
        }
    }
    assert forall|slab: usize|
        slab < after.chunk_count() && (#[trigger] after.slots@[slab as int]) is Some
            implies after.is_queued(slab)
        && after.slots@[slab as int]->0@.len() == after.chunk_capacity by {
        if slab != index {
            assert(before.slots@[slab as int] is Some);
            assert(before.is_queued(slab));
        }
    }
}

proof fn lemma_settled(before: PoolState, after: PoolState, index: usize, buffer: Vec<u8>)
    requires
        before.wf(),
        index < before.chunk_count(),
        before.slots@[index as int] is None,
        buffer@.len() == before.chunk_capacity,
        after.chunk_capacity == before.chunk_capacity,
        after.slots@ == before.slots@.update(index as int, Some(buffer)),
        after.free@ == before.free@.push(index),
        after.ready@ == before.ready@,
        after.loaned + after.received == before.loaned + before.received - 1,
    ensures
        after.wf(),
{
    assert(!before.is_queued(index));
    lemma_queued(before.free@, index);
    assert forall|slab: usize| #[trigger] after.is_queued(slab) implies slab < after.chunk_count()
        && after.slots@[slab as int] is Some by {
        if slab != index {
            assert(before.is_queued(slab));
        }
    }
    assert forall|slab: usize|
        slab < after.chunk_count() && (#[trigger] after.slots@[slab as int]) is Some
            implies after.is_queued(slab)
        && after.slots@[slab as int]->0@.len() == after.chunk_capacity by {
        if slab != index {
            assert(before.slots@[slab as int] is Some);
            assert(before.is_queued(slab));
        }
    }
}

/// The posting side of a mailbox.
#[verifier::external_type_specification]
#[verifier::external_body]
#[verifier::reject_recursive_types(T)]
pub struct ExSender<T>(std::sync::mpsc::Sender<T>);

/// The emptying side of a mailbox.
#[verifier::external_type_specification]
#[verifier::external_body]
#[verifier::reject_recursive_types(T)]
pub struct ExReceiver<T>(std::sync::mpsc::Receiver<T>);

/// Calls `std::sync::mpsc::channel`. Nothing is stated of a mailbox: what it hands out may be
/// anything that was posted before.
#[verifier::external_body]
fn open_mailbox() -> (mailbox: (Sender<ReturnedSlab>, Receiver<ReturnedSlab>)) {
    std::sync::mpsc::channel()
}

/// Calls `Sender::clone`, which gives another posting side of the same mailbox.
#[verifier::external_body]
fn another_sender(sender: &Sender<ReturnedSlab>) -> (other: Sender<ReturnedSlab>) {
    sender.clone()
}

/// Calls `Sender::send`. A slab posted after the pool is gone is dropped.
#[verifier::external_body]
fn post(sender: &Sender<ReturnedSlab>, returned: ReturnedSlab)
    opens_invariants none
    no_unwind
{
    let _ = sender.send(returned);
}

/// Calls `Receiver::try_recv`, which takes the oldest posted slab out of the mailbox, if there
/// is one.
#[verifier::external_body]
fn next_returned(receiver: &Receiver<ReturnedSlab>) -> (returned: Option<ReturnedSlab>) {
    receiver.try_recv().ok()
}

/// Whether a pool may have this size.
pub open spec fn valid_pool(chunk_count: usize, chunk_capacity: usize) -> bool {
    0 < chunk_count && 0 < chunk_capacity && chunk_count * chunk_capacity <= isize::MAX
}

impl PoolState {
    /// Whether every slab is free and zero.
    pub open spec fn is_fresh(self) -> bool {
        &&& self.ready@.len() == 0
        &&& self.loaned == 0
        &&& self.received == 0
        &&& self.free@.len() == self.chunk_count()
        &&& forall|i: int| 0 <= i < self.chunk_count() ==> #[trigger] self.free@[i] == i
        &&& forall|i: int|
            #![trigger self.slots@[i]]
            0 <= i < self.chunk_count() ==> self.slots@[i] is Some && self.slots@[i]->0@
                == Seq::new(self.chunk_capacity as nat, |j: int| 0u8)
    }

    /// Allocates a pool of free, zero slabs.
    ///
    /// A zero chunk count, a zero capacity, and an allocation size beyond `isize::MAX` are
    /// rejected, and so is a pool for which there is no memory.
    pub fn new(chunk_count: usize, chunk_capacity: usize) -> (created: Result<Self, ErrorReport>)
        ensures
            match created {
                Ok(state) => {
                    &&& valid_pool(chunk_count, chunk_capacity)
                    &&& state.wf()
                    &&& state.is_fresh()
                    &&& state.chunk_count() == chunk_count
                    &&& state.chunk_capacity == chunk_capacity
                },
                Err(error) => error == if valid_pool(chunk_count, chunk_capacity) {
                    allocation_report()
                } else {
                    configuration_report()
                },
            },
    {
        let allocation = chunk_count.checked_mul(chunk_capacity);
        let fits = match allocation {
            Some(total) => total <= isize::MAX as usize,
            None => false,
        };
        if !fits || chunk_count == 0 || chunk_capacity == 0 {
            return Err(
                pool_error(
                    ErrorCode::InvalidRange,
                    Recoverability::Terminal,
                    "configure chunk pool",
                ),
            );
        }
        match reserve_slabs(chunk_count, chunk_capacity) {
            Some(buffers) => Ok(Self::over(buffers, chunk_capacity)),
            None => Err(
                pool_error(
                    ErrorCode::Backpressured,
                    Recoverability::Terminal,
                    "allocate chunk pool",
                ),
            ),
        }
    }

    /// Makes a pool of free, zero slabs over memory that was reserved for them, one slab in each
    /// buffer.
    pub fn over(buffers: Vec<Vec<u8>>, chunk_capacity: usize) -> (state: Self)
        requires
            valid_pool(buffers@.len() as usize, chunk_capacity),
        ensures
            state.wf(),
            state.is_fresh(),
            state.chunk_count() == buffers@.len(),
            state.chunk_capacity == chunk_capacity,
    {
        let chunk_count: usize = buffers.len();
        let mut reserved: Vec<Vec<u8>> = buffers;
        let mut slots: Vec<Option<Vec<u8>>> = Vec::new();
        let mut free: VecDeque<usize> = VecDeque::new();
        let ghost zeros = Seq::new(chunk_capacity as nat, |j: int| 0u8);
        while slots.len() < chunk_count
            invariant
                slots@.len() + reserved@.len() == chunk_count,
                free@.len() == slots@.len(),
                zeros == Seq::new(chunk_capacity as nat, |j: int| 0u8),
                forall|i: int| 0 <= i < free@.len() ==> #[trigger] free@[i] == i,
                forall|i: int|
                    #![trigger slots@[i]]
                    0 <= i < slots@.len() ==> slots@[i] is Some && slots@[i]->0@ == zeros,
            decreases chunk_count - slots@.len(),
        {
            let mut buffer: Vec<u8> = reserved.pop().unwrap();
            buffer.clear();
            while buffer.len() < chunk_capacity
                invariant
                    buffer@.len() <= chunk_capacity,
                    forall|j: int| 0 <= j < buffer@.len() ==> buffer@[j] == 0u8,
                decreases chunk_capacity - buffer@.len(),
            {
                buffer.push(0);
            }
            proof {
                assert(buffer@ =~= zeros);
            }
            free.push_back(slots.len());
            slots.push(Some(buffer));
        }
        let state = PoolState {
            chunk_capacity,
            slots,
            free,
            ready: VecDeque::new(),
            loaned: 0,
            received: 0,
        };
        proof {
            assert(ready_slabs(state.ready@) =~= Seq::<usize>::empty());
            assert forall|slab: usize| #[trigger] state.is_queued(slab) implies slab
                < state.chunk_count() && state.slots@[slab as int] is Some by {
                let i = choose|i: int| 0 <= i < state.free@.len() && state.free@[i] == slab;
                assert(state.free@[i] == i);
            }
            assert forall|slab: usize|
                slab < state.chunk_count()
                    && (#[trigger] state.slots@[slab as int]) is Some implies state.is_queued(slab)
                && state.slots@[slab as int]->0@.len() == state.chunk_capacity by {
                assert(state.free@[slab as int] == slab);
                assert(state.free@.contains(slab));
            }
        }
        state
    }
}

/// Reserves memory for so many slabs of so many bytes; `None` where there is no memory for them.
fn reserve_slabs(chunk_count: usize, chunk_capacity: usize) -> (reserved: Option<Vec<Vec<u8>>>)
    ensures
        reserved matches Some(buffers) ==> buffers@.len() == chunk_count,
{
    let mut buffers: Vec<Vec<u8>> = Vec::new();
    if buffers.try_reserve(chunk_count).is_err() {
        return None;
    }
    while buffers.len() < chunk_count
        invariant
            buffers@.len() <= chunk_count,
        decreases chunk_count - buffers@.len(),
    {
        let mut buffer: Vec<u8> = Vec::new();
        if buffer.try_reserve(chunk_capacity).is_err() {
            return None;
        }
        buffers.push(buffer);
    }
    Some(buffers)
}

/// What every holder of one shared pool keeps.
pub struct PoolPredicate {
    /// Number of slabs.
    pub chunk_count: usize,
    /// Bytes of one slab.
    pub chunk_capacity: usize,
}

/// The emptying side of a mailbox, with what it answered.
///
/// Other threads post at any time, so nothing is stated of what the next answer is.
pub struct Mailbox {
    receiver: Receiver<ReturnedSlab>,
    told: Ghost<Seq<Option<ReturnedSlab>>>,
}

impl Mailbox {
    /// What the mailbox answered, in order: a slab, or that there was none.
    pub closed spec fn answers(self) -> Seq<Option<ReturnedSlab>> {
        self.told@
    }

    fn new(receiver: Receiver<ReturnedSlab>) -> (created: Self)
        ensures
            created.answers() == Seq::<Option<ReturnedSlab>>::empty(),
    {
        Mailbox { receiver, told: Ghost(Seq::empty()) }
    }

    /// Takes the oldest posted slab, if there is one.
    fn next(&mut self) -> (returned: Option<ReturnedSlab>)
        ensures
            final(self).answers() == old(self).answers().push(returned),
    {
        let returned = next_returned(&self.receiver);
        let ghost answer = returned;
        self.told = Ghost(self.told@.push(answer));
        returned
    }
}

/// Whether a mailbox gave these slabs, in this order, until it had none left, or so many that
/// the count of them is exhausted.
pub open spec fn emptied(
    before: Seq<Option<ReturnedSlab>>,
    after: Seq<Option<ReturnedSlab>>,
    returned: Seq<ReturnedSlab>,
) -> bool {
    let given = before + returned.map_values(|slab: ReturnedSlab| Some(slab));
    after == given.push(None) || returned.len() == u64::MAX && after == given
}

/// Ownership of every slab, with the mailbox of the slabs that were handed back.
pub struct SharedPool {
    /// Ownership of every slab.
    pub state: PoolState,
    /// Slabs that were handed back since.
    pub mailbox: Mailbox,
}

impl RwLockPredicate<SharedPool> for PoolPredicate {
    open spec fn inv(self, pool: SharedPool) -> bool {
        &&& pool.state.wf()
        &&& pool.state.chunk_count() == self.chunk_count
        &&& pool.state.chunk_capacity == self.chunk_capacity
    }
}

impl SharedPool {
    /// Settles every slab that was handed back.
    pub fn empty_mailbox(&mut self)
        requires
            old(self).state.wf(),
        ensures
            final(self).state.wf(),
            final(self).state.chunk_count() == old(self).state.chunk_count(),
            final(self).state.chunk_capacity == old(self).state.chunk_capacity,
            final(self).state.ready@ == old(self).state.ready@,
            exists|returned: Seq<ReturnedSlab>|
                {
                    &&& #[trigger] emptied(
                        old(self).mailbox.answers(),
                        final(self).mailbox.answers(),
                        returned,
                    )
                    &&& final(self).state.contents() == settled_all(
                        old(self).state.contents(),
                        returned,
                    )
                },
    {
        let mut budget: u64 = u64::MAX;
        let ghost mut given: Seq<ReturnedSlab> = Seq::empty();
        let ghost before = old(self).mailbox.answers();
        proof {
            assert(before + given.map_values(|slab: ReturnedSlab| Some(slab)) =~= before);
        }
        while budget > 0
            invariant
                self.state.wf(),
                self.state.chunk_count() == old(self).state.chunk_count(),
                self.state.chunk_capacity == old(self).state.chunk_capacity,
                self.state.ready@ == old(self).state.ready@,
                given.len() == u64::MAX - budget,
                before == old(self).mailbox.answers(),
                self.mailbox.answers() == before + given.map_values(
                    |slab: ReturnedSlab| Some(slab),
                ),
                self.state.contents() == settled_all(old(self).state.contents(), given),
            decreases budget,
        {
            match self.mailbox.next() {
                Some(returned) => {
                    proof {
                        let more = given.push(returned);
                        assert(more.drop_last() =~= given);
                        assert(self.mailbox.answers() =~= before + more.map_values(
                            |slab: ReturnedSlab| Some(slab),
                        ));
                        given = more;
                    }
                    self.state.settle(returned);
                },
                None => {
                    assert(emptied(before, self.mailbox.answers(), given));
                    return;
                },
            }
            budget = budget - 1;
        }
        assert(emptied(before, self.mailbox.answers(), given));
    }
}

/// Creates one bounded single-producer, single-consumer chunk pool.
///
/// The producer loans a fixed-size slab and commits its initialized prefix. The consumer borrows
/// that prefix until the received chunk is dropped or explicitly released. Uncommitted loans are
/// returned to the free queue automatically. A zero chunk count, a zero capacity, and an
/// allocation size beyond `isize::MAX` are rejected, and so is a pool for which there is no
/// memory.
pub fn chunk_pool(chunk_count: usize, chunk_capacity: usize) -> (created: Result<
    (ChunkProducer, ChunkConsumer),
    ErrorReport,
>)
    ensures
        match created {
            Ok((producer, consumer)) => {
                &&& valid_pool(chunk_count, chunk_capacity)
                &&& producer.slab_count() == chunk_count
                &&& producer.slab_capacity() == chunk_capacity
                &&& producer.handed() == Seq::<HandedSlab>::empty()
                &&& consumer.slab_count() == chunk_count
                &&& consumer.slab_capacity() == chunk_capacity
                &&& producer.shares_pool(consumer)
            },
            Err(error) => error == if valid_pool(chunk_count, chunk_capacity) {
                allocation_report()
            } else {
                configuration_report()
            },
        },
{
    let state = PoolState::new(chunk_count, chunk_capacity)?;
    Ok(share_pool(state))
}

/// Makes the two sides of one pool.
pub fn share_pool(state: PoolState) -> (sides: (ChunkProducer, ChunkConsumer))
    requires
        state.wf(),
    ensures
        sides.0.slab_count() == state.chunk_count(),
        sides.0.slab_capacity() == state.chunk_capacity,
        sides.0.handed() == Seq::<HandedSlab>::empty(),
        sides.1.slab_count() == state.chunk_count(),
        sides.1.slab_capacity() == state.chunk_capacity,
        sides.0.shares_pool(sides.1),
{
    let chunk_count: usize = state.slots.len();
    let chunk_capacity: usize = state.chunk_capacity;
    let (sender, mailbox) = open_mailbox();
    let other = another_sender(&sender);
    let shared = Arc::new(
        RwLock::new(
            SharedPool { state, mailbox: Mailbox::new(mailbox) },
            Ghost(PoolPredicate { chunk_count, chunk_capacity }),
        ),
    );
    (
        ChunkProducer {
            shared: shared.clone(),
            sender,
            chunk_count,
            chunk_capacity,
            given: Ghost(Seq::empty()),
        },
        ChunkConsumer { shared, sender: other, chunk_count, chunk_capacity },
    )
}

/// Whether a pool has this size.
pub open spec fn pool_of_size(pool: PoolState, chunk_count: usize, chunk_capacity: usize) -> bool {
    &&& pool.wf()
    &&& pool.chunk_count() == chunk_count
    &&& pool.chunk_capacity == chunk_capacity
}

/// Whether a slab with so many bytes of payload was loaned from a pool.
pub open spec fn slab_loaned(
    before: PoolState,
    after: PoolState,
    index: usize,
    payload: Seq<u8>,
) -> bool {
    &&& pool_moved(before, PoolStep::Loan(index), after)
    &&& payload.len() <= before.chunk_capacity
    &&& before.slots@[index as int] matches Some(buffer) && payload == buffer@.subrange(
        0,
        payload.len() as int,
    )
}

/// Whether a loaned slab was committed to a pool with this payload.
pub open spec fn slab_committed(
    before: PoolState,
    after: PoolState,
    index: usize,
    payload: Seq<u8>,
) -> bool {
    exists|length: usize, buffer: Vec<u8>| #[trigger]
        pool_moved(before, PoolStep::Commit(index, length, buffer), after) && payload
            == slab_payload(buffer, length)
}

/// Whether the oldest committed slab of a pool was received, with its payload.
pub open spec fn slab_received(
    before: PoolState,
    after: PoolState,
    index: usize,
    payload: Seq<u8>,
) -> bool {
    &&& before.ready@.len() > 0
    &&& pool_moved(
        before,
        PoolStep::Receive(index, before.ready@[0].1, before.slots@[index as int]->0),
        after,
    )
    &&& payload == waiting_payloads(before)[0]
}

/// A slab that the producer handed to the pool for the consumer, with what became of it.
pub struct HandedSlab {
    /// Its index.
    pub index: usize,
    /// Its payload.
    pub payload: Seq<u8>,
    /// Whether the pool took it, or why not.
    pub outcome: Result<(), ErrorReport>,
}

/// The sole submission side of a chunk pool.
pub struct ChunkProducer {
    shared: Arc<RwLock<SharedPool, PoolPredicate>>,
    sender: Sender<ReturnedSlab>,
    chunk_count: usize,
    chunk_capacity: usize,
    given: Ghost<Seq<HandedSlab>>,
}

impl ChunkProducer {
    #[verifier::type_invariant]
    spec fn is_valid(self) -> bool {
        self.shared.pred() == (PoolPredicate {
            chunk_count: self.chunk_count,
            chunk_capacity: self.chunk_capacity,
        })
    }

    /// Number of slabs.
    pub closed spec fn slab_count(self) -> usize {
        self.chunk_count
    }

    /// Bytes of one slab.
    pub closed spec fn slab_capacity(self) -> usize {
        self.chunk_capacity
    }

    /// The pool that this is the submission side of.
    pub closed spec fn pool(self) -> Arc<RwLock<SharedPool, PoolPredicate>> {
        self.shared
    }

    /// Whether this side and a consumer are the two sides of one pool.
    pub open spec fn shares_pool(self, consumer: ChunkConsumer) -> bool {
        self.pool() == consumer.pool()
    }

    /// The slabs that were handed to the pool, in order.
    pub closed spec fn handed(self) -> Seq<HandedSlab> {
        self.given@
    }

    /// Hands a loaned slab to the pool.
    fn hand(&mut self, index: usize, length: usize, buffer: Vec<u8>) -> (outcome: Result<
        (),
        ErrorReport,
    >)
        requires
            length <= buffer@.len(),
        ensures
            final(self).slab_count() == old(self).slab_count(),
            final(self).slab_capacity() == old(self).slab_capacity(),
            final(self).handed() == old(self).handed().push(
                HandedSlab {
                    index,
                    payload: buffer@.subrange(0, length as int),
                    outcome: plain_outcome(outcome),
                },
            ),
            final(self).pool() == old(self).pool(),
            outcome is Ok ==> exists|before: PoolState, after: PoolState|
                {
                    &&& pool_of_size(before, old(self).slab_count(), old(self).slab_capacity())
                    &&& pool_of_size(after, old(self).slab_count(), old(self).slab_capacity())
                    &&& #[trigger] pool_moved(
                        before,
                        PoolStep::Commit(index, length, buffer),
                        after,
                    )
                },
            outcome matches Err(error) ==> error == ownership_report() && exists|pool: PoolState|
                pool_of_size(pool, old(self).slab_count(), old(self).slab_capacity())
                    && !#[trigger] pool.is_held(SlabHolder::Loan, index, buffer@),
            index >= old(self).slab_count() || buffer@.len() != old(self).slab_capacity()
                ==> outcome is Err,
    {
        proof {
            use_type_invariant(&*self);
        }
        let ghost payload = buffer@.subrange(0, length as int);
        let (mut pool, handle) = self.shared.acquire_write();
        pool.empty_mailbox();
        let ghost before = pool.state;
        let outcome = pool.state.commit(index, length, buffer);
        let ghost after = pool.state;
        handle.release_write(pool);
        proof {
            if outcome is Ok {
                assert(pool_moved(before, PoolStep::Commit(index, length, buffer), after));
            } else {
                assert(!before.is_held(SlabHolder::Loan, index, buffer@));
            }
        }
        self.given = Ghost(
            self.given@.push(HandedSlab { index, payload, outcome: plain_outcome(outcome) }),
        );
        outcome
    }

    /// Loans one slab whose initialized payload has exactly `length` bytes.
    ///
    /// `MessageTooLarge` is returned when `length` exceeds the slab capacity and `Backpressured`
    /// when every slab is loaned, ready, or borrowed by the consumer at the moment of the call.
    pub fn loan<'producer>(&'producer mut self, length: usize) -> (loaned: Result<
        LoanedChunk<'producer>,
        ErrorReport,
    >)
        ensures
            match loaned {
                Ok(chunk) => {
                    &&& length <= old(self).slab_capacity()
                    &&& chunk.slab@.len() == length
                    &&& chunk.slab.is_held_by(SlabHolder::Loan)
                    &&& chunk.slab.place() < old(self).slab_count()
                    &&& *chunk.producer == *old(self)
                    &&& *final(self) == *final(chunk.producer)
                    &&& exists|before: PoolState, after: PoolState|
                        {
                        &&& pool_of_size(before, old(self).slab_count(), old(self).slab_capacity())
                        &&& pool_of_size(after, old(self).slab_count(), old(self).slab_capacity())
                        &&& #[trigger] slab_loaned(
                            before,
                            after,
                            chunk.slab.place(),
                            chunk.slab@,
                        )
                    }
                },
                Err(error) => {
                    &&& *final(self) == *old(self)
                    &&& error == if length > old(self).slab_capacity() {
                        oversize_report()
                    } else {
                        backpressure_report()
                    }
                    &&& length <= old(self).slab_capacity() ==> exists|pool: PoolState|
                        pool_of_size(pool, old(self).slab_count(), old(self).slab_capacity())
                            && #[trigger] pool.free@.len() == 0
                },
            },
    {
        proof {
            use_type_invariant(&*self);
        }
        let (mut pool, handle) = self.shared.acquire_write();
        pool.empty_mailbox();
        let ghost before = pool.state;
        let taken = pool.state.loan(length);
        let ghost after = pool.state;
        handle.release_write(pool);
        match taken {
            Ok((index, buffer)) => {
                let sender = another_sender(&self.sender);
                let slab = HeldSlab {
                    holder: SlabHolder::Loan,
                    sender,
                    index,
                    length,
                    buffer: Some(buffer),
                };
                proof {
                    assert(slab_loaned(before, after, slab.place(), slab@));
                }
                Ok(LoanedChunk { producer: self, slab })
            },
            Err(error) => Err(error),
        }
    }

    /// Returns the fixed payload capacity of every slab.
    pub fn chunk_capacity(&self) -> (capacity: usize)
        ensures
            capacity == self.slab_capacity(),
    {
        self.chunk_capacity
    }

    /// Returns a point-in-time ownership snapshot, in which every slab is counted once.
    pub fn diagnostics(&self) -> (counts: Result<PoolDiagnostics, ErrorReport>)
        ensures
            counts matches Ok(found) && found.chunk_count == self.slab_count() && found.free
                + found.loaned + found.ready + found.received == found.chunk_count
                && exists|pool: PoolState|
                pool_of_size(pool, self.slab_count(), self.slab_capacity())
                    && #[trigger] pool.counts() == found,
    {
        proof {
            use_type_invariant(self);
        }
        let (mut pool, handle) = self.shared.acquire_write();
        pool.empty_mailbox();
        let counts = pool.state.diagnostics();
        let _total: usize = pool.state.slots.len();
        proof {
            assert(pool_of_size(pool.state, self.slab_count(), self.slab_capacity()));
            assert(pool.state.counts() == counts);
        }
        handle.release_write(pool);
        Ok(counts)
    }
}

/// A producer-owned slab that has not been published.
#[must_use]
pub struct LoanedChunk<'producer> {
    /// The side that loaned the slab.
    pub producer: &'producer mut ChunkProducer,
    /// The slab.
    pub slab: HeldSlab,
}

/// A slab that is held outside of the pool, with the length of its payload.
///
/// A slab that is dropped is posted to the mailbox of its pool.
pub struct HeldSlab {
    holder: SlabHolder,
    sender: Sender<ReturnedSlab>,
    index: usize,
    length: usize,
    buffer: Option<Vec<u8>>,
}

impl HeldSlab {
    /// The index of the slab.
    pub closed spec fn place(self) -> usize {
        self.index
    }

    /// Whether the slab is there, with its payload, and who holds it.
    pub closed spec fn is_held_by(self, holder: SlabHolder) -> bool {
        &&& self.holder == holder
        &&& self.buffer matches Some(bytes) && self.length <= bytes@.len()
    }

    /// Whether two slabs are the same but for their bytes.
    pub closed spec fn same_place(self, other: Self) -> bool {
        &&& self.holder == other.holder
        &&& self.index == other.index
        &&& self.length == other.length
    }

    /// Takes the slab out of its holder's hands, so that dropping it posts nothing.
    fn take(&mut self) -> (taken: Option<(usize, usize, Vec<u8>)>)
        ensures
            match taken {
                Some((index, length, buffer)) => {
                    &&& old(self).is_held_by(old(self).holder)
                    &&& index == old(self).place()
                    &&& length <= buffer@.len()
                    &&& buffer@.subrange(0, length as int) == old(self)@
                },
                None => !old(self).is_held_by(old(self).holder),
            },
    {
        let mut taken: Option<Vec<u8>> = None;
        std::mem::swap(&mut taken, &mut self.buffer);
        match taken {
            Some(buffer) => {
                if self.length <= buffer.len() {
                    Some((self.index, self.length, buffer))
                } else {
                    None
                }
            },
            None => None,
        }
    }
}

impl Drop for HeldSlab {
    fn drop(&mut self)
        opens_invariants none
        no_unwind
    {
        let mut taken: Option<Vec<u8>> = None;
        std::mem::swap(&mut taken, &mut self.buffer);
        if let Some(buffer) = taken {
            post(&self.sender, ReturnedSlab { holder: self.holder, index: self.index, buffer });
        }
    }
}

impl View for HeldSlab {
    type V = Seq<u8>;

    closed spec fn view(&self) -> Seq<u8> {
        prefix_of(self.buffer, self.length)
    }
}

/// The payload prefix of a slab.
spec fn prefix_of(buffer: Option<Vec<u8>>, length: usize) -> Seq<u8> {
    match buffer {
        Some(bytes) => if length <= bytes@.len() {
            bytes@.subrange(0, length as int)
        } else {
            Seq::empty()
        },
        None => Seq::empty(),
    }
}

impl<'producer> LoanedChunk<'producer> {
    /// Returns the initialized payload prefix for application writes.
    pub fn payload_mut(&mut self) -> (payload: &mut [u8])
        ensures
            payload@ == old(self).slab@,
            final(payload)@.len() == payload@.len() ==> final(self).slab@ == final(payload)@,
            final(self).producer == old(self).producer,
            final(self).slab.same_place(old(self).slab),
            old(self).slab.is_held_by(SlabHolder::Loan) && final(payload)@.len() == payload@.len()
                ==> final(self).slab.is_held_by(SlabHolder::Loan),
    {
        let length: usize = self.slab.length;
        match &mut self.slab.buffer {
            Some(bytes) => {
                if length <= bytes.len() {
                    bytes.as_mut_slice().split_at_mut(length).0
                } else {
                    bytes.as_mut_slice().split_at_mut(0).0
                }
            },
            None => &mut [],
        }
    }

    /// Returns the initialized payload prefix.
    pub fn payload(&self) -> (payload: &[u8])
        ensures
            payload@ == self.slab@,
    {
        prefix(&self.slab.buffer, self.slab.length)
    }

    /// Publishes the chunk to the ready queue.
    ///
    /// Dropping a loan instead returns its slab directly to the free queue. `Internal` is
    /// returned if the slab is not on loan. The slab is handed to the pool once, with its payload;
    /// what the pool makes of it is stated by [`PoolState::commit`].
    pub fn commit(self) -> (committed: Result<(), ErrorReport>)
        ensures
            final(self.producer).slab_count() == old(self.producer).slab_count(),
            final(self.producer).slab_capacity() == old(self.producer).slab_capacity(),
            self.slab.is_held_by(SlabHolder::Loan) ==> final(self.producer).handed() == old(
                self.producer,
            ).handed().push(
                HandedSlab {
                    index: self.slab.place(),
                    payload: self.slab@,
                    outcome: plain_outcome(committed),
                },
            ),
            final(self.producer).pool() == old(self.producer).pool(),
            committed is Ok ==> exists|before: PoolState, after: PoolState|
                {
                    &&& pool_of_size(
                        before,
                        old(self.producer).slab_count(),
                        old(self.producer).slab_capacity(),
                    )
                    &&& pool_of_size(
                        after,
                        old(self.producer).slab_count(),
                        old(self.producer).slab_capacity(),
                    )
                    &&& #[trigger] slab_committed(before, after, self.slab.place(), self.slab@)
                },
            !self.slab.is_held_by(SlabHolder::Loan) ==> committed is Err && *final(self.producer)
                == *old(self.producer),
            committed matches Err(error) ==> error == ownership_report(),
    {
        let LoanedChunk { producer, mut slab } = self;
        match slab.holder {
            SlabHolder::Loan => match slab.take() {
                Some((index, length, buffer)) => {
                    let ghost count = producer.slab_count();
                    let ghost capacity = producer.slab_capacity();
                    let committed = producer.hand(index, length, buffer);
                    proof {
                        if committed is Ok {
                            let (before, after) = choose|before: PoolState, after: PoolState|
                                {
                                    &&& pool_of_size(before, count, capacity)
                                    &&& pool_of_size(after, count, capacity)
                                    &&& #[trigger] pool_moved(
                                        before,
                                        PoolStep::Commit(index, length, buffer),
                                        after,
                                    )
                                };
                            assert(slab_committed(before, after, index, self.slab@));
                        }
                    }
                    committed
                },
                None => Err(
                    pool_error(
                        ErrorCode::Internal,
                        Recoverability::Terminal,
                        "chunk pool ownership",
                    ),
                ),
            },
            SlabHolder::Receipt => Err(
                pool_error(
                    ErrorCode::Internal,
                    Recoverability::Terminal,
                    "chunk pool ownership",
                ),
            ),
        }
    }
}

fn prefix(buffer: &Option<Vec<u8>>, length: usize) -> (payload: &[u8])
    ensures
        payload@ == prefix_of(*buffer, length),
{
    match buffer {
        Some(bytes) => {
            if length <= bytes.len() {
                slice_subrange(bytes.as_slice(), 0, length)
            } else {
                slice_subrange(bytes.as_slice(), 0, 0)
            }
        },
        None => &[],
    }
}

/// The sole receive side of a chunk pool.
pub struct ChunkConsumer {
    shared: Arc<RwLock<SharedPool, PoolPredicate>>,
    sender: Sender<ReturnedSlab>,
    chunk_count: usize,
    chunk_capacity: usize,
}

impl ChunkConsumer {
    #[verifier::type_invariant]
    spec fn is_valid(self) -> bool {
        self.shared.pred() == (PoolPredicate {
            chunk_count: self.chunk_count,
            chunk_capacity: self.chunk_capacity,
        })
    }

    /// Number of slabs.
    pub closed spec fn slab_count(self) -> usize {
        self.chunk_count
    }

    /// Bytes of one slab.
    pub closed spec fn slab_capacity(self) -> usize {
        self.chunk_capacity
    }

    /// The pool that this is the receive side of.
    pub closed spec fn pool(self) -> Arc<RwLock<SharedPool, PoolPredicate>> {
        self.shared
    }

    /// Borrows the next committed payload in FIFO order.
    ///
    /// The slab cannot return to the producer until the receipt is dropped or released.
    pub fn receive<'consumer>(&'consumer mut self) -> (received: Result<
        Option<ReceivedChunk<'consumer>>,
        ErrorReport,
    >)
        ensures
            received is Ok,
            received matches Ok(Some(chunk)) ==> {
                &&& chunk.slab@.len() <= old(self).slab_capacity()
                &&& chunk.slab.is_held_by(SlabHolder::Receipt)
                &&& chunk.slab.place() < old(self).slab_count()
                &&& *chunk.consumer == *old(self)
                &&& *final(self) == *final(chunk.consumer)
                &&& exists|before: PoolState, after: PoolState|
                    {
                        &&& pool_of_size(before, old(self).slab_count(), old(self).slab_capacity())
                        &&& pool_of_size(after, old(self).slab_count(), old(self).slab_capacity())
                        &&& #[trigger] slab_received(
                            before,
                            after,
                            chunk.slab.place(),
                            chunk.slab@,
                        )
                    }
            },
            received matches Ok(None) ==> {
                &&& *final(self) == *old(self)
                &&& exists|pool: PoolState|
                    pool_of_size(pool, old(self).slab_count(), old(self).slab_capacity())
                        && #[trigger] pool.ready@.len() == 0
            },
    {
        proof {
            use_type_invariant(&*self);
        }
        let (mut pool, handle) = self.shared.acquire_write();
        pool.empty_mailbox();
        let ghost before = pool.state;
        let taken = pool.state.receive();
        let ghost after = pool.state;
        handle.release_write(pool);
        match taken {
            Some((index, length, buffer)) => {
                let sender = another_sender(&self.sender);
                let slab = HeldSlab {
                    holder: SlabHolder::Receipt,
                    sender,
                    index,
                    length,
                    buffer: Some(buffer),
                };
                proof {
                    assert(waiting_payloads(before)[0] == slab_payload(buffer, length));
                    assert(slab_received(before, after, slab.place(), slab@));
                }
                Ok(Some(ReceivedChunk { consumer: self, slab }))
            },
            None => {
                proof {
                    assert(before.ready@.len() == 0);
                }
                Ok(None)
            },
        }
    }

    /// Returns the fixed payload capacity of every slab.
    pub fn chunk_capacity(&self) -> (capacity: usize)
        ensures
            capacity == self.slab_capacity(),
    {
        self.chunk_capacity
    }

    /// Returns a point-in-time ownership snapshot, in which every slab is counted once.
    pub fn diagnostics(&self) -> (counts: Result<PoolDiagnostics, ErrorReport>)
        ensures
            counts matches Ok(found) && found.chunk_count == self.slab_count() && found.free
                + found.loaned + found.ready + found.received == found.chunk_count
                && exists|pool: PoolState|
                pool_of_size(pool, self.slab_count(), self.slab_capacity())
                    && #[trigger] pool.counts() == found,
    {
        proof {
            use_type_invariant(self);
        }
        let (mut pool, handle) = self.shared.acquire_write();
        pool.empty_mailbox();
        let counts = pool.state.diagnostics();
        let _total: usize = pool.state.slots.len();
        proof {
            assert(pool_of_size(pool.state, self.slab_count(), self.slab_capacity()));
            assert(pool.state.counts() == counts);
        }
        handle.release_write(pool);
        Ok(counts)
    }
}

/// One committed payload borrowed from the pool.
#[must_use]
pub struct ReceivedChunk<'consumer> {
    /// The side that received the slab.
    pub consumer: &'consumer mut ChunkConsumer,
    /// The slab.
    pub slab: HeldSlab,
}

impl<'consumer> ReceivedChunk<'consumer> {
    /// Borrows the committed payload bytes.
    pub fn payload(&self) -> (payload: &[u8])
        ensures
            payload@ == self.slab@,
    {
        prefix(&self.slab.buffer, self.slab.length)
    }

    /// Completes consumption and returns the slab to the free queue.
    ///
    /// Dropping the receipt has the same effect.
    pub fn release(self)
        ensures
            *final(self.consumer) == *old(self.consumer),
    {
    }
}

/// Every slab is in exactly one state: the counts add up to the number of slabs, a slab that is
/// free is not ready, and one that is neither is held by somebody.
pub proof fn law_ownership_is_exclusive(state: PoolState, slab: usize)
    requires
        state.wf(),
        slab < state.chunk_count(),
    ensures
        state.free@.len() + state.loaned + state.ready@.len() + state.received
            == state.chunk_count(),
        !(state.free@.contains(slab) && ready_slabs(state.ready@).contains(slab)),
        state.slots@[slab as int] is None <==> !state.free@.contains(slab) && !ready_slabs(
            state.ready@,
        ).contains(slab),
        !state.is_queued(slab) ==> state.loaned + state.received > 0,
{
    if !state.is_queued(slab) && state.loaned + state.received == 0 {
        let all = state.free@ + ready_slabs(state.ready@);
        assert(all.len() == state.chunk_count());
        assert forall|i: int, j: int|
            0 <= i < all.len() && 0 <= j < all.len() && i != j implies all[i] != all[j] by {
            let split = state.free@.len() as int;
            if i < split && j >= split {
                assert(state.free@.contains(all[i]));
                assert(ready_slabs(state.ready@).contains(all[j])) by {
                    assert(ready_slabs(state.ready@)[j - split] == all[j]);
                }
            } else if j < split && i >= split {
                assert(state.free@.contains(all[j]));
                assert(ready_slabs(state.ready@).contains(all[i])) by {
                    assert(ready_slabs(state.ready@)[i - split] == all[i]);
                }
            }
        }
        let numbers = Seq::new(all.len(), |i: int| all[i] as int);
        let more = numbers.push(slab as int);
        assert forall|i: int, j: int|
            0 <= i < more.len() && 0 <= j < more.len() && i != j implies more[i] != more[j] by {
            if i < all.len() && j == all.len() {
                lemma_listed(state, all, i);
            } else if j < all.len() && i == all.len() {
                lemma_listed(state, all, j);
            }
        }
        assert forall|i: int| 0 <= i < more.len() implies 0 <= #[trigger] more[i]
            < state.chunk_count() by {
            if i < all.len() {
                lemma_listed(state, all, i);
            }
        }
        lemma_pigeonhole(more, state.chunk_count());
    }
}

/// What is listed is queued.
proof fn lemma_listed(state: PoolState, all: Seq<usize>, i: int)
    requires
        state.wf(),
        all == state.free@ + ready_slabs(state.ready@),
        0 <= i < all.len(),
    ensures
        state.is_queued(all[i]),
        all[i] < state.chunk_count(),
{
    if i < state.free@.len() {
        assert(state.free@[i] == all[i]);
    } else {
        assert(ready_slabs(state.ready@)[i - state.free@.len()] == all[i]);
    }
    assert(state.is_queued(all[i]));
}

/// Distinct numbers below a bound are not more than the bound.
proof fn lemma_pigeonhole(numbers: Seq<int>, bound: nat)
    requires
        numbers.no_duplicates(),
        forall|i: int| 0 <= i < numbers.len() ==> 0 <= #[trigger] numbers[i] < bound,
    ensures
        numbers.len() <= bound,
{
    vstd::set_lib::lemma_int_range(0, bound as int);
    numbers.unique_seq_to_set();
    assert(numbers.to_set().subset_of(vstd::set_lib::set_int_range(0, bound as int)));
    vstd::set_lib::lemma_len_subset(numbers.to_set(), vstd::set_lib::set_int_range(0, bound as int));
}

/// An operation on a pool, with the slab that it moved.
pub enum PoolStep {
    /// A slab was loaned.
    Loan(usize),
    /// A loaned slab was committed with so many bytes of payload.
    Commit(usize, usize, Vec<u8>),
    /// A committed slab was received.
    Receive(usize, usize, Vec<u8>),
    /// A slab was handed back.
    Settle(ReturnedSlab),
    /// Nothing could be done.
    Refuse,
}

/// Whether an operation moves a pool from one state to another.
pub open spec fn pool_moved(before: PoolState, step: PoolStep, after: PoolState) -> bool {
    let contents = before.contents();
    match step {
        PoolStep::Loan(index) => {
            &&& contents.free.len() > 0
            &&& index == contents.free[0]
            &&& after.contents() == PoolContents {
                slots: contents.slots.update(index as int, None),
                free: contents.free.subrange(1, contents.free.len() as int),
                loaned: contents.loaned + 1,
                ..contents
            }
        },
        PoolStep::Commit(index, length, buffer) => {
            &&& before.is_held(SlabHolder::Loan, index, buffer@)
            &&& length <= contents.chunk_capacity
            &&& after.contents() == PoolContents {
                slots: contents.slots.update(index as int, Some(buffer)),
                ready: contents.ready.push((index, length)),
                loaned: contents.loaned - 1,
                ..contents
            }
        },
        PoolStep::Receive(index, length, buffer) => {
            &&& contents.ready.len() > 0
            &&& contents.ready[0] == (index, length)
            &&& contents.slots[index as int] == Some(buffer)
            &&& after.contents() == PoolContents {
                slots: contents.slots.update(index as int, None),
                ready: contents.ready.subrange(1, contents.ready.len() as int),
                received: contents.received + 1,
                ..contents
            }
        },
        PoolStep::Settle(returned) => after.contents() == settled(contents, returned),
        PoolStep::Refuse => after.contents() == contents,
    }
}

/// The payload of a slab.
pub open spec fn slab_payload(buffer: Vec<u8>, length: usize) -> Seq<u8> {
    buffer@.subrange(0, length as int)
}

/// The payloads that wait for the consumer, oldest first.
pub open spec fn waiting_payloads(state: PoolState) -> Seq<Seq<u8>> {
    Seq::new(
        state.ready@.len(),
        |i: int| slab_payload(state.slots@[state.ready@[i].0 as int]->0, state.ready@[i].1),
    )
}

/// The payloads that operations committed, in order.
pub open spec fn committed_payloads(steps: Seq<PoolStep>) -> Seq<Seq<u8>>
    decreases steps.len(),
{
    if steps.len() == 0 {
        Seq::empty()
    } else {
        let earlier = committed_payloads(steps.drop_last());
        match steps.last() {
            PoolStep::Commit(_, length, buffer) => earlier.push(slab_payload(buffer, length)),
            _ => earlier,
        }
    }
}

/// The payloads that operations received, in order.
pub open spec fn received_payloads(steps: Seq<PoolStep>) -> Seq<Seq<u8>>
    decreases steps.len(),
{
    if steps.len() == 0 {
        Seq::empty()
    } else {
        let earlier = received_payloads(steps.drop_last());
        match steps.last() {
            PoolStep::Receive(_, length, buffer) => earlier.push(slab_payload(buffer, length)),
            _ => earlier,
        }
    }
}

/// One operation adds a payload behind the waiting ones, takes the oldest of them, or leaves them
/// as they are.
proof fn lemma_waiting(before: PoolState, step: PoolStep, after: PoolState)
    requires
        before.wf(),
        after.wf(),
        pool_moved(before, step, after),
    ensures
        match step {
            PoolStep::Commit(_, length, buffer) => waiting_payloads(after) == waiting_payloads(
                before,
            ).push(slab_payload(buffer, length)),
            PoolStep::Receive(_, length, buffer) => waiting_payloads(before) == seq![
                slab_payload(buffer, length),
            ] + waiting_payloads(after),
            _ => waiting_payloads(after) == waiting_payloads(before),
        },
{
    let old_slabs = ready_slabs(before.ready@);
    assert(before.contents().slots == before.slots@ && after.contents().slots == after.slots@);
    assert forall|i: int| 0 <= i < before.ready@.len() implies {
        &&& before.is_queued((#[trigger] before.ready@[i]).0)
        &&& old_slabs.contains(before.ready@[i].0)
    } by {
        assert(old_slabs[i] == before.ready@[i].0);
    }
    match step {
        PoolStep::Loan(index) => {
            assert(before.free@.contains(index)) by {
                assert(before.free@[0] == index);
            }
            assert forall|i: int| 0 <= i < before.ready@.len() implies after.slots@[(
            #[trigger] before.ready@[i]).0 as int] == before.slots@[before.ready@[i].0 as int] by {
                assert(before.is_queued(before.ready@[i].0));
                assert(before.ready@[i].0 != index);
                assert(before.is_queued(index));
            }
            assert(waiting_payloads(after) =~= waiting_payloads(before));
        },
        PoolStep::Commit(index, length, buffer) => {
            assert forall|i: int| 0 <= i < before.ready@.len() implies after.slots@[(
            #[trigger] before.ready@[i]).0 as int] == before.slots@[before.ready@[i].0 as int] by {
                assert(before.is_queued(before.ready@[i].0));
            }
            assert(waiting_payloads(after) =~= waiting_payloads(before).push(
                slab_payload(buffer, length),
            ));
        },
        PoolStep::Receive(index, length, buffer) => {
            assert forall|i: int| 0 <= i < after.ready@.len() implies after.slots@[(
            #[trigger] after.ready@[i]).0 as int]
                == before.slots@[before.ready@[i + 1].0 as int] by {
                assert(after.ready@[i] == before.ready@[i + 1]);
                assert(old_slabs[i + 1] != old_slabs[0]);
            }
            assert(waiting_payloads(before) =~= seq![slab_payload(buffer, length)]
                + waiting_payloads(after));
        },
        PoolStep::Settle(returned) => {
            assert forall|i: int| 0 <= i < before.ready@.len() implies after.slots@[(
            #[trigger] before.ready@[i]).0 as int] == before.slots@[before.ready@[i].0 as int] by {
                assert(before.is_queued(before.ready@[i].0));
                assert(before.slots@[before.ready@[i].0 as int] is Some);
            }
            assert(after.ready@ == before.ready@) by {
                assert(after.contents().ready == before.contents().ready);
            }
            assert(waiting_payloads(after) =~= waiting_payloads(before));
        },
        PoolStep::Refuse => {
            assert(waiting_payloads(after) =~= waiting_payloads(before));
        },
    }
}

/// First in, first out: over any run of operations of a pool in which nothing waited at first, the
/// payloads come out unchanged and in the order in which they were committed, whatever was loaned
/// or handed back in between. What is committed and not yet received waits, and nothing else.
pub proof fn law_payloads_are_first_in_first_out(states: Seq<PoolState>, steps: Seq<PoolStep>)
    requires
        states.len() == steps.len() + 1,
        forall|i: int| 0 <= i < states.len() ==> (#[trigger] states[i]).wf(),
        states[0].ready@.len() == 0,
        forall|i: int|
            0 <= i < steps.len() ==> pool_moved(states[i], #[trigger] steps[i], states[i + 1]),
    ensures
        committed_payloads(steps) == received_payloads(steps) + waiting_payloads(states.last()),
        states.last().ready@.len() == committed_payloads(steps).len() - received_payloads(
            steps,
        ).len(),
        forall|i: int|
            0 <= i < received_payloads(steps).len() ==> #[trigger] received_payloads(steps)[i]
                == committed_payloads(steps)[i],
    decreases steps.len(),
{
    if steps.len() == 0 {
        assert(committed_payloads(steps) =~= received_payloads(steps) + waiting_payloads(
            states.last(),
        ));
    } else {
        let earlier = states.drop_last();
        let fewer = steps.drop_last();
        assert forall|i: int| 0 <= i < earlier.len() implies (#[trigger] earlier[i]).wf() by {
            assert(states[i].wf());
        }
        assert forall|i: int| 0 <= i < fewer.len() implies pool_moved(
            earlier[i],
            #[trigger] fewer[i],
            earlier[i + 1],
        ) by {
            assert(fewer[i] == steps[i]);
        }
        law_payloads_are_first_in_first_out(earlier, fewer);
        assert(states[steps.len() - 1].wf() && states[steps.len() as int].wf());
        assert(steps[steps.len() - 1] == steps.last());
        lemma_waiting(earlier.last(), steps.last(), states.last());
        assert(committed_payloads(steps) =~= received_payloads(steps) + waiting_payloads(
            states.last(),
        ));
    }
}

/// The next payload that is received is the first one committed that was not received before, and
/// nothing is received where all of them were.
pub proof fn law_the_next_payload_is_the_oldest(
    states: Seq<PoolState>,
    steps: Seq<PoolStep>,
    index: usize,
    length: usize,
    buffer: Vec<u8>,
    after: PoolState,
)
    requires
        states.len() == steps.len() + 1,
        forall|i: int| 0 <= i < states.len() ==> (#[trigger] states[i]).wf(),
        states[0].ready@.len() == 0,
        forall|i: int|
            0 <= i < steps.len() ==> pool_moved(states[i], #[trigger] steps[i], states[i + 1]),
        after.wf(),
        pool_moved(states.last(), PoolStep::Receive(index, length, buffer), after),
    ensures
        received_payloads(steps).len() < committed_payloads(steps).len(),
        slab_payload(buffer, length) == committed_payloads(steps)[received_payloads(
            steps,
        ).len() as int],
        after.received == states.last().received + 1,
        after.free@ == states.last().free@,
        !after.is_queued(index),
{
    law_payloads_are_first_in_first_out(states, steps);
    assert(states[states.len() - 1].wf());
    lemma_waiting(states.last(), PoolStep::Receive(index, length, buffer), after);
    assert(waiting_payloads(states.last())[0] == slab_payload(buffer, length));
    assert(after.contents().slots == after.slots@);
    assert(states.last().is_queued(index)) by {
        assert(ready_slabs(states.last().ready@)[0] == index);
        assert(ready_slabs(states.last().ready@).contains(index));
    }
    assert(after.slots@[index as int] is None);
}

/// A call of one of the two sides of a pool, with the slab and the payload that it moved.
pub enum SideStep {
    /// The producer got a slab.
    Loaned(usize, Seq<u8>),
    /// The producer committed a slab.
    Committed(usize, Seq<u8>),
    /// The consumer got a slab.
    Received(usize, Seq<u8>),
    /// A slab that was dropped or released came back.
    Returned(ReturnedSlab),
    /// A side got nothing, or only looked.
    Nothing,
}

/// Whether a call moves the pool that two sides share, as the contract of the call says.
pub open spec fn side_moved(before: PoolState, step: SideStep, after: PoolState) -> bool {
    match step {
        SideStep::Loaned(index, payload) => slab_loaned(before, after, index, payload),
        SideStep::Committed(index, payload) => slab_committed(before, after, index, payload),
        SideStep::Received(index, payload) => slab_received(before, after, index, payload),
        SideStep::Returned(returned) => after.contents() == settled(before.contents(), returned),
        SideStep::Nothing => after.contents() == before.contents(),
    }
}

/// The payloads that the producer committed, in order.
pub open spec fn side_committed(steps: Seq<SideStep>) -> Seq<Seq<u8>>
    decreases steps.len(),
{
    if steps.len() == 0 {
        Seq::empty()
    } else {
        match steps.last() {
            SideStep::Committed(_, payload) => side_committed(steps.drop_last()).push(payload),
            _ => side_committed(steps.drop_last()),
        }
    }
}

/// The payloads that the consumer received, in order.
pub open spec fn side_received(steps: Seq<SideStep>) -> Seq<Seq<u8>>
    decreases steps.len(),
{
    if steps.len() == 0 {
        Seq::empty()
    } else {
        match steps.last() {
            SideStep::Received(_, payload) => side_received(steps.drop_last()).push(payload),
            _ => side_received(steps.drop_last()),
        }
    }
}

/// What the producer committed comes out of the consumer, first in, first out.
///
/// The states are those of the pool that the two sides share, from one in which nothing waits on.
/// Whatever was loaned, dropped or released in between, the payloads received are the first ones
/// committed, unchanged, and those that wait are the others.
pub proof fn law_sides_are_first_in_first_out(pools: Seq<PoolState>, steps: Seq<SideStep>)
    requires
        pools.len() == steps.len() + 1,
        pools[0].ready@.len() == 0,
        forall|index: int| 0 <= index < pools.len() ==> (#[trigger] pools[index]).wf(),
        forall|index: int|
            0 <= index < steps.len() ==> side_moved(
                pools[index],
                #[trigger] steps[index],
                pools[index + 1],
            ),
    ensures
        side_committed(steps) == side_received(steps) + waiting_payloads(pools.last()),
    decreases steps.len(),
{
    if steps.len() == 0 {
        assert(waiting_payloads(pools.last()) =~= Seq::<Seq<u8>>::empty());
        assert(side_received(steps) + waiting_payloads(pools.last()) =~= Seq::<Seq<u8>>::empty());
    } else {
        let earlier = steps.drop_last();
        let states = pools.drop_last();
        assert forall|index: int| 0 <= index < earlier.len() implies side_moved(
            states[index],
            #[trigger] earlier[index],
            states[index + 1],
        ) by {
            assert(earlier[index] == steps[index]);
        }
        assert forall|index: int| 0 <= index < states.len() implies (
        #[trigger] states[index]).wf() by {
            assert(states[index] == pools[index]);
        }
        law_sides_are_first_in_first_out(states, earlier);
        let last = steps.len() - 1;
        let before = pools[last];
        let after = pools[last + 1];
        assert(states.last() == before);
        assert(side_moved(before, steps[last], after));
        let received = side_received(earlier);
        match steps[last] {
            SideStep::Loaned(index, _) => {
                lemma_waiting(before, PoolStep::Loan(index), after);
            },
            SideStep::Committed(index, payload) => {
                let (length, buffer) = choose|length: usize, buffer: Vec<u8>| #[trigger]
                    pool_moved(before, PoolStep::Commit(index, length, buffer), after) && payload
                        == slab_payload(buffer, length);
                lemma_waiting(before, PoolStep::Commit(index, length, buffer), after);
                assert((received + waiting_payloads(before)).push(payload) =~= received
                    + waiting_payloads(before).push(payload));
            },
            SideStep::Received(index, payload) => {
                let length = before.ready@[0].1;
                let buffer = before.slots@[index as int]->0;
                lemma_waiting(before, PoolStep::Receive(index, length, buffer), after);
                assert(received + waiting_payloads(before) =~= received.push(payload)
                    + waiting_payloads(after));
            },
            SideStep::Returned(returned) => {
                lemma_waiting(before, PoolStep::Settle(returned), after);
            },
            SideStep::Nothing => {
                lemma_waiting(before, PoolStep::Refuse, after);
            },
        }
    }
}

/// A slab that was held is free once it is handed back, behind all others, with its bytes in its
/// place and one holder less; anything else that is handed back changes nothing. Nothing that is
/// ready is touched.
pub proof fn law_returned_slabs_are_free_again(contents: PoolContents, returned: ReturnedSlab)
    ensures
        ({
            let after = settled(contents, returned);
            let held = returned.index < contents.slots.len()
                && contents.slots[returned.index as int] is None
                && returned.buffer@.len() == contents.chunk_capacity && if returned.holder is Loan {
                contents.loaned > 0
            } else {
                contents.received > 0
            };
            &&& !held ==> after == contents
            &&& held ==> {
                &&& after.free == contents.free.push(returned.index)
                &&& after.slots[returned.index as int] == Some(returned.buffer)
                &&& after.loaned + after.received == contents.loaned + contents.received - 1
                &&& after.loaned == contents.loaned <==> returned.holder is Receipt
                &&& settled(after, returned) == after
            }
            &&& after.ready == contents.ready
            &&& after.slots.len() == contents.slots.len()
            &&& after.free.len() + after.loaned + after.received == contents.free.len()
                + contents.loaned + contents.received
        }),
{
}

/// A failure of a pool keeps its code and its recoverability, and is one of resources.
pub proof fn law_pool_failures_are_of_resources(
    code: ErrorCode,
    recoverability: Recoverability,
    operation: &'static str,
)
    ensures
        pool_report(code, recoverability, operation).code == code,
        pool_report(code, recoverability, operation).context == operation,
        pool_report(code, recoverability, operation).recoverability == recoverability,
        pool_report(code, recoverability, operation).category is Resource,
{
}

/// A slab is held only where its place in the pool is empty and somebody of that kind holds one; it
/// comes back whole.
pub proof fn law_held_slabs_are_out_of_the_pool(
    pool: PoolState,
    holder: SlabHolder,
    index: usize,
    buffer: Seq<u8>,
)
    requires
        pool.is_held(holder, index, buffer),
    ensures
        pool.slots@[index as int] is None,
        buffer.len() == pool.chunk_capacity,
        pool.loaned + pool.received > 0,
        holder is Loan ==> pool.loaned >= 1,
        holder is Receipt ==> pool.received >= 1,
{
}

} // verus!
