//! Byte-based backpressure with high and low watermark hysteresis.

use vstd::prelude::*;

use crate::domain::error::{report, ErrorCategory, ErrorCode, ErrorReport, Recoverability};

verus! {

/// The report of inconsistent watermarks or an impossible observation.
pub open spec fn flow_report(code: ErrorCode) -> ErrorReport {
    report(ErrorCategory::Resource, code, Recoverability::ReplaceEndpoint, "flow control")
}

fn flow_error(code: ErrorCode) -> (created: ErrorReport)
    ensures
        created == flow_report(code),
{
    ErrorReport::new(ErrorCategory::Resource, code, Recoverability::ReplaceEndpoint, "flow control")
}

/// Tracks whether a bounded producer should be considered writable.
#[derive(Clone, Copy, Debug, PartialEq, Eq, Structural)]
pub struct FlowControl {
    /// Fixed capacity.
    pub capacity: u32,
    /// Occupancy at which backpressure starts.
    pub high: u32,
    /// Occupancy at which backpressure ends.
    pub low: u32,
    /// Whether sends should currently wait.
    pub backpressured: bool,
    /// Most recently observed occupancy.
    pub buffered: u32,
}

/// Result of one watermark observation.
#[derive(Clone, Copy, Debug, PartialEq, Eq, Structural)]
pub struct FlowUpdate {
    /// Current committed byte count.
    pub buffered: u32,
    /// Whether sends should currently apply backpressure.
    pub backpressured: bool,
    /// Whether this observation crossed the low watermark once.
    pub became_writable: bool,
}

/// Whether watermarks are ordered within a capacity.
pub open spec fn watermarks_agree(capacity: u32, low: u32, high: u32) -> bool {
    low < high <= capacity
}

/// Whether backpressure applies after an observation.
pub open spec fn backpressure_after(flow: FlowControl, buffered: u32) -> bool {
    if flow.backpressured {
        buffered > flow.low
    } else {
        buffered >= flow.high
    }
}

/// The tracker after an observation within capacity.
pub open spec fn observed(flow: FlowControl, buffered: u32) -> FlowControl {
    FlowControl { backpressured: backpressure_after(flow, buffered), buffered, ..flow }
}

impl FlowControl {
    /// Creates watermarks satisfying `low < high <= capacity`.
    ///
    /// `InvalidRange` is returned for inconsistent thresholds.
    pub fn new(capacity: u32, low: u32, high: u32) -> (created: Result<Self, ErrorReport>)
        ensures
            created == if watermarks_agree(capacity, low, high) {
                Ok::<Self, ErrorReport>(
                    FlowControl { capacity, high, low, backpressured: false, buffered: 0 },
                )
            } else {
                Err(flow_report(ErrorCode::InvalidRange))
            },
    {
        if capacity == 0 || low >= high || high > capacity {
            return Err(flow_error(ErrorCode::InvalidRange));
        }
        Ok(FlowControl { capacity, high, low, backpressured: false, buffered: 0 })
    }

    /// Observes current buffered bytes and reports a single writable-return edge.
    ///
    /// `InvalidCursor` is returned if buffered bytes exceed fixed capacity.
    pub fn update(&mut self, buffered: u32) -> (update: Result<FlowUpdate, ErrorReport>)
        ensures
            if buffered > old(self).capacity {
                update == Err::<FlowUpdate, ErrorReport>(flow_report(ErrorCode::InvalidCursor))
                    && *final(self) == *old(self)
            } else {
                &&& *final(self) == observed(*old(self), buffered)
                &&& update == Ok::<FlowUpdate, ErrorReport>(
                    FlowUpdate {
                        buffered,
                        backpressured: backpressure_after(*old(self), buffered),
                        became_writable: old(self).backpressured && !backpressure_after(
                            *old(self),
                            buffered,
                        ),
                    },
                )
            },
            old(self).low < old(self).high ==> (update matches Ok(told) ==> {
                &&& buffered <= old(self).low ==> !told.backpressured && told.became_writable
                    == old(self).backpressured
                &&& buffered >= old(self).high ==> told.backpressured && !told.became_writable
                &&& old(self).low < buffered < old(self).high ==> told.backpressured
                    == old(self).backpressured && !told.became_writable
            }),
    {
        if buffered > self.capacity {
            return Err(flow_error(ErrorCode::InvalidCursor));
        }
        let was_backpressured = self.backpressured;
        if self.backpressured {
            if buffered <= self.low {
                self.backpressured = false;
            }
        } else if buffered >= self.high {
            self.backpressured = true;
        }
        self.buffered = buffered;
        Ok(
            FlowUpdate {
                buffered,
                backpressured: self.backpressured,
                became_writable: was_backpressured && !self.backpressured,
            },
        )
    }

    /// Returns the most recently observed buffered amount.
    pub fn buffered(&self) -> (buffered: u32)
        ensures
            buffered == self.buffered,
    {
        self.buffered
    }
}

/// The tracker after several observations.
pub open spec fn observed_all(flow: FlowControl, observations: Seq<u32>) -> FlowControl
    decreases observations.len(),
{
    if observations.len() == 0 {
        flow
    } else {
        observed(observed_all(flow, observations.drop_last()), observations.last())
    }
}

/// While occupancy stays between the watermarks, nothing changes: neither backpressure starts nor a
/// writable edge is reported.
pub proof fn law_hysteresis_holds_between_watermarks(flow: FlowControl, buffered: u32)
    requires
        flow.low < buffered < flow.high,
    ensures
        backpressure_after(flow, buffered) == flow.backpressured,
{
}

/// After a writable edge no further edge is reported until occupancy has reached the high watermark
/// again.
pub proof fn law_one_writable_edge(flow: FlowControl, observations: Seq<u32>)
    requires
        !flow.backpressured,
        forall|i: int| 0 <= i < observations.len() ==> #[trigger] observations[i] < flow.high,
    ensures
        !observed_all(flow, observations).backpressured,
        observed_all(flow, observations).high == flow.high,
        observed_all(flow, observations).low == flow.low,
        observed_all(flow, observations).capacity == flow.capacity,
    decreases observations.len(),
{
    if observations.len() > 0 {
        assert forall|i: int| 0 <= i < observations.drop_last().len() implies
            #[trigger] observations.drop_last()[i] < flow.high by {
            assert(observations.drop_last()[i] == observations[i]);
        }
        law_one_writable_edge(flow, observations.drop_last());
        assert(observations.last() == observations[observations.len() - 1]);
    }
}

/// Outside the watermarks the occupancy alone decides, whatever was observed before.
///
/// At or below the low watermark there is no backpressure, and at or above the high watermark there
/// is. A writable edge is owed exactly where there was backpressure before.
pub proof fn law_occupancy_decides_outside_the_watermarks(flow: FlowControl, buffered: u32)
    requires
        flow.low < flow.high,
    ensures
        buffered <= flow.low ==> !observed(flow, buffered).backpressured,
        buffered >= flow.high ==> observed(flow, buffered).backpressured,
        observed(flow, buffered).buffered == buffered,
        observed(flow, buffered).low == flow.low,
        observed(flow, buffered).high == flow.high,
        observed(flow, buffered).capacity == flow.capacity,
{
}

/// Backpressure tells which watermark was met last.
///
/// After any observations of a new tracker it applies exactly where one of them was at or above the
/// high watermark and none behind that one was at or below the low watermark.
pub proof fn law_backpressure_tells_the_last_watermark(flow: FlowControl, observations: Seq<u32>)
    requires
        flow.low < flow.high,
        !flow.backpressured,
    ensures
        observed_all(flow, observations).backpressured <==> exists|index: int|
            #![trigger observations[index]]
            0 <= index < observations.len() && observations[index] >= flow.high && forall|
                later: int,
            |
                index < later < observations.len() ==> #[trigger] observations[later] > flow.low,
        observed_all(flow, observations).low == flow.low,
        observed_all(flow, observations).high == flow.high,
        observed_all(flow, observations).capacity == flow.capacity,
    decreases observations.len(),
{
    if observations.len() > 0 {
        let earlier = observations.drop_last();
        let last = observations.len() - 1;
        law_backpressure_tells_the_last_watermark(flow, earlier);
        let before = observed_all(flow, earlier);
        assert(observations.last() == observations[last]);
        if before.backpressured {
            let index = choose|index: int|
                #![trigger earlier[index]]
                0 <= index < earlier.len() && earlier[index] >= flow.high && forall|later: int|
                    index < later < earlier.len() ==> #[trigger] earlier[later] > flow.low;
            assert(observations[index] == earlier[index]);
            if observations[last] > flow.low {
                assert forall|later: int| index < later < observations.len() implies
                    #[trigger] observations[later] > flow.low by {
                    if later < last {
                        assert(observations[later] == earlier[later]);
                    }
                }
            }
        } else if observations[last] < flow.high {
            assert forall|index: int|
                #![trigger observations[index]]
                0 <= index < observations.len() && observations[index] >= flow.high && (forall|
                    later: int,
                |
                    index < later < observations.len() ==> #[trigger] observations[later]
                        > flow.low) implies false by {
                assert(index < last);
                assert(earlier[index] == observations[index]);
                assert forall|later: int| index < later < earlier.len() implies
                    #[trigger] earlier[later] > flow.low by {
                    assert(earlier[later] == observations[later]);
                }
            }
        }
    }
}

/// Watermarks agree exactly where a full channel is backpressured and no occupancy makes the answer
/// flap when it is observed again.
pub proof fn law_agreeing_watermarks_settle(capacity: u32, low: u32, high: u32)
    ensures
        ({
            let fresh = FlowControl { capacity, high, low, backpressured: false, buffered: 0 };
            watermarks_agree(capacity, low, high) <==> {
                &&& low < capacity
                &&& observed(fresh, capacity).backpressured
                &&& forall|buffered: u32|
                    #![trigger observed(fresh, buffered)]
                    observed(observed(fresh, buffered), buffered).backpressured == observed(
                        fresh,
                        buffered,
                    ).backpressured
            }
        }),
{
    let fresh = FlowControl { capacity, high, low, backpressured: false, buffered: 0 };
    assert(observed(observed(fresh, high), high).backpressured == (high > low));
    assert(observed(fresh, high).backpressured);
}

/// A failure of flow control keeps its code; it is one of resources, and another endpoint gets over
/// it.
pub proof fn law_flow_failures_are_of_resources(code: ErrorCode)
    ensures
        flow_report(code).code == code,
        flow_report(code).category is Resource,
        flow_report(code).recoverability is ReplaceEndpoint,
{
}

} // verus!
