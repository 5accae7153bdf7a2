//! Session state and the canonical transition table.

use vstd::prelude::*;

use crate::domain::error::{report, ErrorCategory, ErrorCode, ErrorReport, Recoverability};

verus! {

/// Lifecycle state of one session generation.
#[derive(Clone, Copy, Debug, PartialEq, Eq, Structural)]
pub enum SessionState {
    /// Identity exists but preparation has not started.
    Created,
    /// Resources are being prepared.
    Preparing,
    /// Resources are ready and the renderer has not attached.
    WaitingForRenderer,
    /// The renderer is ready and the native peer has not attached.
    WaitingForPeer,
    /// Both endpoints are negotiating the wire protocol.
    Handshaking,
    /// The data plane is ready.
    Open,
    /// Graceful shutdown is draining accepted work.
    Draining,
    /// An endpoint disconnected and this generation may be replaced.
    Disconnected,
    /// The generation failed and cannot be reused.
    Failed,
    /// Shutdown completed.
    Closed,
}

/// Events accepted by the session transition table.
#[derive(Clone, Copy, Debug, PartialEq, Eq, Structural)]
pub enum SessionEvent {
    /// Resource preparation started.
    Prepare,
    /// All generation-bound resources are ready.
    ResourcesReady,
    /// The renderer attached to this generation.
    RendererReady,
    /// The native peer attached to this generation.
    PeerReady,
    /// HELLO/ACK negotiation completed.
    HandshakeComplete,
    /// Graceful shutdown started.
    BeginDrain,
    /// An attached endpoint disappeared.
    Disconnect,
    /// A failure invalidated the generation.
    Fail,
    /// Draining or disconnected cleanup completed.
    Close,
}

/// Whether an endpoint of the generation may be attached, so that it can disappear.
pub open spec fn endpoint_expected(state: SessionState) -> bool {
    state is WaitingForRenderer || state is WaitingForPeer || state is Handshaking || state is Open
        || state is Draining
}

/// Whether no further event is accepted.
pub open spec fn terminal(state: SessionState) -> bool {
    state is Failed || state is Closed
}

/// Whether a generation may be replaced by the next one.
pub open spec fn replaceable(state: SessionState) -> bool {
    state is Disconnected || state is Failed || state is Closed
}

/// The table: the state that an event leads to, where it is accepted.
pub open spec fn transition_table(state: SessionState, event: SessionEvent) -> Option<
    SessionState,
> {
    match event {
        SessionEvent::Prepare => if state is Created {
            Some(SessionState::Preparing)
        } else {
            None
        },
        SessionEvent::ResourcesReady => if state is Preparing {
            Some(SessionState::WaitingForRenderer)
        } else {
            None
        },
        SessionEvent::RendererReady => if state is WaitingForRenderer {
            Some(SessionState::WaitingForPeer)
        } else {
            None
        },
        SessionEvent::PeerReady => if state is WaitingForPeer {
            Some(SessionState::Handshaking)
        } else {
            None
        },
        SessionEvent::HandshakeComplete => if state is Handshaking {
            Some(SessionState::Open)
        } else {
            None
        },
        SessionEvent::BeginDrain => if state is Open {
            Some(SessionState::Draining)
        } else {
            None
        },
        SessionEvent::Disconnect => if endpoint_expected(state) {
            Some(SessionState::Disconnected)
        } else {
            None
        },
        SessionEvent::Fail => if !terminal(state) {
            Some(SessionState::Failed)
        } else {
            None
        },
        SessionEvent::Close => if state is Draining || state is Disconnected {
            Some(SessionState::Closed)
        } else {
            None
        },
    }
}

/// The report of an event that the table does not accept.
pub open spec fn invalid_transition_report() -> ErrorReport {
    report(
        ErrorCategory::Lifecycle,
        ErrorCode::InvalidStateTransition,
        Recoverability::ReplaceEndpoint,
        "invalid session transition",
    )
}

impl SessionState {
    /// Returns whether no further event is accepted for this generation.
    pub fn is_terminal(self) -> (answer: bool)
        ensures
            answer == terminal(self),
    {
        matches!(self, SessionState::Failed | SessionState::Closed)
    }

    /// Returns whether runtime policy may replace this generation.
    pub fn can_replace(self) -> (answer: bool)
        ensures
            answer == replaceable(self),
            answer == (self is Disconnected || self is Failed || self is Closed),
    {
        matches!(self, SessionState::Disconnected | SessionState::Failed | SessionState::Closed)
    }

    /// Applies an event through the canonical transition table.
    ///
    /// A stable lifecycle error is returned when the event is invalid in this state.
    pub fn transition(self, event: SessionEvent) -> (next: Result<Self, ErrorReport>)
        ensures
            next == (match transition_table(self, event) {
                Some(state) => Ok(state),
                None => Err(invalid_transition_report()),
            }),
            event is Disconnect && next is Ok ==> next->Ok_0 is Disconnected,
            next matches Ok(entered) ==> (entered is Draining <==> event is BeginDrain),
    {
        let next = match (self, event) {
            (SessionState::Created, SessionEvent::Prepare) => SessionState::Preparing,
            (
                SessionState::Preparing,
                SessionEvent::ResourcesReady,
            ) => SessionState::WaitingForRenderer,
            (
                SessionState::WaitingForRenderer,
                SessionEvent::RendererReady,
            ) => SessionState::WaitingForPeer,
            (SessionState::WaitingForPeer, SessionEvent::PeerReady) => SessionState::Handshaking,
            (SessionState::Handshaking, SessionEvent::HandshakeComplete) => SessionState::Open,
            (SessionState::Open, SessionEvent::BeginDrain) => SessionState::Draining,
            (
                SessionState::Draining | SessionState::Disconnected,
                SessionEvent::Close,
            ) => SessionState::Closed,
            (
                SessionState::WaitingForRenderer
                | SessionState::WaitingForPeer
                | SessionState::Handshaking
                | SessionState::Open
                | SessionState::Draining,
                SessionEvent::Disconnect,
            ) => SessionState::Disconnected,
            (state, SessionEvent::Fail) if !state.is_terminal() => SessionState::Failed,
            _ => {
                return Err(invalid_transition());
            },
        };
        Ok(next)
    }
}

fn invalid_transition() -> (created: ErrorReport)
    ensures
        created == invalid_transition_report(),
{
    ErrorReport::new(
        ErrorCategory::Lifecycle,
        ErrorCode::InvalidStateTransition,
        Recoverability::ReplaceEndpoint,
        "invalid session transition",
    )
}

/// The state after a sequence of events, or `None` once one of them is not accepted.
pub open spec fn run(state: SessionState, events: Seq<SessionEvent>) -> Option<SessionState>
    decreases events.len(),
{
    if events.len() == 0 {
        Some(state)
    } else {
        match transition_table(state, events[0]) {
            Some(next) => run(next, events.subrange(1, events.len() as int)),
            None => None,
        }
    }
}

/// How far a state stands from the end of its generation's life.
pub open spec fn remaining_steps(state: SessionState) -> nat {
    match state {
        SessionState::Created => 8,
        SessionState::Preparing => 7,
        SessionState::WaitingForRenderer => 6,
        SessionState::WaitingForPeer => 5,
        SessionState::Handshaking => 4,
        SessionState::Open => 3,
        SessionState::Draining => 2,
        SessionState::Disconnected => 1,
        SessionState::Failed => 0,
        SessionState::Closed => 0,
    }
}

/// A terminal state accepts no event.
pub proof fn law_terminal_states_accept_nothing(state: SessionState, event: SessionEvent)
    requires
        terminal(state),
    ensures
        transition_table(state, event) is None,
{
}

/// Every live state accepts a failure, and the failed generation can be replaced.
pub proof fn law_live_states_can_fail(state: SessionState)
    requires
        !terminal(state),
    ensures
        transition_table(state, SessionEvent::Fail) == Some(SessionState::Failed),
{
}

/// Every accepted event brings the generation closer to its end: no state is entered twice.
pub proof fn law_transitions_only_advance(state: SessionState, event: SessionEvent)
    ensures
        match transition_table(state, event) {
            Some(next) => remaining_steps(next) < remaining_steps(state),
            None => true,
        },
{
}

/// No sequence of more than eight events is accepted from any state.
pub proof fn law_lifetimes_are_bounded(state: SessionState, events: Seq<SessionEvent>)
    ensures
        run(state, events) is Some ==> events.len() <= remaining_steps(state),
    decreases events.len(),
{
    if events.len() > 0 {
        match transition_table(state, events[0]) {
            Some(next) => {
                law_transitions_only_advance(state, events[0]);
                law_lifetimes_are_bounded(next, events.subrange(1, events.len() as int));
            },
            None => {},
        }
    }
}

/// The data plane opens only after preparation, both attachments and the handshake, in order.
pub proof fn law_open_follows_the_full_handshake(events: Seq<SessionEvent>)
    requires
        run(SessionState::Created, events) == Some(SessionState::Open),
    ensures
        events =~= seq![
            SessionEvent::Prepare,
            SessionEvent::ResourcesReady,
            SessionEvent::RendererReady,
            SessionEvent::PeerReady,
            SessionEvent::HandshakeComplete,
        ],
{
    reveal_with_fuel(run, 7);
    law_lifetimes_are_bounded(SessionState::Created, events);
    let one = events.subrange(1, events.len() as int);
    let two = one.subrange(1, one.len() as int);
    let three = two.subrange(1, two.len() as int);
    let four = three.subrange(1, three.len() as int);
    let five = four.subrange(1, four.len() as int);
    if events.len() > 0 {
        assert(events[0] == SessionEvent::Prepare) by {
            if events[0] == SessionEvent::Fail {
                law_lifetimes_are_bounded(SessionState::Failed, one);
            }
        }
        lemma_opening_step(SessionState::Preparing, one);
        lemma_opening_step(SessionState::WaitingForRenderer, two);
        lemma_opening_step(SessionState::WaitingForPeer, three);
        lemma_opening_step(SessionState::Handshaking, four);
        lemma_opening_step(SessionState::Open, five);
        assert(events[1] == one[0] && events[2] == two[0] && events[3] == three[0] && events[4]
            == four[0]);
    }
}

/// A run that reaches the open state from one of the states before it takes the one step onward.
proof fn lemma_opening_step(state: SessionState, events: Seq<SessionEvent>)
    requires
        run(state, events) == Some(SessionState::Open),
        state is Preparing || state is WaitingForRenderer || state is WaitingForPeer
            || state is Handshaking || state is Open,
    ensures
        state is Open ==> events.len() == 0,
        state !is Open ==> events.len() > 0 && events[0] == (match state {
            SessionState::Preparing => SessionEvent::ResourcesReady,
            SessionState::WaitingForRenderer => SessionEvent::RendererReady,
            SessionState::WaitingForPeer => SessionEvent::PeerReady,
            _ => SessionEvent::HandshakeComplete,
        }),
{
    if events.len() > 0 {
        let rest = events.subrange(1, events.len() as int);
        match transition_table(state, events[0]) {
            Some(next) => {
                if next is Draining || next is Disconnected || terminal(next) {
                    lemma_closing_states_stay_closed(next, rest);
                }
            },
            None => {},
        }
    }
}

/// No run from a state past the open one comes back to it.
proof fn lemma_closing_states_stay_closed(state: SessionState, events: Seq<SessionEvent>)
    requires
        state is Draining || state is Disconnected || terminal(state),
    ensures
        run(state, events) != Some(SessionState::Open),
    decreases events.len(),
{
    if events.len() > 0 {
        match transition_table(state, events[0]) {
            Some(next) => {
                lemma_closing_states_stay_closed(next, events.subrange(1, events.len() as int));
            },
            None => {},
        }
    }
}

/// Every event leads to a state of its own, wherever it is accepted, and no other event leads
/// there.
///
/// So a generation whose endpoint disappeared is disconnected, whatever it was doing; draining is
/// entered by a graceful shutdown alone, and the data plane by a completed handshake alone.
pub proof fn law_events_enter_states_of_their_own(
    state: SessionState,
    event: SessionEvent,
    next: SessionState,
)
    requires
        transition_table(state, event) == Some(next),
    ensures
        next is Preparing <==> event is Prepare,
        next is WaitingForRenderer <==> event is ResourcesReady,
        next is WaitingForPeer <==> event is RendererReady,
        next is Handshaking <==> event is PeerReady,
        next is Open <==> event is HandshakeComplete,
        next is Draining <==> event is BeginDrain,
        next is Disconnected <==> event is Disconnect,
        next is Failed <==> event is Fail,
        next is Closed <==> event is Close,
        next !is Created,
{
}

/// A generation whose endpoint disappeared can be replaced, and so can one that failed or closed;
/// no other event makes it replaceable.
pub proof fn law_lost_generations_can_be_replaced(
    state: SessionState,
    event: SessionEvent,
    next: SessionState,
)
    requires
        transition_table(state, event) == Some(next),
    ensures
        event is Disconnect || event is Fail || event is Close <==> replaceable(next),
        event is Disconnect ==> !replaceable(state) && transition_table(next, SessionEvent::Close)
            == Some(SessionState::Closed),
        replaceable(state) ==> replaceable(next),
{
}

/// How far an event stands in the life of a generation whose endpoints never disappear.
pub open spec fn opening_events() -> Seq<SessionEvent> {
    seq![
        SessionEvent::Prepare,
        SessionEvent::ResourcesReady,
        SessionEvent::RendererReady,
        SessionEvent::PeerReady,
        SessionEvent::HandshakeComplete,
        SessionEvent::BeginDrain,
        SessionEvent::Close,
    ]
}

/// The events of a life without a failure are accepted in their order and in no other: after the
/// first ones of them exactly the next one, a failure, and the loss of an endpoint once the
/// resources are ready, until the generation is closed.
pub proof fn law_lives_follow_their_order(count: int, event: SessionEvent)
    requires
        0 <= count <= opening_events().len(),
    ensures
        run(SessionState::Created, opening_events().subrange(0, count)) matches Some(state) && (
        transition_table(state, event) is Some <==> count < 7 && {
            ||| event == opening_events()[count]
            ||| event is Fail
            ||| event is Disconnect && count >= 2
        }),
{
    let events = opening_events().subrange(0, count);
    reveal_with_fuel(run, 9);
    let one = events.subrange(1, events.len() as int);
    let two = one.subrange(1, one.len() as int);
    let three = two.subrange(1, two.len() as int);
    let four = three.subrange(1, three.len() as int);
    let five = four.subrange(1, four.len() as int);
    let six = five.subrange(1, five.len() as int);
    let seven = six.subrange(1, six.len() as int);
    assert(opening_events().len() == 7);
    if count == 0 {
    } else if count == 1 {
    } else if count == 2 {
    } else if count == 3 {
    } else if count == 4 {
    } else if count == 5 {
    } else if count == 6 {
    } else {
        assert(seven.len() == 0);
    }
}

/// A disconnected generation accepts its cleanup and a failure, and nothing else.
pub proof fn law_disconnected_generations_are_cleaned_up(event: SessionEvent)
    ensures
        transition_table(SessionState::Disconnected, event) is Some <==> event is Close
            || event is Fail,
{
}

} // verus!
