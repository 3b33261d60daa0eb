//! The session of one device: which requests it may make in which state,
//! and what each request sets in motion.

use crate::bridge::{capacity_of, holds_prefix, Bridge, BridgeView};
use crate::extranonce::{has_room, least_free, lemma_assignment_of, lemma_least_free_exists};
use crate::extranonce::{partition_step, partition_wf, ExtranonceAssignment, Partition, PartitionEvent};
use crate::messages::{Submit, SubmitView};
use vstd::prelude::*;

verus! {

/// Where a session stands.
#[derive(Clone, Copy, Debug, PartialEq, Eq, Structural)]
pub enum SessionState {
    /// The transport is open; the device has asked for nothing yet.
    Connected,
    /// The device has subscribed and holds an extranonce prefix.
    Subscribed,
    /// The device has authorized.
    Authorized,
    /// The first difficulty and job have gone out; shares are welcome.
    Active,
    /// The session has ended.
    Closed,
}

/// A well-formed request of a device.
#[derive(Clone, Debug, PartialEq, Eq)]
pub enum Request {
    Subscribe,
    Authorize,
    /// The device asks to be told its extranonce again.
    ExtranonceSubscribe,
    Submit(Submit),
}

/// What happens to a session.
#[derive(Clone, Debug, PartialEq, Eq)]
pub enum SessionEvent {
    /// The device sent a well-formed request.
    Request(Request),
    /// The device sent something that is no request.
    Malformed,
    /// The transport failed or timed out.
    TransportError,
    /// The bridge has broadcast a job notification.
    JobBroadcast,
    /// A difficulty and a job have been sent to the device.
    WorkSent,
}

/// The mathematical content of a `SessionEvent`.
pub enum SessionEventView {
    Subscribe,
    Authorize,
    ExtranonceSubscribe,
    Submit(SubmitView),
    Malformed,
    TransportError,
    JobBroadcast,
    WorkSent,
}

impl View for SessionEvent {
    type V = SessionEventView;

    open spec fn view(&self) -> SessionEventView {
        match self {
            SessionEvent::Request(Request::Subscribe) => SessionEventView::Subscribe,
            SessionEvent::Request(Request::Authorize) => SessionEventView::Authorize,
            SessionEvent::Request(Request::ExtranonceSubscribe) =>
                SessionEventView::ExtranonceSubscribe,
            SessionEvent::Request(Request::Submit(s)) => SessionEventView::Submit(s@),
            SessionEvent::Malformed => SessionEventView::Malformed,
            SessionEvent::TransportError => SessionEventView::TransportError,
            SessionEvent::JobBroadcast => SessionEventView::JobBroadcast,
            SessionEvent::WorkSent => SessionEventView::WorkSent,
        }
    }
}

/// What the session does after an event.
#[derive(Clone, Debug, PartialEq, Eq)]
pub enum SessionAction {
    /// Answer the subscription with the session's share of the extranonce
    /// space.
    SendSubscription(ExtranonceAssignment),
    /// Answer the authorization.
    SendAuthorized,
    /// Tell the device its extranonce again.
    SendExtranonce(ExtranonceAssignment),
    /// Push the share onto the channel to the bridge, with the assignment of
    /// the session that it comes from.
    ForwardSubmission(ExtranonceAssignment, Submit),
    /// Send the job notification to the device; with `true`, send the
    /// device its difficulty first.
    SendWork(bool),
    /// End the session. Its prefix has been given back.
    Close,
    /// Do nothing.
    Nothing,
}

/// The mathematical content of a `SessionAction`.
pub enum SessionActionView {
    SendSubscription(ExtranonceAssignment),
    SendAuthorized,
    SendExtranonce(ExtranonceAssignment),
    ForwardSubmission(ExtranonceAssignment, SubmitView),
    SendWork(bool),
    Close,
    Nothing,
}

impl View for SessionAction {
    type V = SessionActionView;

    open spec fn view(&self) -> SessionActionView {
        match self {
            SessionAction::SendSubscription(a) => SessionActionView::SendSubscription(*a),
            SessionAction::SendAuthorized => SessionActionView::SendAuthorized,
            SessionAction::SendExtranonce(a) => SessionActionView::SendExtranonce(*a),
            SessionAction::ForwardSubmission(a, s) => SessionActionView::ForwardSubmission(*a, s@),
            SessionAction::SendWork(first) => SessionActionView::SendWork(*first),
            SessionAction::Close => SessionActionView::Close,
            SessionAction::Nothing => SessionActionView::Nothing,
        }
    }
}

/// The state of a session as the contracts see it.
pub struct SessionView {
    pub state: SessionState,
    /// The session's share of the extranonce space, from subscription to
    /// the end.
    pub assignment: Option<ExtranonceAssignment>,
}

/// A session holds a prefix exactly from subscription to the end.
pub open spec fn session_wf(s: SessionView) -> bool {
    s.assignment is Some <==> (s.state == SessionState::Subscribed || s.state
        == SessionState::Authorized || s.state == SessionState::Active)
}

/// A session on a transport that has just been accepted.
pub open spec fn fresh_session() -> SessionView {
    SessionView { state: SessionState::Connected, assignment: None }
}

/// The bridge after a session that held `assignment` has given it back.
pub open spec fn released(b: BridgeView, assignment: Option<ExtranonceAssignment>) -> BridgeView {
    match assignment {
        Some(a) => if holds_prefix(b, a) {
            BridgeView { live: b.live.remove(a.spec_prefix()), ..b }
        } else {
            b
        },
        None => b,
    }
}

/// The session ends and gives its prefix back.
pub open spec fn close(s: SessionView, b: BridgeView) -> (
    SessionView,
    BridgeView,
    SessionActionView,
) {
    (
        SessionView { state: SessionState::Closed, assignment: None },
        released(b, s.assignment),
        SessionActionView::Close,
    )
}

/// What one event does to a session and to the bridge that it draws its
/// prefix from. A request that the state does not allow ends the session,
/// as a malformed message or a failed transport does. A job notification
/// goes to a device only once it has authorized, and the first one comes
/// with the device's difficulty.
pub open spec fn session_step(s: SessionView, b: BridgeView, event: SessionEventView) -> (
    SessionView,
    BridgeView,
    SessionActionView,
) {
    if s.state == SessionState::Closed {
        (s, b, SessionActionView::Nothing)
    } else {
        match event {
            SessionEventView::Malformed => close(s, b),
            SessionEventView::TransportError => close(s, b),
            SessionEventView::JobBroadcast => if s.state == SessionState::Authorized {
                (s, b, SessionActionView::SendWork(true))
            } else if s.state == SessionState::Active {
                (s, b, SessionActionView::SendWork(false))
            } else {
                (s, b, SessionActionView::Nothing)
            },
            SessionEventView::WorkSent => if s.state == SessionState::Authorized {
                (SessionView { state: SessionState::Active, ..s }, b, SessionActionView::Nothing)
            } else {
                (s, b, SessionActionView::Nothing)
            },
            SessionEventView::Subscribe => if s.state == SessionState::Connected && has_room(
                b.live,
                capacity_of(b),
            ) {
                let prefix = least_free(b.live, capacity_of(b));
                let a = ExtranonceAssignment::of(b.space, prefix);
                (
                    SessionView { state: SessionState::Subscribed, assignment: Some(a) },
                    BridgeView { live: b.live.insert(prefix), ..b },
                    SessionActionView::SendSubscription(a),
                )
            } else {
                close(s, b)
            },
            SessionEventView::Authorize => if s.state == SessionState::Subscribed {
                (
                    SessionView { state: SessionState::Authorized, ..s },
                    b,
                    SessionActionView::SendAuthorized,
                )
            } else {
                close(s, b)
            },
            SessionEventView::ExtranonceSubscribe => if s.state != SessionState::Connected
                && s.assignment is Some {
                (s, b, SessionActionView::SendExtranonce(s.assignment->0))
            } else {
                close(s, b)
            },
            SessionEventView::Submit(share) => if s.state == SessionState::Active
                && s.assignment is Some {
                (s, b, SessionActionView::ForwardSubmission(s.assignment->0, share))
            } else {
                close(s, b)
            },
        }
    }
}

/// A share reaches the bridge only from a session that is active, and it
/// carries that session's own assignment.
pub proof fn lemma_submission_needs_active_session(
    s: SessionView,
    b: BridgeView,
    event: SessionEventView,
)
    requires
        session_step(s, b, event).2 is ForwardSubmission,
    ensures
        s.state == SessionState::Active,
        event is Submit,
        session_step(s, b, event).2 == SessionActionView::ForwardSubmission(
            s.assignment->0,
            event->Submit_0,
        ),
        session_step(s, b, event).0 == s,
        session_step(s, b, event).1 == b,
{
}

/// A session that ends gives its prefix back: afterwards no live session of
/// the bridge holds it, and the session holds nothing.
pub proof fn lemma_close_releases_prefix(s: SessionView, b: BridgeView, event: SessionEventView)
    requires
        session_step(s, b, event).2 is Close,
    ensures
        session_step(s, b, event).0.state == SessionState::Closed,
        session_step(s, b, event).0.assignment is None,
        s.assignment matches Some(a) ==> !holds_prefix(session_step(s, b, event).1, a),
{
}

/// A session that has ended stays ended and touches nothing.
pub proof fn lemma_closed_session_is_inert(s: SessionView, b: BridgeView, event: SessionEventView)
    requires
        s.state == SessionState::Closed,
    ensures
        session_step(s, b, event) == (s, b, SessionActionView::Nothing),
{
}

/// How many steps of the walk lie behind a state.
pub open spec fn session_rank(state: SessionState) -> nat {
    match state {
        SessionState::Connected => 0,
        SessionState::Subscribed => 1,
        SessionState::Authorized => 2,
        SessionState::Active => 3,
        SessionState::Closed => 0,
    }
}

/// A session moves by one state at a time, or ends: it is active only after
/// it has subscribed, authorized and been sent work, in that order.
pub proof fn lemma_one_state_at_a_time(s: SessionView, b: BridgeView, event: SessionEventView)
    ensures
        ({
            let next = session_step(s, b, event).0.state;
            next == SessionState::Closed || next == s.state || session_rank(next) == session_rank(
                s.state,
            ) + 1
        }),
        session_step(s, b, event).0.state == SessionState::Subscribed && s.state
            != SessionState::Subscribed ==> event is Subscribe,
        session_step(s, b, event).0.state == SessionState::Authorized && s.state
            != SessionState::Authorized ==> event is Authorize,
        session_step(s, b, event).0.state == SessionState::Active && s.state
            != SessionState::Active ==> event is WorkSent,
{
}

/// One event keeps the session well-formed.
pub proof fn lemma_session_step_keeps_wf(s: SessionView, b: BridgeView, event: SessionEventView)
    requires
        session_wf(s),
    ensures
        session_wf(session_step(s, b, event).0),
{
}

/// The partition records what session `id` holds in the bridge.
pub open spec fn recorded(p: Partition, id: nat, s: SessionView, b: BridgeView) -> bool {
    &&& p.live == b.live
    &&& match s.assignment {
        Some(a) => a.spec_space() == b.space && p.holder.contains_key(id) && p.holder[id]
            == a.spec_prefix(),
        None => !p.holder.contains_key(id),
    }
}

/// What an event of session `id` is to the partition: a request for a
/// prefix, the return of one, or nothing.
pub open spec fn partition_event(s: SessionView, b: BridgeView, event: SessionEventView, id: nat)
    -> Option<PartitionEvent> {
    let next = session_step(s, b, event).0;
    if s.assignment is None && next.assignment is Some {
        Some(PartitionEvent::Subscribe(id))
    } else if s.assignment is Some && next.assignment is None {
        Some(PartitionEvent::Unsubscribe(id))
    } else {
        None
    }
}

/// Every step of a session moves the bridge's prefixes exactly as the
/// partition moves: a subscription draws the least free prefix, the end of a
/// session gives its prefix back, and nothing else touches the prefixes. So
/// what holds of every run of the partition holds of the sessions of a
/// bridge: no two live sessions share a prefix.
pub proof fn lemma_sessions_move_the_partition(
    s: SessionView,
    b: BridgeView,
    event: SessionEventView,
    p: Partition,
    id: nat,
)
    requires
        session_wf(s),
        partition_wf(p, capacity_of(b)),
        recorded(p, id, s, b),
    ensures
        ({
            let (next, bridge, _) = session_step(s, b, event);
            let moved = match partition_event(s, b, event, id) {
                Some(e) => partition_step(p, capacity_of(b), e),
                None => p,
            };
            recorded(moved, id, next, bridge) && bridge.space == b.space
        }),
{
    let cap = capacity_of(b);
    if s.state == SessionState::Connected && event is Subscribe && has_room(b.live, cap) {
        let w = choose|v: nat| v < cap && !b.live.contains(v);
        lemma_least_free_exists(b.live, cap, w);
        lemma_assignment_of(b.space, least_free(b.live, cap));
    }
}

/// The session of one device.
pub struct Session {
    state: SessionState,
    assignment: Option<ExtranonceAssignment>,
}

impl Session {
    #[verifier::type_invariant]
    spec fn inv(self) -> bool {
        session_wf(self@)
    }

    /// The state of the session as the contracts see it.
    pub closed spec fn view(&self) -> SessionView {
        SessionView { state: self.state, assignment: self.assignment }
    }

    /// A session on a transport that has just been accepted.
    pub fn new() -> (s: Session)
        ensures
            s@ == fresh_session(),
    {
        Session { state: SessionState::Connected, assignment: None }
    }

    pub fn state(&self) -> (st: SessionState)
        ensures
            st == self@.state,
    {
        self.state
    }

    /// The session's share of the extranonce space, while it has one.
    pub fn assignment(&self) -> (a: Option<ExtranonceAssignment>)
        ensures
            a == self@.assignment,
            session_wf(self@),
    {
        proof {
            use_type_invariant(self);
        }
        self.assignment
    }

    fn end(&mut self, bridge: &mut Bridge) -> (a: SessionAction)
        ensures
            (final(self)@, final(bridge)@, a@) == close(old(self)@, old(bridge)@),
    {
        match self.assignment {
            Some(held) => {
                bridge.unsubscribe(&held);
            },
            None => {},
        }
        *self = Session { state: SessionState::Closed, assignment: None };
        SessionAction::Close
    }

    /// Takes one event. `bridge` is the bridge that hands out the prefixes.
    pub fn step(&mut self, bridge: &mut Bridge, event: SessionEvent) -> (a: SessionAction)
        ensures
            (final(self)@, final(bridge)@, a@) == session_step(
                old(self)@,
                old(bridge)@,
                event@,
            ),
    {
        proof {
            use_type_invariant(&*self);
        }
        match self.state {
            SessionState::Closed => {
                return SessionAction::Nothing;
            },
            _ => {},
        }
        match event {
            SessionEvent::Malformed => self.end(bridge),
            SessionEvent::TransportError => self.end(bridge),
            SessionEvent::JobBroadcast => match self.state {
                SessionState::Authorized => SessionAction::SendWork(true),
                SessionState::Active => SessionAction::SendWork(false),
                _ => SessionAction::Nothing,
            },
            SessionEvent::WorkSent => {
                match self.state {
                    SessionState::Authorized => {
                        self.state = SessionState::Active;
                    },
                    _ => {},
                }
                SessionAction::Nothing
            },
            SessionEvent::Request(Request::Subscribe) => match self.state {
                SessionState::Connected => match bridge.subscribe() {
                    Some(a) => {
                        *self = Session { state: SessionState::Subscribed, assignment: Some(a) };
                        SessionAction::SendSubscription(a)
                    },
                    None => self.end(bridge),
                },
                _ => self.end(bridge),
            },
            SessionEvent::Request(Request::Authorize) => match self.state {
                SessionState::Subscribed => {
                    self.state = SessionState::Authorized;
                    SessionAction::SendAuthorized
                },
                _ => self.end(bridge),
            },
            SessionEvent::Request(Request::ExtranonceSubscribe) => match self.assignment {
                Some(a) => SessionAction::SendExtranonce(a),
                None => self.end(bridge),
            },
            SessionEvent::Request(Request::Submit(share)) => match (self.state, self.assignment) {
                (SessionState::Active, Some(a)) => SessionAction::ForwardSubmission(a, share),
                _ => self.end(bridge),
            },
        }
    }
}

} // verus!
