//! The client of the pool: the one owner of the connection, and the one
//! writer of the shared target.

use crate::error::Error;
use crate::extranonce::ExtendedExtranonce;
use crate::messages::{JobView, NewExtendedMiningJob, SetNewPrevHash};
use crate::messages::{SubmitSharesExtended, SubmitSharesExtendedView};
use crate::target::{SharedTarget, Target};
use vstd::prelude::*;

verus! {

/// How the attempt to reach the pool ended.
#[derive(Clone, Copy, Debug, PartialEq, Eq, Structural)]
pub enum ConnectReply {
    /// The transport could not be opened.
    TransportFailed,
    /// The pool accepted the connection and chose this protocol version.
    Accepted(u16),
    /// The pool refused every version on offer.
    Refused,
}

/// What the decoder hands over for one frame of the pool.
#[derive(Clone, Debug, PartialEq, Eq)]
pub enum Frame {
    /// A job.
    NewExtendedMiningJob(NewExtendedMiningJob),
    /// A new chain tip. Its difficulty bits give the network target that
    /// holds from it on.
    SetNewPrevHash(SetNewPrevHash),
    /// The extranonce space of `total_len` bytes that the pool grants on
    /// channel `channel_id`.
    ExtranonceAllocation { total_len: usize, channel_id: u32 },
    /// A well-formed message that the core has no use for.
    Other,
    /// The frame could not be decoded.
    Malformed,
}

/// The mathematical content of a `Frame`.
pub enum FrameView {
    NewExtendedMiningJob(JobView),
    SetNewPrevHash(SetNewPrevHash),
    ExtranonceAllocation { total_len: usize, channel_id: u32 },
    Other,
    Malformed,
}

impl View for Frame {
    type V = FrameView;

    open spec fn view(&self) -> FrameView {
        match self {
            Frame::NewExtendedMiningJob(j) => FrameView::NewExtendedMiningJob(j@),
            Frame::SetNewPrevHash(tip) => FrameView::SetNewPrevHash(*tip),
            Frame::ExtranonceAllocation { total_len, channel_id } => FrameView::ExtranonceAllocation {
                total_len: *total_len,
                channel_id: *channel_id,
            },
            Frame::Other => FrameView::Other,
            Frame::Malformed => FrameView::Malformed,
        }
    }
}

/// What the client does after an event.
#[derive(Clone, Debug, PartialEq, Eq)]
pub enum UpstreamAction {
    /// The connection stands, with this protocol version.
    Connected(u16),
    /// Push the job onto the channel to the bridge.
    ForwardJob(NewExtendedMiningJob),
    /// Push the chain tip onto the channel to the bridge. The shared target
    /// has been written already.
    ForwardPrevHash(SetNewPrevHash),
    /// Hand the extranonce space and its channel id over, through the
    /// single-slot channel.
    DeliverExtranonce(ExtendedExtranonce, u32),
    /// Send the share to the pool.
    SendToPool(SubmitSharesExtended),
    /// Report the failure to the supervisor and end the task.
    Shutdown(Error),
    /// Do nothing.
    Nothing,
}

/// The mathematical content of an `UpstreamAction`.
pub enum UpstreamActionView {
    Connected(u16),
    ForwardJob(JobView),
    ForwardPrevHash(SetNewPrevHash),
    DeliverExtranonce(ExtendedExtranonce, u32),
    SendToPool(SubmitSharesExtendedView),
    Shutdown(Error),
    Nothing,
}

impl View for UpstreamAction {
    type V = UpstreamActionView;

    open spec fn view(&self) -> UpstreamActionView {
        match self {
            UpstreamAction::Connected(v) => UpstreamActionView::Connected(*v),
            UpstreamAction::ForwardJob(j) => UpstreamActionView::ForwardJob(j@),
            UpstreamAction::ForwardPrevHash(t) => UpstreamActionView::ForwardPrevHash(*t),
            UpstreamAction::DeliverExtranonce(e, c) => UpstreamActionView::DeliverExtranonce(*e, *c),
            UpstreamAction::SendToPool(s) => UpstreamActionView::SendToPool(s@),
            UpstreamAction::Shutdown(e) => UpstreamActionView::Shutdown(*e),
            UpstreamAction::Nothing => UpstreamActionView::Nothing,
        }
    }
}

/// Where the client stands.
#[derive(Clone, Copy, Debug, PartialEq, Eq, Structural)]
pub enum Phase {
    /// Not connected yet.
    Idle,
    /// Connected; the protocol version is agreed.
    Connected,
    /// Failed for good.
    Failed,
}

/// The state of the client as the contracts see it.
pub struct UpstreamView {
    pub phase: Phase,
    /// The handle on the shared target that the client writes through.
    pub target: SharedTarget,
    /// How many bytes of extranonce every device must keep to roll.
    pub extranonce2_len: usize,
    /// The extranonce space has been handed over.
    pub extranonce_delivered: bool,
    /// The bytes of the target that the client wrote last, if it wrote one.
    pub written_target: Option<Seq<u8>>,
}

/// An event as the client takes it.
pub enum UpstreamEvent {
    /// The attempt to reach the pool, with the protocol versions from the
    /// first number to the second on offer, ended.
    Connect(u16, u16, ConnectReply),
    /// A frame arrived. The flag says whether the lock on the shared target
    /// let the client write; it matters for a new chain tip only.
    Frame(FrameView, bool),
    /// The bridge hands over a share.
    Submission(SubmitSharesExtendedView),
    /// The connection was reset or timed out.
    ConnectionLost,
    /// The bridge dropped its end of a channel.
    ChannelClosed,
}

/// A client that has done nothing yet.
pub open spec fn fresh_upstream(extranonce2_len: usize, target: SharedTarget) -> UpstreamView {
    UpstreamView {
        phase: Phase::Idle,
        target,
        extranonce2_len,
        extranonce_delivered: false,
        written_target: None,
    }
}

/// The client fails for good and reports why.
pub open spec fn fail(u: UpstreamView, error: Error) -> (UpstreamView, UpstreamActionView) {
    (UpstreamView { phase: Phase::Failed, ..u }, UpstreamActionView::Shutdown(error))
}

/// What the end of the attempt to reach the pool does to the client. The
/// connection stands only if the pool chose a version from `min_version` to
/// `max_version`.
pub open spec fn connect_step(
    u: UpstreamView,
    min_version: u16,
    max_version: u16,
    reply: ConnectReply,
) -> (UpstreamView, UpstreamActionView) {
    if u.phase != Phase::Idle {
        fail(u, Error::UnexpectedMessage)
    } else {
        match reply {
            ConnectReply::TransportFailed => fail(u, Error::TransportUnavailable),
            ConnectReply::Refused => fail(u, Error::NoCommonVersion),
            ConnectReply::Accepted(version) => if min_version <= version <= max_version {
                (
                    UpstreamView { phase: Phase::Connected, ..u },
                    UpstreamActionView::Connected(version),
                )
            } else {
                fail(u, Error::NoCommonVersion)
            },
        }
    }
}

/// What a frame of the pool does to the client. `stored` says whether the
/// lock on the shared target let the client write.
pub open spec fn frame_step(u: UpstreamView, frame: FrameView, stored: bool) -> (
    UpstreamView,
    UpstreamActionView,
) {
    if frame is Malformed {
        fail(u, Error::MalformedFrame)
    } else if u.phase != Phase::Connected {
        fail(u, Error::UnexpectedMessage)
    } else {
        match frame {
            FrameView::NewExtendedMiningJob(job) => (u, UpstreamActionView::ForwardJob(job)),
            FrameView::SetNewPrevHash(tip) => if stored {
                (
                    UpstreamView {
                        written_target: Some(Target::spec_from_compact(tip.nbits)),
                        ..u
                    },
                    UpstreamActionView::ForwardPrevHash(tip),
                )
            } else {
                fail(u, Error::LockPoisoned)
            },
            FrameView::ExtranonceAllocation { total_len, channel_id } => if u.extranonce_delivered {
                fail(u, Error::UnexpectedMessage)
            } else if u.extranonce2_len >= total_len {
                fail(u, Error::ExtranonceTooSmall)
            } else {
                (
                    UpstreamView { extranonce_delivered: true, ..u },
                    UpstreamActionView::DeliverExtranonce(
                        ExtendedExtranonce::split(total_len, u.extranonce2_len),
                        channel_id,
                    ),
                )
            },
            FrameView::Other => (u, UpstreamActionView::Nothing),
            FrameView::Malformed => fail(u, Error::MalformedFrame),
        }
    }
}

/// What one event does to the client. A client that has failed does nothing
/// any more.
pub open spec fn upstream_step(u: UpstreamView, event: UpstreamEvent) -> (
    UpstreamView,
    UpstreamActionView,
) {
    if u.phase == Phase::Failed {
        (u, UpstreamActionView::Nothing)
    } else {
        match event {
            UpstreamEvent::Connect(min_version, max_version, reply) => connect_step(
                u,
                min_version,
                max_version,
                reply,
            ),
            UpstreamEvent::Frame(frame, stored) => frame_step(u, frame, stored),
            UpstreamEvent::Submission(share) => if u.phase == Phase::Connected {
                (u, UpstreamActionView::SendToPool(share))
            } else {
                (u, UpstreamActionView::Nothing)
            },
            UpstreamEvent::ConnectionLost => fail(u, Error::ConnectionLost),
            UpstreamEvent::ChannelClosed => fail(u, Error::ChannelClosed),
        }
    }
}

/// The client after a run of events, in order.
pub open spec fn after_upstream_events(u: UpstreamView, events: Seq<UpstreamEvent>) -> UpstreamView
    decreases events.len(),
{
    if events.len() == 0 {
        u
    } else {
        upstream_step(after_upstream_events(u, events.drop_last()), events.last()).0
    }
}

/// What the client does at the event with index `i` of a run.
pub open spec fn action_at(u: UpstreamView, events: Seq<UpstreamEvent>, i: int) -> UpstreamActionView
    recommends
        0 <= i < events.len(),
{
    upstream_step(after_upstream_events(u, events.take(i)), events[i]).1
}

proof fn lemma_run_one_more(u: UpstreamView, events: Seq<UpstreamEvent>, n: int)
    requires
        0 <= n < events.len(),
    ensures
        after_upstream_events(u, events.take(n + 1)) == upstream_step(
            after_upstream_events(u, events.take(n)),
            events[n],
        ).0,
{
    assert(events.take(n + 1).drop_last() =~= events.take(n));
    assert(events.take(n + 1).last() == events[n]);
}

proof fn lemma_failed_from(u: UpstreamView, events: Seq<UpstreamEvent>, i: int, n: int)
    requires
        0 <= i < n <= events.len(),
        action_at(u, events, i) is Shutdown,
    ensures
        after_upstream_events(u, events.take(n)).phase == Phase::Failed,
    decreases n,
{
    lemma_run_one_more(u, events, n - 1);
    if n - 1 > i {
        lemma_failed_from(u, events, i, n - 1);
    }
}

proof fn lemma_delivered_from(u: UpstreamView, events: Seq<UpstreamEvent>, i: int, n: int)
    requires
        0 <= i < n <= events.len(),
        action_at(u, events, i) is DeliverExtranonce,
    ensures
        after_upstream_events(u, events.take(n)).extranonce_delivered,
    decreases n,
{
    lemma_run_one_more(u, events, n - 1);
    if n - 1 > i {
        lemma_delivered_from(u, events, i, n - 1);
    }
}

/// The client reports a failure at most once, and after the report it does
/// nothing any more: whatever event comes later, no job, chain tip,
/// extranonce or share leaves it.
pub proof fn lemma_silent_after_shutdown(
    u: UpstreamView,
    events: Seq<UpstreamEvent>,
    i: int,
    k: int,
)
    requires
        0 <= i < k < events.len(),
        action_at(u, events, i) is Shutdown,
    ensures
        action_at(u, events, k) == UpstreamActionView::Nothing,
{
    lemma_failed_from(u, events, i, k);
}

/// The extranonce space is handed over at most once in the life of a
/// connection.
pub proof fn lemma_extranonce_delivered_once(
    u: UpstreamView,
    events: Seq<UpstreamEvent>,
    i: int,
    k: int,
)
    requires
        0 <= i < k < events.len(),
        action_at(u, events, i) is DeliverExtranonce,
    ensures
        !(action_at(u, events, k) is DeliverExtranonce),
{
    lemma_delivered_from(u, events, i, k);
}

/// A chain tip leaves the client only after the network target that its
/// difficulty bits stand for was written, whole.
pub proof fn lemma_tip_follows_target(u: UpstreamView, event: UpstreamEvent)
    requires
        upstream_step(u, event).1 is ForwardPrevHash,
    ensures
        event matches UpstreamEvent::Frame(FrameView::SetNewPrevHash(tip), stored) && stored
            && upstream_step(u, event).0.written_target == Some(
            Target::spec_from_compact(tip.nbits),
        ) && upstream_step(u, event).1 == UpstreamActionView::ForwardPrevHash(tip),
{
}

/// The bytes of the target that goes with the chain tip that arrived last in
/// a run of events, or `before` if none arrived.
pub open spec fn latest_tip_target(before: Option<Seq<u8>>, events: Seq<UpstreamEvent>) -> Option<
    Seq<u8>,
>
    decreases events.len(),
{
    if events.len() == 0 {
        before
    } else {
        match events.last() {
            UpstreamEvent::Frame(FrameView::SetNewPrevHash(tip), _) => Some(
                Target::spec_from_compact(tip.nbits),
            ),
            _ => latest_tip_target(before, events.drop_last()),
        }
    }
}

/// As long as the client has not failed, the target it wrote last is the
/// one of the chain tip that arrived last: no tip goes by without its
/// target being written, and nothing else is ever written.
pub proof fn lemma_written_target_is_of_latest_tip(u: UpstreamView, events: Seq<UpstreamEvent>)
    ensures
        after_upstream_events(u, events).phase != Phase::Failed ==> u.phase != Phase::Failed
            && after_upstream_events(u, events).written_target == latest_tip_target(
            u.written_target,
            events,
        ),
    decreases events.len(),
{
    if events.len() > 0 {
        lemma_written_target_is_of_latest_tip(u, events.drop_last());
    }
}

/// The client of the pool.
pub struct Upstream {
    phase: Phase,
    extranonce2_len: usize,
    extranonce_delivered: bool,
    written_target: Option<Target>,
    target: SharedTarget,
}

impl Upstream {
    /// The state of the client as the contracts see it.
    pub closed spec fn view(&self) -> UpstreamView {
        UpstreamView {
            phase: self.phase,
            target: self.target,
            extranonce2_len: self.extranonce2_len,
            extranonce_delivered: self.extranonce_delivered,
            written_target: match self.written_target {
                Some(t) => Some(t@),
                None => None,
            },
        }
    }

    /// A client that leaves `extranonce2_len` bytes of extranonce to every
    /// device and writes the target through `target`, which it keeps for as
    /// long as it lives.
    pub fn new(extranonce2_len: usize, target: SharedTarget) -> (u: Upstream)
        ensures
            u@ == fresh_upstream(extranonce2_len, target),
    {
        Upstream {
            phase: Phase::Idle,
            extranonce2_len,
            extranonce_delivered: false,
            written_target: None,
            target,
        }
    }

    fn fail_with(&mut self, error: Error) -> (a: UpstreamAction)
        ensures
            (final(self)@, a@) == fail(old(self)@, error),
    {
        self.phase = Phase::Failed;
        UpstreamAction::Shutdown(error)
    }

    /// Takes the end of the attempt to reach the pool with the protocol
    /// versions from `min_version` to `max_version` on offer.
    pub fn on_connect(&mut self, min_version: u16, max_version: u16, reply: ConnectReply) -> (a:
        UpstreamAction)
        ensures
            (final(self)@, a@) == upstream_step(
                old(self)@,
                UpstreamEvent::Connect(min_version, max_version, reply),
            ),
    {
        match self.phase {
            Phase::Failed => UpstreamAction::Nothing,
            Phase::Connected => self.fail_with(Error::UnexpectedMessage),
            Phase::Idle => match reply {
                ConnectReply::TransportFailed => self.fail_with(Error::TransportUnavailable),
                ConnectReply::Refused => self.fail_with(Error::NoCommonVersion),
                ConnectReply::Accepted(version) => {
                    if min_version <= version && version <= max_version {
                        self.phase = Phase::Connected;
                        UpstreamAction::Connected(version)
                    } else {
                        self.fail_with(Error::NoCommonVersion)
                    }
                },
            },
        }
    }

    /// Takes a frame, given whether the lock on the shared target let the
    /// client write (it matters for a new chain tip only).
    pub fn take_frame(&mut self, frame: Frame, stored: bool) -> (a: UpstreamAction)
        ensures
            (final(self)@, a@) == upstream_step(old(self)@, UpstreamEvent::Frame(frame@, stored)),
    {
        match self.phase {
            Phase::Failed => {
                return UpstreamAction::Nothing;
            },
            _ => {},
        }
        match frame {
            Frame::Malformed => self.fail_with(Error::MalformedFrame),
            Frame::Other => match self.phase {
                Phase::Connected => UpstreamAction::Nothing,
                _ => self.fail_with(Error::UnexpectedMessage),
            },
            Frame::NewExtendedMiningJob(job) => match self.phase {
                Phase::Connected => UpstreamAction::ForwardJob(job),
                _ => self.fail_with(Error::UnexpectedMessage),
            },
            Frame::SetNewPrevHash(tip) => match self.phase {
                Phase::Connected => {
                    if stored {
                        self.written_target = Some(Target::from_compact(tip.nbits));
                        UpstreamAction::ForwardPrevHash(tip)
                    } else {
                        self.fail_with(Error::LockPoisoned)
                    }
                },
                _ => self.fail_with(Error::UnexpectedMessage),
            },
            Frame::ExtranonceAllocation { total_len, channel_id } => match self.phase {
                Phase::Connected => {
                    if self.extranonce_delivered {
                        self.fail_with(Error::UnexpectedMessage)
                    } else {
                        match ExtendedExtranonce::new(total_len, self.extranonce2_len) {
                            Ok(space) => {
                                self.extranonce_delivered = true;
                                UpstreamAction::DeliverExtranonce(space, channel_id)
                            },
                            Err(_) => self.fail_with(Error::ExtranonceTooSmall),
                        }
                    }
                },
                _ => self.fail_with(Error::UnexpectedMessage),
            },
        }
    }

    /// Takes a frame. For a new chain tip on a standing connection the
    /// network target that its difficulty bits stand for is written first,
    /// through the handle that the client was made with, in one critical
    /// section; whatever the lock says, the client goes by it as
    /// `take_frame` says.
    pub fn on_frame(&mut self, frame: Frame) -> (a: UpstreamAction)
        ensures
            exists|stored: bool|
                (final(self)@, a@) == #[trigger] upstream_step(
                    old(self)@,
                    UpstreamEvent::Frame(frame@, stored),
                ),
            !(frame@ is SetNewPrevHash) ==> (final(self)@, a@) == upstream_step(
                old(self)@,
                UpstreamEvent::Frame(frame@, true),
            ),
    {
        let connected = match self.phase {
            Phase::Connected => true,
            _ => false,
        };
        let stored = match &frame {
            Frame::SetNewPrevHash(tip) => if connected {
                self.target.write(Target::from_compact(tip.nbits)).is_ok()
            } else {
                true
            },
            _ => true,
        };
        self.take_frame(frame, stored)
    }

    /// Takes a share that the bridge hands over.
    pub fn on_submission(&mut self, share: SubmitSharesExtended) -> (a: UpstreamAction)
        ensures
            (final(self)@, a@) == upstream_step(old(self)@, UpstreamEvent::Submission(share@)),
    {
        match self.phase {
            Phase::Connected => UpstreamAction::SendToPool(share),
            _ => UpstreamAction::Nothing,
        }
    }

    /// The connection was reset or timed out.
    pub fn on_connection_lost(&mut self) -> (a: UpstreamAction)
        ensures
            (final(self)@, a@) == upstream_step(old(self)@, UpstreamEvent::ConnectionLost),
    {
        match self.phase {
            Phase::Failed => UpstreamAction::Nothing,
            _ => self.fail_with(Error::ConnectionLost),
        }
    }

    /// The bridge dropped its end of a channel.
    pub fn on_channel_closed(&mut self) -> (a: UpstreamAction)
        ensures
            (final(self)@, a@) == upstream_step(old(self)@, UpstreamEvent::ChannelClosed),
    {
        match self.phase {
            Phase::Failed => UpstreamAction::Nothing,
            _ => self.fail_with(Error::ChannelClosed),
        }
    }

    pub fn phase(&self) -> (p: Phase)
        ensures
            p == self@.phase,
    {
        self.phase
    }

    /// The target that the client wrote last, if it wrote one.
    pub fn written_target(&self) -> (t: Option<Target>)
        ensures
            match t {
                Some(target) => self@.written_target == Some(target@),
                None => self@.written_target is None,
            },
    {
        self.written_target
    }
}

} // verus!
