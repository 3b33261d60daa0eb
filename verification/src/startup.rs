//! The order in which the components come up: the pool client first, then
//! the extranonce space and the first target, then the bridge, and the
//! listener for devices last.

use crate::error::Error;
use crate::extranonce::ExtendedExtranonce;
use crate::target::{Target, TargetPoll};
use vstd::prelude::*;

verus! {

/// How far the start has come.
#[derive(Clone, Copy, Debug, PartialEq, Eq)]
pub enum Startup {
    /// The pool client is connecting and negotiating the version.
    Connecting,
    /// The task that decodes frames of the pool is being started.
    StartingParser,
    /// The task that sends shares to the pool is being started.
    StartingSubmitHandler,
    /// Waiting for the pool to grant the extranonce space.
    AwaitingExtranonce,
    /// The space and its channel id are here; waiting for the first target.
    AwaitingTarget(ExtendedExtranonce, u32),
    /// The bridge is being made and started.
    StartingBridge,
    /// The bridge runs and the listener accepts devices.
    Accepting,
    /// The start was given up.
    Aborted(Error),
}

/// What the outside reports back.
#[derive(Clone, Copy, Debug, PartialEq, Eq)]
pub enum StartupEvent {
    /// What was asked for last has been done.
    Done,
    /// What was asked for last has failed.
    Failed(Error),
    /// The pool client handed over the extranonce space and its channel id.
    Extranonce(ExtendedExtranonce, u32),
    /// A look at the shared target gave this.
    TargetPolled(TargetPoll),
}

/// What the outside is asked to do next.
#[derive(Clone, Copy, Debug, PartialEq, Eq)]
pub enum StartupAction {
    /// Connect the pool client.
    Connect,
    /// Start the task that decodes frames of the pool.
    StartParser,
    /// Start the task that sends shares to the pool.
    StartSubmitHandler,
    /// Wait on the single-slot channel for the extranonce space.
    AwaitExtranonce,
    /// Look at the shared target.
    PollTarget,
    /// Wait a moment, then look at the shared target again.
    SleepThenPollTarget,
    /// Make the bridge for this space, first target and channel id, and
    /// start it.
    StartBridge(ExtendedExtranonce, Target, u32),
    /// Start accepting devices.
    StartListener,
    /// Give up; the error is for the log.
    Abort(Error),
    /// Do nothing.
    Nothing,
}

/// How many steps of the start lie behind a phase.
pub open spec fn rank(s: Startup) -> nat {
    match s {
        Startup::Connecting => 0,
        Startup::StartingParser => 1,
        Startup::StartingSubmitHandler => 2,
        Startup::AwaitingExtranonce => 3,
        Startup::AwaitingTarget(_, _) => 4,
        Startup::StartingBridge => 5,
        Startup::Accepting => 6,
        Startup::Aborted(_) => 0,
    }
}

/// What one report does to the start. A report that the phase does not wait
/// for changes nothing.
pub open spec fn startup_step(s: Startup, event: StartupEvent) -> (Startup, StartupAction) {
    match (s, event) {
        (Startup::Aborted(_), _) => (s, StartupAction::Nothing),
        (Startup::Accepting, StartupEvent::Failed(e)) => (Startup::Aborted(e), StartupAction::Abort(e)),
        (Startup::Accepting, _) => (s, StartupAction::Nothing),
        (Startup::AwaitingTarget(_, _), StartupEvent::Failed(e)) => (
            Startup::Aborted(e),
            StartupAction::Abort(e),
        ),
        (Startup::AwaitingTarget(space, channel_id), StartupEvent::TargetPolled(poll)) => match poll {
            TargetPoll::Ready(target) => if target.is_sentinel() {
                (s, StartupAction::SleepThenPollTarget)
            } else {
                (Startup::StartingBridge, StartupAction::StartBridge(space, target, channel_id))
            },
            TargetPoll::Pending => (s, StartupAction::SleepThenPollTarget),
            TargetPoll::Poisoned => (
                Startup::Aborted(Error::LockPoisoned),
                StartupAction::Abort(Error::LockPoisoned),
            ),
        },
        (Startup::AwaitingTarget(_, _), _) => (s, StartupAction::Nothing),
        (_, StartupEvent::Failed(e)) => (Startup::Aborted(e), StartupAction::Abort(e)),
        (Startup::Connecting, StartupEvent::Done) => (
            Startup::StartingParser,
            StartupAction::StartParser,
        ),
        (Startup::StartingParser, StartupEvent::Done) => (
            Startup::StartingSubmitHandler,
            StartupAction::StartSubmitHandler,
        ),
        (Startup::StartingSubmitHandler, StartupEvent::Done) => (
            Startup::AwaitingExtranonce,
            StartupAction::AwaitExtranonce,
        ),
        (Startup::AwaitingExtranonce, StartupEvent::Extranonce(space, channel_id)) => (
            Startup::AwaitingTarget(space, channel_id),
            StartupAction::PollTarget,
        ),
        (Startup::StartingBridge, StartupEvent::Done) => (
            Startup::Accepting,
            StartupAction::StartListener,
        ),
        _ => (s, StartupAction::Nothing),
    }
}

/// The start after a run of reports, in order.
pub open spec fn after_reports(s: Startup, events: Seq<StartupEvent>) -> Startup
    decreases events.len(),
{
    if events.len() == 0 {
        s
    } else {
        startup_step(after_reports(s, events.drop_last()), events.last()).0
    }
}

/// The start moves by one phase at a time, or is given up: no phase is
/// left out.
pub proof fn lemma_one_phase_at_a_time(s: Startup, event: StartupEvent)
    ensures
        ({
            let next = startup_step(s, event).0;
            next is Aborted || next == s || rank(next) == rank(s) + 1
        }),
{
}

/// The bridge is made only with an extranonce space that the pool has
/// granted and a target that is not the sentinel.
pub proof fn lemma_bridge_needs_space_and_target(s: Startup, event: StartupEvent)
    requires
        startup_step(s, event).1 is StartBridge,
    ensures
        s matches Startup::AwaitingTarget(space, channel_id) && event matches StartupEvent::TargetPolled(
            TargetPoll::Ready(target),
        ) && !target.is_sentinel() && startup_step(s, event).1 == StartupAction::StartBridge(
            space,
            target,
            channel_id,
        ),
{
}

/// The listener starts only once the bridge runs.
pub proof fn lemma_listener_needs_bridge(s: Startup, event: StartupEvent)
    requires
        startup_step(s, event).1 is StartListener,
    ensures
        s is StartingBridge,
        event is Done,
{
}

/// Devices are accepted only after every earlier phase has been gone
/// through: at least six reports lie behind.
pub proof fn lemma_accepting_comes_last(events: Seq<StartupEvent>)
    ensures
        ({
            let reached = after_reports(Startup::Connecting, events);
            !(reached is Aborted) ==> rank(reached) <= events.len()
        }),
    decreases events.len(),
{
    if events.len() > 0 {
        lemma_accepting_comes_last(events.drop_last());
        lemma_one_phase_at_a_time(
            after_reports(Startup::Connecting, events.drop_last()),
            events.last(),
        );
    }
}

impl Startup {
    /// The beginning: the pool client is asked to connect.
    pub fn begin() -> (r: (Startup, StartupAction))
        ensures
            r == (Startup::Connecting, StartupAction::Connect),
    {
        (Startup::Connecting, StartupAction::Connect)
    }

    /// Takes one report and says what to do next.
    pub fn step(&mut self, event: StartupEvent) -> (a: StartupAction)
        ensures
            (*final(self), a) == startup_step(*old(self), event),
    {
        let (next, action) = match (*self, event) {
            (Startup::Aborted(_), _) => (*self, StartupAction::Nothing),
            (Startup::Accepting, StartupEvent::Failed(e)) => (
                Startup::Aborted(e),
                StartupAction::Abort(e),
            ),
            (Startup::Accepting, _) => (*self, StartupAction::Nothing),
            (Startup::AwaitingTarget(_, _), StartupEvent::Failed(e)) => (
                Startup::Aborted(e),
                StartupAction::Abort(e),
            ),
            (Startup::AwaitingTarget(space, channel_id), StartupEvent::TargetPolled(poll)) => match poll {
                TargetPoll::Ready(target) => if target.is_initialized() {
                    (Startup::StartingBridge, StartupAction::StartBridge(space, target, channel_id))
                } else {
                    (*self, StartupAction::SleepThenPollTarget)
                },
                TargetPoll::Pending => (*self, StartupAction::SleepThenPollTarget),
                TargetPoll::Poisoned => (
                    Startup::Aborted(Error::LockPoisoned),
                    StartupAction::Abort(Error::LockPoisoned),
                ),
            },
            (Startup::AwaitingTarget(_, _), _) => (*self, StartupAction::Nothing),
            (_, StartupEvent::Failed(e)) => (Startup::Aborted(e), StartupAction::Abort(e)),
            (Startup::Connecting, StartupEvent::Done) => (
                Startup::StartingParser,
                StartupAction::StartParser,
            ),
            (Startup::StartingParser, StartupEvent::Done) => (
                Startup::StartingSubmitHandler,
                StartupAction::StartSubmitHandler,
            ),
            (Startup::StartingSubmitHandler, StartupEvent::Done) => (
                Startup::AwaitingExtranonce,
                StartupAction::AwaitExtranonce,
            ),
            (Startup::AwaitingExtranonce, StartupEvent::Extranonce(space, channel_id)) => (
                Startup::AwaitingTarget(space, channel_id),
                StartupAction::PollTarget,
            ),
            (Startup::StartingBridge, StartupEvent::Done) => (
                Startup::Accepting,
                StartupAction::StartListener,
            ),
            _ => (*self, StartupAction::Nothing),
        };
        *self = next;
        action
    }

    /// Whether devices are being accepted.
    pub fn is_accepting(&self) -> (b: bool)
        ensures
            b == (*self is Accepting),
    {
        match self {
            Startup::Accepting => true,
            _ => false,
        }
    }
}

} // verus!
