//! The top-level control loop: it waits for status events and for the
//! interrupt signal, and ends the process on the first of either that calls
//! for it.

use crate::error::Error;
use crate::status::{is_shutdown, State, StateView, Status};
use vstd::prelude::*;

verus! {

/// What the loop was woken by.
#[derive(Clone, Debug, PartialEq, Eq)]
pub enum Signal {
    /// A component sent an event.
    Status(Status),
    /// The interrupt signal arrived.
    Interrupt,
    /// Listening for the interrupt signal failed.
    InterruptUnavailable,
}

/// The mathematical content of a `Signal`.
pub enum SignalView {
    Status(StateView),
    Interrupt,
    InterruptUnavailable,
}

impl View for Signal {
    type V = SignalView;

    open spec fn view(&self) -> SignalView {
        match self {
            Signal::Status(s) => SignalView::Status(s@),
            Signal::Interrupt => SignalView::Interrupt,
            Signal::InterruptUnavailable => SignalView::InterruptUnavailable,
        }
    }
}

/// Why the process ends.
#[derive(Clone, Copy, Debug, PartialEq, Eq, Structural)]
pub enum StopReason {
    /// The interrupt signal: a clean end.
    Interrupted,
    /// The interrupt signal cannot be heard, so the process ends as well.
    InterruptUnavailable,
    /// The client of the pool failed.
    Upstream(Error),
    /// The translation engine failed.
    Bridge(Error),
    /// The listener for devices failed.
    Downstream(Error),
}

/// What the loop does next.
#[derive(Clone, Copy, Debug, PartialEq, Eq, Structural)]
pub enum Verdict {
    /// Log the healthy message and wait for the next signal.
    Continue,
    /// Leave the loop; in-flight work is abandoned.
    Stop(StopReason),
}

/// What one signal calls for.
pub open spec fn verdict_of(signal: SignalView) -> Verdict {
    match signal {
        SignalView::Status(StateView::Healthy(_)) => Verdict::Continue,
        SignalView::Status(StateView::UpstreamShutdown(e)) => Verdict::Stop(
            StopReason::Upstream(e),
        ),
        SignalView::Status(StateView::BridgeShutdown(e)) => Verdict::Stop(StopReason::Bridge(e)),
        SignalView::Status(StateView::DownstreamShutdown(e)) => Verdict::Stop(
            StopReason::Downstream(e),
        ),
        SignalView::Interrupt => Verdict::Stop(StopReason::Interrupted),
        SignalView::InterruptUnavailable => Verdict::Stop(StopReason::InterruptUnavailable),
    }
}

/// Decides what one signal calls for.
pub fn judge(signal: &Signal) -> (v: Verdict)
    ensures
        v == verdict_of(signal@),
        v is Stop <==> !(signal@ matches SignalView::Status(s) && !is_shutdown(s)),
{
    match signal {
        Signal::Status(status) => match &status.state {
            State::Healthy(_) => Verdict::Continue,
            State::UpstreamShutdown(e) => Verdict::Stop(StopReason::Upstream(*e)),
            State::BridgeShutdown(e) => Verdict::Stop(StopReason::Bridge(*e)),
            State::DownstreamShutdown(e) => Verdict::Stop(StopReason::Downstream(*e)),
        },
        Signal::Interrupt => Verdict::Stop(StopReason::Interrupted),
        Signal::InterruptUnavailable => Verdict::Stop(StopReason::InterruptUnavailable),
    }
}

/// The state of the loop as the contracts see it.
pub struct SupervisorView {
    /// Why the loop has ended, once it has.
    pub stopped: Option<StopReason>,
}

/// What one signal does to the loop. Once the loop has ended, a signal
/// changes nothing and is answered with the reason for the end.
pub open spec fn observe_step(s: SupervisorView, signal: SignalView) -> (SupervisorView, Verdict) {
    match s.stopped {
        Some(reason) => (s, Verdict::Stop(reason)),
        None => match verdict_of(signal) {
            Verdict::Continue => (s, Verdict::Continue),
            Verdict::Stop(reason) => (
                SupervisorView { stopped: Some(reason) },
                Verdict::Stop(reason),
            ),
        },
    }
}

/// The loop after a run of signals, in order.
pub open spec fn after_signals(s: SupervisorView, signals: Seq<SignalView>) -> SupervisorView
    decreases signals.len(),
{
    if signals.len() == 0 {
        s
    } else {
        observe_step(after_signals(s, signals.drop_last()), signals.last()).0
    }
}

/// A loop that has seen nothing yet.
pub open spec fn fresh_supervisor() -> SupervisorView {
    SupervisorView { stopped: None }
}

/// The first signal of a run that calls for the end is at `at`.
pub open spec fn first_stop_at(signals: Seq<SignalView>, at: int) -> bool {
    &&& 0 <= at < signals.len()
    &&& verdict_of(signals[at]) is Stop
    &&& forall|j: int| 0 <= j < at ==> verdict_of(#[trigger] signals[j]) is Continue
}

/// Once the loop has ended, no run of signals changes it.
pub proof fn lemma_stop_is_final(s: SupervisorView, signals: Seq<SignalView>)
    requires
        s.stopped is Some,
    ensures
        after_signals(s, signals) == s,
    decreases signals.len(),
{
    if signals.len() > 0 {
        lemma_stop_is_final(s, signals.drop_last());
    }
}

/// As long as every signal is a healthy event, the loop goes on.
pub proof fn lemma_healthy_keeps_running(signals: Seq<SignalView>)
    requires
        forall|j: int| 0 <= j < signals.len() ==> verdict_of(#[trigger] signals[j]) is Continue,
    ensures
        after_signals(fresh_supervisor(), signals).stopped is None,
    decreases signals.len(),
{
    if signals.len() > 0 {
        lemma_healthy_keeps_running(signals.drop_last());
    }
}

/// The loop ends at the first shutdown event or interrupt, for the reason
/// that signal gives. Whatever arrives later, a healthy event included, is
/// answered with that same reason and changes nothing.
pub proof fn lemma_first_stop_wins(signals: Seq<SignalView>, at: int, n: int)
    requires
        first_stop_at(signals, at),
        0 <= n <= signals.len(),
    ensures
        n <= at ==> after_signals(fresh_supervisor(), signals.take(n)).stopped is None,
        n > at ==> after_signals(fresh_supervisor(), signals.take(n)).stopped == Some(
            verdict_of(signals[at])->0,
        ),
        n > at && n < signals.len() ==> observe_step(
            after_signals(fresh_supervisor(), signals.take(n)),
            signals[n],
        ) == (
            after_signals(fresh_supervisor(), signals.take(n)),
            Verdict::Stop(verdict_of(signals[at])->0),
        ),
    decreases n,
{
    if n > 0 {
        lemma_first_stop_wins(signals, at, n - 1);
        assert(signals.take(n).drop_last() =~= signals.take(n - 1));
        assert(signals.take(n).last() == signals[n - 1]);
    }
}

/// The supervisor's loop, one signal at a time.
pub struct Supervisor {
    stopped: Option<StopReason>,
}

impl Supervisor {
    /// The state of the loop as the contracts see it.
    pub closed spec fn view(&self) -> SupervisorView {
        SupervisorView { stopped: self.stopped }
    }

    pub fn new() -> (s: Supervisor)
        ensures
            s@ == fresh_supervisor(),
    {
        Supervisor { stopped: None }
    }

    /// Takes one signal and says what the loop does next.
    pub fn observe(&mut self, signal: &Signal) -> (v: Verdict)
        ensures
            (final(self)@, v) == observe_step(old(self)@, signal@),
    {
        match self.stopped {
            Some(reason) => Verdict::Stop(reason),
            None => {
                let v = judge(signal);
                match v {
                    Verdict::Continue => {},
                    Verdict::Stop(reason) => {
                        self.stopped = Some(reason);
                    },
                }
                v
            },
        }
    }

    /// Why the loop has ended, once it has.
    pub fn stopped(&self) -> (r: Option<StopReason>)
        ensures
            r == self@.stopped,
    {
        self.stopped
    }
}

} // verus!
