//! The events that components send to the supervisor.

use crate::error::Error;
use vstd::prelude::*;

verus! {

/// Who reports.
#[derive(Clone, Copy, Debug, PartialEq, Eq, Structural)]
pub enum Component {
    /// The client of the pool.
    Upstream,
    /// The translation engine.
    Bridge,
    /// The listener that accepts devices.
    DownstreamListener,
    /// The session of one device.
    Downstream,
}

/// What is reported.
#[derive(Clone, Debug, PartialEq, Eq)]
pub enum State {
    /// Nothing is wrong; the message is for the log.
    Healthy(String),
    /// The client of the pool has failed for good.
    UpstreamShutdown(Error),
    /// The translation engine has failed for good.
    BridgeShutdown(Error),
    /// The listener for devices has failed for good.
    DownstreamShutdown(Error),
}

/// One event on the status channel.
#[derive(Clone, Debug, PartialEq, Eq)]
pub struct Status {
    pub state: State,
}

/// The mathematical content of a `State`.
pub enum StateView {
    Healthy(Seq<char>),
    UpstreamShutdown(Error),
    BridgeShutdown(Error),
    DownstreamShutdown(Error),
}

impl View for State {
    type V = StateView;

    open spec fn view(&self) -> StateView {
        match self {
            State::Healthy(m) => StateView::Healthy(m@),
            State::UpstreamShutdown(e) => StateView::UpstreamShutdown(*e),
            State::BridgeShutdown(e) => StateView::BridgeShutdown(*e),
            State::DownstreamShutdown(e) => StateView::DownstreamShutdown(*e),
        }
    }
}

impl View for Status {
    type V = StateView;

    open spec fn view(&self) -> StateView {
        self.state@
    }
}

/// The event by which a component reports a failure. The failure of one
/// device's session ends that session only, so it is reported as healthy,
/// with the failure in words; every other failure shuts its component down.
pub open spec fn failure_report(component: Component, error: Error) -> StateView {
    match component {
        Component::Upstream => StateView::UpstreamShutdown(error),
        Component::Bridge => StateView::BridgeShutdown(error),
        Component::DownstreamListener => StateView::DownstreamShutdown(error),
        Component::Downstream => StateView::Healthy(error.spec_describe()),
    }
}

/// `true` for the events that end the process.
pub open spec fn is_shutdown(state: StateView) -> bool {
    !(state is Healthy)
}

impl Status {
    /// An event that says all is well.
    pub fn healthy(message: String) -> (s: Status)
        ensures
            s@ == StateView::Healthy(message@),
    {
        Status { state: State::Healthy(message) }
    }

    /// The event by which `component` reports `error`.
    pub fn failure(component: Component, error: Error) -> (s: Status)
        ensures
            s@ == failure_report(component, error),
    {
        let state = match component {
            Component::Upstream => State::UpstreamShutdown(error),
            Component::Bridge => State::BridgeShutdown(error),
            Component::DownstreamListener => State::DownstreamShutdown(error),
            Component::Downstream => State::Healthy(error.describe()),
        };
        Status { state }
    }

    /// Whether the event ends the process.
    pub fn is_shutdown(&self) -> (b: bool)
        ensures
            b == is_shutdown(self@),
    {
        match &self.state {
            State::Healthy(_) => false,
            _ => true,
        }
    }
}

} // verus!
