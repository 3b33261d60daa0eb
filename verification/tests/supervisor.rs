use translator_sv2::error::{Error, ErrorKind};
use translator_sv2::status::{Component, State, Status};
use translator_sv2::supervisor::{judge, Signal, StopReason, Supervisor, Verdict};

fn healthy(text: &str) -> Signal {
    Signal::Status(Status::healthy(text.to_string()))
}

#[test]
fn healthy_event_keeps_the_loop_running() {
    assert_eq!(judge(&healthy("all good")), Verdict::Continue);
}

#[test]
fn every_shutdown_event_stops_the_loop() {
    let up = Signal::Status(Status { state: State::UpstreamShutdown(Error::ConnectionLost) });
    let br = Signal::Status(Status { state: State::BridgeShutdown(Error::ChannelClosed) });
    let down = Signal::Status(Status { state: State::DownstreamShutdown(Error::TransportUnavailable) });
    assert_eq!(judge(&up), Verdict::Stop(StopReason::Upstream(Error::ConnectionLost)));
    assert_eq!(judge(&br), Verdict::Stop(StopReason::Bridge(Error::ChannelClosed)));
    assert_eq!(judge(&down), Verdict::Stop(StopReason::Downstream(Error::TransportUnavailable)));
}

#[test]
fn interrupt_stops_the_loop() {
    assert_eq!(judge(&Signal::Interrupt), Verdict::Stop(StopReason::Interrupted));
    assert_eq!(
        judge(&Signal::InterruptUnavailable),
        Verdict::Stop(StopReason::InterruptUnavailable)
    );
}

#[test]
fn first_stop_wins_and_later_signals_change_nothing() {
    let mut s = Supervisor::new();
    assert_eq!(s.stopped(), None);
    assert_eq!(s.observe(&healthy("one")), Verdict::Continue);
    assert_eq!(s.observe(&healthy("two")), Verdict::Continue);
    assert_eq!(s.stopped(), None);
    let bridge = Signal::Status(Status::failure(Component::Bridge, Error::ChannelClosed));
    let reason = StopReason::Bridge(Error::ChannelClosed);
    assert_eq!(s.observe(&bridge), Verdict::Stop(reason));
    assert_eq!(s.stopped(), Some(reason));
    assert_eq!(s.observe(&healthy("late")), Verdict::Stop(reason));
    assert_eq!(s.observe(&Signal::Interrupt), Verdict::Stop(reason));
    let up = Signal::Status(Status::failure(Component::Upstream, Error::ConnectionLost));
    assert_eq!(s.observe(&up), Verdict::Stop(reason));
    assert_eq!(s.stopped(), Some(reason));
}

#[test]
fn failure_reports_by_component() {
    assert_eq!(
        Status::failure(Component::Upstream, Error::NoCommonVersion).state,
        State::UpstreamShutdown(Error::NoCommonVersion)
    );
    assert_eq!(
        Status::failure(Component::Bridge, Error::LockPoisoned).state,
        State::BridgeShutdown(Error::LockPoisoned)
    );
    assert_eq!(
        Status::failure(Component::DownstreamListener, Error::TransportUnavailable).state,
        State::DownstreamShutdown(Error::TransportUnavailable)
    );
    assert_eq!(
        Status::failure(Component::Downstream, Error::MalformedFrame).state,
        State::Healthy("malformed frame".to_string())
    );
}

#[test]
fn a_failed_session_does_not_stop_the_process() {
    let report = Status::failure(Component::Downstream, Error::ConnectionLost);
    assert!(!report.is_shutdown());
    let mut s = Supervisor::new();
    assert_eq!(s.observe(&Signal::Status(report)), Verdict::Continue);
    assert!(Status::failure(Component::Upstream, Error::ConnectionLost).is_shutdown());
    assert!(!Status::healthy("up".to_string()).is_shutdown());
}

#[test]
fn errors_fall_into_four_families() {
    assert_eq!(Error::InvalidConfiguration.kind(), ErrorKind::Configuration);
    assert_eq!(Error::TransportUnavailable.kind(), ErrorKind::Connection);
    assert_eq!(Error::NoCommonVersion.kind(), ErrorKind::Connection);
    assert_eq!(Error::ConnectionLost.kind(), ErrorKind::Connection);
    assert_eq!(Error::MalformedFrame.kind(), ErrorKind::Protocol);
    assert_eq!(Error::UnexpectedMessage.kind(), ErrorKind::Protocol);
    assert_eq!(Error::ExtranonceTooSmall.kind(), ErrorKind::Protocol);
    assert_eq!(Error::ChannelClosed.kind(), ErrorKind::Channel);
    assert_eq!(Error::LockPoisoned.kind(), ErrorKind::Channel);
}

#[test]
fn errors_are_described_in_words() {
    assert_eq!(Error::InvalidConfiguration.describe(), "invalid configuration");
    assert_eq!(Error::TransportUnavailable.describe(), "transport could not be opened");
    assert_eq!(Error::NoCommonVersion.describe(), "no mutually supported protocol version");
    assert_eq!(Error::ConnectionLost.describe(), "connection lost");
    assert_eq!(Error::MalformedFrame.describe(), "malformed frame");
    assert_eq!(Error::UnexpectedMessage.describe(), "message not allowed in this state");
    assert_eq!(Error::ExtranonceTooSmall.describe(), "extranonce space too small");
    assert_eq!(Error::ChannelClosed.describe(), "channel closed by peer");
    assert_eq!(Error::LockPoisoned.describe(), "lock poisoned");
}
