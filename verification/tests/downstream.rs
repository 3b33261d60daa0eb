use translator_sv2::bridge::Bridge;
use translator_sv2::downstream::{Request, Session, SessionAction, SessionEvent, SessionState};
use translator_sv2::extranonce::ExtendedExtranonce;
use translator_sv2::messages::Submit;
use translator_sv2::target::SharedTarget;

fn a_bridge() -> Bridge {
    Bridge::new(ExtendedExtranonce::new(8, 7).unwrap(), SharedTarget::new(), 1)
}

fn a_share() -> Submit {
    Submit { job_id: 1, extranonce2: vec![0; 7], ntime: 1, nonce: 2, version_bits: None }
}

fn request(r: Request) -> SessionEvent {
    SessionEvent::Request(r)
}

fn active(bridge: &mut Bridge) -> Session {
    let mut s = Session::new();
    s.step(bridge, request(Request::Subscribe));
    s.step(bridge, request(Request::Authorize));
    s.step(bridge, SessionEvent::WorkSent);
    assert_eq!(s.state(), SessionState::Active);
    s
}

#[test]
fn session_walks_from_connected_to_active() {
    let mut b = a_bridge();
    let mut s = Session::new();
    assert_eq!(s.state(), SessionState::Connected);
    assert_eq!(s.assignment(), None);
    let first = s.step(&mut b, request(Request::Subscribe));
    let held = s.assignment().unwrap();
    assert_eq!(first, SessionAction::SendSubscription(held));
    assert_eq!(held.prefix(), 0);
    assert_eq!(s.state(), SessionState::Subscribed);
    assert_eq!(s.step(&mut b, request(Request::Authorize)), SessionAction::SendAuthorized);
    assert_eq!(s.state(), SessionState::Authorized);
    assert_eq!(s.step(&mut b, SessionEvent::WorkSent), SessionAction::Nothing);
    assert_eq!(s.state(), SessionState::Active);
    assert_eq!(s.step(&mut b, SessionEvent::WorkSent), SessionAction::Nothing);
    assert_eq!(s.state(), SessionState::Active);
    assert_eq!(s.assignment(), Some(held));
}

#[test]
fn active_session_forwards_every_share() {
    let mut b = a_bridge();
    let mut s = active(&mut b);
    let held = s.assignment().unwrap();
    for _ in 0..3 {
        assert_eq!(
            s.step(&mut b, request(Request::Submit(a_share()))),
            SessionAction::ForwardSubmission(held, a_share())
        );
        assert_eq!(s.state(), SessionState::Active);
    }
}

#[test]
fn share_before_the_session_is_active_ends_it() {
    let mut b = a_bridge();
    let mut connected = Session::new();
    assert_eq!(connected.step(&mut b, request(Request::Submit(a_share()))), SessionAction::Close);
    assert_eq!(connected.state(), SessionState::Closed);

    let mut subscribed = Session::new();
    subscribed.step(&mut b, request(Request::Subscribe));
    assert_eq!(subscribed.step(&mut b, request(Request::Submit(a_share()))), SessionAction::Close);

    let mut authorized = Session::new();
    authorized.step(&mut b, request(Request::Subscribe));
    authorized.step(&mut b, request(Request::Authorize));
    assert_eq!(authorized.step(&mut b, request(Request::Submit(a_share()))), SessionAction::Close);
    assert_eq!(authorized.state(), SessionState::Closed);
    assert_eq!(authorized.assignment(), None);
}

#[test]
fn request_outside_the_allowed_set_ends_the_session() {
    let mut b = a_bridge();
    let mut s = Session::new();
    assert_eq!(s.step(&mut b, request(Request::Authorize)), SessionAction::Close);
    let mut t = Session::new();
    assert_eq!(t.step(&mut b, request(Request::ExtranonceSubscribe)), SessionAction::Close);
    let mut u = Session::new();
    u.step(&mut b, request(Request::Subscribe));
    assert_eq!(u.step(&mut b, request(Request::Subscribe)), SessionAction::Close);
    let mut v = active(&mut b);
    assert_eq!(v.step(&mut b, request(Request::Authorize)), SessionAction::Close);
    let mut w = active(&mut b);
    assert_eq!(w.step(&mut b, request(Request::Subscribe)), SessionAction::Close);
}

#[test]
fn extranonce_can_be_asked_for_again_without_changing_state() {
    let mut b = a_bridge();
    let mut s = Session::new();
    s.step(&mut b, request(Request::Subscribe));
    let held = s.assignment().unwrap();
    assert_eq!(
        s.step(&mut b, request(Request::ExtranonceSubscribe)),
        SessionAction::SendExtranonce(held)
    );
    assert_eq!(s.state(), SessionState::Subscribed);
    s.step(&mut b, request(Request::Authorize));
    assert_eq!(
        s.step(&mut b, request(Request::ExtranonceSubscribe)),
        SessionAction::SendExtranonce(held)
    );
    assert_eq!(s.state(), SessionState::Authorized);
    s.step(&mut b, SessionEvent::WorkSent);
    assert_eq!(
        s.step(&mut b, request(Request::ExtranonceSubscribe)),
        SessionAction::SendExtranonce(held)
    );
    assert_eq!(s.state(), SessionState::Active);
    assert_eq!(s.assignment(), Some(held));
}

#[test]
fn work_sent_before_authorization_changes_nothing() {
    let mut b = a_bridge();
    let mut s = Session::new();
    assert_eq!(s.step(&mut b, SessionEvent::WorkSent), SessionAction::Nothing);
    assert_eq!(s.state(), SessionState::Connected);
    s.step(&mut b, request(Request::Subscribe));
    assert_eq!(s.step(&mut b, SessionEvent::WorkSent), SessionAction::Nothing);
    assert_eq!(s.state(), SessionState::Subscribed);
}

#[test]
fn closing_gives_the_prefix_back() {
    let mut b = a_bridge();
    let mut first = active(&mut b);
    let mut second = active(&mut b);
    assert_eq!(first.assignment().unwrap().prefix(), 0);
    assert_eq!(second.assignment().unwrap().prefix(), 1);
    assert_eq!(first.step(&mut b, SessionEvent::TransportError), SessionAction::Close);
    assert_eq!(first.state(), SessionState::Closed);
    assert_eq!(first.assignment(), None);
    let third = active(&mut b);
    assert_eq!(third.assignment().unwrap().prefix(), 0);
    assert_eq!(second.step(&mut b, SessionEvent::Malformed), SessionAction::Close);
    let fourth = active(&mut b);
    assert_eq!(fourth.assignment().unwrap().prefix(), 1);
}

#[test]
fn closed_session_does_nothing() {
    let mut b = a_bridge();
    let mut s = active(&mut b);
    s.step(&mut b, SessionEvent::TransportError);
    assert_eq!(s.step(&mut b, request(Request::Subscribe)), SessionAction::Nothing);
    assert_eq!(s.step(&mut b, request(Request::Submit(a_share()))), SessionAction::Nothing);
    assert_eq!(s.step(&mut b, SessionEvent::TransportError), SessionAction::Nothing);
    assert_eq!(s.step(&mut b, SessionEvent::WorkSent), SessionAction::Nothing);
    assert_eq!(s.state(), SessionState::Closed);
    assert_eq!(b.subscribe().unwrap().prefix(), 0);
}

#[test]
fn subscription_to_a_full_space_ends_the_session() {
    let mut b = a_bridge();
    for _ in 0..256 {
        b.subscribe().unwrap();
    }
    let mut s = Session::new();
    assert_eq!(s.step(&mut b, request(Request::Subscribe)), SessionAction::Close);
    assert_eq!(s.state(), SessionState::Closed);
    assert_eq!(s.assignment(), None);
}

#[test]
fn job_notification_goes_only_to_an_authorized_device() {
    let mut b = a_bridge();
    let mut s = Session::new();
    assert_eq!(s.step(&mut b, SessionEvent::JobBroadcast), SessionAction::Nothing);
    s.step(&mut b, request(Request::Subscribe));
    assert_eq!(s.step(&mut b, SessionEvent::JobBroadcast), SessionAction::Nothing);
    assert_eq!(s.state(), SessionState::Subscribed);
    s.step(&mut b, request(Request::Authorize));
    assert_eq!(s.step(&mut b, SessionEvent::JobBroadcast), SessionAction::SendWork(true));
    assert_eq!(s.state(), SessionState::Authorized);
    assert_eq!(s.step(&mut b, SessionEvent::JobBroadcast), SessionAction::SendWork(true));
    s.step(&mut b, SessionEvent::WorkSent);
    assert_eq!(s.state(), SessionState::Active);
    assert_eq!(s.step(&mut b, SessionEvent::JobBroadcast), SessionAction::SendWork(false));
    assert_eq!(s.state(), SessionState::Active);
    s.step(&mut b, SessionEvent::TransportError);
    assert_eq!(s.step(&mut b, SessionEvent::JobBroadcast), SessionAction::Nothing);
}
