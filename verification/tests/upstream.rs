use translator_sv2::error::Error;
use translator_sv2::extranonce::ExtendedExtranonce;
use translator_sv2::messages::{NewExtendedMiningJob, SetNewPrevHash, SubmitSharesExtended};
use translator_sv2::target::{SharedTarget, Target};
use translator_sv2::upstream::{ConnectReply, Frame, Phase, Upstream, UpstreamAction};

fn a_job() -> NewExtendedMiningJob {
    NewExtendedMiningJob {
        channel_id: 1,
        job_id: 3,
        future_job: true,
        version: 2,
        version_rolling_allowed: false,
        merkle_path: vec![],
        coinbase_tx_prefix: vec![1],
        coinbase_tx_suffix: vec![2],
    }
}

fn a_tip() -> SetNewPrevHash {
    SetNewPrevHash { channel_id: 1, job_id: 3, prev_hash: [7; 32], min_ntime: 5, nbits: 0x1d00_ffff }
}

fn a_share() -> SubmitSharesExtended {
    SubmitSharesExtended {
        channel_id: 1,
        sequence_number: 0,
        job_id: 3,
        nonce: 1,
        ntime: 2,
        version: 3,
        extranonce: vec![0; 8],
    }
}

fn connected(target: SharedTarget) -> Upstream {
    let mut u = Upstream::new(7, target);
    assert_eq!(u.on_connect(2, 2, ConnectReply::Accepted(2)), UpstreamAction::Connected(2));
    u
}

#[test]
fn version_within_the_range_connects() {
    let mut u = Upstream::new(7, SharedTarget::new());
    assert_eq!(u.phase(), Phase::Idle);
    assert_eq!(u.on_connect(1, 3, ConnectReply::Accepted(3)), UpstreamAction::Connected(3));
    assert_eq!(u.phase(), Phase::Connected);
    let mut low = Upstream::new(7, SharedTarget::new());
    assert_eq!(low.on_connect(1, 3, ConnectReply::Accepted(1)), UpstreamAction::Connected(1));
    let mut empty = Upstream::new(7, SharedTarget::new());
    assert_eq!(
        empty.on_connect(3, 2, ConnectReply::Accepted(2)),
        UpstreamAction::Shutdown(Error::NoCommonVersion)
    );
}

#[test]
fn version_outside_the_range_is_fatal() {
    let mut u = Upstream::new(7, SharedTarget::new());
    assert_eq!(
        u.on_connect(2, 3, ConnectReply::Accepted(4)),
        UpstreamAction::Shutdown(Error::NoCommonVersion)
    );
    assert_eq!(u.phase(), Phase::Failed);
    let mut v = Upstream::new(7, SharedTarget::new());
    assert_eq!(
        v.on_connect(2, 3, ConnectReply::Accepted(1)),
        UpstreamAction::Shutdown(Error::NoCommonVersion)
    );
    let mut w = Upstream::new(7, SharedTarget::new());
    assert_eq!(w.on_connect(2, 3, ConnectReply::Refused), UpstreamAction::Shutdown(Error::NoCommonVersion));
}

#[test]
fn transport_failure_is_fatal() {
    let mut u = Upstream::new(7, SharedTarget::new());
    assert_eq!(
        u.on_connect(2, 3, ConnectReply::TransportFailed),
        UpstreamAction::Shutdown(Error::TransportUnavailable)
    );
    assert_eq!(u.on_connect(2, 3, ConnectReply::Accepted(2)), UpstreamAction::Nothing);
    assert_eq!(u.phase(), Phase::Failed);
}

#[test]
fn second_connect_is_out_of_state() {
    let mut u = connected(SharedTarget::new());
    assert_eq!(
        u.on_connect(2, 3, ConnectReply::Accepted(2)),
        UpstreamAction::Shutdown(Error::UnexpectedMessage)
    );
}

#[test]
fn job_is_forwarded_to_the_bridge() {
    let mut u = connected(SharedTarget::new());
    assert_eq!(u.on_frame(Frame::NewExtendedMiningJob(a_job())), UpstreamAction::ForwardJob(a_job()));
    assert_eq!(u.phase(), Phase::Connected);
}

#[test]
fn new_tip_writes_the_target_then_is_forwarded() {
    let shared = SharedTarget::new();
    let mut u = connected(shared.share());
    assert_eq!(u.written_target(), None);
    assert_eq!(u.on_frame(Frame::SetNewPrevHash(a_tip())), UpstreamAction::ForwardPrevHash(a_tip()));
    assert_eq!(shared.read(), Ok(Target::difficulty_one()));
    assert_eq!(u.written_target(), Some(Target::difficulty_one()));
    let harder = SetNewPrevHash { nbits: 0x1705_dd01, ..a_tip() };
    let mut bytes = [0u8; 32];
    bytes[9] = 0x05;
    bytes[10] = 0xdd;
    bytes[11] = 0x01;
    assert_eq!(u.on_frame(Frame::SetNewPrevHash(harder)), UpstreamAction::ForwardPrevHash(harder));
    assert_eq!(shared.read(), Ok(Target { bytes }));
    assert_eq!(u.written_target(), Some(Target { bytes }));
}

#[test]
fn tip_with_a_poisoned_lock_is_fatal() {
    let mut u = connected(SharedTarget::new());
    assert_eq!(
        u.take_frame(Frame::SetNewPrevHash(a_tip()), false),
        UpstreamAction::Shutdown(Error::LockPoisoned)
    );
    assert_eq!(u.written_target(), None);
    assert_eq!(u.phase(), Phase::Failed);
}

#[test]
fn extranonce_space_is_delivered_once() {
    let mut u = connected(SharedTarget::new());
    assert_eq!(
        u.on_frame(Frame::ExtranonceAllocation { total_len: 8, channel_id: 1 }),
        UpstreamAction::DeliverExtranonce(ExtendedExtranonce::new(8, 7).unwrap(), 1)
    );
    assert_eq!(
        u.on_frame(Frame::ExtranonceAllocation { total_len: 8, channel_id: 1 }),
        UpstreamAction::Shutdown(Error::UnexpectedMessage)
    );
    assert_eq!(
        u.on_frame(Frame::ExtranonceAllocation { total_len: 8, channel_id: 1 }),
        UpstreamAction::Nothing
    );
}

#[test]
fn extranonce_space_without_room_is_fatal() {
    let mut u = connected(SharedTarget::new());
    assert_eq!(
        u.on_frame(Frame::ExtranonceAllocation { total_len: 7, channel_id: 1 }),
        UpstreamAction::Shutdown(Error::ExtranonceTooSmall)
    );
}

#[test]
fn malformed_frame_is_fatal() {
    let mut u = connected(SharedTarget::new());
    assert_eq!(u.on_frame(Frame::Other), UpstreamAction::Nothing);
    assert_eq!(u.phase(), Phase::Connected);
    assert_eq!(u.on_frame(Frame::Malformed), UpstreamAction::Shutdown(Error::MalformedFrame));
    assert_eq!(u.on_frame(Frame::NewExtendedMiningJob(a_job())), UpstreamAction::Nothing);
    let mut idle = Upstream::new(7, SharedTarget::new());
    assert_eq!(idle.on_frame(Frame::Malformed), UpstreamAction::Shutdown(Error::MalformedFrame));
}

#[test]
fn frame_before_the_connection_stands_is_fatal() {
    let shared = SharedTarget::new();
    let mut u = Upstream::new(7, shared.share());
    assert_eq!(
        u.on_frame(Frame::SetNewPrevHash(a_tip())),
        UpstreamAction::Shutdown(Error::UnexpectedMessage)
    );
    assert_eq!(shared.read(), Ok(Target::sentinel()));
    let mut early = Upstream::new(7, SharedTarget::new());
    assert_eq!(early.on_frame(Frame::Other), UpstreamAction::Shutdown(Error::UnexpectedMessage));
}

#[test]
fn share_goes_to_the_pool_only_while_connected() {
    let mut idle = Upstream::new(7, SharedTarget::new());
    assert_eq!(idle.on_submission(a_share()), UpstreamAction::Nothing);
    assert_eq!(idle.phase(), Phase::Idle);
    let mut u = connected(SharedTarget::new());
    assert_eq!(u.on_submission(a_share()), UpstreamAction::SendToPool(a_share()));
    u.on_channel_closed();
    assert_eq!(u.on_submission(a_share()), UpstreamAction::Nothing);
}

#[test]
fn failure_is_reported_once() {
    let mut u = connected(SharedTarget::new());
    assert_eq!(u.on_channel_closed(), UpstreamAction::Shutdown(Error::ChannelClosed));
    assert_eq!(u.on_channel_closed(), UpstreamAction::Nothing);
    assert_eq!(u.on_connection_lost(), UpstreamAction::Nothing);
    assert_eq!(u.on_frame(Frame::Malformed), UpstreamAction::Nothing);
}
