use translator_sv2::bridge::{Bridge, JobOutcome, SubmitOutcome};
use translator_sv2::downstream::{Request, Session, SessionAction, SessionEvent};
use translator_sv2::error::Error;
use translator_sv2::messages::{NewExtendedMiningJob, Notify, SetNewPrevHash, Submit};
use translator_sv2::status::{Component, Status};
use translator_sv2::supervisor::{Signal, StopReason, Supervisor, Verdict};
use translator_sv2::target::{SharedTarget, Target};
use translator_sv2::upstream::{ConnectReply, Frame, Upstream, UpstreamAction};
use translator_sv2::vardiff::{DownstreamDifficultyConfig, Vardiff};

fn pool_grants(total_len: usize, channel_id: u32, target: &SharedTarget) -> (Upstream, Bridge) {
    let mut upstream = Upstream::new(total_len - 1, target.share());
    assert_eq!(upstream.on_connect(2, 2, ConnectReply::Accepted(2)), UpstreamAction::Connected(2));
    match upstream.on_frame(Frame::ExtranonceAllocation { total_len, channel_id }) {
        UpstreamAction::DeliverExtranonce(space, id) => {
            (upstream, Bridge::new(space, target.share(), id))
        }
        other => panic!("{:?}", other),
    }
}

#[test]
fn two_devices_get_prefixes_00_and_01() {
    let target = SharedTarget::new();
    let (_upstream, mut bridge) = pool_grants(8, 1, &target);
    assert_eq!(bridge.channel_id(), 1);
    let mut device_a = Session::new();
    let mut device_b = Session::new();
    let a = match device_a.step(&mut bridge, SessionEvent::Request(Request::Subscribe)) {
        SessionAction::SendSubscription(a) => a,
        other => panic!("{:?}", other),
    };
    let b = match device_b.step(&mut bridge, SessionEvent::Request(Request::Subscribe)) {
        SessionAction::SendSubscription(b) => b,
        other => panic!("{:?}", other),
    };
    assert_eq!(a.prefix_bytes(), vec![0x00]);
    assert_eq!(b.prefix_bytes(), vec![0x01]);
    assert_eq!(a.extranonce2_len(), 7);
    assert_eq!(b.extranonce2_len(), 7);
    let rolled = vec![0xffu8; 7];
    let from_a = a.extranonce(&rolled).unwrap();
    let from_b = b.extranonce(&rolled).unwrap();
    assert_eq!(from_a.len(), 8);
    assert_eq!(from_b.len(), 8);
    assert_ne!(from_a, from_b);
    assert_eq!(from_a, vec![0x00, 0xff, 0xff, 0xff, 0xff, 0xff, 0xff, 0xff]);
    assert_eq!(from_b, vec![0x01, 0xff, 0xff, 0xff, 0xff, 0xff, 0xff, 0xff]);
}

#[test]
fn tip_without_its_job_waits_then_one_notify_goes_out() {
    let target = SharedTarget::new();
    let (mut upstream, mut bridge) = pool_grants(8, 1, &target);
    let tip = SetNewPrevHash {
        channel_id: 1,
        job_id: 42,
        prev_hash: [3; 32],
        min_ntime: 10,
        nbits: 0x1d00_ffff,
    };
    assert_eq!(upstream.on_frame(Frame::SetNewPrevHash(tip)), UpstreamAction::ForwardPrevHash(tip));
    assert_eq!(target.read(), Ok(Target::difficulty_one()));
    assert_eq!(bridge.handle_prev_hash(tip), JobOutcome::Buffered);
    assert!(!bridge.is_known_job(42));
    let unrelated = NewExtendedMiningJob {
        channel_id: 1,
        job_id: 41,
        future_job: true,
        version: 1,
        version_rolling_allowed: false,
        merkle_path: vec![],
        coinbase_tx_prefix: vec![],
        coinbase_tx_suffix: vec![],
    };
    assert_eq!(bridge.handle_new_job(unrelated), JobOutcome::Buffered);
    let named = NewExtendedMiningJob {
        channel_id: 1,
        job_id: 42,
        future_job: true,
        version: 0x2000_0000,
        version_rolling_allowed: true,
        merkle_path: vec![vec![5; 32]],
        coinbase_tx_prefix: vec![0xca, 0xfe],
        coinbase_tx_suffix: vec![0xbe, 0xef],
    };
    assert_eq!(
        bridge.handle_new_job(named.clone()),
        JobOutcome::Broadcast(Notify {
            job_id: 42,
            prev_hash: [3; 32],
            coin_base1: vec![0xca, 0xfe],
            coin_base2: vec![0xbe, 0xef],
            merkle_branch: vec![vec![5; 32]],
            version: 0x2000_0000,
            bits: 0x1d00_ffff,
            time: 10,
            clean_jobs: true,
        })
    );
    assert!(bridge.is_known_job(42));
    assert_eq!(bridge.handle_new_job(named), JobOutcome::Buffered);
}

#[test]
fn dropped_connection_ends_the_process_with_one_report() {
    let target = SharedTarget::new();
    let (mut upstream, _bridge) = pool_grants(8, 1, &target);
    let mut supervisor = Supervisor::new();
    let up = Signal::Status(Status::healthy("connected".to_string()));
    assert_eq!(supervisor.observe(&up), Verdict::Continue);

    let mut reports = Vec::new();
    for _ in 0..3 {
        match upstream.on_connection_lost() {
            UpstreamAction::Shutdown(e) => reports.push(Status::failure(Component::Upstream, e)),
            UpstreamAction::Nothing => {}
            other => panic!("{:?}", other),
        }
    }
    assert_eq!(reports.len(), 1);
    assert_eq!(upstream.on_frame(Frame::Malformed), UpstreamAction::Nothing);

    let reason = StopReason::Upstream(Error::ConnectionLost);
    assert_eq!(supervisor.observe(&Signal::Status(reports.remove(0))), Verdict::Stop(reason));
    let late = Signal::Status(Status::healthy("late".to_string()));
    assert_eq!(supervisor.observe(&late), Verdict::Stop(reason));
    assert_eq!(supervisor.stopped(), Some(reason));
}

#[test]
fn twenty_fast_shares_give_one_higher_difficulty() {
    let config = DownstreamDifficultyConfig {
        shares_per_minute: 6,
        window_ms: 60_000,
        threshold_percent: 50,
        difficulty: 100,
    };
    let mut vardiff = Vardiff::new(config, 0).ok().unwrap();
    let mut updates = Vec::new();
    for i in 0..20u64 {
        let now = 1_000 + i * 500;
        vardiff.record_share(now);
        if let Some(u) = vardiff.evaluate(now) {
            updates.push(u);
        }
    }
    assert!(updates.is_empty());
    let mut now = 11_000;
    while now < 120_000 {
        if let Some(u) = vardiff.evaluate(now) {
            updates.push(u);
        }
        now += 1_000;
    }
    assert_eq!(updates.len(), 1);
    assert_eq!(updates[0].difficulty, 333);
    assert!(updates[0].difficulty > 100);
    assert_eq!(Some(updates[0].target), Target::for_difficulty(333));
    assert_eq!(vardiff.difficulty(), 333);
}

#[test]
fn share_for_a_retired_job_never_reaches_the_pool() {
    let target = SharedTarget::new();
    let (mut upstream, mut bridge) = pool_grants(8, 1, &target);
    target.write(Target::difficulty_one()).unwrap();
    let mut device = Session::new();
    device.step(&mut bridge, SessionEvent::Request(Request::Subscribe));
    device.step(&mut bridge, SessionEvent::Request(Request::Authorize));
    device.step(&mut bridge, SessionEvent::WorkSent);
    let stale = Submit { job_id: 9, extranonce2: vec![0; 7], ntime: 0, nonce: 0, version_bits: None };
    let mut sent_to_pool = 0;
    match device.step(&mut bridge, SessionEvent::Request(Request::Submit(stale))) {
        SessionAction::ForwardSubmission(from, share) => match bridge.handle_submit(&from, share) {
            SubmitOutcome::Forward(up) => {
                if let UpstreamAction::SendToPool(_) = upstream.on_submission(up) {
                    sent_to_pool += 1;
                }
            }
            SubmitOutcome::Dropped(_) => {}
            SubmitOutcome::Halted => panic!("bridge halted"),
        },
        other => panic!("{:?}", other),
    }
    assert_eq!(sent_to_pool, 0);
    assert_eq!(upstream.on_connection_lost(), UpstreamAction::Shutdown(Error::ConnectionLost));
}
