use translator_sv2::bridge::{Bridge, DropReason, JobOutcome, SubmitOutcome};
use translator_sv2::error::Error;
use translator_sv2::extranonce::ExtendedExtranonce;
use translator_sv2::messages::{
    create_notify, NewExtendedMiningJob, Notify, SetNewPrevHash, Submit, SubmitSharesExtended,
};
use translator_sv2::target::{SharedTarget, Target};

fn job(job_id: u32, future_job: bool) -> NewExtendedMiningJob {
    NewExtendedMiningJob {
        channel_id: 1,
        job_id,
        future_job,
        version: 0x2000_0000,
        version_rolling_allowed: true,
        merkle_path: vec![vec![job_id as u8; 32], vec![0x11; 32]],
        coinbase_tx_prefix: vec![1, 2, 3, job_id as u8],
        coinbase_tx_suffix: vec![9, 8, 7],
    }
}

fn tip(job_id: u32, fill: u8) -> SetNewPrevHash {
    SetNewPrevHash {
        channel_id: 1,
        job_id,
        prev_hash: [fill; 32],
        min_ntime: 1_700_000_000 + fill as u32,
        nbits: 0x1705_0000 + fill as u32,
    }
}

fn notify(job_id: u32, fill: u8, clean_jobs: bool) -> Notify {
    Notify {
        job_id,
        prev_hash: [fill; 32],
        coin_base1: vec![1, 2, 3, job_id as u8],
        coin_base2: vec![9, 8, 7],
        merkle_branch: vec![vec![job_id as u8; 32], vec![0x11; 32]],
        version: 0x2000_0000,
        bits: 0x1705_0000 + fill as u32,
        time: 1_700_000_000 + fill as u32,
        clean_jobs,
    }
}

fn share(job_id: u32, rolled: Vec<u8>) -> Submit {
    Submit { job_id, extranonce2: rolled, ntime: 77, nonce: 99, version_bits: None }
}

fn ready() -> Option<Target> {
    Some(Target::difficulty_one())
}

fn bridge() -> Bridge {
    let target = SharedTarget::new();
    target.write(Target::difficulty_one()).unwrap();
    Bridge::new(ExtendedExtranonce::new(8, 7).unwrap(), target, 1)
}

#[test]
fn notify_takes_job_fields_and_tip_fields() {
    let n = create_notify(job(5, false), &tip(5, 0xab), true);
    assert_eq!(n, notify(5, 0xab, true));
    let m = create_notify(job(6, true), &tip(9, 0x01), false);
    assert_eq!(m, notify(6, 0x01, false));
}

#[test]
fn new_bridge_knows_nothing() {
    let b = bridge();
    assert_eq!(b.channel_id(), 1);
    assert_eq!(b.prev_hash(), None);
    assert!(!b.is_halted());
    assert!(!b.is_known_job(0));
}

#[test]
fn job_without_any_tip_is_dropped() {
    let mut b = bridge();
    assert_eq!(b.on_new_job(job(1, false), ready()), JobOutcome::Dropped(DropReason::NoPrevHash));
    assert!(!b.is_known_job(1));
}

#[test]
fn future_job_waits_for_its_tip() {
    let mut b = bridge();
    assert_eq!(b.on_new_job(job(1, true), ready()), JobOutcome::Buffered);
    assert!(!b.is_known_job(1));
    assert_eq!(b.on_prev_hash(tip(1, 0xaa), ready()), JobOutcome::Broadcast(notify(1, 0xaa, true)));
    assert!(b.is_known_job(1));
    assert_eq!(b.prev_hash(), Some(tip(1, 0xaa)));
}

#[test]
fn tip_picks_the_job_it_names_among_several() {
    let mut b = bridge();
    assert_eq!(b.on_new_job(job(1, true), ready()), JobOutcome::Buffered);
    assert_eq!(b.on_new_job(job(2, true), ready()), JobOutcome::Buffered);
    assert_eq!(b.on_new_job(job(3, true), ready()), JobOutcome::Buffered);
    assert_eq!(b.on_prev_hash(tip(2, 0xbb), ready()), JobOutcome::Broadcast(notify(2, 0xbb, true)));
    assert!(b.is_known_job(2));
    assert!(!b.is_known_job(1));
    assert!(!b.is_known_job(3));
    assert_eq!(b.on_prev_hash(tip(3, 0xcc), ready()), JobOutcome::Broadcast(notify(3, 0xcc, true)));
    assert!(b.is_known_job(3));
    assert!(!b.is_known_job(2));
}

#[test]
fn job_valid_at_once_goes_out_under_the_latest_tip() {
    let mut b = bridge();
    b.on_new_job(job(1, true), ready());
    b.on_prev_hash(tip(1, 0xaa), ready());
    assert_eq!(b.on_new_job(job(2, false), ready()), JobOutcome::Broadcast(notify(2, 0xaa, false)));
    assert!(b.is_known_job(1));
    assert!(b.is_known_job(2));
}

#[test]
fn new_tip_retires_every_announced_job() {
    let mut b = bridge();
    b.on_new_job(job(1, true), ready());
    b.on_prev_hash(tip(1, 0xaa), ready());
    b.on_new_job(job(2, false), ready());
    assert_eq!(b.on_prev_hash(tip(7, 0xbb), ready()), JobOutcome::Buffered);
    assert!(!b.is_known_job(1));
    assert!(!b.is_known_job(2));
    assert_eq!(b.on_new_job(job(3, false), ready()), JobOutcome::Broadcast(notify(3, 0xbb, true)));
    assert_eq!(b.on_new_job(job(4, false), ready()), JobOutcome::Broadcast(notify(4, 0xbb, false)));
}

#[test]
fn no_job_goes_out_while_the_target_is_the_sentinel() {
    let mut b = bridge();
    let sentinel = Some(Target::sentinel());
    assert_eq!(b.on_new_job(job(1, true), sentinel), JobOutcome::Buffered);
    assert_eq!(
        b.on_prev_hash(tip(1, 0xaa), sentinel),
        JobOutcome::Dropped(DropReason::TargetNotReady)
    );
    assert!(!b.is_known_job(1));
    assert_eq!(
        b.on_new_job(job(2, false), sentinel),
        JobOutcome::Dropped(DropReason::TargetNotReady)
    );
    assert_eq!(b.on_new_job(job(3, false), ready()), JobOutcome::Broadcast(notify(3, 0xaa, true)));
}

#[test]
fn poisoned_lock_stops_the_bridge() {
    let mut b = bridge();
    assert_eq!(b.on_new_job(job(1, true), None), JobOutcome::Fatal(Error::LockPoisoned));
    assert!(b.is_halted());
    assert_eq!(b.on_new_job(job(1, true), ready()), JobOutcome::Halted);
    assert_eq!(b.on_prev_hash(tip(1, 1), ready()), JobOutcome::Halted);
    let mut c = bridge();
    assert_eq!(c.on_prev_hash(tip(1, 1), None), JobOutcome::Fatal(Error::LockPoisoned));
    assert_eq!(c.prev_hash(), None);
}

#[test]
fn bridge_reads_the_shared_target_itself() {
    let target = SharedTarget::new();
    let mut b = Bridge::new(ExtendedExtranonce::new(8, 7).unwrap(), target.share(), 1);
    assert_eq!(b.handle_new_job(job(1, true)), JobOutcome::Buffered);
    assert_eq!(b.handle_prev_hash(tip(1, 0xaa)), JobOutcome::Dropped(DropReason::TargetNotReady));
    target.write(Target::difficulty_one()).unwrap();
    assert_eq!(b.handle_new_job(job(2, false)), JobOutcome::Broadcast(notify(2, 0xaa, true)));
    assert_eq!(b.handle_new_job(job(3, true)), JobOutcome::Buffered);
    assert_eq!(b.handle_prev_hash(tip(3, 0xbb)), JobOutcome::Broadcast(notify(3, 0xbb, true)));
}

#[test]
fn share_for_a_known_job_goes_up_stamped() {
    let mut b = bridge();
    let a0 = b.subscribe().unwrap();
    let a1 = b.subscribe().unwrap();
    b.on_new_job(job(4, true), ready());
    b.on_prev_hash(tip(4, 0xaa), ready());
    let rolled = vec![1u8, 2, 3, 4, 5, 6, 7];
    assert_eq!(
        b.handle_submit(&a1, share(4, rolled.clone())),
        SubmitOutcome::Forward(SubmitSharesExtended {
            channel_id: 1,
            sequence_number: 0,
            job_id: 4,
            nonce: 99,
            ntime: 77,
            version: 0x2000_0000,
            extranonce: vec![1, 1, 2, 3, 4, 5, 6, 7],
        })
    );
    let mut rolled_version = share(4, rolled);
    rolled_version.version_bits = Some(0x2000_e000);
    assert_eq!(
        b.handle_submit(&a0, rolled_version),
        SubmitOutcome::Forward(SubmitSharesExtended {
            channel_id: 1,
            sequence_number: 1,
            job_id: 4,
            nonce: 99,
            ntime: 77,
            version: 0x2000_e000,
            extranonce: vec![0, 1, 2, 3, 4, 5, 6, 7],
        })
    );
}

#[test]
fn share_for_an_unknown_job_is_dropped() {
    let mut b = bridge();
    let a = b.subscribe().unwrap();
    let rolled = vec![0u8; 7];
    assert_eq!(
        b.handle_submit(&a, share(4, rolled.clone())),
        SubmitOutcome::Dropped(DropReason::StaleJob)
    );
    b.on_new_job(job(4, true), ready());
    assert_eq!(
        b.handle_submit(&a, share(4, rolled.clone())),
        SubmitOutcome::Dropped(DropReason::StaleJob)
    );
    b.on_prev_hash(tip(4, 0xaa), ready());
    assert!(matches!(b.handle_submit(&a, share(4, rolled.clone())), SubmitOutcome::Forward(_)));
    b.on_prev_hash(tip(5, 0xbb), ready());
    assert_eq!(b.handle_submit(&a, share(4, rolled)), SubmitOutcome::Dropped(DropReason::StaleJob));
}

#[test]
fn dropped_share_uses_no_sequence_number() {
    let mut b = bridge();
    let a = b.subscribe().unwrap();
    b.on_new_job(job(4, true), ready());
    b.on_prev_hash(tip(4, 0xaa), ready());
    b.handle_submit(&a, share(9, vec![0u8; 7]));
    b.handle_submit(&a, share(4, vec![0u8; 3]));
    match b.handle_submit(&a, share(4, vec![0u8; 7])) {
        SubmitOutcome::Forward(s) => assert_eq!(s.sequence_number, 0),
        other => panic!("{:?}", other),
    }
    match b.handle_submit(&a, share(4, vec![0u8; 7])) {
        SubmitOutcome::Forward(s) => assert_eq!(s.sequence_number, 1),
        other => panic!("{:?}", other),
    }
}

#[test]
fn share_with_wrong_rolled_length_is_dropped() {
    let mut b = bridge();
    let a = b.subscribe().unwrap();
    b.on_new_job(job(4, true), ready());
    b.on_prev_hash(tip(4, 0xaa), ready());
    assert_eq!(
        b.handle_submit(&a, share(4, vec![0u8; 6])),
        SubmitOutcome::Dropped(DropReason::BadExtranonce)
    );
    assert_eq!(
        b.handle_submit(&a, share(4, vec![0u8; 8])),
        SubmitOutcome::Dropped(DropReason::BadExtranonce)
    );
}

#[test]
fn share_from_a_session_without_a_live_prefix_is_dropped() {
    let mut b = bridge();
    let a = b.subscribe().unwrap();
    b.on_new_job(job(4, true), ready());
    b.on_prev_hash(tip(4, 0xaa), ready());
    assert!(b.unsubscribe(&a));
    assert_eq!(
        b.handle_submit(&a, share(4, vec![0u8; 7])),
        SubmitOutcome::Dropped(DropReason::UnknownSession)
    );
    let mut other = Bridge::new(ExtendedExtranonce::new(9, 7).unwrap(), SharedTarget::new(), 2);
    let foreign = other.subscribe().unwrap();
    b.subscribe().unwrap();
    assert_eq!(
        b.handle_submit(&foreign, share(4, vec![0u8; 7])),
        SubmitOutcome::Dropped(DropReason::UnknownSession)
    );
    assert!(!b.unsubscribe(&foreign));
}

#[test]
fn halted_bridge_forwards_nothing() {
    let mut b = bridge();
    let a = b.subscribe().unwrap();
    b.on_new_job(job(4, true), ready());
    b.on_prev_hash(tip(4, 0xaa), ready());
    b.halt();
    assert!(b.is_halted());
    assert_eq!(b.handle_submit(&a, share(4, vec![0u8; 7])), SubmitOutcome::Halted);
    assert_eq!(b.handle_new_job(job(5, false)), JobOutcome::Halted);
    assert_eq!(b.handle_prev_hash(tip(5, 1)), JobOutcome::Halted);
}

#[test]
fn bridge_hands_out_and_takes_back_prefixes() {
    let mut b = bridge();
    let a0 = b.subscribe().unwrap();
    let a1 = b.subscribe().unwrap();
    let a2 = b.subscribe().unwrap();
    assert_eq!((a0.prefix(), a1.prefix(), a2.prefix()), (0, 1, 2));
    assert!(b.unsubscribe(&a1));
    assert!(!b.unsubscribe(&a1));
    assert_eq!(b.subscribe().unwrap().prefix(), 1);
    assert_eq!(b.subscribe().unwrap().prefix(), 3);
}
