//! The translation engine between the pool and the devices: which job
//! notifications go out, which shares go up, and who holds which extranonce
//! prefix.

use crate::error::Error;
use crate::extranonce::{after_assign, has_room, is_least_free, least_free};
use crate::extranonce::{ExtendedExtranonce, ExtranonceAssignment, PrefixAllocator};
use crate::messages::{create_notify, notify_for};
use crate::messages::{JobView, NewExtendedMiningJob, Notify, NotifyView, SetNewPrevHash};
use crate::messages::{Submit, SubmitSharesExtended, SubmitSharesExtendedView, SubmitView};
use crate::target::{SharedTarget, Target};
use vstd::prelude::*;

verus! {

/// Why a message was discarded. The bridge goes on after each of these.
#[derive(Clone, Copy, Debug, PartialEq, Eq, Structural)]
pub enum DropReason {
    /// A job that is valid at once arrived before any chain tip.
    NoPrevHash,
    /// The target is still the sentinel.
    TargetNotReady,
    /// The share comes from a session that holds no prefix of this bridge.
    UnknownSession,
    /// The device rolled more or fewer bytes than its session was given.
    BadExtranonce,
    /// The share names a job that was retired or never announced.
    StaleJob,
}

/// A job that devices may submit shares for.
#[derive(Clone, Copy, Debug, PartialEq, Eq)]
pub struct KnownJob {
    pub job_id: u32,
    pub version: u32,
}

/// What the bridge does with a message of the pool.
#[derive(Clone, Debug, PartialEq, Eq)]
pub enum JobOutcome {
    /// Send this notification to every subscribed session.
    Broadcast(Notify),
    /// Nothing goes out; the message waits for its counterpart.
    Buffered,
    /// Nothing goes out; the message is discarded with a warning.
    Dropped(DropReason),
    /// The bridge cannot go on and stops.
    Fatal(Error),
    /// The bridge had stopped before; the message is ignored.
    Halted,
}

/// The mathematical content of a `JobOutcome`.
pub enum JobOutcomeView {
    Broadcast(NotifyView),
    Buffered,
    Dropped(DropReason),
    Fatal(Error),
    Halted,
}

impl View for JobOutcome {
    type V = JobOutcomeView;

    open spec fn view(&self) -> JobOutcomeView {
        match self {
            JobOutcome::Broadcast(n) => JobOutcomeView::Broadcast(n@),
            JobOutcome::Buffered => JobOutcomeView::Buffered,
            JobOutcome::Dropped(r) => JobOutcomeView::Dropped(*r),
            JobOutcome::Fatal(e) => JobOutcomeView::Fatal(*e),
            JobOutcome::Halted => JobOutcomeView::Halted,
        }
    }
}

/// What the bridge does with a share of a device.
#[derive(Clone, Debug, PartialEq, Eq)]
pub enum SubmitOutcome {
    /// Send this share to the pool.
    Forward(SubmitSharesExtended),
    /// Nothing goes up; the share is discarded with a warning.
    Dropped(DropReason),
    /// The bridge had stopped before; the share is ignored.
    Halted,
}

/// The mathematical content of a `SubmitOutcome`.
pub enum SubmitOutcomeView {
    Forward(SubmitSharesExtendedView),
    Dropped(DropReason),
    Halted,
}

impl View for SubmitOutcome {
    type V = SubmitOutcomeView;

    open spec fn view(&self) -> SubmitOutcomeView {
        match self {
            SubmitOutcome::Forward(s) => SubmitOutcomeView::Forward(s@),
            SubmitOutcome::Dropped(r) => SubmitOutcomeView::Dropped(*r),
            SubmitOutcome::Halted => SubmitOutcomeView::Halted,
        }
    }
}

/// The state of the bridge as the contracts see it.
#[verifier::ext_equal]
pub struct BridgeView {
    /// The channel that the pool opened for this proxy.
    pub channel_id: u32,
    /// The extranonce space that is being partitioned.
    pub space: ExtendedExtranonce,
    /// The handle on the shared target that the bridge reads through.
    pub target: SharedTarget,
    /// The prefixes that live sessions hold.
    pub live: Set<nat>,
    /// The latest chain tip.
    pub prev_hash: Option<SetNewPrevHash>,
    /// The job that the latest tip names has not arrived yet.
    pub awaiting_job: bool,
    /// No notification has gone out under the latest tip yet.
    pub clean_pending: bool,
    /// Jobs that wait for the tip that names them, oldest first.
    pub future_jobs: Seq<JobView>,
    /// Jobs announced under the latest tip, oldest first.
    pub active_jobs: Seq<KnownJob>,
    /// The sequence number of the next share that goes up.
    pub sequence: u32,
    /// The bridge has stopped.
    pub halted: bool,
}

/// The ids of a list of jobs, in order.
pub open spec fn job_ids(jobs: Seq<JobView>) -> Seq<u32> {
    Seq::new(jobs.len(), |i: int| jobs[i].job_id)
}

/// The ids of a list of known jobs, in order.
pub open spec fn known_ids(jobs: Seq<KnownJob>) -> Seq<u32> {
    Seq::new(jobs.len(), |i: int| jobs[i].job_id)
}

/// A snapshot of the target allows jobs to go out: the lock gave a value and
/// it is not the sentinel.
pub open spec fn target_ready(target: Option<Target>) -> bool {
    target matches Some(t) && !t.is_sentinel()
}

/// A bridge that has seen nothing yet and reads the target through `target`.
pub open spec fn initial_bridge(channel_id: u32, space: ExtendedExtranonce, target: SharedTarget)
    -> BridgeView {
    BridgeView {
        channel_id,
        space,
        target,
        live: Set::empty(),
        prev_hash: None,
        awaiting_job: false,
        clean_pending: true,
        future_jobs: Seq::empty(),
        active_jobs: Seq::empty(),
        sequence: 0,
        halted: false,
    }
}

/// Announcing `job` under `tip`: the notification goes out and the job
/// becomes known, unless the target is still the sentinel.
pub open spec fn announce(
    b: BridgeView,
    job: JobView,
    tip: SetNewPrevHash,
    target: Option<Target>,
) -> (BridgeView, JobOutcomeView) {
    if target_ready(target) {
        (
            BridgeView {
                clean_pending: false,
                active_jobs: b.active_jobs.push(
                    KnownJob { job_id: job.job_id, version: job.version },
                ),
                ..b
            },
            JobOutcomeView::Broadcast(notify_for(job, tip, b.clean_pending)),
        )
    } else {
        (b, JobOutcomeView::Dropped(DropReason::TargetNotReady))
    }
}

/// What a job of the pool does to the bridge. `target` is what the lock on
/// the shared target gave: `None` for a poisoned lock.
pub open spec fn job_step(b: BridgeView, job: JobView, target: Option<Target>) -> (
    BridgeView,
    JobOutcomeView,
) {
    if b.halted {
        (b, JobOutcomeView::Halted)
    } else if target is None {
        (BridgeView { halted: true, ..b }, JobOutcomeView::Fatal(Error::LockPoisoned))
    } else if job.future_job {
        if b.awaiting_job && b.prev_hash is Some && b.prev_hash->0.job_id == job.job_id {
            announce(BridgeView { awaiting_job: false, ..b }, job, b.prev_hash->0, target)
        } else {
            (BridgeView { future_jobs: b.future_jobs.push(job), ..b }, JobOutcomeView::Buffered)
        }
    } else {
        match b.prev_hash {
            Some(tip) => announce(b, job, tip, target),
            None => (b, JobOutcomeView::Dropped(DropReason::NoPrevHash)),
        }
    }
}

/// What a new chain tip does to the bridge: every job announced so far is
/// retired, and the future job that the tip names, if it is there, goes out.
pub open spec fn prev_hash_step(b: BridgeView, tip: SetNewPrevHash, target: Option<Target>) -> (
    BridgeView,
    JobOutcomeView,
) {
    if b.halted {
        (b, JobOutcomeView::Halted)
    } else if target is None {
        (BridgeView { halted: true, ..b }, JobOutcomeView::Fatal(Error::LockPoisoned))
    } else {
        let retired = BridgeView {
            prev_hash: Some(tip),
            active_jobs: Seq::empty(),
            clean_pending: true,
            ..b
        };
        match job_ids(b.future_jobs).index_of_first(tip.job_id) {
            Some(i) => announce(
                BridgeView { awaiting_job: false, future_jobs: b.future_jobs.remove(i), ..retired },
                b.future_jobs[i],
                tip,
                target,
            ),
            None => (BridgeView { awaiting_job: true, ..retired }, JobOutcomeView::Buffered),
        }
    }
}

/// The sequence number that follows `n`.
pub open spec fn next_sequence(n: u32) -> u32 {
    if n == u32::MAX {
        0
    } else {
        (n + 1) as u32
    }
}

/// What a share of the session that holds `from` does to the bridge.
pub open spec fn submit_step(b: BridgeView, from: ExtranonceAssignment, share: SubmitView) -> (
    BridgeView,
    SubmitOutcomeView,
) {
    if b.halted {
        (b, SubmitOutcomeView::Halted)
    } else if from.spec_space() != b.space || !b.live.contains(from.spec_prefix()) {
        (b, SubmitOutcomeView::Dropped(DropReason::UnknownSession))
    } else if share.extranonce2.len() != b.space.spec_extranonce2_len() {
        (b, SubmitOutcomeView::Dropped(DropReason::BadExtranonce))
    } else {
        match known_ids(b.active_jobs).index_of_first(share.job_id) {
            None => (b, SubmitOutcomeView::Dropped(DropReason::StaleJob)),
            Some(i) => (
                BridgeView { sequence: next_sequence(b.sequence), ..b },
                SubmitOutcomeView::Forward(
                    SubmitSharesExtendedView {
                        channel_id: b.channel_id,
                        sequence_number: b.sequence,
                        job_id: share.job_id,
                        nonce: share.nonce,
                        ntime: share.ntime,
                        version: match share.version_bits {
                            Some(v) => v,
                            None => b.active_jobs[i].version,
                        },
                        extranonce: from.spec_extranonce(share.extranonce2),
                    },
                ),
            ),
        }
    }
}

proof fn lemma_first_index(ids: Seq<u32>, id: u32, i: int)
    requires
        0 <= i < ids.len(),
        ids[i] == id,
        forall|j: int| 0 <= j < i ==> ids[j] != id,
    ensures
        ids.index_of_first(id) == Some(i),
{
    ids.index_of_first_ensures(id);
    assert(ids.contains(id));
    let k = ids.index_of_first(id)->0;
    if k < i {
        assert(ids[k] != id);
    }
    if i < k {
        assert(ids[i] != id);
    }
}

proof fn lemma_no_index(ids: Seq<u32>, id: u32)
    requires
        forall|j: int| 0 <= j < ids.len() ==> ids[j] != id,
    ensures
        ids.index_of_first(id) is None,
{
    ids.index_of_first_ensures(id);
}

/// The translation engine.
pub struct Bridge {
    channel_id: u32,
    allocator: PrefixAllocator,
    target: SharedTarget,
    prev_hash: Option<SetNewPrevHash>,
    awaiting_job: bool,
    clean_pending: bool,
    future_jobs: Vec<NewExtendedMiningJob>,
    active_jobs: Vec<KnownJob>,
    sequence: u32,
    halted: bool,
}

impl Bridge {
    /// The state of the bridge as the contracts see it.
    pub closed spec fn view(&self) -> BridgeView {
        BridgeView {
            channel_id: self.channel_id,
            space: self.allocator.spec_space(),
            target: self.target,
            live: self.allocator.live(),
            prev_hash: self.prev_hash,
            awaiting_job: self.awaiting_job,
            clean_pending: self.clean_pending,
            future_jobs: self.future_jobs@.map_values(|j: NewExtendedMiningJob| j@),
            active_jobs: self.active_jobs@,
            sequence: self.sequence,
            halted: self.halted,
        }
    }

    /// A bridge for the space that the pool granted on channel `channel_id`.
    /// `target` is the handle on the target that the pool client writes;
    /// the bridge keeps it and reads through it for as long as it lives.
    pub fn new(extranonce: ExtendedExtranonce, target: SharedTarget, channel_id: u32) -> (b: Bridge)
        ensures
            b@ == initial_bridge(channel_id, extranonce, target),
    {
        let b = Bridge {
            channel_id,
            allocator: PrefixAllocator::new(extranonce),
            target,
            prev_hash: None,
            awaiting_job: false,
            clean_pending: true,
            future_jobs: Vec::new(),
            active_jobs: Vec::new(),
            sequence: 0,
            halted: false,
        };
        assert(b@ =~= initial_bridge(channel_id, extranonce, target));
        b
    }

    fn find_future(&self, id: u32) -> (r: Option<usize>)
        ensures
            match r {
                Some(i) => i < self.future_jobs@.len() && job_ids(self@.future_jobs).index_of_first(
                    id,
                ) == Some(i as int),
                None => job_ids(self@.future_jobs).index_of_first(id) is None,
            },
    {
        let ghost ids = job_ids(self@.future_jobs);
        let mut i: usize = 0;
        while i < self.future_jobs.len()
            invariant
                i <= self.future_jobs@.len(),
                ids == job_ids(self@.future_jobs),
                ids.len() == self.future_jobs@.len(),
                forall|j: int| 0 <= j < i ==> ids[j] != id,
            decreases self.future_jobs@.len() - i,
        {
            if self.future_jobs[i].job_id == id {
                proof {
                    lemma_first_index(ids, id, i as int);
                }
                return Some(i);
            }
            i += 1;
        }
        proof {
            lemma_no_index(ids, id);
        }
        None
    }

    fn find_known(&self, id: u32) -> (r: Option<usize>)
        ensures
            match r {
                Some(i) => i < self.active_jobs@.len() && known_ids(self@.active_jobs).index_of_first(
                    id,
                ) == Some(i as int),
                None => known_ids(self@.active_jobs).index_of_first(id) is None,
            },
    {
        let ghost ids = known_ids(self@.active_jobs);
        let mut i: usize = 0;
        while i < self.active_jobs.len()
            invariant
                i <= self.active_jobs@.len(),
                ids == known_ids(self@.active_jobs),
                ids.len() == self.active_jobs@.len(),
                forall|j: int| 0 <= j < i ==> ids[j] != id,
            decreases self.active_jobs@.len() - i,
        {
            if self.active_jobs[i].job_id == id {
                proof {
                    lemma_first_index(ids, id, i as int);
                }
                return Some(i);
            }
            i += 1;
        }
        proof {
            lemma_no_index(ids, id);
        }
        None
    }

    fn announce_job(&mut self, job: NewExtendedMiningJob, tip: &SetNewPrevHash, ready: bool) -> (r:
        JobOutcome)
        ensures
            forall|target: Option<Target>|
                target_ready(target) == ready ==> (final(self)@, r@) == #[trigger] announce(
                    old(self)@,
                    job@,
                    *tip,
                    target,
                ),
    {
        if ready {
            let known = KnownJob { job_id: job.job_id, version: job.version };
            let clean = self.clean_pending;
            self.active_jobs.push(known);
            self.clean_pending = false;
            let n = create_notify(job, tip, clean);
            assert forall|target: Option<Target>| target_ready(target) == ready implies (self@, (
                JobOutcome::Broadcast(n)
            )@) == #[trigger] announce(old(self)@, job@, *tip, target) by {
                assert(self@ =~= announce(old(self)@, job@, *tip, target).0);
            }
            JobOutcome::Broadcast(n)
        } else {
            JobOutcome::Dropped(DropReason::TargetNotReady)
        }
    }

    /// Takes a job of the pool, given what the lock on the shared target
    /// gave (`None` for a poisoned lock).
    pub fn on_new_job(&mut self, job: NewExtendedMiningJob, target: Option<Target>) -> (r:
        JobOutcome)
        ensures
            (final(self)@, r@) == job_step(old(self)@, job@, target),
    {
        if self.halted {
            return JobOutcome::Halted;
        }
        let ready = match target {
            None => {
                self.halted = true;
                assert(self@ =~= job_step(old(self)@, job@, target).0);
                return JobOutcome::Fatal(Error::LockPoisoned);
            },
            Some(t) => t.is_initialized(),
        };
        if job.future_job {
            let named = match self.prev_hash {
                Some(tip) => self.awaiting_job && tip.job_id == job.job_id,
                None => false,
            };
            if named {
                let tip = self.prev_hash.unwrap();
                self.awaiting_job = false;
                let ghost mid = self@;
                assert(mid =~= BridgeView { awaiting_job: false, ..old(self)@ });
                self.announce_job(job, &tip, ready)
            } else {
                let ghost jv = job@;
                self.future_jobs.push(job);
                assert(self@ =~= job_step(old(self)@, jv, target).0);
                JobOutcome::Buffered
            }
        } else {
            match self.prev_hash {
                Some(tip) => self.announce_job(job, &tip, ready),
                None => JobOutcome::Dropped(DropReason::NoPrevHash),
            }
        }
    }

    /// Takes a new chain tip, given what the lock on the shared target gave
    /// (`None` for a poisoned lock).
    pub fn on_prev_hash(&mut self, tip: SetNewPrevHash, target: Option<Target>) -> (r: JobOutcome)
        ensures
            (final(self)@, r@) == prev_hash_step(old(self)@, tip, target),
    {
        if self.halted {
            return JobOutcome::Halted;
        }
        let ready = match target {
            None => {
                self.halted = true;
                assert(self@ =~= prev_hash_step(old(self)@, tip, target).0);
                return JobOutcome::Fatal(Error::LockPoisoned);
            },
            Some(t) => t.is_initialized(),
        };
        let found = self.find_future(tip.job_id);
        self.prev_hash = Some(tip);
        self.active_jobs.clear();
        self.clean_pending = true;
        match found {
            Some(i) => {
                self.awaiting_job = false;
                let ghost before = self.future_jobs@;
                let job = self.future_jobs.remove(i);
                proof {
                    let f = |j: NewExtendedMiningJob| j@;
                    assert(before.remove(i as int).map_values(f) =~= before.map_values(f).remove(
                        i as int,
                    ));
                    assert(self@ =~= BridgeView {
                        awaiting_job: false,
                        future_jobs: old(self)@.future_jobs.remove(i as int),
                        prev_hash: Some(tip),
                        active_jobs: Seq::empty(),
                        clean_pending: true,
                        ..old(self)@
                    });
                    assert(job@ == old(self)@.future_jobs[i as int]);
                }
                self.announce_job(job, &tip, ready)
            },
            None => {
                self.awaiting_job = true;
                assert(self@ =~= prev_hash_step(old(self)@, tip, target).0);
                JobOutcome::Buffered
            },
        }
    }

    /// Takes a job of the pool and looks at the shared target, through the
    /// handle that the bridge was made with, to decide whether it may go
    /// out. Whatever the lock gives, the bridge goes by it as `on_new_job`
    /// says.
    pub fn handle_new_job(&mut self, job: NewExtendedMiningJob) -> (r: JobOutcome)
        ensures
            exists|target: Option<Target>|
                (final(self)@, r@) == #[trigger] job_step(old(self)@, job@, target),
    {
        let target = match self.target.read() {
            Ok(t) => Some(t),
            Err(_) => None,
        };
        self.on_new_job(job, target)
    }

    /// Takes a new chain tip and looks at the shared target, through the
    /// handle that the bridge was made with, to decide whether the job it
    /// names may go out. Whatever the lock gives, the bridge goes by it as
    /// `on_prev_hash` says.
    pub fn handle_prev_hash(&mut self, tip: SetNewPrevHash) -> (r: JobOutcome)
        ensures
            exists|target: Option<Target>|
                (final(self)@, r@) == #[trigger] prev_hash_step(old(self)@, tip, target),
    {
        let target = match self.target.read() {
            Ok(t) => Some(t),
            Err(_) => None,
        };
        self.on_prev_hash(tip, target)
    }

    /// Gives a new session its prefix: the least one that no live session
    /// holds. `None` when the space has no prefix left.
    pub fn subscribe(&mut self) -> (r: Option<ExtranonceAssignment>)
        ensures
            final(self)@ == (BridgeView {
                live: after_assign(old(self)@.live, capacity_of(old(self)@)),
                ..old(self)@
            }),
            r is Some <==> has_room(old(self)@.live, capacity_of(old(self)@)),
            match r {
                Some(a) => {
                    &&& a == ExtranonceAssignment::of(
                        old(self)@.space,
                        least_free(old(self)@.live, capacity_of(old(self)@)),
                    )
                    &&& a.spec_space() == old(self)@.space
                    &&& is_least_free(old(self)@.live, capacity_of(old(self)@), a.spec_prefix())
                    &&& final(self)@.live == old(self)@.live.insert(a.spec_prefix())
                },
                None => final(self)@ == old(self)@,
            },
    {
        let r = self.allocator.assign();
        proof {
            assert(self@ =~= BridgeView {
                live: after_assign(old(self)@.live, capacity_of(old(self)@)),
                ..old(self)@
            });
            if r is None {
                assert(self@ =~= old(self)@);
            }
        }
        r
    }

    /// Takes back the prefix of a session that has ended, so that a later
    /// session can have it. Says whether a live session of this bridge held
    /// it; if none did, nothing changes.
    pub fn unsubscribe(&mut self, assignment: &ExtranonceAssignment) -> (was_live: bool)
        ensures
            was_live == holds_prefix(old(self)@, *assignment),
            final(self)@ == (if was_live {
                BridgeView {
                    live: old(self)@.live.remove(assignment.spec_prefix()),
                    ..old(self)@
                }
            } else {
                old(self)@
            }),
    {
        if !assignment.space().same_as(&self.allocator.space()) {
            return false;
        }
        let was_live = self.allocator.release(assignment.prefix());
        proof {
            if was_live {
                assert(self@ =~= BridgeView {
                    live: old(self)@.live.remove(assignment.spec_prefix()),
                    ..old(self)@
                });
            } else {
                assert(old(self)@.live.remove(assignment.spec_prefix()) =~= old(self)@.live);
                assert(self@ =~= old(self)@);
            }
        }
        was_live
    }

    /// Takes a share of the session that holds `from`. A share that passes
    /// every test goes up, stamped with the channel of the bridge and the
    /// next sequence number; any other is discarded and changes nothing.
    pub fn handle_submit(&mut self, from: &ExtranonceAssignment, share: Submit) -> (r:
        SubmitOutcome)
        ensures
            (final(self)@, r@) == submit_step(old(self)@, *from, share@),
    {
        if self.halted {
            return SubmitOutcome::Halted;
        }
        let space = self.allocator.space();
        if !from.space().same_as(&space) || !self.allocator.is_live(from.prefix()) {
            return SubmitOutcome::Dropped(DropReason::UnknownSession);
        }
        if share.extranonce2.len() != space.extranonce2_len() {
            return SubmitOutcome::Dropped(DropReason::BadExtranonce);
        }
        match self.find_known(share.job_id) {
            None => SubmitOutcome::Dropped(DropReason::StaleJob),
            Some(i) => {
                let version = match share.version_bits {
                    Some(v) => v,
                    None => self.active_jobs[i].version,
                };
                let extranonce = from.extranonce(&share.extranonce2).unwrap();
                let sequence_number = self.sequence;
                self.sequence = if sequence_number == u32::MAX {
                    0
                } else {
                    sequence_number + 1
                };
                assert(self@ =~= submit_step(old(self)@, *from, share@).0);
                SubmitOutcome::Forward(
                    SubmitSharesExtended {
                        channel_id: self.channel_id,
                        sequence_number,
                        job_id: share.job_id,
                        nonce: share.nonce,
                        ntime: share.ntime,
                        version,
                        extranonce,
                    },
                )
            },
        }
    }

    /// Stops the bridge, as when a peer has dropped its end of a channel.
    /// From then on every message is ignored.
    pub fn halt(&mut self)
        ensures
            final(self)@ == (BridgeView { halted: true, ..old(self)@ }),
    {
        self.halted = true;
        assert(self@ =~= BridgeView { halted: true, ..old(self)@ });
    }

    pub fn is_halted(&self) -> (b: bool)
        ensures
            b == self@.halted,
    {
        self.halted
    }

    pub fn channel_id(&self) -> (id: u32)
        ensures
            id == self@.channel_id,
    {
        self.channel_id
    }

    /// The latest chain tip, if one has arrived.
    pub fn prev_hash(&self) -> (tip: Option<SetNewPrevHash>)
        ensures
            tip == self@.prev_hash,
    {
        self.prev_hash
    }

    /// Whether devices may submit shares for job `job_id`.
    pub fn is_known_job(&self, job_id: u32) -> (b: bool)
        ensures
            b == known_ids(self@.active_jobs).contains(job_id),
    {
        proof {
            known_ids(self@.active_jobs).index_of_first_ensures(job_id);
        }
        self.find_known(job_id).is_some()
    }
}

/// How many prefixes the space of a bridge offers.
pub open spec fn capacity_of(b: BridgeView) -> nat {
    crate::extranonce::capacity(b.space.spec_prefix_len())
}

/// A live session of the bridge holds this assignment.
pub open spec fn holds_prefix(b: BridgeView, assignment: ExtranonceAssignment) -> bool {
    assignment.spec_space() == b.space && b.live.contains(assignment.spec_prefix())
}

/// A message of the pool as the bridge takes it, together with what the lock
/// on the shared target gave when the message was handled.
pub enum PoolEvent {
    Job(JobView, Option<Target>),
    PrevHash(SetNewPrevHash, Option<Target>),
}

/// What one message of the pool does to the bridge.
pub open spec fn pool_step(b: BridgeView, event: PoolEvent) -> (BridgeView, JobOutcomeView) {
    match event {
        PoolEvent::Job(job, target) => job_step(b, job, target),
        PoolEvent::PrevHash(tip, target) => prev_hash_step(b, tip, target),
    }
}

/// The bridge after a run of messages of the pool, in order.
pub open spec fn after_pool_events(b: BridgeView, events: Seq<PoolEvent>) -> BridgeView
    decreases events.len(),
{
    if events.len() == 0 {
        b
    } else {
        pool_step(after_pool_events(b, events.drop_last()), events.last()).0
    }
}

/// What the bridge does with the last message of a run.
pub open spec fn last_outcome(b: BridgeView, events: Seq<PoolEvent>) -> JobOutcomeView
    recommends
        events.len() > 0,
{
    pool_step(after_pool_events(b, events.drop_last()), events.last()).1
}

/// The chain tip that the pool announced last in a run of messages, or the
/// one known before the run if it announced none.
pub open spec fn latest_tip(before: Option<SetNewPrevHash>, events: Seq<PoolEvent>) -> Option<
    SetNewPrevHash,
>
    decreases events.len(),
{
    if events.len() == 0 {
        before
    } else {
        match events.last() {
            PoolEvent::PrevHash(tip, _) => Some(tip),
            PoolEvent::Job(_, _) => latest_tip(before, events.drop_last()),
        }
    }
}

/// As long as the bridge runs, the tip it holds is the one announced last.
pub proof fn lemma_bridge_tracks_latest_tip(b: BridgeView, events: Seq<PoolEvent>)
    ensures
        !after_pool_events(b, events).halted ==> !b.halted && after_pool_events(
            b,
            events,
        ).prev_hash == latest_tip(b.prev_hash, events),
    decreases events.len(),
{
    if events.len() > 0 {
        lemma_bridge_tracks_latest_tip(b, events.drop_last());
    }
}

/// Every notification that goes out after a run of messages carries the chain
/// tip that the pool announced last: its hash, its difficulty bits and its
/// earliest time. No notification carries a tip that a later one replaced.
pub proof fn lemma_broadcast_references_latest_tip(b: BridgeView, events: Seq<PoolEvent>)
    requires
        events.len() > 0,
    ensures
        last_outcome(b, events) matches JobOutcomeView::Broadcast(n) ==> (latest_tip(
            b.prev_hash,
            events,
        ) matches Some(tip) && n.prev_hash == tip.prev_hash && n.bits == tip.nbits && n.time
            == tip.min_ntime),
{
    lemma_bridge_tracks_latest_tip(b, events.drop_last());
}

/// A new chain tip retires every job announced before it: afterwards the
/// only job that devices may submit for is the one that went out with the
/// tip, if one did.
pub proof fn lemma_tip_retires_known_jobs(b: BridgeView, tip: SetNewPrevHash, target: Option<Target>)
    requires
        !b.halted,
        target is Some,
    ensures
        ({
            let (after, outcome) = prev_hash_step(b, tip, target);
            match outcome {
                JobOutcomeView::Broadcast(n) => after.active_jobs =~= seq![
                    KnownJob { job_id: n.job_id, version: n.version },
                ] && n.clean_jobs && n.job_id == tip.job_id,
                _ => after.active_jobs =~= Seq::<KnownJob>::empty(),
            }
        }),
{
    job_ids(b.future_jobs).index_of_first_ensures(tip.job_id);
}

/// A chain tip whose job has not arrived is kept and nothing goes out; when
/// the future job that the tip names arrives, exactly that job goes out,
/// under that tip.
pub proof fn lemma_tip_waits_for_its_job(
    b: BridgeView,
    tip: SetNewPrevHash,
    job: JobView,
    at_tip: Option<Target>,
    at_job: Option<Target>,
)
    requires
        !b.halted,
        !job_ids(b.future_jobs).contains(tip.job_id),
        at_tip is Some,
        target_ready(at_job),
        job.future_job,
        job.job_id == tip.job_id,
    ensures
        prev_hash_step(b, tip, at_tip).1 == JobOutcomeView::Buffered,
        job_step(prev_hash_step(b, tip, at_tip).0, job, at_job).1 == JobOutcomeView::Broadcast(
            notify_for(job, tip, true),
        ),
{
    job_ids(b.future_jobs).index_of_first_ensures(tip.job_id);
}

/// A share that names no job known to the bridge is discarded: nothing goes
/// up and the bridge does not change.
pub proof fn lemma_unknown_job_is_dropped(
    b: BridgeView,
    from: ExtranonceAssignment,
    share: SubmitView,
)
    requires
        !known_ids(b.active_jobs).contains(share.job_id),
    ensures
        !(submit_step(b, from, share).1 is Forward),
        submit_step(b, from, share).0 == b,
{
    known_ids(b.active_jobs).index_of_first_ensures(share.job_id);
}

/// A share goes up only from a live session of the bridge, with as many
/// rolled bytes as the session was given, for a job that is known.
pub proof fn lemma_forwarded_share_passed_every_test(
    b: BridgeView,
    from: ExtranonceAssignment,
    share: SubmitView,
)
    requires
        submit_step(b, from, share).1 is Forward,
    ensures
        !b.halted,
        holds_prefix(b, from),
        share.extranonce2.len() == b.space.spec_extranonce2_len(),
        known_ids(b.active_jobs).contains(share.job_id),
{
    known_ids(b.active_jobs).index_of_first_ensures(share.job_id);
}

} // verus!
