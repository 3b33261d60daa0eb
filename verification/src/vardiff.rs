//! The difficulty loop of one device: it watches how fast shares come in
//! and moves the device's difficulty so that they come at the rate wanted.

use crate::error::Error;
use crate::extranonce::be_value;
use crate::target::Target;
use vstd::prelude::*;

verus! {

/// The difficulty parameters of one device.
#[derive(Clone, Copy, Debug, PartialEq, Eq)]
pub struct DownstreamDifficultyConfig {
    /// How many shares a minute the device should find.
    pub shares_per_minute: u32,
    /// The length of the adjustment window, in milliseconds.
    pub window_ms: u64,
    /// By how many percent of the expected count the observed count may
    /// differ before the difficulty moves.
    pub threshold_percent: u32,
    /// The difficulty that the device starts with.
    pub difficulty: u64,
}

/// The message that tells one device its new difficulty.
#[derive(Clone, Copy, Debug, PartialEq, Eq)]
pub struct SetDifficulty {
    pub difficulty: u64,
    /// The threshold that goes with the difficulty.
    pub target: Target,
}

/// The state of the loop as the contracts see it.
#[verifier::ext_equal]
pub struct VardiffView {
    pub shares_per_minute: u32,
    pub window_ms: u64,
    pub threshold_percent: u32,
    /// The difficulty that the device works at.
    pub difficulty: u64,
    /// When the difficulty moved last, or when the loop began.
    pub last_update: u64,
    /// When shares came in, in the order they came.
    pub timestamps: Seq<u64>,
}

/// How many shares are expected in one window at the rate wanted.
pub open spec fn expected_shares(shares_per_minute: u32, window_ms: u64) -> nat {
    (shares_per_minute as nat * window_ms as nat) / 60000
}

/// The parameters leave something to measure.
pub open spec fn vardiff_wf(v: VardiffView) -> bool {
    &&& expected_shares(v.shares_per_minute, v.window_ms) >= 1
    &&& v.difficulty >= 1
}

/// `t` lies in the window that ends at `now`.
pub open spec fn in_window(t: u64, now: u64, window_ms: u64) -> bool {
    t <= now && now - t < window_ms
}

/// The timestamps that lie in the window that ends at `now`, in order.
pub open spec fn recent(timestamps: Seq<u64>, now: u64, window_ms: u64) -> Seq<u64>
    decreases timestamps.len(),
{
    if timestamps.len() == 0 {
        Seq::empty()
    } else {
        let rest = recent(timestamps.drop_last(), now, window_ms);
        if in_window(timestamps.last(), now, window_ms) {
            rest.push(timestamps.last())
        } else {
            rest
        }
    }
}

/// The observed count differs from the expected one by more than the
/// threshold allows.
pub open spec fn deviates(observed: nat, expected: nat, threshold_percent: u32) -> bool {
    if observed >= expected {
        (observed - expected) * 100 > threshold_percent * expected
    } else {
        (expected - observed) * 100 > threshold_percent * expected
    }
}

/// The difficulty at which the observed count would have been the expected
/// one: the old difficulty scaled by observed over expected and rounded
/// down. Where more shares came than expected the result is at least one
/// above the old difficulty, so that rounding never hides a rise. It is kept
/// between 1 and `u64::MAX`.
pub open spec fn retarget(difficulty: u64, observed: nat, expected: nat) -> u64
    recommends
        expected >= 1,
{
    let scaled = (difficulty as nat * observed) / expected;
    let moved = if observed > expected && scaled <= difficulty {
        difficulty + 1
    } else {
        scaled as int
    };
    if moved < 1 {
        1
    } else if moved > u64::MAX {
        u64::MAX
    } else {
        moved as u64
    }
}

/// How many shares lie in the window that ends at `now`.
pub open spec fn shares_in_window(v: VardiffView, now: u64) -> nat {
    recent(v.timestamps, now, v.window_ms).len()
}

/// How many shares are wanted in one window.
pub open spec fn shares_wanted(v: VardiffView) -> nat {
    expected_shares(v.shares_per_minute, v.window_ms)
}

/// The count in the window that ends at `now` is off the wanted one by more
/// than the threshold allows.
pub open spec fn off_target(v: VardiffView, now: u64) -> bool {
    deviates(shares_in_window(v, now), shares_wanted(v), v.threshold_percent)
}

/// A full window has passed since the difficulty moved last.
pub open spec fn may_update(v: VardiffView, now: u64) -> bool {
    now >= v.last_update && now - v.last_update >= v.window_ms
}

/// What one look at the clock does to the loop: shares that have left the
/// window are forgotten, and the difficulty moves if a full window has
/// passed since it moved last and the observed count is off by more than the
/// threshold. It then moves in every case but two: it cannot rise above
/// `u64::MAX` nor fall below 1. The second part is the new difficulty, if it
/// moved.
pub open spec fn evaluate_step(v: VardiffView, now: u64) -> (VardiffView, Option<u64>) {
    let kept = recent(v.timestamps, now, v.window_ms);
    let pruned = VardiffView { timestamps: kept, ..v };
    let expected = expected_shares(v.shares_per_minute, v.window_ms);
    let next = retarget(v.difficulty, kept.len(), expected);
    if may_update(v, now) && deviates(kept.len(), expected, v.threshold_percent) && next
        != v.difficulty {
        (VardiffView { difficulty: next, last_update: now, ..pruned }, Some(next))
    } else {
        (pruned, None)
    }
}

/// The difficulty moves at most once per window: after it has moved, no look
/// at the clock within the next window moves it again, however many shares
/// have come in since.
pub proof fn lemma_one_update_per_window(v: VardiffView, later: VardiffView, now: u64, again: u64)
    requires
        evaluate_step(v, now).1 is Some,
        later.last_update == evaluate_step(v, now).0.last_update,
        later.window_ms == v.window_ms,
        again < now || again - now < v.window_ms,
    ensures
        evaluate_step(later, again).1 is None,
{
}

/// Where more shares come in than wanted, beyond the threshold, the look at
/// the clock that ends the window raises the difficulty.
pub proof fn lemma_fast_shares_raise_difficulty(v: VardiffView, now: u64)
    requires
        vardiff_wf(v),
        may_update(v, now),
        v.difficulty < u64::MAX,
        recent(v.timestamps, now, v.window_ms).len() > expected_shares(
            v.shares_per_minute,
            v.window_ms,
        ),
        deviates(
            recent(v.timestamps, now, v.window_ms).len(),
            expected_shares(v.shares_per_minute, v.window_ms),
            v.threshold_percent,
        ),
    ensures
        evaluate_step(v, now).1 matches Some(next) && next > v.difficulty,
        evaluate_step(v, now).0.difficulty > v.difficulty,
{
}

/// Where fewer shares come in than wanted, beyond the threshold, the look at
/// the clock that ends the window lowers the difficulty, unless it is 1
/// already.
pub proof fn lemma_slow_shares_lower_difficulty(v: VardiffView, now: u64)
    requires
        vardiff_wf(v),
        may_update(v, now),
        v.difficulty > 1,
        recent(v.timestamps, now, v.window_ms).len() < expected_shares(
            v.shares_per_minute,
            v.window_ms,
        ),
        deviates(
            recent(v.timestamps, now, v.window_ms).len(),
            expected_shares(v.shares_per_minute, v.window_ms),
            v.threshold_percent,
        ),
    ensures
        evaluate_step(v, now).1 matches Some(next) && next < v.difficulty,
        evaluate_step(v, now).0.difficulty < v.difficulty,
{
    lemma_scaled_down(
        v.difficulty as nat,
        recent(v.timestamps, now, v.window_ms).len(),
        expected_shares(v.shares_per_minute, v.window_ms),
    );
}

/// The difficulty never moves against the deviation: it does not rise where
/// no more shares came than wanted, and does not fall where no fewer came.
pub proof fn lemma_difficulty_follows_the_rate(v: VardiffView, now: u64)
    requires
        vardiff_wf(v),
    ensures
        recent(v.timestamps, now, v.window_ms).len() <= expected_shares(
            v.shares_per_minute,
            v.window_ms,
        ) ==> evaluate_step(v, now).0.difficulty <= v.difficulty,
        recent(v.timestamps, now, v.window_ms).len() >= expected_shares(
            v.shares_per_minute,
            v.window_ms,
        ) ==> evaluate_step(v, now).0.difficulty >= v.difficulty,
{
    let observed = recent(v.timestamps, now, v.window_ms).len();
    let expected = expected_shares(v.shares_per_minute, v.window_ms);
    let d = v.difficulty as nat;
    if observed <= expected {
        assert((d * observed) / expected <= d) by (nonlinear_arith)
            requires
                observed <= expected,
                expected >= 1,
        ;
    }
    if observed >= expected {
        assert((d * observed) / expected >= d) by (nonlinear_arith)
            requires
                observed >= expected,
                expected >= 1,
        ;
    }
}

proof fn lemma_scaled_down(d: nat, observed: nat, expected: nat)
    requires
        observed < expected,
        d >= 1,
    ensures
        (d * observed) / expected < d,
{
    assert((d * observed) / expected < d) by (nonlinear_arith)
        requires
            observed < expected,
            d >= 1,
    ;
}

fn expected_count(shares_per_minute: u32, window_ms: u64) -> (e: u128)
    ensures
        e == expected_shares(shares_per_minute, window_ms),
        e < 0x1_0000_0000_0000_0000_0000_0000,
{
    assert((shares_per_minute as nat) * (window_ms as nat) < 0x1_0000_0000_0000_0000_0000_0000)
        by (nonlinear_arith)
        requires
            shares_per_minute < 0x1_0000_0000,
            window_ms < 0x1_0000_0000_0000_0000,
    ;
    (shares_per_minute as u128) * (window_ms as u128) / 60000
}

/// The difficulty loop of one device.
pub struct Vardiff {
    shares_per_minute: u32,
    window_ms: u64,
    threshold_percent: u32,
    difficulty: u64,
    last_update: u64,
    timestamps: Vec<u64>,
}

impl Vardiff {
    #[verifier::type_invariant]
    spec fn inv(self) -> bool {
        vardiff_wf(self@)
    }

    /// The state of the loop as the contracts see it.
    pub closed spec fn view(&self) -> VardiffView {
        VardiffView {
            shares_per_minute: self.shares_per_minute,
            window_ms: self.window_ms,
            threshold_percent: self.threshold_percent,
            difficulty: self.difficulty,
            last_update: self.last_update,
            timestamps: self.timestamps@,
        }
    }

    /// A loop that begins at `now` with no share seen. Parameters that leave
    /// nothing to measure are refused.
    pub fn new(config: DownstreamDifficultyConfig, now: u64) -> (r: Result<Vardiff, Error>)
        ensures
            match r {
                Ok(v) => v@ == (VardiffView {
                    shares_per_minute: config.shares_per_minute,
                    window_ms: config.window_ms,
                    threshold_percent: config.threshold_percent,
                    difficulty: config.difficulty,
                    last_update: now,
                    timestamps: Seq::empty(),
                }) && vardiff_wf(v@),
                Err(e) => e == Error::InvalidConfiguration,
            },
            r is Ok <==> config.difficulty >= 1 && expected_shares(
                config.shares_per_minute,
                config.window_ms,
            ) >= 1,
    {
        let expected = expected_count(config.shares_per_minute, config.window_ms);
        if config.difficulty == 0 || expected == 0 {
            return Err(Error::InvalidConfiguration);
        }
        let v = Vardiff {
            shares_per_minute: config.shares_per_minute,
            window_ms: config.window_ms,
            threshold_percent: config.threshold_percent,
            difficulty: config.difficulty,
            last_update: now,
            timestamps: Vec::new(),
        };
        assert(v@.timestamps =~= Seq::<u64>::empty());
        Ok(v)
    }

    /// The difficulty that the device works at.
    pub fn difficulty(&self) -> (d: u64)
        ensures
            d == self@.difficulty,
            d >= 1,
    {
        proof {
            use_type_invariant(self);
        }
        self.difficulty
    }

    /// Notes that a share came in at `now`.
    pub fn record_share(&mut self, now: u64)
        ensures
            final(self)@ == (VardiffView {
                timestamps: old(self)@.timestamps.push(now),
                ..old(self)@
            }),
    {
        proof {
            use_type_invariant(&*self);
        }
        let mut timestamps: Vec<u64> = Vec::new();
        core::mem::swap(&mut self.timestamps, &mut timestamps);
        timestamps.push(now);
        self.timestamps = timestamps;
    }

    /// Looks at the clock. Returns the message for the device when the
    /// difficulty moves. Once a full window has passed, a count beyond the
    /// threshold above the wanted one always raises the difficulty, and one
    /// below always lowers it, as far as the limits 1 and `u64::MAX` allow.
    pub fn evaluate(&mut self, now: u64) -> (r: Option<SetDifficulty>)
        ensures
            final(self)@ == evaluate_step(old(self)@, now).0,
            match r {
                Some(m) => evaluate_step(old(self)@, now).1 == Some(m.difficulty)
                    && m.target.value() == be_value(Target::spec_difficulty_one()) / (
                    m.difficulty as nat),
                None => evaluate_step(old(self)@, now).1 is None,
            },
            may_update(old(self)@, now) && off_target(old(self)@, now) && shares_in_window(
                old(self)@,
                now,
            ) > shares_wanted(old(self)@) && old(self)@.difficulty < u64::MAX ==> (r matches Some(
                m,
            ) && m.difficulty > old(self)@.difficulty),
            may_update(old(self)@, now) && off_target(old(self)@, now) && shares_in_window(
                old(self)@,
                now,
            ) < shares_wanted(old(self)@) && old(self)@.difficulty > 1 ==> (r matches Some(m)
                && m.difficulty < old(self)@.difficulty),
    {
        proof {
            use_type_invariant(&*self);
            if may_update(self@, now) && off_target(self@, now) {
                if shares_in_window(self@, now) > shares_wanted(self@) && self@.difficulty
                    < u64::MAX {
                    lemma_fast_shares_raise_difficulty(self@, now);
                }
                if shares_in_window(self@, now) < shares_wanted(self@) && self@.difficulty > 1 {
                    lemma_slow_shares_lower_difficulty(self@, now);
                }
            }
        }
        let ghost all = self.timestamps@;
        let window_ms = self.window_ms;
        let mut kept: Vec<u64> = Vec::new();
        let mut i: usize = 0;
        while i < self.timestamps.len()
            invariant
                i <= all.len(),
                all == self.timestamps@,
                kept@ == recent(all.take(i as int), now, window_ms),
            decreases all.len() - i,
        {
            let t = self.timestamps[i];
            proof {
                assert(all.take(i + 1).drop_last() =~= all.take(i as int));
            }
            if t <= now && now - t < window_ms {
                kept.push(t);
            }
            i += 1;
        }
        proof {
            assert(all.take(i as int) =~= all);
        }
        let observed: u128 = kept.len() as u128;
        let expected = expected_count(self.shares_per_minute, self.window_ms);
        let difficulty = self.difficulty;
        proof {
            assert((difficulty as nat) * (observed as nat) < 0x1_0000_0000_0000_0000_0000_0000_0000_0000)
                by (nonlinear_arith)
                requires
                    difficulty < 0x1_0000_0000_0000_0000,
                    observed < 0x1_0000_0000_0000_0000,
            ;
            assert((self.threshold_percent as nat) * (expected as nat)
                < 0x1_0000_0000_0000_0000_0000_0000_0000_0000) by (nonlinear_arith)
                requires
                    self.threshold_percent < 0x1_0000_0000,
                    expected < 0x1_0000_0000_0000_0000_0000_0000,
            ;
        }
        let scaled: u128 = (difficulty as u128) * observed / expected;
        let moved: u128 = if observed > expected && scaled <= difficulty as u128 {
            difficulty as u128 + 1
        } else {
            scaled
        };
        let next: u64 = if moved < 1 {
            1
        } else if moved > u64::MAX as u128 {
            u64::MAX
        } else {
            moved as u64
        };
        let gap: u128 = if observed >= expected {
            observed - expected
        } else {
            expected - observed
        };
        let off = gap * 100 > (self.threshold_percent as u128) * expected;
        let due = now >= self.last_update && now - self.last_update >= window_ms;
        if due && off && next != difficulty {
            *self = Vardiff {
                shares_per_minute: self.shares_per_minute,
                window_ms: self.window_ms,
                threshold_percent: self.threshold_percent,
                difficulty: next,
                last_update: now,
                timestamps: kept,
            };
            assert(self@ =~= evaluate_step(old(self)@, now).0);
            let target = Target::for_difficulty(next).unwrap();
            Some(SetDifficulty { difficulty: next, target })
        } else {
            self.timestamps = kept;
            assert(self@ =~= evaluate_step(old(self)@, now).0);
            None
        }
    }
}

} // verus!
