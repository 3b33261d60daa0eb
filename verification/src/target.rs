//! The network difficulty threshold and the lock-guarded slot that shares it.

use crate::compact::{compact_value, lemma_compact_target_value};
use crate::error::Error;
use crate::extranonce::{be_value, pow256};
use vstd::arithmetic::div_mod::lemma_fundamental_div_mod_converse;
use roles_logic_sv2::utils::Mutex;
use std::sync::Arc;
use vstd::prelude::*;

verus! {

/// A 32-byte big-endian threshold that a share's hash must not exceed.
#[derive(Clone, Copy, Debug, PartialEq, Eq)]
pub struct Target {
    pub bytes: [u8; 32],
}

/// `true` when every byte of `s` is zero.
pub open spec fn all_zero(s: Seq<u8>) -> bool {
    forall|i: int| 0 <= i < s.len() ==> s[i] == 0u8
}

impl Target {
    /// The bytes of the target, most significant first.
    pub open spec fn view(&self) -> Seq<u8> {
        self.bytes@
    }

    /// The all-zero value stands for "no target received yet".
    pub open spec fn is_sentinel(&self) -> bool {
        all_zero(self@)
    }

    /// The sentinel.
    pub fn sentinel() -> (t: Target)
        ensures
            t.is_sentinel(),
            t@.len() == 32,
    {
        Target { bytes: [0u8; 32] }
    }

    /// The number that the target writes.
    pub open spec fn value(&self) -> nat {
        be_value(self@)
    }

    /// The bytes of the target of difficulty one: `ffff` followed by 26
    /// zero bytes, written in 32 bytes.
    pub open spec fn spec_difficulty_one() -> Seq<u8> {
        Seq::new(
            32,
            |i: int|
                if i == 4 || i == 5 {
                    255u8
                } else {
                    0u8
                },
        )
    }

    /// The target of difficulty one.
    pub fn difficulty_one() -> (t: Target)
        ensures
            t@ == Target::spec_difficulty_one(),
    {
        let mut bytes = [0u8; 32];
        bytes.set(4, 255u8);
        bytes.set(5, 255u8);
        assert(bytes@ =~= Target::spec_difficulty_one());
        Target { bytes }
    }

    /// The target that goes with a difficulty: the target of difficulty one
    /// divided by the difficulty, rounded down. There is none for
    /// difficulty zero.
    pub fn for_difficulty(difficulty: u64) -> (r: Option<Target>)
        ensures
            difficulty == 0 ==> r is None,
            difficulty > 0 ==> (r matches Some(t) && t.value() == be_value(
                Target::spec_difficulty_one(),
            ) / (difficulty as nat)),
    {
        if difficulty == 0 {
            return None;
        }
        let one = Target::difficulty_one();
        Some(Target { bytes: divide(&one.bytes, difficulty) })
    }

    /// The exponent of a compact target: its leading byte.
    pub open spec fn compact_exponent(nbits: u32) -> int {
        nbits as int / 0x100_0000
    }

    /// The mantissa of a compact target: its three trailing bytes.
    pub open spec fn compact_mantissa(nbits: u32) -> nat {
        (nbits % 0x100_0000) as nat
    }

    /// The byte of weight 256 to the power `pos` in the target that a
    /// compact target stands for. The target is the mantissa shifted left
    /// by `exponent - 3` bytes (right, if that is negative); what falls
    /// outside the 32 bytes is dropped. A mantissa with its top bit set
    /// stands for no target at all: every byte is zero.
    pub open spec fn compact_byte(nbits: u32, pos: int) -> u8 {
        let k = pos - (Target::compact_exponent(nbits) - 3);
        if Target::compact_mantissa(nbits) > 0x7f_ffff || k < 0 || k > 2 {
            0u8
        } else {
            ((Target::compact_mantissa(nbits) / pow256(k as nat)) % 256) as u8
        }
    }

    /// The bytes of the target that a compact target stands for.
    pub open spec fn spec_from_compact(nbits: u32) -> Seq<u8> {
        Seq::new(32, |i: int| Target::compact_byte(nbits, 31 - i))
    }

    /// The network target that the difficulty bits of a chain tip stand for:
    /// the number `mantissa * 256^(exponent - 3)`, rounded down and cut to
    /// 32 bytes, or zero for a mantissa with its top bit set.
    pub fn from_compact(nbits: u32) -> (t: Target)
        ensures
            t@ == Target::spec_from_compact(nbits),
            t.value() == compact_value(nbits) % pow256(32),
    {
        proof {
            lemma_compact_target_value(nbits);
        }
        let exponent: usize = (nbits / 0x100_0000) as usize;
        let mantissa: u32 = nbits % 0x100_0000;
        let mut bytes = [0u8; 32];
        if mantissa <= 0x7f_ffff {
            let mut k: usize = 0;
            let mut rest: u32 = mantissa;
            proof {
                assert(pow256(0) == 1);
            }
            while k < 3
                invariant
                    k <= 3,
                    exponent == Target::compact_exponent(nbits),
                    mantissa == Target::compact_mantissa(nbits),
                    mantissa <= 0x7f_ffff,
                    exponent <= 255,
                    rest == mantissa as nat / pow256(k as nat),
                    forall|i: int|
                        0 <= i < 32 ==> bytes@[i] == (if 31 - i - (exponent - 3) < k {
                            Target::compact_byte(nbits, 31 - i)
                        } else {
                            0u8
                        }),
                decreases 3 - k,
            {
                proof {
                    reveal_with_fuel(pow256, 4);
                    assert(pow256(0) == 1 && pow256(1) == 256 && pow256(2) == 65536 && pow256(3)
                        == 16777216);
                    let m = mantissa as nat;
                    assert(m / 1 / 256 == m / 256);
                    assert(m / 256 / 256 == m / 65536);
                    assert(m / 65536 / 256 == m / 16777216);
                }
                let pos = exponent + k;
                if pos >= 3 && pos - 3 < 32 {
                    bytes.set(31 - (pos - 3), (rest % 256) as u8);
                }
                rest = rest / 256;
                k += 1;
            }
        }
        assert(bytes@ =~= Target::spec_from_compact(nbits));
        Target { bytes }
    }

    /// Whether a target has been received.
    pub fn is_initialized(&self) -> (b: bool)
        ensures
            b == !self.is_sentinel(),
    {
        let mut i: usize = 0;
        while i < 32
            invariant
                0 <= i <= 32,
                forall|j: int| 0 <= j < i ==> self.bytes@[j] == 0u8,
            decreases 32 - i,
        {
            if self.bytes[i] != 0 {
                return true;
            }
            i += 1;
        }
        false
    }
}

/// Long division of a 32-byte big-endian number by `d`.
fn divide(n: &[u8; 32], d: u64) -> (q: [u8; 32])
    requires
        d > 0,
    ensures
        be_value(q@) == be_value(n@) / (d as nat),
{
    let mut out = [0u8; 32];
    let mut rem: u64 = 0;
    let mut i: usize = 0;
    proof {
        assert(out@.take(0) =~= Seq::<u8>::empty());
        assert(n@.take(0) =~= Seq::<u8>::empty());
        assert(be_value(Seq::<u8>::empty()) == 0);
        assert(be_value(out@.take(0)) * d == 0) by (nonlinear_arith)
            requires
                be_value(out@.take(0)) == 0,
        ;
    }
    while i < 32
        invariant
            i <= 32,
            d > 0,
            rem < d,
            be_value(out@.take(i as int)) * d + rem == be_value(n@.take(i as int)),
        decreases 32 - i,
    {
        let cur: u128 = (rem as u128) * 256 + (n[i] as u128);
        let digit: u128 = cur / (d as u128);
        let next_rem: u128 = cur % (d as u128);
        proof {
            assert(cur < (d as u128) * 256);
            assert(digit < 256) by (nonlinear_arith)
                requires
                    cur < d * 256,
                    digit == cur / (d as u128),
                    d > 0,
            ;
            assert(cur == digit * d + next_rem) by (nonlinear_arith)
                requires
                    digit == cur / (d as u128),
                    next_rem == cur % (d as u128),
                    d > 0,
            ;
        }
        let ghost before = out@;
        let ghost q0 = be_value(out@.take(i as int));
        let ghost n0 = be_value(n@.take(i as int));
        let ghost rem0 = rem;
        out.set(i, digit as u8);
        rem = next_rem as u64;
        proof {
            assert(out@.take(i + 1).drop_last() =~= before.take(i as int));
            assert(n@.take(i + 1).drop_last() =~= n@.take(i as int));
            assert(be_value(out@.take(i + 1)) == q0 * 256 + digit);
            assert(be_value(n@.take(i + 1)) == n0 * 256 + n@[i as int]);
            assert((q0 * 256 + digit) * d + next_rem == (q0 * d + rem0) * 256 + n@[i as int])
                by (nonlinear_arith)
                requires
                    rem0 * 256 + n@[i as int] == digit * d + next_rem,
            ;
        }
        i += 1;
    }
    proof {
        assert(out@.take(32) =~= out@);
        assert(n@.take(32) =~= n@);
        lemma_fundamental_div_mod_converse(
            be_value(n@) as int,
            d as int,
            be_value(out@) as int,
            rem as int,
        );
    }
    out
}

/// The place where the live target is kept. Readers and the writer reach it
/// only through `load` and `store`.
pub struct TargetSlot {
    value: Target,
}

impl TargetSlot {
    pub closed spec fn view(&self) -> Target {
        self.value
    }

    pub fn new() -> (s: TargetSlot)
        ensures
            s@.is_sentinel(),
    {
        TargetSlot { value: Target::sentinel() }
    }

    pub fn store(&mut self, t: Target)
        ensures
            final(self)@ == stored(old(self)@, t),
    {
        self.value = t;
    }

    pub fn load(&self) -> (t: Target)
        ensures
            t == self@,
    {
        self.value
    }
}

/// What the slot holds after one `store`: the value stored, whole, whatever
/// was there before.
pub open spec fn stored(before: Target, written: Target) -> Target {
    written
}

/// What the slot holds after a run of `store` calls, in order.
pub open spec fn replay(before: Target, writes: Seq<Target>) -> Target
    decreases writes.len(),
{
    if writes.len() == 0 {
        before
    } else {
        stored(replay(before, writes.drop_last()), writes.last())
    }
}

/// A reader that loads after any run of writes sees the most recent write,
/// with all of its 32 bytes, and nothing of an earlier one.
pub proof fn lemma_reader_sees_latest_write(before: Target, writes: Seq<Target>)
    requires
        writes.len() > 0,
    ensures
        replay(before, writes) == writes.last(),
        forall|i: int| 0 <= i < 32 ==> replay(before, writes)@[i] == writes.last()@[i],
{
}

/// Before the first write a reader sees what the slot was made with.
pub proof fn lemma_reader_sees_initial_value(before: Target)
    ensures
        replay(before, Seq::<Target>::empty()) == before,
{
}

/// What a reader finds when it looks for the target.
#[derive(Clone, Copy, Debug, PartialEq, Eq)]
pub enum TargetPoll {
    /// A target has been written; here it is.
    Ready(Target),
    /// Only the sentinel is there: look again later.
    Pending,
    /// The lock is poisoned: the writer or a reader died holding it.
    Poisoned,
}

/// What a snapshot taken under the lock means to a reader that waits for the
/// first target. `None` stands for a poisoned lock.
pub open spec fn poll_of(snapshot: Option<Target>) -> TargetPoll {
    match snapshot {
        None => TargetPoll::Poisoned,
        Some(t) => if t.is_sentinel() {
            TargetPoll::Pending
        } else {
            TargetPoll::Ready(t)
        },
    }
}

/// Decides what a snapshot means to a reader that waits for the first target.
pub fn classify_snapshot(snapshot: Option<Target>) -> (p: TargetPoll)
    ensures
        p == poll_of(snapshot),
{
    match snapshot {
        None => TargetPoll::Poisoned,
        Some(t) => if t.is_initialized() {
            TargetPoll::Ready(t)
        } else {
            TargetPoll::Pending
        },
    }
}

#[verifier::external_type_specification]
#[verifier::external_body]
#[verifier::reject_recursive_types(T)]
pub struct ExMutex<T: ?Sized>(Mutex<T>);

/// What a reader gets from a snapshot taken under the lock. `None` stands for
/// a poisoned lock.
pub open spec fn read_of(snapshot: Option<Target>) -> Result<Target, Error> {
    match snapshot {
        Some(t) => Ok(t),
        None => Err(Error::LockPoisoned),
    }
}

/// What a writer gets once the lock has answered: `stored` says whether the
/// lock let the writer in.
pub open spec fn write_of(stored: bool) -> Result<(), Error> {
    if stored {
        Ok(())
    } else {
        Err(Error::LockPoisoned)
    }
}

/// Turns a snapshot taken under the lock into what a reader gets.
pub fn snapshot_result(snapshot: Option<Target>) -> (r: Result<Target, Error>)
    ensures
        r == read_of(snapshot),
{
    match snapshot {
        Some(t) => Ok(t),
        None => Err(Error::LockPoisoned),
    }
}

/// Turns the answer of the lock into what a writer gets.
pub fn store_result(stored: bool) -> (r: Result<(), Error>)
    ensures
        r == write_of(stored),
{
    if stored {
        Ok(())
    } else {
        Err(Error::LockPoisoned)
    }
}

/// A handle on the one slot that the tasks share. The slot is reached only
/// inside a critical section that lasts for a single `load` or `store`.
pub struct SharedTarget {
    inner: Arc<Mutex<TargetSlot>>,
    made_with: Ghost<Target>,
}

impl SharedTarget {
    /// The target that the slot held when it was made. This is a record
    /// that the handle carries beside the lock: nothing ties it to what the
    /// lock holds, then or now. What the slot holds is for the lock to say.
    pub closed spec fn initial(&self) -> Target {
        self.made_with@
    }

    /// `roles_logic_sv2::utils::Mutex::new`: puts the slot behind a lock.
    /// Nothing is claimed of the lock.
    #[verifier::external_body]
    fn lock_around(slot: TargetSlot) -> (m: Mutex<TargetSlot>) {
        Mutex::new(slot)
    }

    /// `Arc::clone`: a second pointer to the same lock. An `Arc` stands for
    /// what it points at, so the second pointer is equal to the first.
    #[verifier::external_body]
    fn same_lock(lock: &Arc<Mutex<TargetSlot>>) -> (r: Arc<Mutex<TargetSlot>>)
        ensures
            r == *lock,
    {
        Arc::clone(lock)
    }

    /// `roles_logic_sv2::utils::Mutex::safe_lock` around `TargetSlot::load`.
    /// `None` when the lock is poisoned. Other tasks may have written since
    /// any earlier call, so nothing is claimed of the value.
    #[verifier::external_body]
    fn locked_load(&self) -> (r: Option<Target>) {
        self.inner.safe_lock(|slot| slot.load()).ok()
    }

    /// `roles_logic_sv2::utils::Mutex::safe_lock` around `TargetSlot::store`.
    /// `false` when the lock is poisoned, in which case nothing was stored.
    #[verifier::external_body]
    fn locked_store(&self, t: Target) -> (stored: bool) {
        self.inner.safe_lock(|slot| slot.store(t)).is_ok()
    }

    /// A fresh shared slot, made holding the sentinel. The clause speaks of
    /// the record that the handle carries, not of the slot behind the lock,
    /// of which no contract can speak.
    pub fn new() -> (s: SharedTarget)
        ensures
            s.initial().is_sentinel(),
    {
        let slot = TargetSlot::new();
        let ghost first = slot@;
        SharedTarget { inner: Arc::new(SharedTarget::lock_around(slot)), made_with: Ghost(first) }
    }

    /// Another handle on the same slot, for another task.
    pub fn share(&self) -> (s: SharedTarget)
        ensures
            s == *self,
    {
        SharedTarget { inner: SharedTarget::same_lock(&self.inner), made_with: self.made_with }
    }

    /// Reads the slot in one critical section.
    pub fn read(&self) -> (r: Result<Target, Error>)
        ensures
            r is Err ==> r == Err::<Target, Error>(Error::LockPoisoned),
    {
        snapshot_result(self.locked_load())
    }

    /// Writes the slot in one critical section.
    pub fn write(&self, t: Target) -> (r: Result<(), Error>)
        ensures
            r is Err ==> r == Err::<(), Error>(Error::LockPoisoned),
    {
        store_result(self.locked_store(t))
    }

    /// Looks once for the first target. Whatever the slot held, a `Ready`
    /// answer never carries the sentinel.
    pub fn poll(&self) -> (p: TargetPoll)
        ensures
            p matches TargetPoll::Ready(t) ==> !t.is_sentinel(),
    {
        classify_snapshot(self.locked_load())
    }
}

} // verus!
