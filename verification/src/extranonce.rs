//! The extranonce space that the pool grants, and its partition into
//! session prefixes.

use crate::error::Error;
use vstd::prelude::*;

verus! {

/// The space of `total_len` bytes that the pool grants once per connection,
/// split into a leading prefix that tells sessions apart and a remainder that
/// each device rolls on its own.
#[derive(Clone, Copy, Debug, PartialEq, Eq)]
pub struct ExtendedExtranonce {
    total_len: usize,
    prefix_len: usize,
}

impl ExtendedExtranonce {
    #[verifier::type_invariant]
    spec fn inv(self) -> bool {
        1 <= self.prefix_len <= self.total_len
    }

    /// The length of the whole space, in bytes.
    pub closed spec fn spec_total_len(self) -> nat {
        self.total_len as nat
    }

    /// The length of the part that tells sessions apart.
    pub closed spec fn spec_prefix_len(self) -> nat {
        self.prefix_len as nat
    }

    /// The length of the part that a device rolls.
    pub open spec fn spec_extranonce2_len(self) -> nat {
        (self.spec_total_len() - self.spec_prefix_len()) as nat
    }

    /// The space of `total_len` bytes in which every device rolls
    /// `extranonce2_len` bytes and the rest tells sessions apart.
    pub closed spec fn split(total_len: usize, extranonce2_len: usize) -> ExtendedExtranonce
        recommends
            extranonce2_len < total_len,
    {
        ExtendedExtranonce { total_len, prefix_len: (total_len - extranonce2_len) as usize }
    }

    /// Splits a space of `total_len` bytes so that every device keeps
    /// `extranonce2_len` bytes to roll and the rest tells sessions apart.
    /// A space that leaves no byte for the prefix is refused.
    pub fn new(total_len: usize, extranonce2_len: usize) -> (r: Result<ExtendedExtranonce, Error>)
        ensures
            extranonce2_len < total_len ==> (r matches Ok(e) && e == ExtendedExtranonce::split(
                total_len,
                extranonce2_len,
            ) && e.spec_total_len() == total_len && e.spec_prefix_len() == total_len
                - extranonce2_len),
            extranonce2_len >= total_len ==> r == Err::<ExtendedExtranonce, Error>(
                Error::ExtranonceTooSmall,
            ),
    {
        if extranonce2_len < total_len {
            Ok(ExtendedExtranonce { total_len, prefix_len: total_len - extranonce2_len })
        } else {
            Err(Error::ExtranonceTooSmall)
        }
    }

    /// Whether two spaces are split alike.
    pub fn same_as(&self, other: &ExtendedExtranonce) -> (b: bool)
        ensures
            b == (*self == *other),
    {
        self.total_len == other.total_len && self.prefix_len == other.prefix_len
    }

    pub fn total_len(&self) -> (n: usize)
        ensures
            n == self.spec_total_len(),
    {
        self.total_len
    }

    pub fn prefix_len(&self) -> (n: usize)
        ensures
            n == self.spec_prefix_len(),
            n >= 1,
    {
        proof {
            use_type_invariant(self);
        }
        self.prefix_len
    }

    pub fn extranonce2_len(&self) -> (n: usize)
        ensures
            n == self.spec_extranonce2_len(),
    {
        proof {
            use_type_invariant(self);
        }
        self.total_len - self.prefix_len
    }
}

/// 256 to the power `n`.
pub open spec fn pow256(n: nat) -> nat
    decreases n,
{
    if n == 0 {
        1
    } else {
        256 * pow256((n - 1) as nat)
    }
}

/// How many prefixes a prefix of `prefix_len` bytes offers. A prefix is kept
/// in 64 bits, so a prefix of eight bytes or more offers `u64::MAX` of them.
pub open spec fn capacity(prefix_len: nat) -> nat {
    if prefix_len >= 8 {
        u64::MAX as nat
    } else {
        pow256(prefix_len)
    }
}

/// The `len` bytes that write `v` most significant byte first.
pub open spec fn be_bytes(v: nat, len: nat) -> Seq<u8>
    decreases len,
{
    if len == 0 {
        Seq::empty()
    } else {
        be_bytes(v / 256, (len - 1) as nat).push((v % 256) as u8)
    }
}

/// The number that `s` writes, most significant byte first.
pub open spec fn be_value(s: Seq<u8>) -> nat
    decreases s.len(),
{
    if s.len() == 0 {
        0
    } else {
        be_value(s.drop_last()) * 256 + s.last() as nat
    }
}

/// `true` when `v` can be written in `len` bytes.
pub open spec fn fits(v: nat, len: nat) -> bool
    decreases len,
{
    if len == 0 {
        v == 0
    } else {
        fits(v / 256, (len - 1) as nat)
    }
}

/// Writing a number takes exactly the bytes asked for.
pub proof fn lemma_be_bytes_len(v: nat, len: nat)
    ensures
        be_bytes(v, len).len() == len,
    decreases len,
{
    if len > 0 {
        lemma_be_bytes_len(v / 256, (len - 1) as nat);
    }
}

/// Reading back what was written gives the number, when it fits.
pub proof fn lemma_be_round_trip(v: nat, len: nat)
    requires
        fits(v, len),
    ensures
        be_value(be_bytes(v, len)) == v,
    decreases len,
{
    if len > 0 {
        let rest = be_bytes(v / 256, (len - 1) as nat);
        lemma_be_round_trip(v / 256, (len - 1) as nat);
        assert(be_bytes(v, len).drop_last() =~= rest);
        assert(be_bytes(v, len).last() == (v % 256) as u8);
    }
}

/// Every number below the capacity of a prefix can be written in it.
pub proof fn lemma_capacity_fits(v: nat, len: nat)
    requires
        v < capacity(len),
    ensures
        fits(v, len),
    decreases len,
{
    if len == 0 {
    } else if len >= 8 {
        lemma_wide_fits(v, len);
    } else {
        assert(v / 256 < pow256((len - 1) as nat));
        lemma_capacity_fits(v / 256, (len - 1) as nat);
    }
}

proof fn lemma_wide_fits(v: nat, len: nat)
    requires
        v <= u64::MAX,
        len >= 8,
    ensures
        fits(v, len),
    decreases len,
{
    if len == 8 {
        reveal_with_fuel(fits, 9);
        assert(v / 256 / 256 / 256 / 256 / 256 / 256 / 256 / 256 == 0);
    } else {
        lemma_wide_fits(v / 256, (len - 1) as nat);
    }
}

/// Two different prefixes of one space are written differently.
pub proof fn lemma_prefix_bytes_distinct(a: nat, b: nat, len: nat)
    requires
        a < capacity(len),
        b < capacity(len),
        a != b,
    ensures
        be_bytes(a, len) != be_bytes(b, len),
{
    lemma_capacity_fits(a, len);
    lemma_capacity_fits(b, len);
    lemma_be_round_trip(a, len);
    lemma_be_round_trip(b, len);
}

/// The sub-range of the space that one session holds: every extranonce that
/// starts with the session's prefix.
#[derive(Clone, Copy, Debug, PartialEq, Eq)]
pub struct ExtranonceAssignment {
    prefix: u64,
    space: ExtendedExtranonce,
}

impl ExtranonceAssignment {
    #[verifier::type_invariant]
    spec fn inv(self) -> bool {
        self.wf()
    }

    /// The prefix lies within what the space offers.
    pub open spec fn wf(self) -> bool {
        &&& self.spec_prefix() < capacity(self.spec_space().spec_prefix_len())
        &&& 1 <= self.spec_space().spec_prefix_len() <= self.spec_space().spec_total_len()
    }

    /// The prefix as a number.
    pub closed spec fn spec_prefix(self) -> nat {
        self.prefix as nat
    }

    /// The space that the prefix was drawn from.
    pub closed spec fn spec_space(self) -> ExtendedExtranonce {
        self.space
    }

    /// The assignment of `prefix` in `space`.
    pub closed spec fn of(space: ExtendedExtranonce, prefix: nat) -> ExtranonceAssignment
        recommends
            prefix < capacity(space.spec_prefix_len()),
    {
        ExtranonceAssignment { prefix: prefix as u64, space }
    }

    /// The bytes that start every extranonce of the session.
    pub open spec fn spec_prefix_bytes(self) -> Seq<u8> {
        be_bytes(self.spec_prefix(), self.spec_space().spec_prefix_len())
    }

    /// The full extranonce that the session forms from what its device rolled.
    pub open spec fn spec_extranonce(self, extranonce2: Seq<u8>) -> Seq<u8> {
        self.spec_prefix_bytes() + extranonce2
    }

    pub fn prefix(&self) -> (p: u64)
        ensures
            p == self.spec_prefix(),
    {
        self.prefix
    }

    pub fn space(&self) -> (s: ExtendedExtranonce)
        ensures
            s == self.spec_space(),
    {
        self.space
    }

    /// The length of what the device rolls.
    pub fn extranonce2_len(&self) -> (n: usize)
        ensures
            n == self.spec_space().spec_extranonce2_len(),
    {
        self.space.extranonce2_len()
    }

    /// The bytes that start every extranonce of the session.
    pub fn prefix_bytes(&self) -> (out: Vec<u8>)
        ensures
            out@ == self.spec_prefix_bytes(),
            out@.len() == self.spec_space().spec_prefix_len(),
    {
        let len = self.space.prefix_len();
        let ghost v0 = self.prefix as nat;
        let mut out: Vec<u8> = Vec::new();
        let mut k: usize = 0;
        while k < len
            invariant
                k <= len,
                out@.len() == k,
                forall|j: int| 0 <= j < k ==> out@[j] == 0u8,
            decreases len - k,
        {
            out.push(0u8);
            k += 1;
        }
        let mut cur: u64 = self.prefix;
        let mut i: usize = len;
        proof {
            lemma_be_bytes_len(v0, len as nat);
            assert(be_bytes(v0, len as nat) =~= be_bytes(cur as nat, i as nat) + out@.subrange(
                i as int,
                len as int,
            ));
        }
        while i > 0
            invariant
                i <= len,
                out@.len() == len,
                be_bytes(v0, len as nat) =~= be_bytes(cur as nat, i as nat) + out@.subrange(
                    i as int,
                    len as int,
                ),
            decreases i,
        {
            let ghost before = out@;
            let ghost m = cur as nat;
            i -= 1;
            out.set(i, (cur % 256) as u8);
            cur = cur / 256;
            proof {
                lemma_be_bytes_len(m, (i + 1) as nat);
                lemma_be_bytes_len(cur as nat, i as nat);
                assert(be_bytes(m, (i + 1) as nat) == be_bytes(m / 256, i as nat).push(
                    (m % 256) as u8,
                ));
                assert(out@.subrange(i as int, len as int) =~= seq![(m % 256) as u8]
                    + before.subrange(i + 1, len as int));
            }
        }
        proof {
            assert(be_bytes(cur as nat, 0) =~= Seq::<u8>::empty());
            assert(out@ =~= out@.subrange(0, len as int));
        }
        out
    }

    /// The full extranonce for what the device rolled, when that has the
    /// length the space leaves to a device.
    pub fn extranonce(&self, extranonce2: &Vec<u8>) -> (r: Option<Vec<u8>>)
        ensures
            extranonce2@.len() == self.spec_space().spec_extranonce2_len() ==> (r matches Some(e)
                && e@ == self.spec_extranonce(extranonce2@)
                && e@.len() == self.spec_space().spec_total_len()),
            extranonce2@.len() != self.spec_space().spec_extranonce2_len() ==> r is None,
    {
        if extranonce2.len() != self.extranonce2_len() {
            return None;
        }
        let mut out = self.prefix_bytes();
        let ghost head = out@;
        let mut i: usize = 0;
        while i < extranonce2.len()
            invariant
                i <= extranonce2@.len(),
                out@ =~= head + extranonce2@.subrange(0, i as int),
            decreases extranonce2@.len() - i,
        {
            out.push(extranonce2[i]);
            i += 1;
        }
        proof {
            use_type_invariant(self);
            assert(extranonce2@.subrange(0, i as int) =~= extranonce2@);
            assert(out@ =~= self.spec_extranonce(extranonce2@));
        }
        Some(out)
    }
}

/// The lengths of a split space: the whole is `total_len` bytes, of which
/// devices roll `extranonce2_len` and the rest is the prefix.
pub proof fn lemma_split_lengths(total_len: usize, extranonce2_len: usize)
    requires
        extranonce2_len < total_len,
    ensures
        ExtendedExtranonce::split(total_len, extranonce2_len).spec_total_len() == total_len,
        ExtendedExtranonce::split(total_len, extranonce2_len).spec_prefix_len() == total_len
            - extranonce2_len,
        ExtendedExtranonce::split(total_len, extranonce2_len).spec_extranonce2_len()
            == extranonce2_len,
{
}

/// The assignment of a prefix that the space offers holds that prefix, in
/// that space.
pub proof fn lemma_assignment_of(space: ExtendedExtranonce, prefix: nat)
    requires
        prefix < capacity(space.spec_prefix_len()),
    ensures
        ExtranonceAssignment::of(space, prefix).spec_prefix() == prefix,
        ExtranonceAssignment::of(space, prefix).spec_space() == space,
{
    lemma_capacity_bound(space.spec_prefix_len());
}

/// No space offers more prefixes than 64 bits can tell apart.
pub proof fn lemma_capacity_bound(prefix_len: nat)
    ensures
        capacity(prefix_len) <= u64::MAX,
{
    reveal_with_fuel(pow256, 9);
}

/// Two sessions with different prefixes in one space never form the same
/// extranonce, whatever their devices roll: their sub-ranges do not overlap.
pub proof fn lemma_assignments_never_overlap(
    a: ExtranonceAssignment,
    b: ExtranonceAssignment,
    rolled_a: Seq<u8>,
    rolled_b: Seq<u8>,
)
    requires
        a.wf(),
        b.wf(),
        a.spec_space() == b.spec_space(),
        a.spec_prefix() != b.spec_prefix(),
    ensures
        a.spec_extranonce(rolled_a) != b.spec_extranonce(rolled_b),
{
    let len = a.spec_space().spec_prefix_len();
    lemma_prefix_bytes_distinct(a.spec_prefix(), b.spec_prefix(), len);
    lemma_be_bytes_len(a.spec_prefix(), len);
    lemma_be_bytes_len(b.spec_prefix(), len);
    let ea = a.spec_extranonce(rolled_a);
    let eb = b.spec_extranonce(rolled_b);
    if ea == eb {
        assert(ea.subrange(0, len as int) =~= a.spec_prefix_bytes());
        assert(eb.subrange(0, len as int) =~= b.spec_prefix_bytes());
    }
}

/// `true` when `v` is the least prefix below `cap` that no live session holds.
pub open spec fn is_least_free(live: Set<nat>, cap: nat, v: nat) -> bool {
    &&& v < cap
    &&& !live.contains(v)
    &&& forall|w: nat| w < v ==> live.contains(w)
}

/// `true` when some prefix below `cap` is held by no live session.
pub open spec fn has_room(live: Set<nat>, cap: nat) -> bool {
    exists|v: nat| v < cap && !live.contains(v)
}

/// The least prefix below `cap` that no live session holds, when there is room.
pub open spec fn least_free(live: Set<nat>, cap: nat) -> nat {
    choose|v: nat| is_least_free(live, cap, v)
}

/// The live prefixes after one more session has asked for a prefix.
pub open spec fn after_assign(live: Set<nat>, cap: nat) -> Set<nat> {
    if has_room(live, cap) {
        live.insert(least_free(live, cap))
    } else {
        live
    }
}

/// The live prefixes after `n` more sessions have asked for a prefix and
/// none has left.
pub open spec fn after_assigns(live: Set<nat>, cap: nat, n: nat) -> Set<nat>
    decreases n,
{
    if n == 0 {
        live
    } else {
        after_assign(after_assigns(live, cap, (n - 1) as nat), cap)
    }
}

/// Where a prefix is free, a least free prefix exists.
pub proof fn lemma_least_free_exists(live: Set<nat>, cap: nat, v: nat)
    requires
        v < cap,
        !live.contains(v),
    ensures
        is_least_free(live, cap, least_free(live, cap)),
        least_free(live, cap) <= v,
    decreases v,
{
    if forall|w: nat| w < v ==> live.contains(w) {
        assert(is_least_free(live, cap, v));
    } else {
        let w = choose|w: nat| w < v && !live.contains(w);
        lemma_least_free_exists(live, cap, w);
    }
    let m = least_free(live, cap);
    if m > v {
        assert(live.contains(v));
    }
}

/// The least free prefix is the only one of its kind.
pub proof fn lemma_least_free_unique(live: Set<nat>, cap: nat, v: nat, w: nat)
    requires
        is_least_free(live, cap, v),
        is_least_free(live, cap, w),
    ensures
        v == w,
{
    if v < w {
        assert(live.contains(v));
    }
    if w < v {
        assert(live.contains(w));
    }
}

/// After `n` sessions have asked in a row, every prefix below `n` that the
/// space offers is live.
pub proof fn lemma_assigns_fill_from_below(live: Set<nat>, cap: nat, n: nat)
    ensures
        live.subset_of(after_assigns(live, cap, n)),
        forall|v: nat| v < n && v < cap ==> after_assigns(live, cap, n).contains(v),
    decreases n,
{
    if n > 0 {
        let m = (n - 1) as nat;
        let before = after_assigns(live, cap, m);
        lemma_assigns_fill_from_below(live, cap, m);
        if m < cap && !before.contains(m) {
            lemma_least_free_exists(before, cap, m);
            let least = least_free(before, cap);
            if least < m {
                assert(before.contains(least));
            }
        }
    }
}

/// Once a session has left, its prefix is free again at once, and it is
/// handed out again after at most `prefix + 1` further requests.
pub proof fn lemma_released_prefix_is_reassigned(live: Set<nat>, cap: nat, prefix: nat)
    requires
        prefix < cap,
    ensures
        !live.remove(prefix).contains(prefix),
        has_room(live.remove(prefix), cap),
        after_assigns(live.remove(prefix), cap, prefix + 1).contains(prefix),
{
    lemma_assigns_fill_from_below(live.remove(prefix), cap, prefix + 1);
}

/// A session asks for a prefix, or a session ends and gives its prefix back.
pub enum PartitionEvent {
    Subscribe(nat),
    Unsubscribe(nat),
}

/// Who holds what: the live prefixes, and for each live session its prefix.
pub struct Partition {
    pub live: Set<nat>,
    pub holder: Map<nat, nat>,
}

/// The partition before any session has come.
pub open spec fn empty_partition() -> Partition {
    Partition { live: Set::empty(), holder: Map::empty() }
}

/// What one event does to the partition. A session that asks gets the least
/// free prefix; one that holds a prefix already, or comes when the space is
/// full, gets none. A session that ends gives back what it holds.
pub open spec fn partition_step(p: Partition, cap: nat, event: PartitionEvent) -> Partition {
    match event {
        PartitionEvent::Subscribe(session) => if !p.holder.contains_key(session) && has_room(
            p.live,
            cap,
        ) {
            Partition {
                live: after_assign(p.live, cap),
                holder: p.holder.insert(session, least_free(p.live, cap)),
            }
        } else {
            p
        },
        PartitionEvent::Unsubscribe(session) => if p.holder.contains_key(session) {
            Partition {
                live: p.live.remove(p.holder[session]),
                holder: p.holder.remove(session),
            }
        } else {
            p
        },
    }
}

/// The partition after a run of events, in order.
pub open spec fn after_partition_events(p: Partition, cap: nat, events: Seq<PartitionEvent>)
    -> Partition
    decreases events.len(),
{
    if events.len() == 0 {
        p
    } else {
        partition_step(after_partition_events(p, cap, events.drop_last()), cap, events.last())
    }
}

/// Every live session holds a live prefix of the space, and no two live
/// sessions hold the same one.
pub open spec fn partition_wf(p: Partition, cap: nat) -> bool {
    &&& forall|s: nat| #[trigger]
        p.holder.contains_key(s) ==> p.live.contains(p.holder[s]) && p.holder[s] < cap
    &&& forall|s: nat, t: nat|
        #![trigger p.holder[s], p.holder[t]]
        p.holder.contains_key(s) && p.holder.contains_key(t) && s != t ==> p.holder[s]
            != p.holder[t]
}

/// One event keeps the partition sound.
pub proof fn lemma_partition_step_keeps_wf(p: Partition, cap: nat, event: PartitionEvent)
    requires
        partition_wf(p, cap),
    ensures
        partition_wf(partition_step(p, cap, event), cap),
{
    let q = partition_step(p, cap, event);
    match event {
        PartitionEvent::Subscribe(session) => {
            if !p.holder.contains_key(session) && has_room(p.live, cap) {
                let w = choose|v: nat| v < cap && !p.live.contains(v);
                lemma_least_free_exists(p.live, cap, w);
                let prefix = least_free(p.live, cap);
                assert forall|s: nat| #[trigger] q.holder.contains_key(s) implies q.live.contains(
                    q.holder[s],
                ) && q.holder[s] < cap by {
                    if s != session {
                        assert(p.holder.contains_key(s));
                    }
                }
                assert forall|s: nat, t: nat|
                    #![trigger q.holder[s], q.holder[t]]
                    q.holder.contains_key(s) && q.holder.contains_key(t) && s != t implies q.holder[s]
                        != q.holder[t] by {
                    if s != session {
                        assert(p.holder.contains_key(s));
                    }
                    if t != session {
                        assert(p.holder.contains_key(t));
                    }
                }
            }
        },
        PartitionEvent::Unsubscribe(session) => {
            if p.holder.contains_key(session) {
                assert forall|s: nat| #[trigger] q.holder.contains_key(s) implies q.live.contains(
                    q.holder[s],
                ) && q.holder[s] < cap by {
                    assert(p.holder.contains_key(s));
                    assert(p.holder[s] != p.holder[session]);
                }
                assert forall|s: nat, t: nat|
                    #![trigger q.holder[s], q.holder[t]]
                    q.holder.contains_key(s) && q.holder.contains_key(t) && s != t implies q.holder[s]
                        != q.holder[t] by {
                    assert(p.holder.contains_key(s));
                    assert(p.holder.contains_key(t));
                }
            }
        },
    }
}

/// Whatever sessions come and go, in whatever order, no two sessions that
/// are live at the same time hold the same prefix, and every prefix held is
/// one that the space offers.
pub proof fn lemma_live_sessions_hold_distinct_prefixes(cap: nat, events: Seq<PartitionEvent>)
    ensures
        partition_wf(after_partition_events(empty_partition(), cap, events), cap),
    decreases events.len(),
{
    if events.len() > 0 {
        lemma_live_sessions_hold_distinct_prefixes(cap, events.drop_last());
        lemma_partition_step_keeps_wf(
            after_partition_events(empty_partition(), cap, events.drop_last()),
            cap,
            events.last(),
        );
    }
}

/// When a session ends, the prefix it held is free the moment the event is
/// handled.
pub proof fn lemma_unsubscribe_frees_prefix(p: Partition, cap: nat, session: nat)
    requires
        partition_wf(p, cap),
        p.holder.contains_key(session),
    ensures
        !partition_step(p, cap, PartitionEvent::Unsubscribe(session)).live.contains(
            p.holder[session],
        ),
        !partition_step(p, cap, PartitionEvent::Unsubscribe(session)).holder.contains_key(
            session,
        ),
        has_room(partition_step(p, cap, PartitionEvent::Unsubscribe(session)).live, cap),
{
}

proof fn lemma_remove_keeps_rest(s: Seq<u64>, i: int)
    requires
        0 <= i < s.len(),
        s.no_duplicates(),
    ensures
        s.remove(i).no_duplicates(),
        forall|v: u64| #[trigger] s.remove(i).contains(v) <==> (s.contains(v) && v != s[i]),
{
    let r = s.remove(i);
    assert forall|a: int, b: int| 0 <= a < r.len() && 0 <= b < r.len() && a != b implies r[a]
        != r[b] by {
        let a2 = if a < i { a } else { a + 1 };
        let b2 = if b < i { b } else { b + 1 };
        assert(r[a] == s[a2]);
        assert(r[b] == s[b2]);
    }
    assert forall|v: u64| #[trigger] r.contains(v) <==> (s.contains(v) && v != s[i]) by {
        if r.contains(v) {
            let j = choose|j: int| 0 <= j < r.len() && r[j] == v;
            let j2 = if j < i { j } else { j + 1 };
            assert(s[j2] == v);
        }
        if s.contains(v) && v != s[i] {
            let k = choose|k: int| 0 <= k < s.len() && s[k] == v;
            let k2 = if k < i { k } else { k - 1 };
            assert(r[k2] == v);
        }
    }
}

fn capacity_for(prefix_len: usize) -> (c: u64)
    ensures
        c == capacity(prefix_len as nat),
{
    proof {
        reveal_with_fuel(pow256, 8);
    }
    if prefix_len >= 8 {
        u64::MAX
    } else if prefix_len == 0 {
        1
    } else if prefix_len == 1 {
        256
    } else if prefix_len == 2 {
        65536
    } else if prefix_len == 3 {
        16777216
    } else if prefix_len == 4 {
        4294967296
    } else if prefix_len == 5 {
        1099511627776
    } else if prefix_len == 6 {
        281474976710656
    } else {
        72057594037927936
    }
}

fn holds(list: &Vec<u64>, v: u64) -> (b: bool)
    ensures
        b == list@.contains(v),
{
    let mut i: usize = 0;
    while i < list.len()
        invariant
            i <= list@.len(),
            forall|j: int| 0 <= j < i ==> list@[j] != v,
        decreases list@.len() - i,
    {
        if list[i] == v {
            return true;
        }
        i += 1;
    }
    false
}

/// Hands out session prefixes: always the least one that no live session
/// holds. Prefixes that sessions gave back wait in a free list.
pub struct PrefixAllocator {
    space: ExtendedExtranonce,
    capacity: u64,
    /// Every prefix below `next` is live or in the free list.
    next: u64,
    free: Vec<u64>,
}

impl PrefixAllocator {
    #[verifier::type_invariant]
    spec fn inv(self) -> bool {
        &&& self.capacity as nat == capacity(self.space.spec_prefix_len())
        &&& self.next <= self.capacity
        &&& self.free@.no_duplicates()
        &&& forall|i: int| 0 <= i < self.free@.len() ==> self.free@[i] < self.next
    }

    /// The space that is being partitioned.
    pub closed spec fn spec_space(self) -> ExtendedExtranonce {
        self.space
    }

    /// The prefixes that live sessions hold.
    pub closed spec fn live(self) -> Set<nat> {
        Set::new(|v: nat| v < self.next && !self.free@.contains(v as u64))
    }

    /// How many prefixes the space offers.
    pub open spec fn spec_capacity(self) -> nat {
        capacity(self.spec_space().spec_prefix_len())
    }

    /// An allocator for `space` with no live session.
    pub fn new(space: ExtendedExtranonce) -> (a: PrefixAllocator)
        ensures
            a.spec_space() == space,
            a.live() == Set::<nat>::empty(),
    {
        let capacity = capacity_for(space.prefix_len());
        let a = PrefixAllocator { space, capacity, next: 0, free: Vec::new() };
        assert(a.live() =~= Set::<nat>::empty());
        a
    }

    pub fn space(&self) -> (s: ExtendedExtranonce)
        ensures
            s == self.spec_space(),
    {
        self.space
    }

    /// Whether a live session holds `prefix`.
    pub fn is_live(&self, prefix: u64) -> (b: bool)
        ensures
            b == self.live().contains(prefix as nat),
            b ==> prefix < self.spec_capacity(),
    {
        proof {
            use_type_invariant(self);
        }
        prefix < self.next && !holds(&self.free, prefix)
    }

    /// Gives the next session its prefix: the least one that no live session
    /// holds. `None` when every prefix of the space is live.
    pub fn assign(&mut self) -> (r: Option<ExtranonceAssignment>)
        ensures
            final(self).spec_space() == old(self).spec_space(),
            r is Some <==> has_room(old(self).live(), old(self).spec_capacity()),
            final(self).live() == after_assign(old(self).live(), old(self).spec_capacity()),
            match r {
                Some(a) => {
                    &&& a == ExtranonceAssignment::of(
                        old(self).spec_space(),
                        least_free(old(self).live(), old(self).spec_capacity()),
                    )
                    &&& a.spec_space() == old(self).spec_space()
                    &&& is_least_free(old(self).live(), old(self).spec_capacity(), a.spec_prefix())
                    &&& final(self).live() == old(self).live().insert(a.spec_prefix())
                },
                None => final(self).live() == old(self).live(),
            },
    {
        proof {
            use_type_invariant(&*self);
            use_type_invariant(&self.space);
        }
        let ghost live0 = self.live();
        let ghost cap = self.spec_capacity();
        if self.free.len() > 0 {
            let mut best: usize = 0;
            let mut i: usize = 1;
            while i < self.free.len()
                invariant
                    1 <= i <= self.free@.len(),
                    best < i,
                    forall|j: int| 0 <= j < i ==> self.free@[best as int] <= self.free@[j],
                decreases self.free@.len() - i,
            {
                if self.free[i] < self.free[best] {
                    best = i;
                }
                i += 1;
            }
            let ghost free0 = self.free@;
            proof {
                lemma_remove_keeps_rest(free0, best as int);
            }
            let mut free: Vec<u64> = Vec::new();
            core::mem::swap(&mut self.free, &mut free);
            let p = free.remove(best);
            self.free = free;
            proof {
                assert(free0.contains(p));
                assert forall|w: nat| w < p implies live0.contains(w) by {
                    if free0.contains(w as u64) {
                        let j = choose|j: int| 0 <= j < free0.len() && free0[j] == w as u64;
                        assert(free0[best as int] <= free0[j]);
                    }
                }
                assert(is_least_free(live0, cap, p as nat));
                assert(self.live() =~= live0.insert(p as nat));
                lemma_least_free_exists(live0, cap, p as nat);
                lemma_least_free_unique(live0, cap, p as nat, least_free(live0, cap));
            }
            Some(ExtranonceAssignment { prefix: p, space: self.space })
        } else if self.next < self.capacity {
            let p = self.next;
            self.next = p + 1;
            proof {
                assert(is_least_free(live0, cap, p as nat));
                assert(self.live() =~= live0.insert(p as nat));
                lemma_least_free_exists(live0, cap, p as nat);
                lemma_least_free_unique(live0, cap, p as nat, least_free(live0, cap));
            }
            Some(ExtranonceAssignment { prefix: p, space: self.space })
        } else {
            proof {
                assert forall|v: nat| v < cap implies live0.contains(v) by {
                    assert(!self.free@.contains(v as u64));
                }
            }
            None
        }
    }

    /// Takes back the prefix of a session that has ended. Says whether a
    /// live session held it; if none did, nothing changes.
    pub fn release(&mut self, prefix: u64) -> (was_live: bool)
        ensures
            final(self).spec_space() == old(self).spec_space(),
            was_live == old(self).live().contains(prefix as nat),
            final(self).live() == old(self).live().remove(prefix as nat),
    {
        proof {
            use_type_invariant(&*self);
        }
        let ghost live0 = self.live();
        if prefix < self.next && !holds(&self.free, prefix) {
            let ghost free0 = self.free@;
            let mut free: Vec<u64> = Vec::new();
            core::mem::swap(&mut self.free, &mut free);
            free.push(prefix);
            self.free = free;
            proof {
                assert forall|v: nat| self.live().contains(v) <==> live0.remove(
                    prefix as nat,
                ).contains(v) by {
                    if v < self.next && v != prefix {
                        if free0.contains(v as u64) {
                            let j = choose|j: int| 0 <= j < free0.len() && free0[j] == v as u64;
                            assert(self.free@[j] == v as u64);
                        }
                        if self.free@.contains(v as u64) {
                            let j = choose|j: int|
                                0 <= j < self.free@.len() && self.free@[j] == v as u64;
                            assert(free0[j] == v as u64);
                        }
                    }
                    if v == prefix {
                        assert(self.free@[free0.len() as int] == prefix);
                    }
                }
                assert(self.live() =~= live0.remove(prefix as nat));
            }
            true
        } else {
            proof {
                assert(self.live() =~= live0.remove(prefix as nat));
            }
            false
        }
    }
}

} // verus!
