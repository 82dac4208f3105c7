//! Nonces that the login page hands out: each can be used once, and for a short time only.
use crate::time::{Duration, Instant, TICK_HZ};
use vstd::arithmetic::div_mod::{
    lemma_add_mod_noop, lemma_fundamental_div_mod, lemma_fundamental_div_mod_converse,
    lemma_mod_bound, lemma_mod_twice, lemma_small_mod,
};
use vstd::prelude::*;

verus! {

/// For how many seconds a nonce is good.
pub const NONCE_LIFETIME_SECS: u64 = 30;

/// A nonce and the time at which it was handed out. The nonce is zero where the slot is free.
pub type NonceSlot = (u64, Instant);

/// Whether a nonce of the age `age` is still good.
pub open spec fn young(age: Duration) -> bool {
    age.ticks < NONCE_LIFETIME_SECS * TICK_HZ
}

/// The first slot from `i` on that holds `nonce`, or the number of slots.
pub open spec fn slot_from(slots: Seq<NonceSlot>, nonce: u64, i: int) -> int
    decreases slots.len() - i,
{
    if i < 0 || i >= slots.len() {
        slots.len() as int
    } else if slots[i].0 == nonce {
        i
    } else {
        slot_from(slots, nonce, i + 1)
    }
}

/// The first slot that holds `nonce`, or the number of slots.
pub open spec fn slot_of(slots: Seq<NonceSlot>, nonce: u64) -> int {
    slot_from(slots, nonce, 0)
}

/// Whether `nonce` is good at `now`.
pub open spec fn accepted(slots: Seq<NonceSlot>, nonce: u64, now: Instant) -> bool {
    let i = slot_of(slots, nonce);
    i < slots.len() && young(now.since(slots[i].1))
}

/// The slots once `nonce` has been used, or was tried in vain.
pub open spec fn used(slots: Seq<NonceSlot>, nonce: u64) -> Seq<NonceSlot> {
    let i = slot_of(slots, nonce);
    if i < slots.len() {
        slots.update(i, (0, slots[i].1))
    } else {
        slots
    }
}

/// The slots once `nonce` has been handed out at `now`.
pub open spec fn issued(
    slots: Seq<NonceSlot>,
    next: int,
    nonce: u64,
    now: Instant,
) -> Seq<NonceSlot> {
    slots.update(next, (nonce, now))
}

/// The last `N` nonces handed out. The oldest one makes room for a new one.
pub struct NonceStore<const N: usize> {
    nonces: Vec<NonceSlot>,
    next_idx: usize,
}

impl<const N: usize> NonceStore<N> {
    pub closed spec fn slots(&self) -> Seq<NonceSlot> {
        self.nonces@
    }

    /// The slot that the next nonce goes to.
    pub closed spec fn next(&self) -> int {
        self.next_idx as int
    }

    pub open spec fn wf(&self) -> bool {
        &&& self.slots().len() == N
        &&& 0 <= self.next()
        &&& N > 0 ==> self.next() < N
    }

    pub fn new() -> (r: NonceStore<N>)
        ensures
            r.wf(),
            r.slots() == Seq::new(N as nat, |i: int| (0u64, Instant { ticks: 0 })),
            r.next() == 0,
    {
        let mut nonces: Vec<NonceSlot> = Vec::new();
        while nonces.len() < N
            invariant
                nonces@.len() <= N,
                forall|i: int|
                    0 <= i < nonces@.len() ==> nonces@[i] == (0u64, Instant { ticks: 0 }),
            decreases N - nonces@.len(),
        {
            nonces.push((0, Instant::from_ticks(0)));
        }
        NonceStore { nonces, next_idx: 0 }
    }

    /// Takes in a nonce that is handed out at `now`.
    pub fn insert_at(&mut self, nonce: u64, now: Instant)
        requires
            old(self).wf(),
            N > 0,
        ensures
            final(self).wf(),
            final(self).slots() == issued(old(self).slots(), old(self).next(), nonce, now),
            final(self).next() == (old(self).next() + 1) % (N as int),
    {
        self.nonces.set(self.next_idx, (nonce, now));
        self.next_idx = if self.next_idx + 1 < N {
            proof {
                lemma_small_mod((self.next_idx + 1) as nat, N as nat);
            }
            self.next_idx + 1
        } else {
            proof {
                lemma_fundamental_div_mod_converse(N as int, N as int, 1, 0);
            }
            0
        };
    }

    /// Takes in a nonce that is handed out now, by the system clock.
    pub fn insert(&mut self, nonce: u64)
        requires
            old(self).wf(),
            N > 0,
        ensures
            final(self).wf(),
            exists|now: Instant|
                final(self).slots() == #[trigger] issued(
                    old(self).slots(),
                    old(self).next(),
                    nonce,
                    now,
                ),
            final(self).next() == (old(self).next() + 1) % (N as int),
    {
        let now = Instant::now();
        self.insert_at(nonce, now);
    }

    /// Whether `nonce` is good at `now`. The slot that held it is free afterwards, so that a nonce
    /// other than zero, which free slots hold, is good once.
    pub fn verify_at(&mut self, nonce: u64, now: Instant) -> (r: bool)
        requires
            old(self).wf(),
        ensures
            final(self).wf(),
            final(self).slots() == used(old(self).slots(), nonce),
            final(self).next() == old(self).next(),
            r == accepted(old(self).slots(), nonce, now),
    {
        let mut i: usize = 0;
        while i < self.nonces.len()
            invariant
                *self == *old(self),
                self.wf(),
                i <= self.nonces@.len(),
                slot_of(self.nonces@, nonce) == slot_from(self.nonces@, nonce, i as int),
            decreases self.nonces@.len() - i,
        {
            let slot = self.nonces[i];
            if slot.0 == nonce {
                let age = now.saturating_duration_since(slot.1);
                let valid = age.ticks < Duration::from_secs(NONCE_LIFETIME_SECS).ticks;
                self.nonces.set(i, (0, slot.1));
                return valid;
            }
            i = i + 1;
        }
        false
    }

    /// Whether `nonce` is good now, by the system clock. The slot that held it is free afterwards,
    /// so that a nonce other than zero, which free slots hold, is good once.
    pub fn verify(&mut self, nonce: u64) -> (r: bool)
        requires
            old(self).wf(),
        ensures
            final(self).wf(),
            final(self).slots() == used(old(self).slots(), nonce),
            final(self).next() == old(self).next(),
            exists|now: Instant| r == #[trigger] accepted(old(self).slots(), nonce, now),
    {
        let now = Instant::now();
        self.verify_at(nonce, now)
    }
}

// ---- Laws -----------------------------------------------------------------------------------

/// Whether `nonce` stands in no slot but `i`.
pub open spec fn only_at(slots: Seq<NonceSlot>, nonce: u64, i: int) -> bool {
    forall|j: int| 0 <= j < slots.len() && j != i ==> (#[trigger] slots[j]).0 != nonce
}

pub(crate) proof fn lemma_slot_from(slots: Seq<NonceSlot>, nonce: u64, from: int)
    requires
        0 <= from <= slots.len(),
    ensures
        from <= slot_from(slots, nonce, from) <= slots.len(),
        slot_from(slots, nonce, from) < slots.len() ==> slots[slot_from(slots, nonce, from)].0
            == nonce,
        forall|j: int|
            from <= j < slot_from(slots, nonce, from) ==> (#[trigger] slots[j]).0 != nonce,
    decreases slots.len() - from,
{
    if from < slots.len() && slots[from].0 != nonce {
        lemma_slot_from(slots, nonce, from + 1);
    }
}

/// A nonce that was handed out is good for half a minute, and good once: whatever came of the
/// first try, every further one is refused. This is so of a nonce that stands in no other slot.
pub proof fn law_nonce_is_good_once(
    slots: Seq<NonceSlot>,
    next: int,
    nonce: u64,
    when: Instant,
    now: Instant,
    later: Instant,
)
    requires
        0 <= next < slots.len(),
        nonce != 0,
        only_at(slots, nonce, next),
    ensures
        ({
            let with_nonce = issued(slots, next, nonce, when);
            &&& accepted(with_nonce, nonce, now) <==> young(now.since(when))
            &&& !accepted(used(with_nonce, nonce), nonce, later)
        }),
{
    let with_nonce = issued(slots, next, nonce, when);
    lemma_slot_from(with_nonce, nonce, 0);
    assert(with_nonce[next].0 == nonce);
    assert(slot_of(with_nonce, nonce) == next);
    let after = used(with_nonce, nonce);
    lemma_slot_from(after, nonce, 0);
}

/// A nonce that stands in no slot is refused, and the try changes nothing. So it is with every
/// nonce that was never handed out, but for zero, which stands in the free slots.
pub proof fn law_unknown_nonce_is_refused(slots: Seq<NonceSlot>, nonce: u64, now: Instant)
    requires
        only_at(slots, nonce, -1),
    ensures
        !accepted(slots, nonce, now),
        used(slots, nonce) == slots,
{
    lemma_slot_from(slots, nonce, 0);
}

/// A try with one nonce leaves every other nonce as good as it was.
pub proof fn law_nonces_are_independent(
    slots: Seq<NonceSlot>,
    tried: u64,
    other: u64,
    now: Instant,
)
    requires
        other != 0,
        other != tried,
    ensures
        accepted(used(slots, tried), other, now) == accepted(slots, other, now),
{
    let after = used(slots, tried);
    lemma_slot_from(slots, tried, 0);
    lemma_slot_from(slots, other, 0);
    lemma_slot_from(after, other, 0);
    let i = slot_of(slots, other);
    let j = slot_of(after, other);
    if i < j {
        assert(after[i] == slots[i]);
    }
    if j < i {
        assert(after[j] == slots[j]);
    }
}

/// The slots, and the slot that comes next, once all of `batch` was handed out, one nonce after
/// the other.
pub open spec fn issued_all(slots: Seq<NonceSlot>, next: int, batch: Seq<NonceSlot>) -> (
    Seq<NonceSlot>,
    int,
)
    decreases batch.len(),
{
    if batch.len() == 0 {
        (slots, next)
    } else {
        let (before, at) = issued_all(slots, next, batch.drop_last());
        (issued(before, at, batch.last().0, batch.last().1), (at + 1) % (slots.len() as int))
    }
}

proof fn lemma_different_slots(a: int, b: int, n: int)
    requires
        0 <= a < b < a + n,
    ensures
        a % n != b % n,
{
    if a % n == b % n {
        lemma_fundamental_div_mod(a, n);
        lemma_fundamental_div_mod(b, n);
        let d = b / n - a / n;
        assert(b - a == n * d) by (nonlinear_arith)
            requires
                a == n * (a / n) + a % n,
                b == n * (b / n) + b % n,
                a % n == b % n,
                d == b / n - a / n,
        ;
        assert(false) by (nonlinear_arith)
            requires
                b - a == n * d,
                0 < b - a < n,
        ;
    }
}

proof fn lemma_issued_all(slots: Seq<NonceSlot>, next: int, batch: Seq<NonceSlot>)
    requires
        0 <= next < slots.len(),
    ensures
        issued_all(slots, next, batch).0.len() == slots.len(),
        issued_all(slots, next, batch).1 == (next + batch.len()) % (slots.len() as int),
        0 <= issued_all(slots, next, batch).1 < slots.len(),
    decreases batch.len(),
{
    let n = slots.len() as int;
    if batch.len() > 0 {
        lemma_issued_all(slots, next, batch.drop_last());
        lemma_add_mod_noop(next + batch.len() - 1, 1, n);
        lemma_add_mod_noop(issued_all(slots, next, batch.drop_last()).1, 1, n);
        lemma_mod_twice(next + batch.len() - 1, n);
        lemma_mod_bound(next + batch.len(), n);
    } else {
        lemma_small_mod(next as nat, n as nat);
    }
}

/// The store keeps as many of the latest nonces as it has slots.
pub proof fn law_latest_nonces_are_kept(
    slots: Seq<NonceSlot>,
    next: int,
    batch: Seq<NonceSlot>,
    i: int,
)
    requires
        0 <= next < slots.len(),
        0 <= i < batch.len(),
        batch.len() - i <= slots.len(),
    ensures
        issued_all(slots, next, batch).0.contains(batch[i]),
{
    lemma_kept(slots, next, batch, i);
    lemma_issued_all(slots, next, batch);
    lemma_mod_bound(next + i, slots.len() as int);
}

proof fn lemma_kept(slots: Seq<NonceSlot>, next: int, batch: Seq<NonceSlot>, i: int)
    requires
        0 <= next < slots.len(),
        0 <= i < batch.len(),
        batch.len() - i <= slots.len(),
    ensures
        issued_all(slots, next, batch).0[(next + i) % (slots.len() as int)] == batch[i],
    decreases batch.len(),
{
    let n = slots.len() as int;
    lemma_issued_all(slots, next, batch.drop_last());
    lemma_mod_bound(next + i, n);
    if i < batch.len() - 1 {
        lemma_kept(slots, next, batch.drop_last(), i);
        lemma_different_slots(next + i, next + batch.len() - 1, n);
    }
}

/// Whether `i` is the first slot that holds `nonce`, or the number of slots where none does.
pub open spec fn is_first_slot(slots: Seq<NonceSlot>, nonce: u64, i: int) -> bool {
    &&& 0 <= i <= slots.len()
    &&& i < slots.len() ==> slots[i].0 == nonce
    &&& forall|j: int| 0 <= j < i ==> (#[trigger] slots[j]).0 != nonce
}

/// A try with a nonce looks for the first slot that holds it. The nonce is good if it was handed
/// out less than 30 s before, that is 30 million ticks, and the slot is then free, whether it was
/// good or not. Without such a slot the try fails and changes nothing.
pub proof fn law_nonce_is_tried<const N: usize>(
    store: &mut NonceStore<N>,
    nonce: u64,
    now: Instant,
    r: bool,
    i: int,
)
    requires
        call_ensures(NonceStore::<N>::verify_at, (store, nonce, now), r),
        is_first_slot(old(store).slots(), nonce, i),
    ensures
        ({
            let slots = old(store).slots();
            if i < slots.len() {
                &&& r == (now.ticks < slots[i].1.ticks + 30_000_000)
                &&& final(store).slots() == slots.update(i, (0, slots[i].1))
            } else {
                !r && final(store).slots() == slots
            }
        }),
        final(store).next() == old(store).next(),
{
    lemma_slot_from(old(store).slots(), nonce, 0);
}

/// A nonce that is handed out takes the place of the oldest one, and the next one goes to the slot
/// after it, from the last slot back to the first.
pub proof fn law_nonce_is_handed_out<const N: usize>(
    store: &mut NonceStore<N>,
    nonce: u64,
    now: Instant,
)
    requires
        old(store).wf(),
        N > 0,
        call_ensures(NonceStore::<N>::insert_at, (store, nonce, now), ()),
    ensures
        final(store).slots().len() == N,
        final(store).slots()[old(store).next()] == (nonce, now),
        forall|j: int|
            0 <= j < N && j != old(store).next() ==> #[trigger] final(store).slots()[j]
                == old(store).slots()[j],
        final(store).next() == if old(store).next() + 1 == N {
            0
        } else {
            old(store).next() + 1
        },
{
    if old(store).next() + 1 == N {
        lemma_fundamental_div_mod_converse(N as int, N as int, 1, 0);
    } else {
        lemma_small_mod((old(store).next() + 1) as nat, N as nat);
    }
}

/// What was handed out at `when` is good until 30 s, or 30 million ticks, have passed.
pub proof fn law_nonce_lasts_half_a_minute(
    slots: Seq<NonceSlot>,
    next: int,
    nonce: u64,
    when: Instant,
    now: Instant,
)
    requires
        0 <= next < slots.len(),
        nonce != 0,
        only_at(slots, nonce, next),
    ensures
        accepted(issued(slots, next, nonce, when), nonce, now) == (now.ticks < when.ticks
            + 30_000_000),
{
    law_nonce_is_good_once(slots, next, nonce, when, now, now);
}

/// By the system clock too, a try frees the slot of the nonce and nothing else, and a nonce that
/// stands in no slot is refused.
pub proof fn law_nonce_is_tried_now<const N: usize>(
    store: &mut NonceStore<N>,
    nonce: u64,
    r: bool,
    i: int,
)
    requires
        call_ensures(NonceStore::<N>::verify, (store, nonce), r),
        is_first_slot(old(store).slots(), nonce, i),
    ensures
        ({
            let slots = old(store).slots();
            if i < slots.len() {
                final(store).slots() == slots.update(i, (0, slots[i].1))
            } else {
                !r && final(store).slots() == slots
            }
        }),
        final(store).next() == old(store).next(),
{
    lemma_slot_from(old(store).slots(), nonce, 0);
}

} // verus!
