//! Sessions, and a store in RAM that drops the least recently used one.
use crate::time::{Duration, Instant};
use vstd::prelude::*;

verus! {

/// The ID type for sessions.
#[derive(Copy, Clone, Debug, PartialEq, Eq, PartialOrd, Ord, Structural)]
pub struct SessionId(pub u64);

/// Expiry policy for a session.
#[derive(Copy, Clone, Debug, PartialEq, Eq, Structural)]
pub enum Expiry {
    /// Expire after a period of inactivity.
    OnInactivity(Duration),
    /// Expire at a specific absolute time.
    AtDateTime(Instant),
}

/// A session record containing the ID, the data payload, and the expiry information.
#[derive(Debug, PartialEq, Eq)]
pub struct Record<D> {
    pub id: SessionId,
    pub data: D,
    pub expiry: Expiry,
    pub last_active: Instant,
}

impl<D: Clone> Clone for Record<D> {
    fn clone(&self) -> (r: Record<D>)
        ensures
            r.id == self.id,
            r.expiry == self.expiry,
            r.last_active == self.last_active,
            cloned::<D>(self.data, r.data),
    {
        Record {
            id: self.id,
            data: self.data.clone(),
            expiry: self.expiry,
            last_active: self.last_active,
        }
    }
}

impl<D> Record<D> {
    /// The last tick at which the session is still good.
    pub open spec fn deadline(self) -> int {
        match self.expiry {
            Expiry::OnInactivity(duration) => self.last_active.ticks + duration.ticks,
            Expiry::AtDateTime(instant) => instant.ticks as int,
        }
    }

    /// Whether the session is over at `now`.
    pub open spec fn expired(self, now: Instant) -> bool {
        now.ticks > self.deadline()
    }

    /// Whether the session is over. Its deadline has to be a time that the clock can reach.
    pub fn is_expired(&self, now: Instant) -> (r: bool)
        requires
            self.deadline() <= u64::MAX,
        ensures
            r == self.expired(now),
    {
        match self.expiry {
            Expiry::OnInactivity(duration) => now.ticks > self.last_active.plus(duration).ticks,
            Expiry::AtDateTime(instant) => now.ticks > instant.ticks,
        }
    }
}

/// Whether `found` is what a load of `stored` at `now` hands out: the record, now active at
/// `now`, with a clone of its data.
pub open spec fn handed_out<D: Clone>(stored: Record<D>, now: Instant, found: Record<D>) -> bool {
    &&& found.id == stored.id
    &&& found.expiry == stored.expiry
    &&& found.last_active == now
    &&& cloned::<D>(stored.data, found.data)
}

/// The core trait for session storage backends.
pub trait SessionStore<D: Clone>: Sized {
    /// Whether the store is in order.
    spec fn wf(&self) -> bool;

    /// Whether the store has room for a record at all.
    spec fn has_room(&self) -> bool;

    /// The record under an ID, expired or not.
    spec fn lookup(&self, id: SessionId) -> Option<Record<D>>;

    /// Whether `after` is what a load under `id` at `now` leaves of the store.
    spec fn is_after_load(&self, id: SessionId, now: Instant, after: Self) -> bool;

    /// Load a session by ID, but only if it hasn't expired.
    fn load(&mut self, id: SessionId, now: Instant) -> (r: Option<Record<D>>)
        requires
            old(self).wf(),
            old(self).lookup(id) matches Some(record) ==> record.deadline() <= u64::MAX,
        ensures
            final(self).wf(),
            final(self).has_room() == old(self).has_room(),
            old(self).is_after_load(id, now, *final(self)),
            match old(self).lookup(id) {
                Some(stored) => if stored.expired(now) {
                    r is None
                } else {
                    r matches Some(found) && handed_out(stored, now, found)
                },
                None => r is None,
            },
    ;

    /// Save or update a session record.
    fn save(&mut self, record: Record<D>) -> (r: bool)
        requires
            old(self).wf(),
            old(self).has_room(),
        ensures
            final(self).wf(),
            final(self).has_room(),
            r ==> final(self).lookup(record.id) == Some(record),
    ;

    /// Delete a session record.
    fn delete(&mut self, id: SessionId) -> (r: bool)
        requires
            old(self).wf(),
        ensures
            final(self).wf(),
            final(self).has_room() == old(self).has_room(),
            final(self).lookup(id) is None,
            r == (old(self).lookup(id) is Some),
    ;

    /// Check if an ID exists (used for collision mitigation).
    fn contains(&self, id: SessionId) -> (r: bool)
        requires
            self.wf(),
        ensures
            r == (self.lookup(id) is Some),
    ;
}

/// Whether a slot holds a record under `id`.
pub open spec fn holds<D>(slot: Option<Record<D>>, id: SessionId) -> bool {
    slot matches Some(record) && record.id == id
}

/// The first slot from `i` on with a record under `id`, or the number of slots.
pub open spec fn slot_of<D>(slots: Seq<Option<Record<D>>>, id: SessionId, i: int) -> int
    decreases slots.len() - i,
{
    if i < 0 || i >= slots.len() {
        slots.len() as int
    } else if holds(slots[i], id) {
        i
    } else {
        slot_of(slots, id, i + 1)
    }
}

/// The first slot from `i` on that is empty, or the number of slots.
pub open spec fn free_slot<D>(slots: Seq<Option<Record<D>>>, i: int) -> int
    decreases slots.len() - i,
{
    if i < 0 || i >= slots.len() {
        slots.len() as int
    } else if slots[i] is None {
        i
    } else {
        free_slot(slots, i + 1)
    }
}

/// Whether no two slots hold a record under one ID.
pub open spec fn distinct_ids<D>(slots: Seq<Option<Record<D>>>) -> bool {
    forall|i: int, j: int|
        0 <= i < j < slots.len() ==> ((#[trigger] slots[i]) matches Some(a) ==> ((
        #[trigger] slots[j]) matches Some(b) ==> a.id != b.id))
}

/// Whether slot `i` has the record that was active longest ago, and the first of these.
pub open spec fn is_oldest<D>(slots: Seq<Option<Record<D>>>, i: int) -> bool {
    &&& 0 <= i < slots.len()
    &&& slots[i] is Some
    &&& forall|j: int|
        0 <= j < slots.len() ==> ((#[trigger] slots[j]) matches Some(other) ==> (if j < i {
            slots[i]->0.last_active.ticks < other.last_active.ticks
        } else {
            slots[i]->0.last_active.ticks <= other.last_active.ticks
        }))
}

/// The slot that a record under `id` is saved in: the one that has that ID, else the first that is
/// empty, else the one that was active longest ago.
pub open spec fn is_save_slot<D>(slots: Seq<Option<Record<D>>>, id: SessionId, i: int) -> bool {
    let held = slot_of(slots, id, 0);
    let free = free_slot(slots, 0);
    if held < slots.len() {
        i == held
    } else if free < slots.len() {
        i == free
    } else {
        is_oldest(slots, i)
    }
}

/// A session store in RAM with `N` slots.
pub struct LruMemoryStore<D, const N: usize> {
    records: Vec<Option<Record<D>>>,
}

impl<D, const N: usize> View for LruMemoryStore<D, N> {
    type V = Seq<Option<Record<D>>>;

    closed spec fn view(&self) -> Seq<Option<Record<D>>> {
        self.records@
    }
}

impl<D: Clone, const N: usize> LruMemoryStore<D, N> {
    /// An empty store.
    pub fn new() -> (r: LruMemoryStore<D, N>)
        ensures
            r.wf(),
            r@ == Seq::new(N as nat, |i: int| None::<Record<D>>),
    {
        let mut records: Vec<Option<Record<D>>> = Vec::new();
        let mut i: usize = 0;
        while i < N
            invariant
                i <= N,
                records@ == Seq::new(i as nat, |j: int| None::<Record<D>>),
            decreases N - i,
        {
            records.push(None);
            i = i + 1;
            assert(records@ =~= Seq::new(i as nat, |j: int| None::<Record<D>>));
        }
        LruMemoryStore { records }
    }

    fn slot_index(&self, id: SessionId) -> (r: usize)
        ensures
            r <= self@.len(),
            r == slot_of(self@, id, 0),
    {
        let mut i: usize = 0;
        while i < self.records.len()
            invariant
                i <= self.records@.len(),
                slot_of(self.records@, id, 0) == slot_of(self.records@, id, i as int),
            decreases self.records@.len() - i,
        {
            let found = match &self.records[i] {
                Some(record) => record.id == id,
                None => false,
            };
            if found {
                return i;
            }
            i = i + 1;
        }
        i
    }

    fn free_or_oldest(&self) -> (r: usize)
        requires
            self@.len() > 0,
        ensures
            r < self@.len(),
            if free_slot(self@, 0) < self@.len() {
                r == free_slot(self@, 0)
            } else {
                is_oldest(self@, r as int)
            },
    {
        let mut oldest: usize = 0;
        let mut i: usize = 0;
        while i < self.records.len()
            invariant
                i <= self.records@.len(),
                self.records@.len() > 0,
                free_slot(self.records@, 0) == free_slot(self.records@, i as int),
                forall|j: int| 0 <= j < i ==> (#[trigger] self.records@[j]) is Some,
                i > 0 ==> is_oldest(self.records@.take(i as int), oldest as int),
                i == 0 ==> oldest == 0,
            decreases self.records@.len() - i,
        {
            match &self.records[i] {
                Some(r) => {
                    if let Some(o) = &self.records[oldest] {
                        if r.last_active.ticks < o.last_active.ticks {
                            oldest = i;
                        }
                    }
                },
                None => {
                    return i;
                },
            }
            i = i + 1;
        }
        assert(self@.take(i as int) =~= self@);
        oldest
    }

    /// Whether the record under `id`, if there is one, has a deadline that the clock can reach, as
    /// a load asks for.
    pub fn can_load(&self, id: SessionId) -> (r: bool)
        requires
            self.wf(),
        ensures
            r == (self.lookup(id) matches Some(record) ==> record.deadline() <= u64::MAX),
    {
        let i = self.slot_index(id);
        if i < self.records.len() {
            if let Some(record) = &self.records[i] {
                return match record.expiry {
                    Expiry::OnInactivity(duration) => duration.ticks <= u64::MAX
                        - record.last_active.ticks,
                    Expiry::AtDateTime(_) => true,
                };
            }
        }
        true
    }
}

impl<D: Clone, const N: usize> SessionStore<D> for LruMemoryStore<D, N> {
    open spec fn wf(&self) -> bool {
        &&& self@.len() == N
        &&& distinct_ids(self@)
    }

    open spec fn has_room(&self) -> bool {
        N > 0
    }

    open spec fn lookup(&self, id: SessionId) -> Option<Record<D>> {
        let i = slot_of(self@, id, 0);
        if i < self@.len() {
            self@[i]
        } else {
            None
        }
    }

    /// A session that is over leaves its slot; one that is not becomes active at `now`.
    open spec fn is_after_load(&self, id: SessionId, now: Instant, after: Self) -> bool {
        let slots = self@;
        let i = slot_of(slots, id, 0);
        after@ == if i >= slots.len() {
            slots
        } else if slots[i]->0.expired(now) {
            slots.update(i, None)
        } else {
            slots.update(i, Some(Record { last_active: now, ..slots[i]->0 }))
        }
    }

    fn load(&mut self, id: SessionId, now: Instant) -> (r: Option<Record<D>>) {
        let i = self.slot_index(id);
        proof {
            lemma_slot_bounds(self@, id, 0);
        }
        if i >= self.records.len() {
            return None;
        }
        let mut slot: Option<Record<D>> = None;
        std::mem::swap(&mut slot, &mut self.records[i]);
        proof {
            lemma_distinct_after(old(self)@, i as int, None, id);
        }
        let mut record = match slot {
            Some(record) => record,
            None => return None,
        };
        if record.is_expired(now) {
            return None;
        }
        record.last_active = now;
        let found = record.clone();
        self.records.set(i, Some(record));
        proof {
            let used = Some(Record { last_active: now, ..old(self)@[i as int]->0 });
            assert(self@ =~= old(self)@.update(i as int, used));
            lemma_distinct_after(old(self)@, i as int, used, id);
        }
        Some(found)
    }

    fn save(&mut self, record: Record<D>) -> (r: bool)
        ensures
            r,
            exists|i: int|
                #[trigger] is_save_slot(old(self)@, record.id, i) && 0 <= i < old(self)@.len()
                    && final(self)@ == old(self)@.update(i, Some(record)),
    {
        let held = self.slot_index(record.id);
        let i: usize = if held < self.records.len() {
            held
        } else {
            self.free_or_oldest()
        };
        let ghost id = record.id;
        let ghost saved = Some(record);
        self.records.set(i, Some(record));
        proof {
            assert(is_save_slot(old(self)@, id, i as int));
            law_saved_is_found(old(self)@, id, i as int, saved->0);
            lemma_slot_bounds(old(self)@, id, 0);
            lemma_distinct_after(old(self)@, i as int, saved, id);
        }
        true
    }

    fn delete(&mut self, id: SessionId) -> (r: bool)
        ensures
            ({
                let slots = old(self)@;
                let i = slot_of(slots, id, 0);
                final(self)@ == if i < slots.len() {
                    slots.update(i, None)
                } else {
                    slots
                }
            }),
    {
        let i = self.slot_index(id);
        proof {
            lemma_slot_bounds(self@, id, 0);
        }
        if i >= self.records.len() {
            return false;
        }
        self.records.set(i, None);
        proof {
            lemma_distinct_after(old(self)@, i as int, None, id);
            law_deleted_is_gone(old(self)@, id);
        }
        true
    }

    fn contains(&self, id: SessionId) -> (r: bool) {
        proof {
            lemma_slot_bounds(self@, id, 0);
        }
        self.slot_index(id) < self.records.len()
    }
}

/// A slot that takes a record under `id`, or none, leaves the IDs distinct where no other slot
/// comes before or after it with that ID.
proof fn lemma_distinct_after<D>(
    slots: Seq<Option<Record<D>>>,
    i: int,
    slot: Option<Record<D>>,
    id: SessionId,
)
    requires
        0 <= i < slots.len(),
        distinct_ids(slots),
        slot matches Some(record) ==> record.id == id,
        holds(slots[i], id) || slot_of(slots, id, 0) == slots.len(),
    ensures
        distinct_ids(slots.update(i, slot)),
{
    let after = slots.update(i, slot);
    lemma_slot_bounds(slots, id, 0);
    assert forall|j: int| 0 <= j < slots.len() && j != i implies !holds(
        #[trigger] slots[j],
        id,
    ) by {
        if holds(slots[i], id) {
            if j < i {
                assert(slots[j] is Some && slots[i] is Some ==> slots[j]->0.id != slots[i]->0.id);
            } else {
                assert(slots[i] is Some && slots[j] is Some ==> slots[i]->0.id != slots[j]->0.id);
            }
        }
    }
    assert forall|j: int, k: int| 0 <= j < k < after.len() implies ((#[trigger] after[j]) matches Some(
        a,
    ) ==> ((#[trigger] after[k]) matches Some(b) ==> a.id != b.id)) by {
        if j != i {
            assert(after[j] == slots[j]);
        }
        if k != i {
            assert(after[k] == slots[k]);
        }
        assert(j != i ==> !holds(slots[j], id));
        assert(k != i ==> !holds(slots[k], id));
    }
}

proof fn lemma_slot_of<D>(slots: Seq<Option<Record<D>>>, id: SessionId, from: int, i: int)
    requires
        0 <= from <= i < slots.len(),
        holds(slots[i], id),
        forall|j: int| from <= j < i ==> !holds(#[trigger] slots[j], id),
    ensures
        slot_of(slots, id, from) == i,
    decreases i - from,
{
    if from < i {
        lemma_slot_of(slots, id, from + 1, i);
    }
}

proof fn lemma_no_slot<D>(slots: Seq<Option<Record<D>>>, id: SessionId, from: int)
    requires
        0 <= from <= slots.len(),
        forall|j: int| from <= j < slots.len() ==> !holds(#[trigger] slots[j], id),
    ensures
        slot_of(slots, id, from) == slots.len(),
    decreases slots.len() - from,
{
    if from < slots.len() {
        lemma_no_slot(slots, id, from + 1);
    }
}

proof fn lemma_slot_bounds<D>(slots: Seq<Option<Record<D>>>, id: SessionId, from: int)
    requires
        0 <= from <= slots.len(),
    ensures
        from <= slot_of(slots, id, from) <= slots.len(),
        slot_of(slots, id, from) < slots.len() ==> holds(slots[slot_of(slots, id, from)], id),
        forall|j: int|
            from <= j < slot_of(slots, id, from) ==> !holds(#[trigger] slots[j], id),
    decreases slots.len() - from,
{
    if from < slots.len() {
        if !holds(slots[from], id) {
            lemma_slot_bounds(slots, id, from + 1);
        }
    }
}

proof fn lemma_free_slot_bounds<D>(slots: Seq<Option<Record<D>>>, from: int)
    requires
        0 <= from <= slots.len(),
    ensures
        from <= free_slot(slots, from) <= slots.len(),
        free_slot(slots, from) < slots.len() ==> slots[free_slot(slots, from)] is None,
        forall|j: int| from <= j < free_slot(slots, from) ==> (#[trigger] slots[j]) is Some,
    decreases slots.len() - from,
{
    if from < slots.len() {
        if !(slots[from] is None) {
            lemma_free_slot_bounds(slots, from + 1);
        }
    }
}

/// A record that was saved is the one found under its ID.
pub proof fn law_saved_is_found<D>(
    slots: Seq<Option<Record<D>>>,
    id: SessionId,
    i: int,
    record: Record<D>,
)
    requires
        0 <= i < slots.len(),
        is_save_slot(slots, id, i),
        record.id == id,
    ensures
        slot_of(slots.update(i, Some(record)), id, 0) == i,
{
    let after = slots.update(i, Some(record));
    lemma_slot_bounds(slots, id, 0);
    lemma_free_slot_bounds(slots, 0);
    assert forall|j: int| 0 <= j < i implies !holds(#[trigger] after[j], id) by {
        assert(after[j] == slots[j]);
    }
    lemma_slot_of(after, id, 0, i);
}

/// A save displaces another session only where every slot is taken by one, and then the one
/// that was active longest ago.
pub proof fn law_save_displaces_oldest_only<D>(
    slots: Seq<Option<Record<D>>>,
    id: SessionId,
    i: int,
)
    requires
        0 <= i < slots.len(),
        is_save_slot(slots, id, i),
        slots[i] matches Some(lost) && lost.id != id,
    ensures
        forall|j: int|
            0 <= j < slots.len() ==> (#[trigger] slots[j]) is Some
                && slots[i]->0.last_active.ticks <= slots[j]->0.last_active.ticks,
{
    lemma_slot_bounds(slots, id, 0);
    lemma_free_slot_bounds(slots, 0);
}

/// A session that was in use later than some other is not displaced by a new one.
pub proof fn law_recently_used_survives<D>(
    slots: Seq<Option<Record<D>>>,
    id: SessionId,
    i: int,
    used: int,
    other: int,
)
    requires
        0 <= i < slots.len(),
        is_save_slot(slots, id, i),
        0 <= used < slots.len(),
        0 <= other < slots.len(),
        slots[used] is Some && slots[used]->0.id != id,
        slots[other] is Some,
        slots[other]->0.last_active.ticks < slots[used]->0.last_active.ticks,
    ensures
        i != used,
{
    lemma_slot_bounds(slots, id, 0);
    lemma_free_slot_bounds(slots, 0);
}

/// What becomes of one slot is nothing to a session that neither was in it nor comes to it: the
/// session is found as before. So using or deleting one session leaves the others alone, and
/// saving one leaves all but a displaced one alone.
pub proof fn law_other_sessions_stay<D>(
    slots: Seq<Option<Record<D>>>,
    i: int,
    slot: Option<Record<D>>,
    other: SessionId,
)
    requires
        0 <= i < slots.len(),
        !holds(slots[i], other),
        !holds(slot, other),
    ensures
        ({
            let after = slots.update(i, slot);
            let found = slot_of(slots, other, 0);
            &&& slot_of(after, other, 0) == found
            &&& found < slots.len() ==> after[found] == slots[found]
        }),
{
    let after = slots.update(i, slot);
    lemma_slot_bounds(slots, other, 0);
    let found = slot_of(slots, other, 0);
    assert forall|j: int| 0 <= j < found implies !holds(#[trigger] after[j], other) by {
        if j != i {
            assert(after[j] == slots[j]);
        }
    }
    if found < slots.len() {
        lemma_slot_of(after, other, 0, found);
    } else {
        lemma_no_slot(after, other, 0);
    }
}

/// A session that is used in time stays in the store and becomes active at that time; every other
/// session is found as before.
pub proof fn law_use_keeps_session_open<D: Clone, const N: usize>(
    before: LruMemoryStore<D, N>,
    after: LruMemoryStore<D, N>,
    id: SessionId,
    now: Instant,
    other: SessionId,
)
    requires
        before.is_after_load(id, now, after),
        before.lookup(id) matches Some(record) && !record.expired(now),
        other != id,
    ensures
        after.lookup(id) == Some(Record { last_active: now, ..before.lookup(id)->0 }),
        after.lookup(other) == before.lookup(other),
{
    let slots = before@;
    let i = slot_of(slots, id, 0);
    lemma_slot_bounds(slots, id, 0);
    let slot = Some(Record { last_active: now, ..slots[i]->0 });
    assert forall|j: int| 0 <= j < i implies !holds(#[trigger] after@[j], id) by {
        assert(after@[j] == slots[j]);
    }
    lemma_slot_of(after@, id, 0, i);
    law_other_sessions_stay(slots, i, slot, other);
}

/// A session that was deleted, or left its slot because it was over, is gone.
pub proof fn law_deleted_is_gone<D>(slots: Seq<Option<Record<D>>>, id: SessionId)
    requires
        distinct_ids(slots),
        slot_of(slots, id, 0) < slots.len(),
    ensures
        ({
            let after = slots.update(slot_of(slots, id, 0), None);
            slot_of(after, id, 0) == after.len()
        }),
{
    lemma_slot_bounds(slots, id, 0);
    let after = slots.update(slot_of(slots, id, 0), None);
    assert forall|j: int| 0 <= j < after.len() implies !holds(#[trigger] after[j], id) by {
        let i = slot_of(slots, id, 0);
        if j > i {
            assert(slots[i] is Some && slots[j] is Some ==> slots[i]->0.id != slots[j]->0.id);
        }
        if j != i {
            assert(after[j] == slots[j]);
        }
    }
    lemma_no_slot(after, id, 0);
}

/// Using a session that ends after a time of inactivity puts its end off; one that ends at a
/// fixed time keeps it.
pub proof fn law_use_puts_off_inactivity_only<D>(record: Record<D>, now: Instant)
    ensures
        ({
            let used = Record { last_active: now, ..record };
            match record.expiry {
                Expiry::OnInactivity(d) => used.deadline() == now.ticks + d.ticks,
                Expiry::AtDateTime(_) => used.deadline() == record.deadline(),
            }
        }),
{
}

// ---- What the operations do -----------------------------------------------------------------

/// Whether a session with this policy, last active at `active`, is over at `now`: after more than
/// the time of inactivity, or past the fixed time.
pub open spec fn is_past(expiry: Expiry, active: Instant, now: Instant) -> bool {
    match expiry {
        Expiry::OnInactivity(idle) => now.ticks > active.ticks + idle.ticks,
        Expiry::AtDateTime(end) => now.ticks > end.ticks,
    }
}

/// A session is over once it was idle for longer than it may be, or its fixed end has passed. At
/// the very tick it is not over yet.
pub proof fn law_session_ends<D>(record: Record<D>, now: Instant, r: bool)
    requires
        call_ensures(Record::<D>::is_expired, (&record, now), r),
    ensures
        r == is_past(record.expiry, record.last_active, now),
{
}

/// Whether slot `i` has the record under `id`.
pub open spec fn is_slot_of<D>(slots: Seq<Option<Record<D>>>, id: SessionId, i: int) -> bool {
    0 <= i < slots.len() && slots[i] is Some && slots[i]->0.id == id
}

pub(crate) proof fn lemma_is_slot_of<D>(slots: Seq<Option<Record<D>>>, id: SessionId, i: int)
    requires
        distinct_ids(slots),
        is_slot_of(slots, id, i),
    ensures
        slot_of(slots, id, 0) == i,
{
    assert forall|j: int| 0 <= j < i implies !holds(#[trigger] slots[j], id) by {
        assert(slots[j] is Some && slots[i] is Some ==> slots[j]->0.id != slots[i]->0.id);
    }
    lemma_slot_of(slots, id, 0, i);
}

pub(crate) proof fn lemma_is_no_slot<D>(slots: Seq<Option<Record<D>>>, id: SessionId)
    requires
        forall|i: int| !#[trigger] is_slot_of(slots, id, i),
    ensures
        slot_of(slots, id, 0) == slots.len(),
{
    assert forall|j: int| 0 <= j < slots.len() implies !holds(#[trigger] slots[j], id) by {
        assert(!is_slot_of(slots, id, j));
    }
    lemma_no_slot(slots, id, 0);
}

/// What is found under an ID is the record with that ID, and nothing where no slot has one.
pub proof fn law_lookup_goes_by_id<D: Clone, const N: usize>(
    store: LruMemoryStore<D, N>,
    id: SessionId,
    i: int,
)
    requires
        store.wf(),
    ensures
        is_slot_of(store@, id, i) ==> store.lookup(id) == store@[i],
        (forall|j: int| !#[trigger] is_slot_of(store@, id, j)) ==> store.lookup(id) is None,
{
    if is_slot_of(store@, id, i) {
        lemma_is_slot_of(store@, id, i);
    } else if forall|j: int| !#[trigger] is_slot_of(store@, id, j) {
        lemma_is_no_slot(store@, id);
    }
}

/// A load under an ID that has a record hands the record out with its ID, its policy and a clone
/// of its data, active from now on, and so it stays in its slot. A session that is over is not
/// handed out and leaves its slot. No other slot changes.
pub proof fn law_load_of_a_session<D: Clone, const N: usize>(
    store: &mut LruMemoryStore<D, N>,
    id: SessionId,
    now: Instant,
    r: Option<Record<D>>,
    i: int,
)
    requires
        old(store).wf(),
        call_ensures(<LruMemoryStore<D, N> as SessionStore<D>>::load, (store, id, now), r),
        is_slot_of(old(store)@, id, i),
    ensures
        ({
            let stored = old(store)@[i]->0;
            let after = final(store)@;
            &&& after.len() == old(store)@.len()
            &&& forall|j: int|
                0 <= j < after.len() && j != i ==> #[trigger] after[j] == old(store)@[j]
            &&& if is_past(stored.expiry, stored.last_active, now) {
                r is None && after[i] is None
            } else {
                &&& r matches Some(found)
                &&& found.id == id
                &&& found.expiry == stored.expiry
                &&& found.last_active == now
                &&& cloned::<D>(stored.data, found.data)
                &&& after[i] matches Some(kept)
                &&& kept.id == id
                &&& kept.expiry == stored.expiry
                &&& kept.last_active == now
                &&& kept.data == stored.data
            }
        }),
{
    lemma_is_slot_of(old(store)@, id, i);
}

/// A load under an ID that has no record finds nothing and changes nothing.
pub proof fn law_load_of_no_session<D: Clone, const N: usize>(
    store: &mut LruMemoryStore<D, N>,
    id: SessionId,
    now: Instant,
    r: Option<Record<D>>,
)
    requires
        call_ensures(<LruMemoryStore<D, N> as SessionStore<D>>::load, (store, id, now), r),
        forall|i: int| !#[trigger] is_slot_of(old(store)@, id, i),
    ensures
        r is None,
        final(store)@ == old(store)@,
{
    lemma_is_no_slot(old(store)@, id);
}

/// A save puts the record in one slot and leaves the others alone: the slot of the record with the
/// same ID, else the first one that is empty, else the one with the record that was active longest
/// ago, the first of these.
pub proof fn law_save_takes_one_slot<D: Clone, const N: usize>(
    store: &mut LruMemoryStore<D, N>,
    record: Record<D>,
    r: bool,
)
    requires
        old(store).wf(),
        call_ensures(<LruMemoryStore<D, N> as SessionStore<D>>::save, (store, record), r),
    ensures
        r,
        exists|i: int|
            0 <= i < old(store)@.len() && final(store)@ == #[trigger] old(store)@.update(
                i,
                Some(record),
            ) && {
                let slots = old(store)@;
                ||| is_slot_of(slots, record.id, i)
                ||| {
                    &&& forall|j: int| !#[trigger] is_slot_of(slots, record.id, j)
                    &&& slots[i] is None
                    &&& forall|j: int| 0 <= j < i ==> (#[trigger] slots[j]) is Some
                }
                ||| {
                    &&& forall|j: int| !#[trigger] is_slot_of(slots, record.id, j)
                    &&& forall|j: int|
                        0 <= j < slots.len() ==> {
                            &&& (#[trigger] slots[j]) is Some
                            &&& slots[i]->0.last_active.ticks <= slots[j]->0.last_active.ticks
                            &&& j < i ==> slots[i]->0.last_active.ticks
                                < slots[j]->0.last_active.ticks
                        }
                }
            },
{
    let slots = old(store)@;
    lemma_slot_bounds(slots, record.id, 0);
    lemma_free_slot_bounds(slots, 0);
    if slot_of(slots, record.id, 0) == slots.len() {
        assert forall|j: int| !#[trigger] is_slot_of(slots, record.id, j) by {
            if 0 <= j < slots.len() {
                assert(!holds(slots[j], record.id));
            }
        }
    }
    let i = choose|i: int|
        #[trigger] is_save_slot(slots, record.id, i) && 0 <= i < slots.len() && final(store)@
            == slots.update(i, Some(record));
    assert(final(store)@ == slots.update(i, Some(record)));
}

/// A delete empties the slot of the record with the ID, if there is one, and tells whether there
/// was; no other slot changes. The ID is there exactly as long as a slot has its record.
pub proof fn law_delete_empties_one_slot<D: Clone, const N: usize>(
    store: &mut LruMemoryStore<D, N>,
    id: SessionId,
    before: bool,
    r: bool,
    i: int,
)
    requires
        old(store).wf(),
        call_ensures(<LruMemoryStore<D, N> as SessionStore<D>>::contains, (old(store), id), before),
        call_ensures(<LruMemoryStore<D, N> as SessionStore<D>>::delete, (store, id), r),
        is_slot_of(old(store)@, id, i) || forall|j: int| !#[trigger] is_slot_of(old(store)@, id, j),
    ensures
        before == r,
        r == is_slot_of(old(store)@, id, i),
        final(store)@ == if r {
            old(store)@.update(i, None)
        } else {
            old(store)@
        },
        forall|j: int| !#[trigger] is_slot_of(final(store)@, id, j),
{
    let slots = old(store)@;
    lemma_slot_bounds(slots, id, 0);
    if is_slot_of(slots, id, i) {
        lemma_is_slot_of(slots, id, i);
        law_deleted_is_gone(slots, id);
    } else {
        lemma_is_no_slot(slots, id);
    }
    lemma_slot_bounds(final(store)@, id, 0);
    assert forall|j: int| !#[trigger] is_slot_of(final(store)@, id, j) by {
        if 0 <= j < slots.len() {
            assert(!holds(final(store)@[j], id));
        }
    }
}

} // verus!
