use vstd::prelude::*;
use crate::event_id::{copy_id, same_id};

verus! {

/// An id seen in the hot set, with the time (in milliseconds) it was seen.
pub struct HotEntry {
    pub id: Vec<u8>,
    pub seen_at: u64,
}

/// Whether an entry seen at `seen_at` is still within the horizon at `now`.
pub open spec fn fresh(seen_at: u64, now: u64, horizon: u64) -> bool {
    (now as int) < seen_at as int + horizon as int
}

/// The entries of a hot set that survive at `now`.
pub open spec fn live(s: Seq<(Seq<u8>, u64)>, now: u64, horizon: u64) -> Seq<(Seq<u8>, u64)> {
    s.filter(|e: (Seq<u8>, u64)| fresh(e.1, now, horizon))
}

/// Whether `id` occurs among the entries `s`.
pub open spec fn has_id(s: Seq<(Seq<u8>, u64)>, id: Seq<u8>) -> bool {
    exists|i: int| 0 <= i < s.len() && (#[trigger] s[i]).0 == id
}

/// The live entries `l` once `(id, now)` joins them in a set of `cap`
/// entries: when full, the oldest entry makes room.
pub open spec fn with_entry(l: Seq<(Seq<u8>, u64)>, cap: nat, id: Seq<u8>, now: u64) -> Seq<(Seq<u8>, u64)> {
    if l.len() >= cap && l.len() > 0 {
        l.drop_first().push((id, now))
    } else {
        l.push((id, now))
    }
}

/// Small set of ids seen within the last `horizon` milliseconds, holding at
/// most `capacity` entries whatever the throughput; older entries are
/// dropped on each insertion.
pub struct HotSet {
    entries: Vec<HotEntry>,
    horizon: u64,
    capacity: usize,
}

impl HotSet {
    /// The entries, in order of insertion.
    pub closed spec fn view(&self) -> Seq<(Seq<u8>, u64)> {
        Seq::new(self.entries@.len(), |i: int| (self.entries@[i].id@, self.entries@[i].seen_at))
    }

    pub closed spec fn horizon_ms(&self) -> u64 {
        self.horizon
    }

    pub closed spec fn cap(&self) -> nat {
        self.capacity as nat
    }

    pub closed spec fn wf(&self) -> bool {
        self.capacity >= 1 && self.entries@.len() <= self.capacity
    }

    /// A well-formed hot set holds at most its capacity, which is at least one.
    pub proof fn lemma_bounds(&self)
        requires
            self.wf(),
        ensures
            self.cap() >= 1,
            self.view().len() <= self.cap(),
    {
    }

    /// Creates an empty hot set with the given horizon in milliseconds,
    /// holding at most `capacity` entries (at least one).
    pub fn new(horizon_ms: u64, capacity: usize) -> (r: Self)
        ensures
            r.wf(),
            r.view() == Seq::<(Seq<u8>, u64)>::empty(),
            r.horizon_ms() == horizon_ms,
            r.cap() == if capacity == 0 { 1 } else { capacity as nat },
    {
        let r = HotSet { entries: Vec::new(), horizon: horizon_ms, capacity: if capacity == 0 { 1 } else { capacity } };
        assert(r.view() =~= Seq::<(Seq<u8>, u64)>::empty());
        r
    }

    /// Number of entries held.
    pub fn len(&self) -> (r: usize)
        ensures
            r == self.view().len(),
    {
        self.entries.len()
    }

    /// Drops the entries that fell out of the horizon at `now`.
    pub fn sweep(&mut self, now: u64)
        requires
            old(self).wf(),
        ensures
            final(self).wf(),
            final(self).view() == live(old(self).view(), now, old(self).horizon_ms()),
            final(self).horizon_ms() == old(self).horizon_ms(),
            final(self).cap() == old(self).cap(),
    {
        let ghost v0 = self.view();
        let ghost pred = |e: (Seq<u8>, u64)| fresh(e.1, now, self.horizon);
        let mut kept: Vec<HotEntry> = Vec::new();
        let mut i: usize = 0;
        assert(v0.subrange(0, 0).filter(pred) =~= Seq::<(Seq<u8>, u64)>::empty()) by {
            reveal(Seq::filter);
        }
        while i < self.entries.len()
            invariant
                self.view() == v0,
                0 <= i <= v0.len(),
                pred == (|e: (Seq<u8>, u64)| fresh(e.1, now, self.horizon)),
                Seq::new(kept@.len(), |j: int| (kept@[j].id@, kept@[j].seen_at))
                    == v0.subrange(0, i as int).filter(pred),
            decreases v0.len() - i,
        {
            let ghost before = Seq::new(kept@.len(), |j: int| (kept@[j].id@, kept@[j].seen_at));
            let seen_at = self.entries[i].seen_at;
            assert(v0.subrange(0, i as int + 1) =~= v0.subrange(0, i as int).push(v0[i as int]));
            proof { v0.subrange(0, i as int).lemma_filter_push(v0[i as int], pred); }
            if (now as u128) < seen_at as u128 + self.horizon as u128 {
                let id = copy_id(self.entries[i].id.as_slice());
                kept.push(HotEntry { id, seen_at });
                assert(Seq::new(kept@.len(), |j: int| (kept@[j].id@, kept@[j].seen_at))
                    =~= before.push(v0[i as int]));
            }
            i = i + 1;
        }
        assert(v0.subrange(0, v0.len() as int) =~= v0);
        proof { v0.lemma_filter_len(pred); }
        self.entries = kept;
    }

    fn holds(&self, id: &[u8]) -> (r: bool)
        ensures
            r == has_id(self.view(), id@),
    {
        let mut i: usize = 0;
        while i < self.entries.len()
            invariant
                0 <= i <= self.entries@.len(),
                forall|j: int| 0 <= j < i ==> (#[trigger] self.view()[j]).0 != id@,
            decreases self.entries@.len() - i,
        {
            if same_id(self.entries[i].id.as_slice(), id) {
                assert(self.view()[i as int].0 == id@);
                return true;
            }
            i = i + 1;
        }
        false
    }

    /// Drops expired entries, then records `id` as seen at `now` unless it is
    /// still present. Returns whether it was recorded (that is, not present).
    pub fn insert(&mut self, id: &[u8], now: u64) -> (r: bool)
        requires
            old(self).wf(),
        ensures
            final(self).wf(),
            final(self).horizon_ms() == old(self).horizon_ms(),
            final(self).cap() == old(self).cap(),
            r == !has_id(live(old(self).view(), now, old(self).horizon_ms()), id@),
            final(self).view() == if r {
                with_entry(live(old(self).view(), now, old(self).horizon_ms()), old(self).cap(), id@, now)
            } else {
                live(old(self).view(), now, old(self).horizon_ms())
            },
    {
        self.sweep(now);
        if self.holds(id) {
            false
        } else {
            let ghost v1 = self.view();
            if self.entries.len() >= self.capacity && self.entries.len() > 0 {
                self.entries.remove(0);
                assert(self.view() =~= v1.drop_first());
            }
            let ghost v2 = self.view();
            let e = HotEntry { id: copy_id(id), seen_at: now };
            self.entries.push(e);
            assert(self.view() =~= v2.push((id@, now)));
            true
        }
    }
}

} // verus!
