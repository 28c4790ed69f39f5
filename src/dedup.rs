use vstd::prelude::*;
use crate::filter::{bits_for, ProbabilisticFilter};
use crate::hot_set::{has_id, live, with_entry, HotSet};
use crate::recency::BoundedRecencyCache;

verus! {

/// `n + 1`, but never above `u64::MAX`.
pub open spec fn saturating_inc(n: nat) -> nat {
    if n < u64::MAX { n + 1 } else { n }
}

/// Final answer for one presentation of an id.
#[derive(Debug, Clone, Copy, PartialEq, Eq, Structural)]
pub enum AdmitResult {
    Admitted,
    Duplicate,
}

/// Answer of the in-memory tiers. `NeedsLookup` means the filter reported
/// the id as possibly present and the recency cache missed: only the durable
/// store can decide, through `admit_after_lookup`.
#[derive(Debug, Clone, Copy, PartialEq, Eq, Structural)]
pub enum Verdict {
    Admitted,
    Duplicate,
    NeedsLookup,
}

/// What the durable id store answered for a point lookup.
#[derive(Debug, Clone, Copy, PartialEq, Eq, Structural)]
pub enum StoreLookup {
    Found,
    Missing,
    Failed,
}

/// Point-in-time sizes of the deduplication tiers.
#[derive(Debug, Clone, Copy, PartialEq, Eq, Structural)]
pub struct DedupStats {
    pub hot_set_size: usize,
    pub recency_cache_size: usize,
    pub filter_size: u64,
    pub durable_approx_count: u64,
}

/// Multi-tier "admit or reject" decision over event ids: a short-horizon hot
/// set, a probabilistic filter, a bounded recency cache and, behind them, the
/// durable id store, whose answers are handed in by the caller. Every id that
/// this engine answers `Admitted` for must then be written to the durable store.
pub struct DeduplicationEngine {
    hot: HotSet,
    filter: ProbabilisticFilter,
    cache: BoundedRecencyCache,
    admitted: Ghost<Set<Seq<u8>>>,
}

impl DeduplicationEngine {
    /// Every id this engine has answered `Admitted` for, or was told of by
    /// `remember`.
    pub closed spec fn admitted(&self) -> Set<Seq<u8>> {
        self.admitted@
    }

    pub closed spec fn hot_view(&self) -> Seq<(Seq<u8>, u64)> {
        self.hot.view()
    }

    pub closed spec fn horizon(&self) -> u64 {
        self.hot.horizon_ms()
    }

    /// Most entries the hot set holds.
    pub closed spec fn hot_cap(&self) -> nat {
        self.hot.cap()
    }

    pub closed spec fn cache_view(&self) -> Seq<Seq<u8>> {
        self.cache.view()
    }

    pub closed spec fn cache_cap(&self) -> nat {
        self.cache.cap()
    }

    pub closed spec fn filter_may_hold(&self, id: Seq<u8>) -> bool {
        self.filter.may_hold(id)
    }

    /// Number of bits of the filter.
    pub closed spec fn filter_bits(&self) -> nat {
        self.filter.num_bits()
    }

    pub closed spec fn filter_count(&self) -> nat {
        self.filter.insert_count()
    }

    pub closed spec fn wf(&self) -> bool {
        &&& self.hot.wf()
        &&& self.filter.wf()
        &&& self.cache.wf()
        &&& forall|x: Seq<u8>| #[trigger] self.admitted@.contains(x) ==> self.filter.inserted().contains(x)
        &&& forall|i: int| 0 <= i < self.cache.view().len() ==> self.admitted@.contains(#[trigger] self.cache.view()[i])
    }

    /// Whether `id` is in the hot set at `now`.
    pub open spec fn hot_holds(&self, id: Seq<u8>, now: u64) -> bool {
        has_id(live(self.hot_view(), now, self.horizon()), id)
    }

    /// The answer of the in-memory tiers, in their order.
    pub open spec fn tier_verdict(&self, id: Seq<u8>, now: u64) -> Verdict {
        if self.hot_holds(id, now) {
            Verdict::Duplicate
        } else if !self.filter_may_hold(id) {
            Verdict::Admitted
        } else if self.cache_view().contains(id) {
            Verdict::Duplicate
        } else {
            Verdict::NeedsLookup
        }
    }

    /// What one `try_admit(id, now)` call leaves and answers, as far as the
    /// hot set and the verdict go.
    pub open spec fn admit_step(&self, fin: Self, id: Seq<u8>, now: u64, r: Verdict) -> bool {
        &&& fin.wf()
        &&& r == self.tier_verdict(id, now)
        &&& fin.horizon() == self.horizon()
        &&& fin.hot_cap() == self.hot_cap()
        &&& fin.hot_view() == if self.hot_holds(id, now) {
            live(self.hot_view(), now, self.horizon())
        } else {
            with_entry(live(self.hot_view(), now, self.horizon()), self.hot_cap(), id, now)
        }
    }

    /// The final answer once the durable store has answered `answer`.
    pub open spec fn lookup_outcome(&self, id: Seq<u8>, answer: StoreLookup) -> AdmitResult {
        if !self.cache_view().contains(id) && answer == StoreLookup::Missing {
            AdmitResult::Admitted
        } else {
            AdmitResult::Duplicate
        }
    }

    /// The recency cache after `id` is recorded as most recently used.
    pub open spec fn cache_after_insert(&self, id: Seq<u8>) -> Seq<Seq<u8>> {
        if self.cache_view().len() == self.cache_cap() {
            self.cache_view().drop_first().push(id)
        } else {
            self.cache_view().push(id)
        }
    }

    /// Creates an engine with an empty hot set of the given horizon (in
    /// milliseconds) and capacity, a filter sized for `filter_capacity` ids and a recency
    /// cache of `cache_capacity` entries.
    pub fn new(hot_horizon_ms: u64, hot_capacity: usize, filter_capacity: usize, cache_capacity: usize) -> (r: Self)
        ensures
            r.wf(),
            r.admitted() == Set::<Seq<u8>>::empty(),
            r.hot_view() == Seq::<(Seq<u8>, u64)>::empty(),
            r.horizon() == hot_horizon_ms,
            r.hot_cap() == if hot_capacity == 0 { 1 } else { hot_capacity as nat },
            r.cache_view() == Seq::<Seq<u8>>::empty(),
            r.cache_cap() == if cache_capacity == 0 { 1 } else { cache_capacity as nat },
            r.filter_count() == 0,
            r.filter_bits() == bits_for(filter_capacity as nat),
    {
        DeduplicationEngine {
            hot: HotSet::new(hot_horizon_ms, hot_capacity),
            filter: ProbabilisticFilter::new(filter_capacity),
            cache: BoundedRecencyCache::new(cache_capacity),
            admitted: Ghost(Set::empty()),
        }
    }

    /// Presents `id` at time `now` (milliseconds) to the in-memory tiers.
    /// The id is first recorded in the hot set; a hit there, or in the recency
    /// cache, is a duplicate; a filter miss admits it at once (the caller then
    /// writes it to the durable store); otherwise the durable store must decide.
    pub fn try_admit(&mut self, id: &[u8], now: u64) -> (r: Verdict)
        requires
            old(self).wf(),
        ensures
            final(self).wf(),
            r == old(self).tier_verdict(id@, now),
            old(self).admit_step(*final(self), id@, now, r),
            final(self).horizon() == old(self).horizon(),
            final(self).hot_cap() == old(self).hot_cap(),
            final(self).hot_view() == if old(self).hot_holds(id@, now) {
                live(old(self).hot_view(), now, old(self).horizon())
            } else {
                with_entry(live(old(self).hot_view(), now, old(self).horizon()), old(self).hot_cap(), id@, now)
            },
            final(self).admitted() == if r == Verdict::Admitted {
                old(self).admitted().insert(id@)
            } else {
                old(self).admitted()
            },
            r == Verdict::Admitted ==> !old(self).admitted().contains(id@),
            r == Verdict::Admitted ==> final(self).cache_view() == old(self).cache_after_insert(id@),
            r != Verdict::Admitted ==> final(self).cache_view().to_set() == old(self).cache_view().to_set(),
            final(self).cache_cap() == old(self).cache_cap(),
            final(self).filter_count() == if r == Verdict::Admitted {
                saturating_inc(old(self).filter_count())
            } else {
                old(self).filter_count()
            },
            final(self).filter_bits() == old(self).filter_bits(),
    {
        if !self.hot.insert(id, now) {
            return Verdict::Duplicate;
        }
        if !self.filter.may_contain(id) {
            proof {
                if self.cache.view().contains(id@) {
                    let i = choose|i: int| 0 <= i < self.cache.view().len() && self.cache.view()[i] == id@;
                    assert(self.admitted@.contains(self.cache.view()[i]));
                }
            }
            self.cache.insert(id);
            self.filter.insert(id);
            self.admitted = Ghost(self.admitted@.insert(id@));
            proof {
                    old(self).cache.lemma_bounds();
                    self.lemma_wf_after_growth(old(self).cache.view(), id@);
                }
            return Verdict::Admitted;
        }
        let ghost c0 = self.cache.view();
        if self.cache.touch(id) {
            proof {
                let i = choose|i: int|
                    0 <= i < c0.len() && c0[i] == id@ && self.cache.view() == c0.remove(i).push(id@);
                assert(self.cache.view().to_set() =~= c0.to_set()) by {
                    assert forall|x: Seq<u8>| c0.contains(x) implies self.cache.view().contains(x) by {
                        let j = choose|j: int| 0 <= j < c0.len() && c0[j] == x;
                        if j == i {
                            assert(self.cache.view()[self.cache.view().len() - 1] == x);
                        } else if j < i {
                            assert(self.cache.view()[j] == x);
                        } else {
                            assert(self.cache.view()[j - 1] == x);
                        }
                    }
                    assert forall|x: Seq<u8>| self.cache.view().contains(x) implies c0.contains(x) by {
                        let j = choose|j: int| 0 <= j < self.cache.view().len() && self.cache.view()[j] == x;
                        if j == self.cache.view().len() - 1 {
                            assert(c0[i] == x);
                        } else if j < i {
                            assert(c0[j] == x);
                        } else {
                            assert(c0[j + 1] == x);
                        }
                    }
                }
                assert forall|k: int| 0 <= k < self.cache.view().len()
                    implies self.admitted@.contains(#[trigger] self.cache.view()[k]) by {
                    assert(c0.contains(self.cache.view()[k]));
                }
            }
            return Verdict::Duplicate;
        }
        Verdict::NeedsLookup
    }

    proof fn lemma_wf_after_growth(&self, c0: Seq<Seq<u8>>, id: Seq<u8>)
        requires
            self.hot.wf(),
            self.filter.wf(),
            self.cache.wf(),
            forall|i: int| 0 <= i < c0.len() ==> self.admitted@.contains(#[trigger] c0[i]),
            self.admitted@.contains(id),
            self.cache.view() == c0.push(id) || (c0.len() > 0 && self.cache.view() == c0.drop_first().push(id)),
            forall|x: Seq<u8>| #[trigger] self.admitted@.contains(x) ==> self.filter.inserted().contains(x),
        ensures
            self.wf(),
    {
        assert forall|k: int| 0 <= k < self.cache.view().len()
            implies self.admitted@.contains(#[trigger] self.cache.view()[k]) by {
            if k == self.cache.view().len() - 1 {
            } else if self.cache.view() == c0.push(id) {
                assert(self.cache.view()[k] == c0[k]);
            } else {
                assert(self.cache.view()[k] == c0[k + 1]);
            }
        }
    }

    /// Completes a presentation that `try_admit` answered `NeedsLookup`, given the
    /// durable store's answer. A miss there means the filter's positive was
    /// false: the id is admitted (and the caller writes it to the store). A hit,
    /// or a failed read, is a duplicate; a failed read is rejected so that
    /// storage trouble never leads to forwarding an event twice.
    pub fn admit_after_lookup(&mut self, id: &[u8], answer: StoreLookup) -> (r: AdmitResult)
        requires
            old(self).wf(),
        ensures
            final(self).wf(),
            r == old(self).lookup_outcome(id@, answer),
            final(self).hot_view() == old(self).hot_view(),
            final(self).horizon() == old(self).horizon(),
            final(self).hot_cap() == old(self).hot_cap(),
            final(self).admitted() == if r == AdmitResult::Admitted {
                old(self).admitted().insert(id@)
            } else {
                old(self).admitted()
            },
            r == AdmitResult::Admitted ==> final(self).cache_view() == old(self).cache_after_insert(id@),
            r == AdmitResult::Duplicate ==> final(self).cache_view() == old(self).cache_view(),
            final(self).cache_cap() == old(self).cache_cap(),
            final(self).filter_count() == if r == AdmitResult::Admitted {
                saturating_inc(old(self).filter_count())
            } else {
                old(self).filter_count()
            },
            final(self).filter_bits() == old(self).filter_bits(),
    {
        if self.cache.contains(id) {
            return AdmitResult::Duplicate;
        }
        match answer {
            StoreLookup::Missing => {
                self.cache.insert(id);
                self.filter.insert(id);
                self.admitted = Ghost(self.admitted@.insert(id@));
                proof {
                    old(self).cache.lemma_bounds();
                    self.lemma_wf_after_growth(old(self).cache.view(), id@);
                }
                AdmitResult::Admitted
            },
            _ => AdmitResult::Duplicate,
        }
    }

    /// Records an id that the durable store already holds, as found there at
    /// start-up: the filter learns it, so that it is never taken for new.
    pub fn remember(&mut self, id: &[u8])
        requires
            old(self).wf(),
        ensures
            final(self).wf(),
            final(self).admitted() == old(self).admitted().insert(id@),
            final(self).hot_view() == old(self).hot_view(),
            final(self).horizon() == old(self).horizon(),
            final(self).hot_cap() == old(self).hot_cap(),
            final(self).cache_view() == old(self).cache_view(),
            final(self).cache_cap() == old(self).cache_cap(),
            final(self).filter_count() == saturating_inc(old(self).filter_count()),
            final(self).filter_bits() == old(self).filter_bits(),
    {
        self.filter.insert(id);
        self.admitted = Ghost(self.admitted@.insert(id@));
    }

    /// Snapshot of the tier sizes; the durable store's approximate count is
    /// handed in by the caller.
    pub fn get_stats(&self, durable_approx_count: u64) -> (r: DedupStats)
        ensures
            r.hot_set_size == self.hot_view().len(),
            r.recency_cache_size == self.cache_view().len(),
            r.filter_size == self.filter_count(),
            r.durable_approx_count == durable_approx_count,
    {
        DedupStats {
            hot_set_size: self.hot.len(),
            recency_cache_size: self.cache.len(),
            filter_size: self.filter.len(),
            durable_approx_count,
        }
    }
}

/// An id that was admitted is never admitted again: the in-memory tiers
/// never answer `Admitted` for it, and once the durable store holds it (or
/// cannot be read) the lookup ends in `Duplicate`.
pub proof fn lemma_admitted_never_readmitted(e: &DeduplicationEngine, id: Seq<u8>, now: u64, answer: StoreLookup)
    requires
        e.wf(),
        e.admitted().contains(id),
        answer != StoreLookup::Missing,
    ensures
        e.tier_verdict(id, now) != Verdict::Admitted,
        e.lookup_outcome(id, answer) == AdmitResult::Duplicate,
{
    e.filter.lemma_no_false_negative(id);
}

/// An id that was never admitted and is not in the hot set is admitted on
/// its presentation: at once on a filter miss, or after a durable lookup
/// that does not find it.
pub proof fn lemma_new_id_admitted(e: &DeduplicationEngine, id: Seq<u8>, now: u64)
    requires
        e.wf(),
        !e.admitted().contains(id),
        !e.hot_holds(id, now),
    ensures
        e.tier_verdict(id, now) != Verdict::Duplicate,
        e.lookup_outcome(id, StoreLookup::Missing) == AdmitResult::Admitted,
{
    if e.cache_view().contains(id) {
        let i = choose|i: int| 0 <= i < e.cache_view().len() && e.cache_view()[i] == id;
        assert(e.admitted@.contains(e.cache.view()[i]));
    }
}

/// Once an id has been presented at `seen_at`, every presentation of it
/// within the hot-set horizon is a duplicate, whatever the other tiers hold;
/// so of near-simultaneous presentations only the first can be admitted.
pub proof fn lemma_seen_id_is_duplicate(e: &DeduplicationEngine, id: Seq<u8>, seen_at: u64, now: u64)
    requires
        e.hot_view().contains((id, seen_at)),
        (now as int) < seen_at as int + e.horizon() as int,
    ensures
        e.tier_verdict(id, now) == Verdict::Duplicate,
{
    let pred = |x: (Seq<u8>, u64)| crate::hot_set::fresh(x.1, now, e.horizon());
    let i = choose|i: int| 0 <= i < e.hot_view().len() && e.hot_view()[i] == (id, seen_at);
    e.hot_view().lemma_filter_contains_rev(pred, (id, seen_at));
    let l = live(e.hot_view(), now, e.horizon());
    assert(l.contains((id, seen_at)));
    let j = choose|j: int| 0 <= j < l.len() && l[j] == (id, seen_at);
    assert(l[j].0 == id);
}

/// An admitted id that the recency cache has evicted (and the hot set no
/// longer holds) falls through to the durable store, which rejects it.
pub proof fn lemma_evicted_id_rejected(e: &DeduplicationEngine, id: Seq<u8>, now: u64)
    requires
        e.wf(),
        e.admitted().contains(id),
        !e.cache_view().contains(id),
        !e.hot_holds(id, now),
    ensures
        e.tier_verdict(id, now) == Verdict::NeedsLookup,
        e.lookup_outcome(id, StoreLookup::Found) == AdmitResult::Duplicate,
{
    e.filter.lemma_no_false_negative(id);
}

/// Whether `states`, `verdicts` and `nows` record a run of presentations of
/// `id`: call `k` at `nows[k]` took `states[k]` to `states[k + 1]` and answered
/// `verdicts[k]`, every call falling within the hot-set horizon of the first.
pub open spec fn presentation_run(
    states: Seq<DeduplicationEngine>,
    verdicts: Seq<Verdict>,
    nows: Seq<u64>,
    id: Seq<u8>,
) -> bool {
    &&& verdicts.len() >= 1
    &&& states.len() == verdicts.len() + 1
    &&& nows.len() == verdicts.len()
    &&& states[0].wf()
    &&& forall|k: int| 0 <= k < verdicts.len() ==> states[k].admit_step(states[k + 1], id, nows[k], #[trigger] verdicts[k])
    &&& forall|k: int| 0 <= k < nows.len() ==> (#[trigger] nows[k] as int) < nows[0] as int + states[0].horizon() as int
}

proof fn lemma_first_entry_kept(
    states: Seq<DeduplicationEngine>,
    verdicts: Seq<Verdict>,
    nows: Seq<u64>,
    id: Seq<u8>,
    k: int,
)
    requires
        presentation_run(states, verdicts, nows, id),
        !states[0].hot_holds(id, nows[0]),
        1 <= k < states.len(),
    ensures
        states[k].hot_view().contains((id, nows[0])),
        states[k].horizon() == states[0].horizon(),
    decreases k,
{
    if k == 1 {
        assert(states[0].admit_step(states[1], id, nows[0], verdicts[0]));
        let l = live(states[0].hot_view(), nows[0], states[0].horizon());
        let w = with_entry(l, states[0].hot_cap(), id, nows[0]);
        assert(w[w.len() - 1] == (id, nows[0]));
    } else {
        lemma_first_entry_kept(states, verdicts, nows, id, k - 1);
        let e = states[k - 1];
        assert(e.admit_step(states[k], id, nows[k - 1], verdicts[k - 1]));
        assert((nows[k - 1] as int) < nows[0] as int + states[0].horizon() as int);
        let pred = |x: (Seq<u8>, u64)| crate::hot_set::fresh(x.1, nows[k - 1], e.horizon());
        e.hot_view().lemma_filter_contains_rev(pred, (id, nows[0]));
        let l = live(e.hot_view(), nows[k - 1], e.horizon());
        assert(l.contains((id, nows[0])));
        let j = choose|j: int| 0 <= j < l.len() && l[j] == (id, nows[0]);
        assert(l[j].0 == id);
        assert(e.hot_holds(id, nows[k - 1]));
    }
}

/// Of any number of presentations of an id that the hot set does not hold,
/// all within the hot-set horizon of the first, every one but the first is a
/// duplicate: at most one can be admitted, however they interleave with the
/// clock. (`lemma_new_id_admitted` gives that the first one is.)
pub proof fn lemma_single_admission(
    states: Seq<DeduplicationEngine>,
    verdicts: Seq<Verdict>,
    nows: Seq<u64>,
    id: Seq<u8>,
)
    requires
        presentation_run(states, verdicts, nows, id),
        !states[0].hot_holds(id, nows[0]),
    ensures
        forall|k: int| 1 <= k < verdicts.len() ==> #[trigger] verdicts[k] == Verdict::Duplicate,
{
    assert forall|k: int| 1 <= k < verdicts.len() implies #[trigger] verdicts[k] == Verdict::Duplicate by {
        lemma_first_entry_kept(states, verdicts, nows, id, k);
        assert(states[k].admit_step(states[k + 1], id, nows[k], verdicts[k]));
        assert((nows[k] as int) < nows[0] as int + states[0].horizon() as int);
        lemma_seen_id_is_duplicate(&states[k], id, nows[0], nows[k]);
    }
}

} // verus!
