use vstd::prelude::*;
use crate::config::{silence_for, AppConfig, BASE_BACKOFF_MS, CEILING_BACKOFF_MS};
use crate::filter::bits_for;
use crate::hot_set::{live, with_entry};
use crate::dedup::{saturating_inc, AdmitResult, DeduplicationEngine, StoreLookup, Verdict};
use crate::distributor::{Distributor, InboundEvent};
use crate::pool::RelayPool;

verus! {

/// What became of one inbound event.
#[derive(Debug)]
pub enum Ingested {
    /// Rejected as a duplicate.
    Duplicate,
    /// Admitted and buffered for the next batch.
    Buffered,
    /// Admitted; it completed this batch, to be handed to every sink.
    Batch(Vec<InboundEvent>),
    /// The durable store must decide: look the id up and call
    /// `ingest_after_lookup` with the event and the answer.
    NeedsLookup(InboundEvent),
}

/// The service's shared state: the relay pool, the deduplication engine and
/// the distributor that batches the events it admits.
pub struct AppState {
    pub pool: RelayPool,
    pub dedupe: DeduplicationEngine,
    pub distributor: Distributor,
}

/// Whether `r`, `fin` are what forwarding `ev` at `now` to `d` gives.
pub open spec fn forwarded(d: Distributor, fin: Distributor, ev: InboundEvent, now: u64, r: Ingested) -> bool {
    match r {
        Ingested::Buffered => d.push_post(fin, ev, now, None),
        Ingested::Batch(b) => d.push_post(fin, ev, now, Some(b)),
        _ => false,
    }
}

impl AppState {
    pub open spec fn wf(&self) -> bool {
        self.pool.wf() && self.dedupe.wf() && self.distributor.wf()
    }

    /// Builds the state from the configuration, with no relay tracked yet.
    pub fn new(cfg: &AppConfig) -> (r: Self)
        ensures
            r.wf(),
            r.pool.view().len() == 0,
            r.pool.max_relays() == cfg.relay.max_connections,
            r.pool.policy().base_ms == BASE_BACKOFF_MS,
            r.pool.policy().ceiling_ms == CEILING_BACKOFF_MS,
            r.pool.policy().silence_ms == silence_for(cfg.relay.health_check_interval),
            r.dedupe.admitted().len() == 0,
            r.dedupe.hot_view().len() == 0,
            r.dedupe.horizon() == cfg.deduplication.hotset_horizon_ms,
            r.dedupe.hot_cap() == if cfg.deduplication.hotset_size == 0 { 1 } else { cfg.deduplication.hotset_size as nat },
            r.dedupe.cache_view().len() == 0,
            r.dedupe.cache_cap() == if cfg.deduplication.lru_size == 0 { 1 } else { cfg.deduplication.lru_size as nat },
            r.dedupe.filter_bits() == bits_for(cfg.deduplication.bloom_capacity as nat),
            r.dedupe.filter_count() == 0,
            r.distributor.view().len() == 0,
            r.distributor.batch_limit() == if cfg.output.batch_size == 0 { 1 } else { cfg.output.batch_size as nat },
            r.distributor.latency() == cfg.output.max_latency_ms,
    {
        AppState {
            pool: cfg.relay.pool(),
            dedupe: cfg.deduplication.engine(),
            distributor: cfg.output.distributor(),
        }
    }

    fn forward(&mut self, ev: InboundEvent, now: u64) -> (r: Ingested)
        requires
            old(self).distributor.wf(),
        ensures
            final(self).distributor.wf(),
            forwarded(old(self).distributor, final(self).distributor, ev, now, r),
            final(self).pool == old(self).pool,
            final(self).dedupe == old(self).dedupe,
    {
        match self.distributor.push(ev, now) {
            Some(b) => Ingested::Batch(b),
            None => Ingested::Buffered,
        }
    }

    /// Presents an event received at `now`: duplicates are dropped, admitted
    /// events go to the distributor, and an id that only the durable store can
    /// decide is handed back. The caller writes every admitted id to the store.
    pub fn ingest(&mut self, ev: InboundEvent, now: u64) -> (r: Ingested)
        requires
            old(self).wf(),
        ensures
            final(self).wf(),
            final(self).pool == old(self).pool,
            final(self).dedupe.horizon() == old(self).dedupe.horizon(),
            final(self).dedupe.hot_cap() == old(self).dedupe.hot_cap(),
            final(self).dedupe.hot_view() == if old(self).dedupe.hot_holds(ev.id@, now) {
                live(old(self).dedupe.hot_view(), now, old(self).dedupe.horizon())
            } else {
                with_entry(live(old(self).dedupe.hot_view(), now, old(self).dedupe.horizon()), old(self).dedupe.hot_cap(), ev.id@, now)
            },
            final(self).dedupe.cache_cap() == old(self).dedupe.cache_cap(),
            final(self).dedupe.filter_bits() == old(self).dedupe.filter_bits(),
            old(self).dedupe.tier_verdict(ev.id@, now) == Verdict::Admitted ==> final(self).dedupe.cache_view()
                == old(self).dedupe.cache_after_insert(ev.id@),
            old(self).dedupe.tier_verdict(ev.id@, now) != Verdict::Admitted ==> final(self).dedupe.cache_view().to_set()
                == old(self).dedupe.cache_view().to_set(),
            final(self).dedupe.filter_count() == if old(self).dedupe.tier_verdict(ev.id@, now) == Verdict::Admitted {
                saturating_inc(old(self).dedupe.filter_count())
            } else {
                old(self).dedupe.filter_count()
            },
            final(self).dedupe.admitted() == if old(self).dedupe.tier_verdict(ev.id@, now) == Verdict::Admitted {
                old(self).dedupe.admitted().insert(ev.id@)
            } else {
                old(self).dedupe.admitted()
            },
            match old(self).dedupe.tier_verdict(ev.id@, now) {
                Verdict::Duplicate => r is Duplicate && final(self).distributor == old(self).distributor,
                Verdict::NeedsLookup => r == Ingested::NeedsLookup(ev) && final(self).distributor == old(self).distributor,
                Verdict::Admitted => forwarded(old(self).distributor, final(self).distributor, ev, now, r),
            },
    {
        match self.dedupe.try_admit(ev.id.as_slice(), now) {
            Verdict::Duplicate => Ingested::Duplicate,
            Verdict::NeedsLookup => Ingested::NeedsLookup(ev),
            Verdict::Admitted => self.forward(ev, now),
        }
    }

    /// Completes an event that `ingest` handed back, given the durable
    /// store's answer for its id.
    pub fn ingest_after_lookup(&mut self, ev: InboundEvent, answer: StoreLookup, now: u64) -> (r: Ingested)
        requires
            old(self).wf(),
        ensures
            final(self).wf(),
            final(self).pool == old(self).pool,
            final(self).dedupe.horizon() == old(self).dedupe.horizon(),
            final(self).dedupe.hot_cap() == old(self).dedupe.hot_cap(),
            final(self).dedupe.hot_view() == old(self).dedupe.hot_view(),
            final(self).dedupe.cache_cap() == old(self).dedupe.cache_cap(),
            final(self).dedupe.filter_bits() == old(self).dedupe.filter_bits(),
            old(self).dedupe.lookup_outcome(ev.id@, answer) == AdmitResult::Admitted ==> final(self).dedupe.cache_view()
                == old(self).dedupe.cache_after_insert(ev.id@),
            old(self).dedupe.lookup_outcome(ev.id@, answer) == AdmitResult::Duplicate ==> final(self).dedupe.cache_view()
                == old(self).dedupe.cache_view(),
            final(self).dedupe.filter_count() == if old(self).dedupe.lookup_outcome(ev.id@, answer) == AdmitResult::Admitted {
                saturating_inc(old(self).dedupe.filter_count())
            } else {
                old(self).dedupe.filter_count()
            },
            final(self).dedupe.admitted() == if old(self).dedupe.lookup_outcome(ev.id@, answer) == AdmitResult::Admitted {
                old(self).dedupe.admitted().insert(ev.id@)
            } else {
                old(self).dedupe.admitted()
            },
            match old(self).dedupe.lookup_outcome(ev.id@, answer) {
                AdmitResult::Duplicate => r is Duplicate && final(self).distributor == old(self).distributor,
                AdmitResult::Admitted => forwarded(old(self).distributor, final(self).distributor, ev, now, r),
            },
    {
        match self.dedupe.admit_after_lookup(ev.id.as_slice(), answer) {
            AdmitResult::Duplicate => Ingested::Duplicate,
            AdmitResult::Admitted => self.forward(ev, now),
        }
    }
}

} // verus!
