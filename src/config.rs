use vstd::prelude::*;
use crate::dedup::DeduplicationEngine;
use crate::filter::bits_for;
use crate::distributor::Distributor;
use crate::pool::RelayPool;
use crate::relay::BackoffPolicy;

verus! {

/// First reconnection delay, in milliseconds.
pub const BASE_BACKOFF_MS: u64 = 1_000;

/// Longest reconnection delay, in milliseconds.
pub const CEILING_BACKOFF_MS: u64 = 60_000;

/// Health-check periods a relay may stay silent before it is forced to reconnect.
pub const SILENT_PERIODS: u64 = 3;

/// Upstream relays to track.
pub struct RelayConfig {
    pub bootstrap_relays: Vec<String>,
    pub max_connections: usize,
    /// Seconds between health checks.
    pub health_check_interval: u64,
}

/// Sizing of the deduplication tiers.
pub struct DeduplicationConfig {
    /// Most ids the hot set holds.
    pub hotset_size: usize,
    /// How long an id stays in the hot set, in milliseconds.
    pub hotset_horizon_ms: u64,
    pub bloom_capacity: usize,
    pub lru_size: usize,
    pub rocksdb_path: String,
}

/// Downstream delivery.
pub struct OutputConfig {
    pub websocket_enabled: bool,
    pub websocket_port: u16,
    pub downstream_tcp: Vec<String>,
    pub downstream_rest: Vec<String>,
    pub batch_size: usize,
    pub max_latency_ms: u64,
}

pub struct MonitoringConfig {
    pub prometheus_port: u16,
    pub log_level: String,
}

pub struct AppConfig {
    pub relay: RelayConfig,
    pub deduplication: DeduplicationConfig,
    pub output: OutputConfig,
    pub monitoring: MonitoringConfig,
}

/// The silence threshold, in milliseconds, for a health-check interval in seconds.
pub open spec fn silence_for(interval_s: u64) -> u64 {
    if interval_s as int * 1000 * SILENT_PERIODS as int > u64::MAX {
        u64::MAX
    } else {
        (interval_s as int * 1000 * SILENT_PERIODS as int) as u64
    }
}

impl RelayConfig {
    /// The reconnection policy: backoff from one second up to a minute, and
    /// forced reconnection after three silent health-check periods.
    pub fn policy(&self) -> (r: BackoffPolicy)
        ensures
            r.wf(),
            r.base_ms == BASE_BACKOFF_MS,
            r.ceiling_ms == CEILING_BACKOFF_MS,
            r.silence_ms == silence_for(self.health_check_interval),
    {
        let silence: u64 = if self.health_check_interval > u64::MAX / (1000 * SILENT_PERIODS) {
            u64::MAX
        } else {
            self.health_check_interval * (1000 * SILENT_PERIODS)
        };
        BackoffPolicy::new(BASE_BACKOFF_MS, CEILING_BACKOFF_MS, silence)
    }

    /// An empty relay pool limited to `max_connections` relays.
    pub fn pool(&self) -> (r: RelayPool)
        ensures
            r.wf(),
            r.view().len() == 0,
            r.max_relays() == self.max_connections,
            r.policy().base_ms == BASE_BACKOFF_MS,
            r.policy().ceiling_ms == CEILING_BACKOFF_MS,
            r.policy().silence_ms == silence_for(self.health_check_interval),
    {
        RelayPool::new(self.policy(), self.max_connections)
    }
}

impl DeduplicationConfig {
    /// An empty engine sized by this configuration.
    pub fn engine(&self) -> (r: DeduplicationEngine)
        ensures
            r.wf(),
            r.admitted().len() == 0,
            r.hot_view().len() == 0,
            r.horizon() == self.hotset_horizon_ms,
            r.hot_cap() == if self.hotset_size == 0 { 1 } else { self.hotset_size as nat },
            r.cache_view().len() == 0,
            r.cache_cap() == if self.lru_size == 0 { 1 } else { self.lru_size as nat },
            r.filter_bits() == bits_for(self.bloom_capacity as nat),
            r.filter_count() == 0,
    {
        DeduplicationEngine::new(self.hotset_horizon_ms, self.hotset_size, self.bloom_capacity, self.lru_size)
    }
}

impl OutputConfig {
    /// An empty distributor with this batch size and latency.
    pub fn distributor(&self) -> (r: Distributor)
        ensures
            r.wf(),
            r.view().len() == 0,
            r.batch_limit() == if self.batch_size == 0 { 1 } else { self.batch_size as nat },
            r.latency() == self.max_latency_ms,
    {
        Distributor::new(self.batch_size, self.max_latency_ms)
    }
}

} // verus!
