use iso_relayer::config::{AppConfig, DeduplicationConfig, MonitoringConfig, OutputConfig, RelayConfig};
use iso_relayer::dedup::StoreLookup;
use iso_relayer::distributor::{Distributor, InboundEvent};
use iso_relayer::state::{AppState, Ingested};

fn event(id: &str, relay: &str, at: u64) -> InboundEvent {
    InboundEvent {
        id: id.as_bytes().to_vec(),
        payload: b"{}".to_vec(),
        relay: relay.to_string(),
        received_at_ms: at,
    }
}

fn config() -> AppConfig {
    AppConfig {
        relay: RelayConfig {
            bootstrap_relays: vec!["wss://a".to_string(), "wss://b".to_string()],
            max_connections: 10,
            health_check_interval: 30,
        },
        deduplication: DeduplicationConfig {
            hotset_size: 10_000,
            hotset_horizon_ms: 2_000,
            bloom_capacity: 100_000,
            lru_size: 1_000,
            rocksdb_path: "data/ids".to_string(),
        },
        output: OutputConfig {
            websocket_enabled: true,
            websocket_port: 8081,
            downstream_tcp: vec![],
            downstream_rest: vec![],
            batch_size: 10,
            max_latency_ms: 500,
        },
        monitoring: MonitoringConfig { prometheus_port: 9090, log_level: "info".to_string() },
    }
}

#[test]
fn batch_flushes_at_max_count() {
    let mut d = Distributor::new(3, 1_000);
    assert!(d.push(event("a", "r", 0), 0).is_none());
    assert!(d.push(event("b", "r", 0), 1).is_none());
    let b = d.push(event("c", "r", 0), 2).unwrap();
    assert_eq!(b.len(), 3);
    assert_eq!(b[0].id, b"a".to_vec());
    assert_eq!(b[2].id, b"c".to_vec());
    assert_eq!(d.len(), 0);
}

#[test]
fn batch_flushes_when_oldest_is_due() {
    let mut d = Distributor::new(10, 500);
    assert!(d.push(event("a", "r", 0), 100).is_none());
    assert_eq!(d.next_deadline(), Some(600));
    assert!(d.push(event("b", "r", 0), 300).is_none());
    assert!(d.tick(599).is_none());
    let b = d.tick(600).unwrap();
    assert_eq!(b.len(), 2);
    assert_eq!(d.next_deadline(), None);
    assert!(d.tick(10_000).is_none());
}

#[test]
fn late_push_flushes_overdue_batch() {
    let mut d = Distributor::new(10, 500);
    assert!(d.push(event("a", "r", 0), 0).is_none());
    let b = d.push(event("b", "r", 0), 700).unwrap();
    assert_eq!(b.len(), 2);
}

#[test]
fn flush_hands_out_partial_batch() {
    let mut d = Distributor::new(0, 500);
    // A batch size of 0 is taken as 1.
    assert_eq!(d.push(event("a", "r", 0), 0).unwrap().len(), 1);
    let mut d = Distributor::new(5, 500);
    d.push(event("a", "r", 0), 0);
    d.push(event("b", "r", 0), 0);
    assert_eq!(d.flush().len(), 2);
    assert_eq!(d.len(), 0);
}

#[test]
fn config_sizes_the_components() {
    let cfg = config();
    let p = cfg.relay.policy();
    assert_eq!(p.base_ms, 1_000);
    assert_eq!(p.ceiling_ms, 60_000);
    assert_eq!(p.silence_ms, 90_000);
    let mut s = AppState::new(&cfg);
    assert_eq!(s.distributor.len(), 0);
    assert_eq!(s.pool.active_connections(), 0);
    // The distributor batches by ten.
    for i in 0..9u64 {
        assert!(s.distributor.push(event(&format!("x{}", i), "r", i), i).is_none());
    }
    assert_eq!(s.distributor.push(event("x9", "r", 9), 9).unwrap().len(), 10);
    // Its latency is 500 ms.
    s.distributor.push(event("y", "r", 0), 1_000);
    assert_eq!(s.distributor.next_deadline(), Some(1_500));
    // The pool takes up to ten relays.
    for i in 0..10 {
        assert!(s.pool.connect_and_subscribe(&format!("wss://r{}", i)).is_ok());
    }
    assert!(s.pool.connect_and_subscribe("wss://r10").is_err());
    // The hot set's horizon is 2 s.
    assert_eq!(s.dedupe.try_admit(b"h", 0), iso_relayer::dedup::Verdict::Admitted);
    assert_eq!(s.dedupe.get_stats(0).hot_set_size, 1);
    s.dedupe.try_admit(b"other", 2_000);
    assert_eq!(s.dedupe.get_stats(0).hot_set_size, 1);
}

#[test]
fn end_to_end_duplicate_across_relays_and_batches() {
    let cfg = config();
    let mut s = AppState::new(&cfg);
    let mut batches: Vec<Vec<InboundEvent>> = Vec::new();
    let mut pending: Vec<InboundEvent> = Vec::new();

    let first = s.ingest(event("E1", "wss://a", 0), 0);
    assert!(matches!(first, Ingested::Buffered));
    let second = s.ingest(event("E1", "wss://b", 8), 8);
    assert!(matches!(second, Ingested::Duplicate));

    for i in 0..15u64 {
        match s.ingest(event(&format!("id-{}", i), "wss://a", 10 + i), 10 + i) {
            Ingested::Batch(b) => batches.push(b),
            Ingested::Buffered => {}
            Ingested::Duplicate => panic!("distinct id rejected"),
            Ingested::NeedsLookup(ev) => pending.push(ev),
        }
    }
    for ev in pending {
        let at = ev.received_at_ms;
        if let Ingested::Batch(b) = s.ingest_after_lookup(ev, StoreLookup::Missing, at) {
            batches.push(b);
        }
    }
    // E1 and nine of the fifteen fill the first batch; the last six wait.
    assert_eq!(batches.len(), 1);
    assert_eq!(batches[0].len(), 10);
    assert_eq!(batches[0].iter().filter(|e| e.id == b"E1".to_vec()).count(), 1);
    assert!(s.distributor.tick(400).is_none());
    let last = s.distributor.tick(10 + 9 + 500).unwrap();
    assert_eq!(last.len(), 6);
}

#[test]
fn end_to_end_fifteen_ids_make_two_batches() {
    let cfg = config();
    let mut s = AppState::new(&cfg);
    let mut sizes = Vec::new();
    for i in 0..15u64 {
        match s.ingest(event(&format!("ev-{}", i), "wss://a", i), i) {
            Ingested::Batch(b) => sizes.push(b.len()),
            Ingested::Buffered => {}
            Ingested::Duplicate => panic!("distinct id rejected"),
            Ingested::NeedsLookup(ev) => {
                if let Ingested::Batch(b) = s.ingest_after_lookup(ev, StoreLookup::Missing, i) {
                    sizes.push(b.len());
                }
            }
        }
    }
    assert_eq!(sizes, vec![10]);
    assert_eq!(s.distributor.next_deadline(), Some(10 + 500));
    let last = s.distributor.tick(510).unwrap();
    assert_eq!(last.len(), 5);
}
