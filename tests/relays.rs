use iso_relayer::pool::{ConnectOutcome, PoolError, RelayPool};
use iso_relayer::relay::{BackoffPolicy, ConnectionState, RelayAction, RelayDescriptor, RelayEvent, MAX_BACKOFF_MS};

fn policy() -> BackoffPolicy {
    BackoffPolicy::new(1_000, 8_000, 30_000)
}

#[test]
fn disconnect_unknown_relay_is_not_found() {
    let mut p = RelayPool::new(policy(), 10);
    assert_eq!(p.disconnect_relay("wss://nowhere"), Err(PoolError::NotFound));
}

#[test]
fn connect_twice_adds_once() {
    let mut p = RelayPool::new(policy(), 10);
    assert_eq!(p.connect_and_subscribe("wss://a"), Ok(ConnectOutcome::Added));
    assert_eq!(p.connect_and_subscribe("wss://a"), Ok(ConnectOutcome::AlreadyTracked));
    assert_eq!(p.list_relays(), vec!["wss://a".to_string()]);
    assert_eq!(p.disconnect_relay("wss://a"), Ok(()));
    assert!(p.list_relays().is_empty());
    assert_eq!(p.disconnect_relay("wss://a"), Err(PoolError::NotFound));
}

#[test]
fn pool_refuses_beyond_max_connections() {
    let mut p = RelayPool::new(policy(), 1);
    assert_eq!(p.connect_and_subscribe("wss://a"), Ok(ConnectOutcome::Added));
    assert_eq!(p.connect_and_subscribe("wss://b"), Err(PoolError::PoolFull));
    assert_eq!(p.connect_and_subscribe("wss://a"), Ok(ConnectOutcome::AlreadyTracked));
}

#[test]
fn statuses_and_active_count_follow_events() {
    let mut p = RelayPool::new(policy(), 10);
    p.connect_and_subscribe("wss://a").unwrap();
    p.connect_and_subscribe("wss://b").unwrap();
    assert_eq!(p.active_connections(), 0);
    assert_eq!(p.apply("wss://a", RelayEvent::DialStarted, 0, 0), Ok(RelayAction::Nothing));
    assert_eq!(p.apply("wss://a", RelayEvent::DialSucceeded, 10, 0), Ok(RelayAction::KeepReading));
    assert_eq!(p.active_connections(), 1);
    let st = p.get_connection_statuses();
    assert_eq!(st[0], ("wss://a".to_string(), ConnectionState::Connected));
    assert_eq!(st[1], ("wss://b".to_string(), ConnectionState::Disconnected));
    assert_eq!(p.apply("wss://c", RelayEvent::DialStarted, 0, 0), Err(PoolError::NotFound));
}

#[test]
fn backoff_doubles_up_to_ceiling() {
    let p = policy();
    let mut d = RelayDescriptor::new("wss://a".to_string(), &p);
    let mut delays = Vec::new();
    for _ in 0..5 {
        d.step(RelayEvent::DialStarted, 0, 0, &p);
        match d.step(RelayEvent::DialFailed, 0, 0, &p) {
            RelayAction::RetryAfter(ms) => delays.push(ms),
            other => panic!("unexpected {:?}", other),
        }
        assert_eq!(d.state, ConnectionState::Reconnecting);
    }
    assert_eq!(delays, vec![1_000, 2_000, 4_000, 8_000, 8_000]);
    assert_eq!(d.failures, 5);
}

#[test]
fn retry_delay_adds_bounded_jitter() {
    let p = policy();
    let mut d = RelayDescriptor::new("wss://a".to_string(), &p);
    d.step(RelayEvent::DialStarted, 0, 0, &p);
    // 1000 + 7 % (1000 / 4 + 1)
    assert_eq!(d.step(RelayEvent::DialFailed, 0, 7, &p), RelayAction::RetryAfter(1_007));
    d.step(RelayEvent::DialStarted, 0, 0, &p);
    // 2000 + 1000 % 501
    assert_eq!(d.step(RelayEvent::DialFailed, 0, 1_000, &p), RelayAction::RetryAfter(2_499));
}

#[test]
fn sustained_connection_resets_backoff() {
    let p = policy();
    let mut d = RelayDescriptor::new("wss://a".to_string(), &p);
    for _ in 0..3 {
        d.step(RelayEvent::DialStarted, 0, 0, &p);
        d.step(RelayEvent::DialFailed, 0, 0, &p);
    }
    assert_eq!(d.backoff_ms, 8_000);
    d.step(RelayEvent::DialStarted, 100, 0, &p);
    assert_eq!(d.step(RelayEvent::DialSucceeded, 100, 0, &p), RelayAction::KeepReading);
    // Lost after 20 s, longer than the 8 s ceiling: back to the base.
    assert_eq!(d.step(RelayEvent::StreamFailed, 20_100, 0, &p), RelayAction::RetryAfter(1_000));
    assert_eq!(d.failures, 1);
    assert_eq!(d.backoff_ms, 2_000);
}

#[test]
fn short_connection_keeps_backing_off() {
    let p = policy();
    let mut d = RelayDescriptor::new("wss://a".to_string(), &p);
    d.step(RelayEvent::DialStarted, 0, 0, &p);
    d.step(RelayEvent::DialFailed, 0, 0, &p);
    d.step(RelayEvent::DialStarted, 0, 0, &p);
    d.step(RelayEvent::DialSucceeded, 0, 0, &p);
    assert_eq!(d.step(RelayEvent::StreamFailed, 500, 0, &p), RelayAction::RetryAfter(2_000));
    assert_eq!(d.failures, 2);
}

#[test]
fn silent_relay_is_forced_to_reconnect() {
    let p = policy();
    let mut d = RelayDescriptor::new("wss://a".to_string(), &p);
    d.step(RelayEvent::DialStarted, 0, 0, &p);
    d.step(RelayEvent::DialSucceeded, 0, 0, &p);
    assert_eq!(d.step(RelayEvent::EventReceived, 10_000, 0, &p), RelayAction::KeepReading);
    assert_eq!(d.step(RelayEvent::HealthCheck, 39_999, 0, &p), RelayAction::Nothing);
    assert_eq!(d.state, ConnectionState::Connected);
    assert_eq!(d.step(RelayEvent::HealthCheck, 40_000, 0, &p), RelayAction::RetryAfter(1_000));
    assert_eq!(d.state, ConnectionState::Reconnecting);
}

#[test]
fn stop_closes_and_disconnects() {
    let p = policy();
    let mut d = RelayDescriptor::new("wss://a".to_string(), &p);
    d.step(RelayEvent::DialStarted, 0, 0, &p);
    assert_eq!(d.step(RelayEvent::Stop, 0, 0, &p), RelayAction::Close);
    assert_eq!(d.state, ConnectionState::Disconnected);
    // Events that do not apply change nothing.
    assert_eq!(d.step(RelayEvent::DialSucceeded, 0, 0, &p), RelayAction::Nothing);
    assert_eq!(d.state, ConnectionState::Disconnected);
}

#[test]
fn policy_is_clamped() {
    let p = BackoffPolicy::new(0, u64::MAX, 5);
    assert_eq!(p.base_ms, 1);
    assert_eq!(p.ceiling_ms, MAX_BACKOFF_MS);
    let q = BackoffPolicy::new(5_000, 10, 5);
    assert_eq!(q.ceiling_ms, 5_000);
}

#[test]
fn listed_urls_are_distinct() {
    let mut p = RelayPool::new(policy(), 10);
    for url in ["wss://a", "wss://b", "wss://a", "wss://c", "wss://b"] {
        p.connect_and_subscribe(url).unwrap();
    }
    assert_eq!(p.list_relays(), vec!["wss://a".to_string(), "wss://b".to_string(), "wss://c".to_string()]);
    assert_eq!(p.get_connection_statuses().len(), 3);
}
