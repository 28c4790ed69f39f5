use iso_relayer::event_id::{copy_id, same_id};
use iso_relayer::dedup::{AdmitResult, DeduplicationEngine, StoreLookup, Verdict};
use iso_relayer::filter::ProbabilisticFilter;
use iso_relayer::hot_set::HotSet;
use iso_relayer::recency::BoundedRecencyCache;

#[test]
fn first_presentation_admitted_then_duplicate() {
    let mut e = DeduplicationEngine::new(2_000, 64, 100_000, 1_000);
    assert_eq!(e.try_admit(b"E1", 0), Verdict::Admitted);
    assert_eq!(e.try_admit(b"E1", 5), Verdict::Duplicate);
    // After the hot-set horizon the recency cache still rejects it.
    assert_eq!(e.try_admit(b"E1", 10_000), Verdict::Duplicate);
    assert_eq!(e.try_admit(b"E1", 1_000_000), Verdict::Duplicate);
}

#[test]
fn same_id_many_times_admitted_once() {
    let mut e = DeduplicationEngine::new(2_000, 64, 1_000, 10);
    let mut admitted = 0;
    for _ in 0..8 {
        if e.try_admit(b"same-id", 100) == Verdict::Admitted {
            admitted += 1;
        }
    }
    assert_eq!(admitted, 1);
}

#[test]
fn distinct_ids_all_admitted() {
    let mut e = DeduplicationEngine::new(2_000, 64, 100_000, 1_000);
    for i in 0..200u32 {
        let id = format!("event-{}", i);
        let v = e.try_admit(id.as_bytes(), i as u64);
        assert_ne!(v, Verdict::Duplicate);
        if v == Verdict::NeedsLookup {
            assert_eq!(e.admit_after_lookup(id.as_bytes(), StoreLookup::Missing), AdmitResult::Admitted);
        }
    }
}

#[test]
fn evicted_id_falls_back_to_durable_store() {
    let mut e = DeduplicationEngine::new(1_000, 64, 1_000, 2);
    assert_eq!(e.try_admit(b"a", 0), Verdict::Admitted);
    assert_eq!(e.try_admit(b"b", 0), Verdict::Admitted);
    assert_eq!(e.try_admit(b"c", 0), Verdict::Admitted);
    let s = e.get_stats(3);
    assert_eq!(s.recency_cache_size, 2);
    // "a" was evicted from the cache; past the horizon only the store knows it.
    assert_eq!(e.try_admit(b"a", 5_000), Verdict::NeedsLookup);
    assert_eq!(e.admit_after_lookup(b"a", StoreLookup::Found), AdmitResult::Duplicate);
    // "c" is still cached.
    assert_eq!(e.try_admit(b"c", 5_000), Verdict::Duplicate);
}

#[test]
fn failed_store_read_is_duplicate() {
    let mut e = DeduplicationEngine::new(1_000, 64, 1_000, 2);
    assert_eq!(e.try_admit(b"x", 0), Verdict::Admitted);
    assert_eq!(e.admit_after_lookup(b"y", StoreLookup::Failed), AdmitResult::Duplicate);
    assert_eq!(e.admit_after_lookup(b"y", StoreLookup::Found), AdmitResult::Duplicate);
    assert_eq!(e.admit_after_lookup(b"y", StoreLookup::Missing), AdmitResult::Admitted);
    // Now cached: a stale "missing" answer cannot admit it twice.
    assert_eq!(e.admit_after_lookup(b"y", StoreLookup::Missing), AdmitResult::Duplicate);
}

#[test]
fn stats_report_tier_sizes() {
    let mut e = DeduplicationEngine::new(1_000, 64, 1_000, 10);
    e.try_admit(b"a", 0);
    e.try_admit(b"b", 0);
    e.try_admit(b"a", 1);
    let s = e.get_stats(42);
    assert_eq!(s.hot_set_size, 2);
    assert_eq!(s.recency_cache_size, 2);
    assert_eq!(s.filter_size, 2);
    assert_eq!(s.durable_approx_count, 42);
    // Entries past the horizon leave the hot set on the next insertion.
    e.try_admit(b"c", 5_000);
    assert_eq!(e.get_stats(0).hot_set_size, 1);
}

#[test]
fn filter_has_no_false_negatives() {
    let mut f = ProbabilisticFilter::new(100);
    for i in 0..500u32 {
        f.insert(format!("id{}", i).as_bytes());
    }
    for i in 0..500u32 {
        assert!(f.may_contain(format!("id{}", i).as_bytes()));
    }
    assert_eq!(f.len(), 500);
}

#[test]
fn empty_filter_contains_nothing() {
    let f = ProbabilisticFilter::new(0);
    assert!(!f.may_contain(b""));
    assert!(!f.may_contain(b"abc"));
}

#[test]
fn recency_cache_evicts_least_recently_used() {
    let mut c = BoundedRecencyCache::new(2);
    c.insert(b"a");
    c.insert(b"b");
    assert!(c.touch(b"a"));
    c.insert(b"c");
    assert!(c.contains(b"a"));
    assert!(!c.contains(b"b"));
    assert!(c.contains(b"c"));
    assert_eq!(c.len(), 2);
    assert!(!c.touch(b"zz"));
}

#[test]
fn hot_set_expires_after_horizon() {
    let mut h = HotSet::new(2_000, 8);
    assert!(h.insert(b"E1", 0));
    assert!(!h.insert(b"E1", 10));
    assert!(!h.insert(b"E1", 1_999));
    assert!(h.insert(b"E1", 2_000));
    h.sweep(10_000);
    assert_eq!(h.len(), 0);
}

#[test]
fn ids_compare_exactly() {
    assert!(same_id(b"abc", b"abc"));
    assert!(!same_id(b"abc", b"abd"));
    assert!(!same_id(b"abc", b"ab"));
    assert_eq!(copy_id(b"xyz"), b"xyz".to_vec());
}

#[test]
fn restarted_engine_rejects_persisted_id() {
    let mut before = DeduplicationEngine::new(2_000, 64, 1_000, 10);
    assert_eq!(before.try_admit(b"E1", 0), Verdict::Admitted);
    // A new process: the durable store still holds E1.
    let mut after = DeduplicationEngine::new(2_000, 64, 1_000, 10);
    after.remember(b"E1");
    assert_eq!(after.try_admit(b"E1", 100), Verdict::NeedsLookup);
    assert_eq!(after.admit_after_lookup(b"E1", StoreLookup::Found), AdmitResult::Duplicate);
    assert_eq!(after.try_admit(b"E2", 100), Verdict::Admitted);
}

#[test]
fn hot_set_holds_at_most_its_capacity() {
    let mut h = HotSet::new(60_000, 2);
    assert!(h.insert(b"a", 0));
    assert!(h.insert(b"b", 1));
    assert!(h.insert(b"c", 2));
    assert_eq!(h.len(), 2);
    // "a" made room for "c".
    assert!(h.insert(b"a", 3));
    assert!(!h.insert(b"c", 4));
}

#[test]
fn recency_insert_of_cached_id_moves_it() {
    let mut c = BoundedRecencyCache::new(2);
    c.insert(b"a");
    c.insert(b"b");
    c.insert(b"a");
    assert_eq!(c.len(), 2);
    c.insert(b"c");
    assert!(c.contains(b"a"));
    assert!(!c.contains(b"b"));
}

#[test]
fn filter_size_counts_admissions() {
    let mut e = DeduplicationEngine::new(1_000, 64, 1_000, 10);
    e.try_admit(b"a", 0);
    e.try_admit(b"a", 1);
    e.remember(b"z");
    assert_eq!(e.get_stats(0).filter_size, 2);
}
