use securenotify_sdk::dedup::{BeginOutcome, RequestDeduplicator};

#[test]
fn generate_key_is_deterministic_and_hashed() {
    let d = RequestDeduplicator::default();
    let k1 = d.generate_key("api/messages", Some("{\"a\":1}"));
    let k2 = d.generate_key("api/messages", Some("{\"a\":1}"));
    assert_eq!(k1, k2);
    assert!(k1.starts_with("req_"));
    // prefix plus a 64-digit hex digest
    assert_eq!(k1.len(), 68);
    assert!(k1[4..].chars().all(|c| c.is_ascii_hexdigit()));
    let other = d.generate_key("api/messages", Some("{\"a\":2}"));
    assert_ne!(k1, other);
    let no_params = d.generate_key("api/messages", None);
    assert_ne!(k1, no_params);
}

#[test]
fn single_flight_one_leader_many_followers() {
    let mut d = RequestDeduplicator::default();
    let key = d.generate_key("api/messages", None);

    match d.try_begin(&key, true) {
        BeginOutcome::Leader => {},
        _ => panic!("first caller must lead"),
    }
    // while the leader is mid-execution, every further caller follows
    for _ in 0..9 {
        match d.try_begin(&key, true) {
            BeginOutcome::Follower => {},
            _ => panic!("concurrent callers must follow, not lead"),
        }
        assert_eq!(d.poll_result(&key), None);
    }

    d.publish(&key, Ok("payload".to_string()), true);

    // all followers observe the identical published result
    for _ in 0..9 {
        assert_eq!(d.poll_result(&key), Some(Ok("payload".to_string())));
    }

    let stats = d.get_stats();
    assert_eq!(stats.misses, 1);
    assert_eq!(stats.hits, 9);
    assert_eq!(stats.errors, 0);
}

#[test]
fn completed_cache_answers_repeat_requests() {
    let mut d = RequestDeduplicator::default();
    let key = d.generate_key("api/channels", None);
    assert!(matches!(d.try_begin(&key, true), BeginOutcome::Leader));
    d.publish(&key, Ok("cached".to_string()), true);
    match d.try_begin(&key, true) {
        BeginOutcome::Cached(v) => assert_eq!(v, "cached"),
        _ => panic!("expected a completed-cache answer"),
    }
    assert_eq!(d.get_stats().hits, 1);
}

#[test]
fn failures_are_not_promoted_and_are_counted() {
    let mut d = RequestDeduplicator::default();
    let key = d.generate_key("api/keys", None);
    assert!(matches!(d.try_begin(&key, true), BeginOutcome::Leader));
    d.publish(&key, Err("boom".to_string()), true);
    // the failure is observable by followers but never cached
    assert_eq!(d.poll_result(&key), Some(Err("boom".to_string())));
    let stats = d.get_stats();
    assert_eq!(stats.errors, 1);
    assert_eq!(stats.completed_count, 0);
}

#[test]
fn without_cache_flag_nothing_is_promoted() {
    let mut d = RequestDeduplicator::default();
    let key = d.generate_key("api/messages", None);
    assert!(matches!(d.try_begin(&key, false), BeginOutcome::Leader));
    d.publish(&key, Ok("v".to_string()), false);
    assert_eq!(d.get_stats().completed_count, 0);
    // a fresh request for the key leads again (the resolved entry is stale)
    assert!(matches!(d.try_begin(&key, false), BeginOutcome::Leader));
}

#[test]
fn pending_map_evicts_oldest_when_full() {
    let mut d = RequestDeduplicator::new(5000, 2, 10);
    assert!(matches!(d.try_begin("k1", false), BeginOutcome::Leader));
    assert!(matches!(d.try_begin("k2", false), BeginOutcome::Leader));
    assert!(matches!(d.try_begin("k3", false), BeginOutcome::Leader));
    assert_eq!(d.get_stats().pending_count, 2);
    // k1 was evicted, so a new caller for it leads again
    assert!(matches!(d.try_begin("k1", false), BeginOutcome::Leader));
}

#[test]
fn completed_map_evicts_oldest_when_full() {
    let mut d = RequestDeduplicator::new(5000, 10, 2);
    for k in ["a", "b", "c"] {
        assert!(matches!(d.try_begin(k, true), BeginOutcome::Leader));
        d.publish(k, Ok(format!("v-{}", k)), true);
    }
    assert_eq!(d.get_stats().completed_count, 2);
    assert!(matches!(d.try_begin("a", true), BeginOutcome::Leader));
    match d.try_begin("c", true) {
        BeginOutcome::Cached(v) => assert_eq!(v, "v-c"),
        _ => panic!("newest completed entry must survive"),
    }
}

#[test]
fn cleanup_drops_resolved_entries_only() {
    let mut d = RequestDeduplicator::default();
    assert!(matches!(d.try_begin("done", false), BeginOutcome::Leader));
    d.publish("done", Ok("x".to_string()), false);
    assert!(matches!(d.try_begin("running", false), BeginOutcome::Leader));
    let removed = d.cleanup_expired();
    assert_eq!(removed, 1);
    assert_eq!(d.get_stats().pending_count, 1);
    // the in-flight key is still guarded
    assert!(matches!(d.try_begin("running", false), BeginOutcome::Follower));
}

#[test]
fn clear_and_reset_stats() {
    let mut d = RequestDeduplicator::default();
    assert!(matches!(d.try_begin("a", true), BeginOutcome::Leader));
    d.publish("a", Ok("v".to_string()), true);
    assert!(matches!(d.try_begin("b", false), BeginOutcome::Leader));
    assert_eq!(d.clear_pending(), 2);
    assert_eq!(d.clear_completed(), 1);
    assert!(matches!(d.try_begin("c", false), BeginOutcome::Leader));
    d.reset_stats();
    let stats = d.get_stats();
    assert_eq!((stats.hits, stats.misses, stats.errors), (0, 0, 0));
    assert_eq!(stats.ttl_ms, 5000);
}
