use nightshift::dedup::{dedup_key, DedupCache, InMemoryDedupCache};
use nightshift::event::{BatchedEvent, EventContext, EventType};

fn make_event(session: &str, name: &str, ts_ms: i64) -> BatchedEvent {
    BatchedEvent {
        event_type: EventType::Track,
        event: Some(name.to_string()),
        user_id: None,
        properties: None,
        traits: None,
        error: None,
        context: EventContext {
            viewport: "1x1".to_string(),
            url: "/".to_string(),
            session_id: session.to_string(),
            app_version: "v1".to_string(),
            timestamp: ts_ms,
            ..Default::default()
        },
    }
}

#[test]
fn first_event_is_not_duplicate() {
    let mut cache = InMemoryDedupCache::new(30);
    let event = make_event("sid1", "Click", 1000_000);
    assert!(!cache.is_duplicate(&dedup_key(&event)));
}

#[test]
fn same_event_same_second_is_duplicate() {
    let mut cache = InMemoryDedupCache::new(30);
    let e1 = make_event("sid1", "Click", 1000_000);
    let e2 = make_event("sid1", "Click", 1000_500); // same second
    cache.is_duplicate(&dedup_key(&e1));
    assert!(cache.is_duplicate(&dedup_key(&e2)));
}

#[test]
fn different_sessions_not_duplicate() {
    let mut cache = InMemoryDedupCache::new(30);
    let e1 = make_event("sid1", "Click", 1000_000);
    let e2 = make_event("sid2", "Click", 1000_000);
    cache.is_duplicate(&dedup_key(&e1));
    assert!(!cache.is_duplicate(&dedup_key(&e2)));
}

#[test]
fn different_events_not_duplicate() {
    let mut cache = InMemoryDedupCache::new(30);
    let e1 = make_event("sid1", "Click", 1000_000);
    let e2 = make_event("sid1", "Purchase", 1000_000);
    cache.is_duplicate(&dedup_key(&e1));
    assert!(!cache.is_duplicate(&dedup_key(&e2)));
}

#[test]
fn dedup_key_layout() {
    let e = make_event("sid1", "Click", 1_234_567);
    assert_eq!(dedup_key(&e), "sid1:Track:Click:1234");
    let mut anon = make_event("s", "x", -1500);
    anon.event = None;
    anon.event_type = EventType::Identify;
    assert_eq!(dedup_key(&anon), "s:Identify::-1");
}

#[test]
fn window_expires_after_ttl() {
    let ttl = 30 * 1_000_000_000u128;
    let mut cache = InMemoryDedupCache::new(30);
    assert!(!cache.observe("k", 1_000));
    assert!(cache.observe("k", 1_000 + ttl - 1));
    // At exactly one window after first sighting the entry has expired.
    assert!(!cache.observe("k", 1_000 + ttl));
    // And it was registered again.
    assert!(cache.observe("k", 1_000 + ttl + 5));
}

#[test]
fn zero_ttl_never_reports_duplicates() {
    let mut cache = InMemoryDedupCache::new(0);
    assert!(!cache.observe("k", 10));
    assert!(!cache.observe("k", 10));
}
