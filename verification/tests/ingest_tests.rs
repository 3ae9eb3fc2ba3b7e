use nightshift::dedup::InMemoryDedupCache;
use nightshift::event::{BatchedEvent, EventContext, EventType, IngestBatch};
use nightshift::ingest::{prepare_batch, ClientInfo, IngestError};
use nightshift::json::JsonValue;
use nightshift::pii::PiiRedactor;

const NANOS_PER_SEC: u128 = 1_000_000_000;

fn event(t: EventType, name: &str, session: &str, ts: i64) -> BatchedEvent {
    BatchedEvent {
        event_type: t,
        event: Some(name.into()),
        user_id: None,
        properties: None,
        traits: None,
        error: None,
        context: EventContext {
            viewport: "390x844".into(),
            url: "/checkout".into(),
            session_id: session.into(),
            app_version: "2.0.0".into(),
            timestamp: ts,
            ip: Some("198.51.100.1".into()),
            ..Default::default()
        },
    }
}

fn client() -> ClientInfo {
    ClientInfo {
        ip: Some("203.0.113.9".into()),
        user_agent: Some("Mozilla/5.0".into()),
        country: Some("DE".into()),
    }
}

#[test]
fn empty_batch_is_refused() {
    let mut cache = InMemoryDedupCache::new(30);
    let redactor = PiiRedactor::new().unwrap();
    let r = prepare_batch(IngestBatch { batch: vec![] }, &client(), &mut cache, &redactor, 0);
    assert!(matches!(r, Err(IngestError::EmptyBatch)));
}

#[test]
fn enriches_then_strips_ip_and_keeps_order() {
    let mut cache = InMemoryDedupCache::new(30);
    let redactor = PiiRedactor::new().unwrap();
    let batch = IngestBatch {
        batch: vec![
            event(EventType::Track, "ViewItem", "anon_a", 1_000),
            event(EventType::Identify, "Login", "anon_a", 1_000),
            event(EventType::Track, "Purchase", "anon_b", 2_000),
        ],
    };
    let events = prepare_batch(batch, &client(), &mut cache, &redactor, 5 * NANOS_PER_SEC).unwrap();
    let names: Vec<&str> = events.iter().map(|e| e.event.as_deref().unwrap()).collect();
    assert_eq!(names, vec!["ViewItem", "Login", "Purchase"]);
    for e in &events {
        assert_eq!(e.context.ip, None);
        assert_eq!(e.context.user_agent.as_deref(), Some("Mozilla/5.0"));
        assert_eq!(e.context.country.as_deref(), Some("DE"));
    }
    assert!(cache.observe("anon_b:Track:Purchase:2", 6 * NANOS_PER_SEC));
}

#[test]
fn repeated_event_in_one_batch_is_dropped() {
    let mut cache = InMemoryDedupCache::new(30);
    let redactor = PiiRedactor::new().unwrap();
    let batch = IngestBatch {
        batch: vec![
            event(EventType::Track, "AddToCart", "anon_c", 10_100),
            event(EventType::Track, "AddToCart", "anon_c", 10_900),
            event(EventType::Track, "AddToCart", "anon_c", 11_000),
        ],
    };
    let events = prepare_batch(batch, &client(), &mut cache, &redactor, 0).unwrap();
    let stamps: Vec<i64> = events.iter().map(|e| e.context.timestamp).collect();
    assert_eq!(stamps, vec![10_100, 11_000]);
}

#[test]
fn second_batch_within_ttl_is_dropped_and_after_ttl_kept() {
    let mut cache = InMemoryDedupCache::new(30);
    let redactor = PiiRedactor::new().unwrap();
    let mk = || IngestBatch { batch: vec![event(EventType::Track, "Signup", "anon_d", 42_000)] };
    let first = prepare_batch(mk(), &client(), &mut cache, &redactor, 0).unwrap();
    assert_eq!(first.len(), 1);
    let again = prepare_batch(mk(), &client(), &mut cache, &redactor, 10 * NANOS_PER_SEC).unwrap();
    assert!(again.is_empty());
    let later = prepare_batch(mk(), &client(), &mut cache, &redactor, 31 * NANOS_PER_SEC).unwrap();
    assert_eq!(later.len(), 1);
}

#[test]
fn batch_properties_are_redacted() {
    let mut cache = InMemoryDedupCache::new(30);
    let redactor = PiiRedactor::new().unwrap();
    let mut e = event(EventType::Track, "Contact", "anon_e", 0);
    e.properties = Some(JsonValue::Object(vec![(
        "email".into(),
        JsonValue::Str("jane.doe@example.com".into()),
    )]));
    let events = prepare_batch(IngestBatch { batch: vec![e] }, &client(), &mut cache, &redactor, 0).unwrap();
    let props = events[0].properties.as_ref().unwrap();
    assert_eq!(props.get("email").unwrap().as_str(), Some("[REDACTED_EMAIL]"));
}
