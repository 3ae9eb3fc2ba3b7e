use nightshift::adapter::{http_outcome, is_success_status};
use nightshift::adapter::{dispatch_plan, retry_step, AdapterError, OutboundRequest, RetryState, RetryStep};
use nightshift::amplitude::AmplitudeAdapter;
use nightshift::event::{BatchedEvent, EventContext, EventType, SerializedError};
use nightshift::facebook::FacebookAdapter;
use nightshift::json::JsonValue;
use nightshift::mixpanel::MixpanelAdapter;
use nightshift::posthog::PostHogAdapter;
use nightshift::segment::{build_context, SegmentAdapter};
use nightshift::sentry::{parse_stack_frames, seconds_of, SentryAdapter, SentryDsn};
use nightshift::tiktok::TikTokAdapter;

fn make(t: EventType, name: &str, session: &str, url: &str, ts: i64) -> BatchedEvent {
    BatchedEvent {
        event_type: t,
        event: Some(name.into()),
        user_id: None,
        properties: None,
        traits: None,
        error: None,
        context: EventContext {
            viewport: "1x1".into(),
            url: url.into(),
            session_id: session.into(),
            app_version: "v1".into(),
            timestamp: ts,
            ..Default::default()
        },
    }
}

fn payload(r: &OutboundRequest) -> &JsonValue {
    &r.body[0]
}

fn text_at<'a>(v: &'a JsonValue, path: &[&str]) -> Option<&'a str> {
    let mut cur = v;
    for k in path {
        cur = cur.get(k)?;
    }
    cur.as_str()
}

#[test]
fn amplitude_accepts_all_types() {
    let adapter = AmplitudeAdapter::new("amp_key".into());
    let mk = |t| make(t, "TestEvent", "anon_amp1", "/", 0);
    assert!(adapter.accepts(&mk(EventType::Track)));
    assert!(adapter.accepts(&mk(EventType::Identify)));
    assert!(adapter.accepts(&mk(EventType::Error)));
}

#[test]
fn error_event_type_is_dollar_error() {
    let mut ev = make(EventType::Error, "TestEvent", "anon_amp1", "/", 0);
    ev.event_type = EventType::Error;
    ev.error = Some(SerializedError { message: "oops".into(), name: "Error".into(), stack: None });
    let user_id = ev.user_id.clone().unwrap_or_else(|| ev.context.session_id.clone());
    assert_eq!(user_id, "anon_amp1");
    let adapter = AmplitudeAdapter::new("amp_key".into());
    let r = adapter.request(&ev);
    let event = payload(&r).get("events").unwrap().at(0).unwrap();
    assert_eq!(text_at(event, &["event_type"]), Some("$error"));
    assert_eq!(text_at(event, &["user_id"]), Some("anon_amp1"));
    assert_eq!(text_at(event, &["event_properties", "error_message"]), Some("oops"));
    assert_eq!(text_at(event, &["event_properties", "error_name"]), Some("Error"));
    assert_eq!(r.url, "https://api2.amplitude.com/2/httpapi");
}

#[test]
fn facebook_accepts_track_and_error_only() {
    let adapter = FacebookAdapter::new("123456789".into(), "EAAtoken".into());
    let mk = |t| make(t, "AddToCart", "anon_fb1", "https://example.com/cart", 1_704_067_200_000);
    assert!(adapter.accepts(&mk(EventType::Track)));
    assert!(adapter.accepts(&mk(EventType::Error)));
    assert!(!adapter.accepts(&mk(EventType::Identify)));
}

#[test]
fn event_time_is_unix_seconds() {
    // 1_704_067_200_000 ms → 1_704_067_200 s
    let event = make(EventType::Track, "AddToCart", "anon_fb1", "https://example.com/cart", 1_704_067_200_000);
    assert_eq!(event.context.timestamp / 1000, 1_704_067_200);
    let adapter = FacebookAdapter::new("123456789".into(), "EAAtoken".into());
    let r = adapter.request(&event);
    let fb = payload(&r).get("data").unwrap().at(0).unwrap();
    assert!(matches!(fb.get("event_time"), Some(JsonValue::Int(1_704_067_200))));
    assert_eq!(text_at(fb, &["event_name"]), Some("AddToCart"));
    assert_eq!(text_at(fb, &["action_source"]), Some("website"));
    assert!(fb.get("custom_data").is_none());
    assert_eq!(r.url, "https://graph.facebook.com/v18.0/123456789/events");
    assert_eq!(r.query, vec![("access_token".to_string(), "EAAtoken".to_string())]);
}

#[test]
fn accepts_all_event_types() {
    let adapter = MixpanelAdapter::new("token123".into());
    let mk = |t| make(t, "TestEvent", "anon_mp1", "/test", 1_000_000);
    assert!(adapter.accepts(&mk(EventType::Track)));
    assert!(adapter.accepts(&mk(EventType::Identify)));
    assert!(adapter.accepts(&mk(EventType::Error)));
}

#[test]
fn mixpanel_track_and_engage_payloads() {
    let adapter = MixpanelAdapter::new("token123".into());
    let track = adapter.request(&make(EventType::Track, "TestEvent", "anon_mp1", "/test", 1_000_000));
    assert_eq!(track.url, "https://api.mixpanel.com/track");
    let ev = payload(&track).at(0).unwrap();
    assert_eq!(text_at(ev, &["event"]), Some("TestEvent"));
    assert_eq!(text_at(ev, &["properties", "token"]), Some("token123"));
    assert_eq!(text_at(ev, &["properties", "distinct_id"]), Some("anon_mp1"));
    assert!(matches!(ev.get("properties").unwrap().get("time"), Some(JsonValue::Int(1000))));
    let mut id = make(EventType::Identify, "TestEvent", "anon_mp1", "/test", 1_000_000);
    id.user_id = Some("user_7".into());
    let engage = adapter.request(&id);
    assert_eq!(engage.url, "https://api.mixpanel.com/engage");
    let p = payload(&engage).at(0).unwrap();
    assert_eq!(text_at(p, &["$distinct_id"]), Some("user_7"));
    assert!(matches!(p.get("$set"), Some(JsonValue::Object(m)) if m.is_empty()));
}

#[test]
fn posthog_accepts_all_types() {
    let adapter = PostHogAdapter::new("phc_test".into());
    let mk = |t| {
        let mut e = make(t, "x", "anon_x", "/", 0);
        e.event = None;
        e
    };
    assert!(adapter.accepts(&mk(EventType::Track)));
    assert!(adapter.accepts(&mk(EventType::Identify)));
    assert!(adapter.accepts(&mk(EventType::Error)));
}

#[test]
fn posthog_payload_fields() {
    let adapter = PostHogAdapter::new("phc_test".into()).with_endpoint("https://ph.example/capture/".into());
    let mut e = make(EventType::Error, "x", "anon_x", "/", 1_704_067_200_000);
    e.context.viewport = "390x844".into();
    e.error = Some(SerializedError { message: "boom".into(), name: "TypeError".into(), stack: Some("at f".into()) });
    let r = adapter.request(&e);
    assert_eq!(r.url, "https://ph.example/capture/");
    let ev = payload(&r).get("batch").unwrap().at(0).unwrap();
    assert_eq!(text_at(ev, &["event"]), Some("$exception"));
    assert_eq!(text_at(ev, &["timestamp"]), Some("2024-01-01T00:00:00.000Z"));
    let props = ev.get("properties").unwrap();
    assert!(matches!(props.get("$screen_width"), Some(JsonValue::Int(390))));
    assert_eq!(text_at(props, &["$exception_type"]), Some("TypeError"));
    assert_eq!(text_at(props, &["$exception_stack_trace_raw"]), Some("at f"));
    assert_eq!(text_at(props, &["$lib"]), Some("nightshift"));
    e.context.viewport = "wide".into();
    let r2 = adapter.request(&e);
    let props2 = payload(&r2).get("batch").unwrap().at(0).unwrap().get("properties").unwrap();
    assert!(matches!(props2.get("$screen_width"), Some(JsonValue::Null)));
}

#[test]
fn segment_accepts_all_types() {
    let adapter = SegmentAdapter::new("seg_write_key".into());
    let mk = |t| make(t, "TestEvent", "anon_seg1", "/", 0);
    assert!(adapter.accepts(&mk(EventType::Track)));
    assert!(adapter.accepts(&mk(EventType::Identify)));
    assert!(adapter.accepts(&mk(EventType::Error)));
}

#[test]
fn utm_fields_map_to_campaign_context() {
    let mut ev = make(EventType::Track, "TestEvent", "anon_seg1", "/", 0);
    ev.context.utm_source = Some("google".into());
    ev.context.utm_medium = Some("cpc".into());
    ev.context.utm_campaign = Some("spring_sale".into());
    let ctx = build_context(&ev);
    let campaign = ctx.get("campaign").unwrap();
    assert_eq!(campaign.get("source").unwrap().as_str(), Some("google"));
    assert_eq!(campaign.get("medium").unwrap().as_str(), Some("cpc"));
    assert_eq!(campaign.get("name").unwrap().as_str(), Some("spring_sale"));
}

#[test]
fn segment_error_becomes_track_call() {
    let adapter = SegmentAdapter::new("seg_write_key".into());
    let mut ev = make(EventType::Error, "TestEvent", "anon_seg1", "/", 0);
    ev.error = Some(SerializedError { message: "m".into(), name: "N".into(), stack: Some("s".into()) });
    let r = adapter.request(&ev);
    assert_eq!(r.basic_auth_user.as_deref(), Some("seg_write_key"));
    let call = payload(&r).get("batch").unwrap().at(0).unwrap();
    assert_eq!(text_at(call, &["type"]), Some("track"));
    assert_eq!(text_at(call, &["event"]), Some("Error"));
    assert_eq!(text_at(call, &["properties", "error_stack"]), Some("s"));
    assert_eq!(text_at(call, &["context", "library", "name"]), Some("nightshift"));
    assert!(call.get("context").unwrap().get("campaign").is_none());
}

#[test]
fn dsn_parse_valid() {
    let dsn = SentryDsn::parse("https://abc123@o123.ingest.sentry.io/456789").unwrap();
    assert_eq!(dsn.public_key, "abc123");
    assert_eq!(dsn.host, "o123.ingest.sentry.io");
    assert_eq!(dsn.project_id, "456789");
}

#[test]
fn dsn_envelope_url() {
    let dsn = SentryDsn::parse("https://abc123@o123.ingest.sentry.io/456789").unwrap();
    assert_eq!(dsn.envelope_url(), "https://o123.ingest.sentry.io/api/456789/envelope/");
}

#[test]
fn dsn_parse_invalid() {
    assert!(SentryDsn::parse("not-a-url").is_err());
    assert!(SentryDsn::parse("https://@sentry.io/123").is_err());
}

#[test]
fn dsn_errors_name_the_missing_part() {
    assert!(matches!(SentryDsn::parse("https://key@sentry.io/"), Err(AdapterError::Config(m)) if m == "Sentry DSN missing project ID"));
    assert!(matches!(SentryDsn::parse("https://@sentry.io/1"), Err(AdapterError::Config(m)) if m == "Sentry DSN missing public key"));
    assert!(matches!(SentryDsn::parse("not-a-url"), Err(AdapterError::Config(m)) if m == "invalid Sentry DSN: relative URL without a base"));
    let dsn = SentryDsn::parse("https://k@h.io//7").unwrap();
    assert_eq!(dsn.project_id, "7");
    assert_eq!(dsn.auth_header(), "Sentry sentry_version=7, sentry_client=nightshift/0.1.0, sentry_key=k");
}

#[test]
fn only_accepts_error_events() {
    let adapter = SentryAdapter::new("https://key@sentry.io/1").unwrap();
    let mk = |t| {
        let mut e = make(t, "x", "anon_x", "/", 0);
        e.event = None;
        e
    };
    assert!(!adapter.accepts(&mk(EventType::Track)));
    assert!(!adapter.accepts(&mk(EventType::Identify)));
    assert!(adapter.accepts(&mk(EventType::Error)));
}

#[test]
fn sentry_envelope_lines() {
    let adapter = SentryAdapter::new("https://key@sentry.io/1").unwrap().with_environment("prod".into());
    let mut e = make(EventType::Error, "x", "anon_x", "/", 1_704_067_200_500);
    assert!(adapter.request(&e, "0123456789abcdef0123456789abcdef").is_none());
    e.error = Some(SerializedError {
        message: "bad".into(),
        name: "TypeError".into(),
        stack: Some("TypeError: bad\n    at f (a.js:1:2)\r\n  at g (b.js:3:4)\n".into()),
    });
    let r = adapter.request(&e, "0123456789abcdef0123456789abcdef").unwrap();
    assert_eq!(r.url, "https://sentry.io/api/1/envelope/");
    assert_eq!(r.body.len(), 3);
    assert_eq!(text_at(&r.body[0], &["dsn"]), Some("https://key@sentry.io/1"));
    assert_eq!(text_at(&r.body[1], &["type"]), Some("event"));
    let ev = &r.body[2];
    assert!(matches!(ev.get("timestamp"), Some(JsonValue::Float(t)) if t == "1704067200.5"));
    assert_eq!(text_at(ev, &["release"]), Some("v1"));
    assert_eq!(text_at(ev, &["environment"]), Some("prod"));
    assert_eq!(text_at(ev, &["user", "id"]), Some("anon_x"));
    let exc = ev.get("exception").unwrap().get("values").unwrap().at(0).unwrap();
    let frames = exc.get("stacktrace").unwrap().get("frames").unwrap();
    assert_eq!(text_at(frames.at(0).unwrap(), &["raw_function"]), Some("at f (a.js:1:2)"));
    assert_eq!(text_at(frames.at(1).unwrap(), &["raw_function"]), Some("at g (b.js:3:4)"));
    assert!(frames.at(2).is_none());
    let prepared = adapter.prepare(&e).unwrap();
    let id = text_at(&prepared.body[0], &["event_id"]).unwrap();
    assert_eq!(id.len(), 32);
    assert!(id.chars().all(|c| c.is_ascii_hexdigit() && !c.is_ascii_uppercase()));
}

#[test]
fn stack_frames_and_seconds() {
    assert_eq!(parse_stack_frames("x\n   at a\nat\n  at b  "), vec!["at a".to_string(), "at b".to_string()]);
    assert_eq!(parse_stack_frames(""), Vec::<String>::new());
    assert_eq!(seconds_of(0), "0.0");
    assert_eq!(seconds_of(1), "0.001");
    assert_eq!(seconds_of(1_230), "1.23");
    assert_eq!(seconds_of(-1_500), "-1.5");
}

#[test]
fn tiktok_accepts_track_and_error_only() {
    let adapter = TikTokAdapter::new("PIXEL123".into(), "token_abc".into());
    let mk = |t| make(t, "ViewContent", "anon_tt1", "https://example.com/product/123", 1_704_067_200_000);
    assert!(adapter.accepts(&mk(EventType::Track)));
    assert!(adapter.accepts(&mk(EventType::Error)));
    assert!(!adapter.accepts(&mk(EventType::Identify)));
}

#[test]
fn referrer_forwarded_when_present() {
    let mut ev = make(EventType::Track, "ViewContent", "anon_tt1", "https://example.com/product/123", 1_704_067_200_000);
    ev.context.referrer = Some("https://tiktok.com".into());
    let adapter = TikTokAdapter::new("PIXEL123".into(), "token_abc".into());
    // Just confirm accepts and referrer field is set
    assert!(adapter.accepts(&ev));
    assert_eq!(ev.context.referrer.as_deref(), Some("https://tiktok.com"));
    let r = adapter.request(&ev);
    assert_eq!(text_at(payload(&r), &["context", "page", "referrer"]), Some("https://tiktok.com"));
    assert_eq!(text_at(payload(&r), &["timestamp"]), Some("2024-01-01T00:00:00.000Z"));
    assert_eq!(r.headers[0], ("Access-Token".to_string(), "token_abc".to_string()));
}

#[test]
fn retryable_errors() {
    assert!(AdapterError::Network("x".into()).is_retryable());
    assert!(AdapterError::Http { status: 503, body: String::new() }.is_retryable());
    assert!(AdapterError::Http { status: 429, body: String::new() }.is_retryable());
    assert!(!AdapterError::Http { status: 400, body: String::new() }.is_retryable());
    assert!(!AdapterError::Config("x".into()).is_retryable());
}

#[test]
fn retries_back_off_and_stop_after_three_attempts() {
    let fail: Result<(), AdapterError> = Err(AdapterError::Http { status: 503, body: String::new() });
    let s0 = RetryState::start();
    let RetryStep::Retry { sleep_ms, next: s1 } = retry_step(s0, &fail) else { panic!("expected a retry") };
    assert_eq!(sleep_ms, 100);
    let RetryStep::Retry { sleep_ms, next: s2 } = retry_step(s1, &fail) else { panic!("expected a retry") };
    assert_eq!(sleep_ms, 200);
    assert_eq!(retry_step(s2, &fail), RetryStep::Stop);
    let bad: Result<(), AdapterError> = Err(AdapterError::Http { status: 400, body: String::new() });
    assert_eq!(retry_step(s0, &bad), RetryStep::Stop);
    assert_eq!(retry_step(s0, &Ok(())), RetryStep::Stop);
}

#[test]
fn dispatch_follows_accepts() {
    let plan = dispatch_plan(&vec![vec![true, false, true], vec![false, false, false], vec![false, true, false]]);
    assert_eq!(plan, vec![(0, 0), (0, 2), (2, 1)]);
    assert_eq!(dispatch_plan(&vec![]), vec![]);
}

/// Runs the retry loop over a scripted series of send outcomes and counts the sends made.
fn sends_made(outcomes: &[Result<(), AdapterError>]) -> usize {
    let mut state = RetryState::start();
    let mut sent = 0;
    loop {
        let outcome = &outcomes[sent];
        sent += 1;
        match retry_step(state, outcome) {
            RetryStep::Retry { next, .. } => state = next,
            RetryStep::Stop => return sent,
        }
    }
}

#[test]
fn transient_5xx_is_retried_until_success() {
    let unavailable = || Err(AdapterError::Http { status: 503, body: "unavailable".into() });
    assert_eq!(sends_made(&[unavailable(), unavailable(), Ok(())]), 3);
}

#[test]
fn bad_request_is_sent_once() {
    let bad = Err(AdapterError::Http { status: 400, body: "bad request".into() });
    assert_eq!(sends_made(&[bad]), 1);
}

#[test]
fn persistent_network_failure_gives_up_after_three_sends() {
    let down = || Err(AdapterError::Network("always fails".into()));
    assert_eq!(sends_made(&[down(), down(), down(), down()]), 3);
}

#[test]
fn every_accepting_adapter_gets_every_event() {
    // two adapters that take everything, one event
    assert_eq!(dispatch_plan(&vec![vec![true, true]]), vec![(0, 0), (0, 1)]);
    // a track-only adapter with a track event and an error event
    assert_eq!(dispatch_plan(&vec![vec![true], vec![false]]), vec![(0, 0)]);
}

#[test]
fn status_codes_map_to_outcomes() {
    assert!(is_success_status(200));
    assert!(is_success_status(204));
    assert!(!is_success_status(199));
    assert!(!is_success_status(300));
    assert!(http_outcome(202, String::new()).is_ok());
    assert!(matches!(
        http_outcome(503, "unavailable".into()),
        Err(AdapterError::Http { status: 503, body }) if body == "unavailable"
    ));
    assert!(matches!(http_outcome(301, String::new()), Err(AdapterError::Http { status: 301, .. })));
}
