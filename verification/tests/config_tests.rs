use nightshift::config::{adapters_from_config, env_u16, env_u64, EdgeConfig, VendorAdapter};
use nightshift::event::{BatchedEvent, EventContext, EventType, SerializedError};

fn empty_config() -> EdgeConfig {
    EdgeConfig {
        port: 8787,
        ga4_measurement_id: None,
        ga4_api_secret: None,
        webhook_url: None,
        webhook_secret: None,
        sentry_dsn: None,
        sentry_release: None,
        sentry_environment: None,
        mixpanel_token: None,
        posthog_api_key: None,
        posthog_endpoint: None,
        amplitude_api_key: None,
        segment_write_key: None,
        facebook_pixel_id: None,
        facebook_access_token: None,
        tiktok_pixel_code: None,
        tiktok_access_token: None,
        dedup_ttl_secs: 30,
        debug: false,
    }
}

fn names(adapters: &[VendorAdapter]) -> Vec<&'static str> {
    adapters.iter().map(|a| a.name()).collect()
}

#[test]
fn port_setting_parses_or_falls_back() {
    assert_eq!(env_u16(Some("9000"), 8787), 9000);
    assert_eq!(env_u16(Some("65535"), 8787), 65535);
    assert_eq!(env_u16(Some("65536"), 8787), 8787);
    assert_eq!(env_u16(Some("-1"), 8787), 8787);
    assert_eq!(env_u16(Some("80x"), 8787), 8787);
    assert_eq!(env_u16(Some(""), 8787), 8787);
    assert_eq!(env_u16(None, 8787), 8787);
}

#[test]
fn ttl_setting_parses_or_falls_back() {
    assert_eq!(env_u64(Some("120"), 30), 120);
    assert_eq!(env_u64(Some("0"), 30), 0);
    assert_eq!(env_u64(Some("18446744073709551615"), 30), u64::MAX);
    assert_eq!(env_u64(Some("18446744073709551616"), 30), 30);
    assert_eq!(env_u64(Some("1.5"), 30), 30);
    assert_eq!(env_u64(None, 30), 30);
}

#[test]
fn no_settings_no_adapters() {
    let setup = adapters_from_config(&empty_config());
    assert!(setup.adapters.is_empty());
    assert!(setup.sentry_error.is_none());
}

#[test]
fn adapters_follow_settings_in_fixed_order() {
    let mut c = empty_config();
    c.tiktok_pixel_code = Some("PIX".into());
    c.tiktok_access_token = Some("tok".into());
    c.mixpanel_token = Some("mp".into());
    c.facebook_pixel_id = Some("123".into());
    c.sentry_dsn = Some("https://abc123@o0.ingest.sentry.io/42".into());
    c.segment_write_key = Some("seg".into());
    let setup = adapters_from_config(&c);
    assert_eq!(names(&setup.adapters), vec!["sentry", "mixpanel", "segment", "tiktok"]);
    assert!(setup.sentry_error.is_none());
}

#[test]
fn invalid_sentry_dsn_disables_sentry_only() {
    let mut c = empty_config();
    c.sentry_dsn = Some("not a dsn".into());
    c.posthog_api_key = Some("phc".into());
    c.amplitude_api_key = Some("amp".into());
    let setup = adapters_from_config(&c);
    assert_eq!(names(&setup.adapters), vec!["posthog", "amplitude"]);
    assert!(setup.sentry_error.is_some());
}

#[test]
fn configured_adapters_route_by_event_type() {
    let mut c = empty_config();
    c.sentry_dsn = Some("https://abc123@o0.ingest.sentry.io/42".into());
    c.facebook_pixel_id = Some("123".into());
    c.facebook_access_token = Some("EAA".into());
    c.posthog_api_key = Some("phc".into());
    let setup = adapters_from_config(&c);
    let ev = |t| BatchedEvent {
        event_type: t,
        event: Some("E".into()),
        user_id: None,
        properties: None,
        traits: None,
        error: None,
        context: EventContext { session_id: "s".into(), ..Default::default() },
    };
    let takers = |t| -> Vec<&'static str> {
        setup.adapters.iter().filter(|a| a.accepts(&ev(t))).map(|a| a.name()).collect()
    };
    assert_eq!(takers(EventType::Track), vec!["posthog", "facebook"]);
    assert_eq!(takers(EventType::Identify), vec!["posthog"]);
    assert_eq!(takers(EventType::Error), vec!["sentry", "posthog", "facebook"]);
}

#[test]
fn posthog_endpoint_setting_is_used() {
    let mut c = empty_config();
    c.posthog_api_key = Some("phc".into());
    c.posthog_endpoint = Some("https://eu.posthog.example/capture/".into());
    let setup = adapters_from_config(&c);
    let ev = BatchedEvent {
        event_type: EventType::Track,
        event: Some("E".into()),
        user_id: None,
        properties: None,
        traits: None,
        error: None,
        context: EventContext { session_id: "s".into(), timestamp: 0, ..Default::default() },
    };
    let r = setup.adapters[0].prepare(&ev).unwrap();
    assert_eq!(r.url, "https://eu.posthog.example/capture/");
}

#[test]
fn sentry_prepares_any_event_that_carries_an_error() {
    let mut c = empty_config();
    c.sentry_dsn = Some("https://abc123@o0.ingest.sentry.io/42".into());
    let setup = adapters_from_config(&c);
    let sentry = &setup.adapters[0];
    let mut ev = BatchedEvent {
        event_type: EventType::Track,
        event: Some("Click".into()),
        user_id: None,
        properties: None,
        traits: None,
        error: None,
        context: EventContext { session_id: "s".into(), ..Default::default() },
    };
    assert!(sentry.prepare(&ev).is_none());
    ev.error = Some(SerializedError { message: "boom".into(), name: "TypeError".into(), stack: None });
    let r = sentry.prepare(&ev).unwrap();
    assert_eq!(r.url, "https://o0.ingest.sentry.io/api/42/envelope/");
}
