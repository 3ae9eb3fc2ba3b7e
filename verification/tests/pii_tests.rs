use nightshift::event::{BatchedEvent, EventContext, EventType, SerializedError};
use nightshift::json::JsonValue;
use nightshift::pii::{sanitize_event, PiiRedactor};

fn text(s: &str) -> JsonValue {
    JsonValue::Str(s.to_string())
}

fn object(members: Vec<(&str, JsonValue)>) -> JsonValue {
    JsonValue::Object(members.into_iter().map(|(k, v)| (k.to_string(), v)).collect())
}

fn make_event(props: Option<JsonValue>) -> BatchedEvent {
    BatchedEvent {
        event_type: EventType::Track,
        event: Some("test".to_string()),
        user_id: None,
        properties: props,
        traits: None,
        error: None,
        context: EventContext {
            viewport: "390x844".to_string(),
            url: "/".to_string(),
            session_id: "anon_test".to_string(),
            app_version: "v1".to_string(),
            timestamp: 0,
            ip: Some("1.2.3.4".to_string()),
            ..Default::default()
        },
    }
}

fn redactor() -> PiiRedactor {
    PiiRedactor::new().unwrap()
}

#[test]
fn strips_ip() {
    let event = make_event(None);
    let out = sanitize_event(&redactor(), event);
    assert!(out.context.ip.is_none());
}

#[test]
fn redacts_email_in_properties() {
    let props = object(vec![("email", text("user@example.com")), ("name", text("Alice"))]);
    let event = make_event(Some(props));
    let out = sanitize_event(&redactor(), event);
    let props = out.properties.unwrap();
    assert_eq!(props.get("email").unwrap().as_str(), Some("[REDACTED_EMAIL]"));
    assert_eq!(props.get("name").unwrap().as_str(), Some("Alice"));
}

#[test]
fn redacts_nested_email() {
    let props = object(vec![("user", object(vec![("contact", text("test@foo.io"))]))]);
    let event = make_event(Some(props));
    let out = sanitize_event(&redactor(), event);
    let props = out.properties.unwrap();
    assert_eq!(
        props.get("user").unwrap().get("contact").unwrap().as_str(),
        Some("[REDACTED_EMAIL]")
    );
}

#[test]
fn redacts_email_in_array() {
    let props = object(vec![("emails", JsonValue::Array(vec![text("a@b.com"), text("plain")]))]);
    let event = make_event(Some(props));
    let out = sanitize_event(&redactor(), event);
    let arr = out.properties.unwrap();
    assert_eq!(arr.get("emails").unwrap().at(0).unwrap().as_str(), Some("[REDACTED_EMAIL]"));
    assert_eq!(arr.get("emails").unwrap().at(1).unwrap().as_str(), Some("plain"));
}

#[test]
fn redacts_error_message() {
    let mut event = make_event(None);
    event.error = Some(SerializedError {
        message: "sent to user@example.com failed".to_string(),
        name: "Error".to_string(),
        stack: Some("at fn (user@test.org:1)".to_string()),
    });
    let out = sanitize_event(&redactor(), event);
    let err = out.error.unwrap();
    assert!(err.message.contains("[REDACTED_EMAIL]"));
    assert!(err.stack.unwrap().contains("[REDACTED_EMAIL]"));
}

#[test]
fn redacts_tokens_in_traits() {
    let mut event = make_event(None);
    event.traits = Some(object(vec![(
        "auth",
        text("Bearer abcdefghijklmnopqrstuvwxyz0123"),
    )]));
    let out = sanitize_event(&redactor(), event);
    assert_eq!(out.traits.unwrap().get("auth").unwrap().as_str(), Some("[REDACTED_TOKEN]"));
}

#[test]
fn short_tokens_and_non_strings_are_kept() {
    let props = object(vec![
        ("note", text("token=short")),
        ("count", JsonValue::Int(3)),
        ("ok", JsonValue::Bool(true)),
    ]);
    let out = sanitize_event(&redactor(), make_event(Some(props)));
    let p = out.properties.unwrap();
    assert_eq!(p.get("note").unwrap().as_str(), Some("token=short"));
    assert!(matches!(p.get("count"), Some(JsonValue::Int(3))));
    assert!(matches!(p.get("ok"), Some(JsonValue::Bool(true))));
}

#[test]
fn redact_string_replaces_both_kinds() {
    let r = redactor();
    assert_eq!(
        r.redact_string("mail a@b.io with api_key=ABCDEFGHIJKLMNOPQRSTUV"),
        "mail [REDACTED_EMAIL] with [REDACTED_TOKEN]"
    );
}
