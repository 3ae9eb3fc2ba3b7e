use vstd::prelude::*;
use crate::adapter::{OutboundRequest, is_json_post, json_post, error_properties, props_or_empty, with_error_details};
use crate::event::{BatchedEvent, EventType, text_or, text_or_else};
use crate::json::{
    Json, JsonValue, json_array1, members_view, opt_json, opt_member, push_member,
    push_opt_member, copy_opt, opt_json_str, opt_str, field, element, lemma_obj_get_at,
};

verus! {

/// Amplitude HTTP API v2 endpoint.
pub open spec fn amplitude_url() -> Seq<char> {
    "https://api2.amplitude.com/2/httpapi"@
}

/// Forwards events to Amplitude.
pub struct AmplitudeAdapter {
    api_key: String,
}

/// Amplitude's event type, event properties and user properties for an event.
pub open spec fn amplitude_parts(e: BatchedEvent) -> (Seq<char>, Option<Json>, Option<Json>) {
    match e.event_type {
        EventType::Track => (text_or(e.event, "unknown"@), opt_json(e.properties), None),
        EventType::Identify => ("$identify"@, None, opt_json(e.traits)),
        EventType::Error => (
            "$error"@,
            Some(with_error_details(props_or_empty(opt_json(e.properties)), e.error, true)),
            None,
        ),
    }
}

/// The Amplitude event for `e`.
pub open spec fn amplitude_event(e: BatchedEvent) -> Json {
    Json::Object(amplitude_event_members(e))
}

/// The members of the Amplitude event for `e`.
pub open spec fn amplitude_event_members(e: BatchedEvent) -> Seq<(Seq<char>, Json)> {
    let parts = amplitude_parts(e);
        seq![
            ("event_type"@, Json::Str(parts.0)),
            ("user_id"@, Json::Str(text_or(e.user_id, e.context.session_id@))),
        ] + opt_member("event_properties"@, parts.1) + opt_member("user_properties"@, parts.2)
            + seq![
            ("time"@, Json::Int(e.context.timestamp as int)),
            ("app_version"@, Json::Str(e.context.app_version@)),
        ] + opt_member("referrer"@, opt_str(e.context.referrer))
}

/// The upload Amplitude receives for `e`.
pub open spec fn amplitude_payload(api_key: Seq<char>, e: BatchedEvent) -> Json {
    Json::Object(
        seq![("api_key"@, Json::Str(api_key)), ("events"@, Json::Array(seq![amplitude_event(e)]))],
    )
}

/// The one event of Amplitude's upload for `e`.
pub open spec fn amplitude_upload_event(api_key: Seq<char>, e: BatchedEvent) -> Json {
    element(field(amplitude_payload(api_key, e), "events"@)->0, 0)->0
}

/// A track event carries its properties unchanged as event properties, an identify call its
/// traits as user properties; the user is the event's user id, or its session id when it has
/// none.
pub proof fn lemma_amplitude_carries_event_data(api_key: Seq<char>, e: BatchedEvent)
    ensures
        field(amplitude_payload(api_key, e), "events"@) is Some,
        element(field(amplitude_payload(api_key, e), "events"@)->0, 0) is Some,
        e.event_type == EventType::Track && e.properties is Some ==> field(
            amplitude_upload_event(api_key, e),
            "event_properties"@,
        ) == Some(e.properties->0@),
        e.event_type == EventType::Identify && e.traits is Some ==> field(
            amplitude_upload_event(api_key, e),
            "user_properties"@,
        ) == Some(e.traits->0@),
        e.user_id matches Some(u) ==> field(amplitude_upload_event(api_key, e), "user_id"@) == Some(
            Json::Str(u@),
        ),
        e.user_id is None ==> field(amplitude_upload_event(api_key, e), "user_id"@) == Some(
            Json::Str(e.context.session_id@),
        ),
{
    reveal_strlit("api_key");
    reveal_strlit("events");
    reveal_strlit("event_type");
    reveal_strlit("user_id");
    reveal_strlit("event_properties");
    reveal_strlit("user_properties");
    let top = amplitude_payload(api_key, e)->Object_0;
    assert(top[0].0.len() != "events"@.len());
    lemma_obj_get_at(top, "events"@, 1);
    let m = amplitude_event_members(e);
    assert(amplitude_upload_event(api_key, e) == Json::Object(m));
    assert(m[0].0 == "event_type"@);
    assert(m[1].0 == "user_id"@);
    assert(m[0].0.len() != "user_id"@.len());
    lemma_obj_get_at(m, "user_id"@, 1);
    if e.event_type == EventType::Track && e.properties is Some {
        assert(m[2].0 == "event_properties"@);
        assert(m[0].0.len() != "event_properties"@.len());
        assert(m[1].0.len() != "event_properties"@.len());
        lemma_obj_get_at(m, "event_properties"@, 2);
    }
    if e.event_type == EventType::Identify && e.traits is Some {
        assert(m[2].0 == "user_properties"@);
        assert(m[0].0.len() != "user_properties"@.len());
        assert(m[1].0.len() != "user_properties"@.len());
        lemma_obj_get_at(m, "user_properties"@, 2);
    }
}

impl AmplitudeAdapter {
    pub closed spec fn api_key(&self) -> Seq<char> {
        self.api_key@
    }

    pub fn new(api_key: String) -> (a: Self)
        ensures
            a.api_key() == api_key@,
    {
        AmplitudeAdapter { api_key }
    }

    pub fn name(&self) -> (n: &'static str)
        ensures
            n@ == "amplitude"@,
    {
        "amplitude"
    }

    /// Amplitude takes every kind of event.
    pub fn accepts(&self, event: &BatchedEvent) -> (b: bool)
        ensures
            b,
    {
        true
    }

    /// The HTTP request that delivers `event`.
    pub fn request(&self, event: &BatchedEvent) -> (r: OutboundRequest)
        ensures
            is_json_post(r, amplitude_url(), amplitude_payload(self.api_key(), *event)),
    {
        let (event_type, event_properties, user_properties) = match event.event_type {
            EventType::Track => (text_or_else(&event.event, "unknown"), copy_opt(&event.properties), None),
            EventType::Identify => (String::from_str("$identify"), None, copy_opt(&event.traits)),
            EventType::Error => (String::from_str("$error"), Some(error_properties(event, true)), None),
        };
        let mut m: Vec<(String, JsonValue)> = Vec::new();
        push_member(&mut m, "event_type", JsonValue::Str(event_type));
        push_member(&mut m, "user_id", JsonValue::Str(text_or_else(&event.user_id, event.context.session_id.as_str())));
        push_opt_member(&mut m, "event_properties", event_properties);
        push_opt_member(&mut m, "user_properties", user_properties);
        push_member(&mut m, "time", JsonValue::Int(event.context.timestamp as i128));
        push_member(&mut m, "app_version", JsonValue::Str(event.context.app_version.clone()));
        push_opt_member(&mut m, "referrer", opt_json_str(&event.context.referrer));
        proof {
            assert(members_view(m@) =~= amplitude_event_members(*event));
        }
        let amp_event = JsonValue::Object(m);
        let mut p: Vec<(String, JsonValue)> = Vec::new();
        push_member(&mut p, "api_key", JsonValue::Str(self.api_key.clone()));
        let events = json_array1(amp_event);
        push_member(&mut p, "events", events);
        proof {
            assert(members_view(p@) =~= seq![
                ("api_key"@, Json::Str(self.api_key())),
                ("events"@, Json::Array(seq![amplitude_event(*event)])),
            ]);
        }
        let payload = JsonValue::Object(p);
        json_post("https://api2.amplitude.com/2/httpapi", payload)
    }
}

} // verus!
