use vstd::prelude::*;
use crate::adapter::{OutboundRequest, is_json_post, json_post, insert_text};
use crate::event::{BatchedEvent, EventType, text_or, text_or_else};
use crate::json::{
    Json, JsonValue, json_array1, members_view, opt_json, opt_member, push_member, field, element,
    lemma_obj_get_at,
    push_opt_member, object_members_or_empty, copy_object_members, copy_opt, obj_insert,
    object_insert,
};
use crate::text::{chars_of, find_char, parse_unsigned_chars, parse_unsigned, before_char};
use crate::timestamp::{iso_text, unix_ms_to_iso};

pub use crate::timestamp::unix_ms_to_iso as iso_timestamp;

verus! {

/// PostHog Cloud's capture endpoint.
pub open spec fn posthog_capture_url() -> Seq<char> {
    "https://app.posthog.com/capture/"@
}

/// Forwards events to PostHog.
pub struct PostHogAdapter {
    api_key: String,
    /// Override for self-hosted PostHog instances
    endpoint: String,
}

/// PostHog's name for `e`.
pub open spec fn posthog_event_name(e: BatchedEvent) -> Seq<char> {
    match e.event_type {
        EventType::Track => text_or(e.event, "unknown"@),
        EventType::Identify => "$identify"@,
        EventType::Error => "$exception"@,
    }
}

/// `$screen_width`: the viewport's width (the text before its first `x`) when it parses as
/// a `u64`, null otherwise.
pub open spec fn screen_width(viewport: Seq<char>) -> Json {
    match parse_unsigned(before_char(viewport, 'x'), 18446744073709551615) {
        Some(n) => Json::Int(n as int),
        None => Json::Null,
    }
}

/// The properties PostHog receives for `e`.
pub open spec fn posthog_properties(e: BatchedEvent) -> Seq<(Seq<char>, Json)> {
    let m0 = match e.event_type {
        EventType::Identify => opt_member("$set"@, opt_json(e.traits)),
        _ => object_members_or_empty(opt_json(e.properties)),
    };
    let m1 = obj_insert(m0, "$screen_width"@, screen_width(e.context.viewport@));
    let m2 = obj_insert(m1, "$current_url"@, Json::Str(e.context.url@));
    let m3 = obj_insert(m2, "$lib"@, Json::Str("nightshift"@));
    let m4 = obj_insert(m3, "$lib_version"@, Json::Str("0.1.0"@));
    let m5 = obj_insert(m4, "app_version"@, Json::Str(e.context.app_version@));
    match (e.event_type, e.error) {
        (EventType::Error, Some(err)) => {
            let m6 = obj_insert(
                obj_insert(m5, "$exception_type"@, Json::Str(err.name@)),
                "$exception_message"@,
                Json::Str(err.message@),
            );
            match err.stack {
                Some(st) => obj_insert(m6, "$exception_stack_trace_raw"@, Json::Str(st@)),
                None => m6,
            }
        },
        _ => m5,
    }
}

/// The batch PostHog receives for `e`.
pub open spec fn posthog_payload(api_key: Seq<char>, e: BatchedEvent) -> Json {
    Json::Object(
        seq![
            ("api_key"@, Json::Str(api_key)),
            (
                "batch"@,
                Json::Array(
                    seq![
                        Json::Object(
                            seq![
                                ("event"@, Json::Str(posthog_event_name(e))),
                                ("distinct_id"@, Json::Str(text_or(e.user_id, e.context.session_id@))),
                                ("timestamp"@, Json::Str(iso_text(e.context.timestamp as int))),
                                ("properties"@, Json::Object(posthog_properties(e))),
                            ],
                        ),
                    ],
                ),
            ),
        ],
    )
}

/// PostHog identifies the person by the event's user id, and by its session id only when the
/// event has no user id.
pub proof fn lemma_posthog_distinct_id(api_key: Seq<char>, e: BatchedEvent)
    ensures
        ({
            let call = element(field(posthog_payload(api_key, e), "batch"@)->0, 0)->0;
            &&& field(posthog_payload(api_key, e), "batch"@) is Some
            &&& element(field(posthog_payload(api_key, e), "batch"@)->0, 0) is Some
            &&& e.user_id matches Some(u) ==> field(call, "distinct_id"@) == Some(Json::Str(u@))
            &&& e.user_id is None ==> field(call, "distinct_id"@) == Some(Json::Str(e.context.session_id@))
        }),
{
    reveal_strlit("api_key");
    reveal_strlit("batch");
    reveal_strlit("event");
    reveal_strlit("distinct_id");
    let top = posthog_payload(api_key, e)->Object_0;
    assert(top[0].0.len() != "batch"@.len());
    lemma_obj_get_at(top, "batch"@, 1);
    let m = top[1].1->Array_0[0]->Object_0;
    assert(m[0].0.len() != "distinct_id"@.len());
    lemma_obj_get_at(m, "distinct_id"@, 1);
}

/// `$screen_width` computed from the viewport.
fn screen_width_of(viewport: &String) -> (w: JsonValue)
    ensures
        w@ == screen_width(viewport@),
{
    let cs = chars_of(viewport.as_str());
    let i = find_char(&cs, 'x');
    proof {
        assert(cs@.subrange(0, i as int) =~= cs@.take(i as int));
    }
    match parse_unsigned_chars(&cs, 0, i, 18446744073709551615u64) {
        Some(n) => JsonValue::Int(n as i128),
        None => JsonValue::Null,
    }
}

impl PostHogAdapter {
    pub closed spec fn api_key(&self) -> Seq<char> {
        self.api_key@
    }

    pub closed spec fn endpoint(&self) -> Seq<char> {
        self.endpoint@
    }

    /// An adapter for PostHog Cloud.
    pub fn new(api_key: String) -> (a: Self)
        ensures
            a.api_key() == api_key@,
            a.endpoint() == posthog_capture_url(),
    {
        PostHogAdapter { api_key, endpoint: String::from_str("https://app.posthog.com/capture/") }
    }

    /// For self-hosted PostHog: e.g. "https://posthog.yourdomain.com/capture/"
    pub fn with_endpoint(self, endpoint: String) -> (a: Self)
        ensures
            a.api_key() == self.api_key(),
            a.endpoint() == endpoint@,
    {
        PostHogAdapter { api_key: self.api_key, endpoint }
    }

    pub fn name(&self) -> (n: &'static str)
        ensures
            n@ == "posthog"@,
    {
        "posthog"
    }

    /// PostHog takes every kind of event.
    pub fn accepts(&self, event: &BatchedEvent) -> (b: bool)
        ensures
            b,
    {
        true
    }

    /// The HTTP request that delivers `event`. Timestamps at or before -1000 ms cannot be
    /// converted to a calendar time.
    pub fn request(&self, event: &BatchedEvent) -> (r: OutboundRequest)
        requires
            event.context.timestamp > -1000,
        ensures
            is_json_post(r, self.endpoint(), posthog_payload(self.api_key(), *event)),
    {
        let event_name = match event.event_type {
            EventType::Track => text_or_else(&event.event, "unknown"),
            EventType::Identify => String::from_str("$identify"),
            EventType::Error => String::from_str("$exception"),
        };
        let distinct_id = text_or_else(&event.user_id, event.context.session_id.as_str());
        let mut props = match event.event_type {
            EventType::Identify => {
                let mut p: Vec<(String, JsonValue)> = Vec::new();
                push_opt_member(&mut p, "$set", copy_opt(&event.traits));
                proof {
                    assert(members_view(p@) =~= opt_member("$set"@, opt_json(event.traits)));
                }
                p
            },
            _ => copy_object_members(&event.properties),
        };
        object_insert(&mut props, "$screen_width", screen_width_of(&event.context.viewport));
        insert_text(&mut props, "$current_url", &event.context.url);
        object_insert(&mut props, "$lib", JsonValue::Str(String::from_str("nightshift")));
        object_insert(&mut props, "$lib_version", JsonValue::Str(String::from_str("0.1.0")));
        insert_text(&mut props, "app_version", &event.context.app_version);
        if event.event_type == EventType::Error {
            match &event.error {
                Some(err) => {
                    insert_text(&mut props, "$exception_type", &err.name);
                    insert_text(&mut props, "$exception_message", &err.message);
                    match &err.stack {
                        Some(st) => insert_text(&mut props, "$exception_stack_trace_raw", st),
                        None => {},
                    }
                },
                None => {},
            }
        }
        proof {
            assert(members_view(props@) == posthog_properties(*event));
        }
        let mut ev: Vec<(String, JsonValue)> = Vec::new();
        push_member(&mut ev, "event", JsonValue::Str(event_name));
        push_member(&mut ev, "distinct_id", JsonValue::Str(distinct_id));
        push_member(&mut ev, "timestamp", JsonValue::Str(unix_ms_to_iso(event.context.timestamp)));
        push_member(&mut ev, "properties", JsonValue::Object(props));
        proof {
            assert(members_view(ev@) =~= seq![
                ("event"@, Json::Str(posthog_event_name(*event))),
                ("distinct_id"@, Json::Str(text_or(event.user_id, event.context.session_id@))),
                ("timestamp"@, Json::Str(iso_text(event.context.timestamp as int))),
                ("properties"@, Json::Object(posthog_properties(*event))),
            ]);
        }
        let mut p: Vec<(String, JsonValue)> = Vec::new();
        push_member(&mut p, "api_key", JsonValue::Str(self.api_key.clone()));
        push_member(&mut p, "batch", json_array1(JsonValue::Object(ev)));
        proof {
            assert(members_view(p@) =~= match posthog_payload(self.api_key(), *event) {
                Json::Object(m) => m,
                _ => Seq::empty(),
            });
        }
        json_post(self.endpoint.as_str(), JsonValue::Object(p))
    }
}

} // verus!
