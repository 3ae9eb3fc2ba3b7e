use vstd::prelude::*;
use crate::adapter::{OutboundRequest, is_json_post, json_post, insert_text, props_or_empty};
use crate::dedup::{div_trunc, whole_seconds};
use crate::event::{BatchedEvent, EventType, text_or, text_or_else};
use crate::json::{
    Json, JsonValue, json_array1, members_view, opt_json, push_member, object_members_or_empty,
    copy_object_members, obj_insert, object_insert, obj_get, field, element, lemma_obj_get_at,
    lemma_obj_insert_get,
};

verus! {

/// Mixpanel's ingestion endpoint for events.
pub open spec fn mixpanel_track_url() -> Seq<char> {
    "https://api.mixpanel.com/track"@
}

/// Mixpanel's endpoint for user profiles.
pub open spec fn mixpanel_engage_url() -> Seq<char> {
    "https://api.mixpanel.com/engage"@
}

/// Forwards events to Mixpanel: track and error events as events, identify calls as profile
/// updates.
pub struct MixpanelAdapter {
    token: String,
}

/// Mixpanel's name for a track or error event.
pub open spec fn mixpanel_event_name(e: BatchedEvent) -> Seq<char> {
    match e.event_type {
        EventType::Error => "$error"@,
        _ => text_or(e.event, "unknown"@),
    }
}

/// The event's object properties merged with the fields Mixpanel requires.
pub open spec fn mixpanel_properties(token: Seq<char>, e: BatchedEvent) -> Seq<(Seq<char>, Json)> {
    let m0 = object_members_or_empty(opt_json(e.properties));
    let m1 = obj_insert(m0, "token"@, Json::Str(token));
    let m2 = obj_insert(m1, "distinct_id"@, Json::Str(e.context.session_id@));
    let m3 = obj_insert(m2, "time"@, Json::Int(div_trunc(e.context.timestamp as int, 1000)));
    let m4 = obj_insert(m3, "$browser_size"@, Json::Str(e.context.viewport@));
    let m5 = obj_insert(m4, "$current_url"@, Json::Str(e.context.url@));
    let m6 = obj_insert(m5, "app_version"@, Json::Str(e.context.app_version@));
    match (e.event_type, e.error) {
        (EventType::Error, Some(err)) => obj_insert(
            obj_insert(m6, "$error_message"@, Json::Str(err.message@)),
            "$error_type"@,
            Json::Str(err.name@),
        ),
        _ => m6,
    }
}

/// The upload for a track or error event.
pub open spec fn mixpanel_track_payload(token: Seq<char>, e: BatchedEvent) -> Json {
    Json::Array(
        seq![
            Json::Object(
                seq![
                    ("event"@, Json::Str(mixpanel_event_name(e))),
                    ("properties"@, Json::Object(mixpanel_properties(token, e))),
                ],
            ),
        ],
    )
}

/// The profile update for an identify call.
pub open spec fn mixpanel_engage_payload(token: Seq<char>, e: BatchedEvent) -> Json {
    Json::Array(
        seq![
            Json::Object(
                seq![
                    ("$token"@, Json::Str(token)),
                    ("$distinct_id"@, Json::Str(text_or(e.user_id, e.context.session_id@))),
                    ("$set"@, props_or_empty(opt_json(e.traits))),
                ],
            ),
        ],
    )
}

/// The fields Mixpanel itself sets in an event's properties.
pub open spec fn mixpanel_reserved(k: Seq<char>) -> bool {
    ||| k == "token"@
    ||| k == "distinct_id"@
    ||| k == "time"@
    ||| k == "$browser_size"@
    ||| k == "$current_url"@
    ||| k == "app_version"@
    ||| k == "$error_message"@
    ||| k == "$error_type"@
}

/// The properties of the one event of Mixpanel's upload for `e`.
pub open spec fn mixpanel_uploaded_properties(token: Seq<char>, e: BatchedEvent) -> Json {
    field(element(mixpanel_track_payload(token, e), 0)->0, "properties"@)->0
}

/// A tracked event keeps every property of its own that is not one of Mixpanel's fields, with
/// its value unchanged, and gains no other; it carries the project token, the session as
/// `distinct_id` and the time in whole seconds.
pub proof fn lemma_mixpanel_keeps_event_properties(token: Seq<char>, e: BatchedEvent)
    ensures
        element(mixpanel_track_payload(token, e), 0) is Some,
        field(element(mixpanel_track_payload(token, e), 0)->0, "properties"@) is Some,
        mixpanel_uploaded_properties(token, e) is Object,
        forall|k: Seq<char>|
            !mixpanel_reserved(k) ==> #[trigger] field(mixpanel_uploaded_properties(token, e), k) == match e.properties {
                Some(p) => field(p@, k),
                None => None,
            },
        field(mixpanel_uploaded_properties(token, e), "token"@) == Some(Json::Str(token)),
        field(mixpanel_uploaded_properties(token, e), "distinct_id"@) == Some(Json::Str(e.context.session_id@)),
        field(mixpanel_uploaded_properties(token, e), "time"@) == Some(
            Json::Int(div_trunc(e.context.timestamp as int, 1000)),
        ),
{
    reveal_strlit("event");
    reveal_strlit("properties");
    reveal_strlit("token");
    reveal_strlit("distinct_id");
    reveal_strlit("time");
    reveal_strlit("$browser_size");
    reveal_strlit("$current_url");
    reveal_strlit("app_version");
    reveal_strlit("$error_message");
    reveal_strlit("$error_type");
    let call = mixpanel_track_payload(token, e)->Array_0[0]->Object_0;
    assert(call[0].0.len() != "properties"@.len());
    lemma_obj_get_at(call, "properties"@, 1);
    let pm = mixpanel_properties(token, e);
    assert(mixpanel_uploaded_properties(token, e) == Json::Object(pm));
    let m0 = object_members_or_empty(opt_json(e.properties));
    let m1 = obj_insert(m0, "token"@, Json::Str(token));
    let m2 = obj_insert(m1, "distinct_id"@, Json::Str(e.context.session_id@));
    let m3 = obj_insert(m2, "time"@, Json::Int(div_trunc(e.context.timestamp as int, 1000)));
    let m4 = obj_insert(m3, "$browser_size"@, Json::Str(e.context.viewport@));
    let m5 = obj_insert(m4, "$current_url"@, Json::Str(e.context.url@));
    let m6 = obj_insert(m5, "app_version"@, Json::Str(e.context.app_version@));
    assert forall|k: Seq<char>|
        !(k == "$browser_size"@ || k == "$current_url"@ || k == "app_version"@ || k == "$error_message"@
            || k == "$error_type"@) implies #[trigger] obj_get(pm, k) == obj_get(m3, k) by {
        lemma_obj_insert_get(m3, "$browser_size"@, Json::Str(e.context.viewport@), k);
        lemma_obj_insert_get(m4, "$current_url"@, Json::Str(e.context.url@), k);
        lemma_obj_insert_get(m5, "app_version"@, Json::Str(e.context.app_version@), k);
        if let (EventType::Error, Some(err)) = (e.event_type, e.error) {
            let m7 = obj_insert(m6, "$error_message"@, Json::Str(err.message@));
            lemma_obj_insert_get(m6, "$error_message"@, Json::Str(err.message@), k);
            lemma_obj_insert_get(m7, "$error_type"@, Json::Str(err.name@), k);
        }
    }
    assert forall|k: Seq<char>| !mixpanel_reserved(k) implies #[trigger] field(
        mixpanel_uploaded_properties(token, e),
        k,
    ) == match e.properties {
        Some(p) => field(p@, k),
        None => None,
    } by {
        lemma_obj_insert_get(m0, "token"@, Json::Str(token), k);
        lemma_obj_insert_get(m1, "distinct_id"@, Json::Str(e.context.session_id@), k);
        lemma_obj_insert_get(m2, "time"@, Json::Int(div_trunc(e.context.timestamp as int, 1000)), k);
        assert(obj_get(pm, k) == obj_get(m3, k));
        if !(e.properties matches Some(p) && p@ is Object) {
            assert(m0 == Seq::<(Seq<char>, Json)>::empty());
        }
    }
    lemma_obj_insert_get(m0, "token"@, Json::Str(token), "token"@);
    lemma_obj_insert_get(m1, "distinct_id"@, Json::Str(e.context.session_id@), "token"@);
    lemma_obj_insert_get(m2, "time"@, Json::Int(div_trunc(e.context.timestamp as int, 1000)), "token"@);
    lemma_obj_insert_get(m1, "distinct_id"@, Json::Str(e.context.session_id@), "distinct_id"@);
    lemma_obj_insert_get(m2, "time"@, Json::Int(div_trunc(e.context.timestamp as int, 1000)), "distinct_id"@);
    lemma_obj_insert_get(m2, "time"@, Json::Int(div_trunc(e.context.timestamp as int, 1000)), "time"@);
    assert("token"@ != "$browser_size"@ && "token"@ != "$current_url"@ && "token"@ != "app_version"@
        && "token"@ != "$error_message"@ && "token"@ != "$error_type"@) by {
        assert("token"@.len() == 5);
    }
    assert("distinct_id"@ != "$browser_size"@ && "distinct_id"@ != "$current_url"@
        && "distinct_id"@ != "$error_message"@) by {
        assert("distinct_id"@.len() == 11);
    }
    assert("distinct_id"@ != "app_version"@) by {
        assert("distinct_id"@[0] != "app_version"@[0]);
    }
    assert("distinct_id"@ != "$error_type"@) by {
        assert("distinct_id"@[0] != "$error_type"@[0]);
    }
    assert("time"@ != "$browser_size"@ && "time"@ != "$current_url"@ && "time"@ != "app_version"@
        && "time"@ != "$error_message"@ && "time"@ != "$error_type"@) by {
        assert("time"@.len() == 4);
    }
    assert("token"@ != "distinct_id"@ && "token"@ != "time"@ && "distinct_id"@ != "time"@);
}

impl MixpanelAdapter {
    pub closed spec fn token(&self) -> Seq<char> {
        self.token@
    }

    pub fn new(token: String) -> (a: Self)
        ensures
            a.token() == token@,
    {
        MixpanelAdapter { token }
    }

    pub fn name(&self) -> (n: &'static str)
        ensures
            n@ == "mixpanel"@,
    {
        "mixpanel"
    }

    /// Mixpanel takes every kind of event.
    pub fn accepts(&self, event: &BatchedEvent) -> (b: bool)
        ensures
            b,
    {
        true
    }

    /// The HTTP request that delivers `event`.
    pub fn request(&self, event: &BatchedEvent) -> (r: OutboundRequest)
        ensures
            event.event_type == EventType::Identify ==> is_json_post(
                r,
                mixpanel_engage_url(),
                mixpanel_engage_payload(self.token(), *event),
            ),
            event.event_type != EventType::Identify ==> is_json_post(
                r,
                mixpanel_track_url(),
                mixpanel_track_payload(self.token(), *event),
            ),
    {
        match event.event_type {
            EventType::Identify => self.engage_request(event),
            _ => self.track_request(event),
        }
    }

    fn track_request(&self, event: &BatchedEvent) -> (r: OutboundRequest)
        ensures
            is_json_post(r, mixpanel_track_url(), mixpanel_track_payload(self.token(), *event)),
    {
        let event_name = match event.event_type {
            EventType::Error => String::from_str("$error"),
            _ => text_or_else(&event.event, "unknown"),
        };
        let mut props = copy_object_members(&event.properties);
        insert_text(&mut props, "token", &self.token);
        insert_text(&mut props, "distinct_id", &event.context.session_id);
        object_insert(&mut props, "time", JsonValue::Int(whole_seconds(event.context.timestamp) as i128));
        insert_text(&mut props, "$browser_size", &event.context.viewport);
        insert_text(&mut props, "$current_url", &event.context.url);
        insert_text(&mut props, "app_version", &event.context.app_version);
        if event.event_type == EventType::Error {
            match &event.error {
                Some(err) => {
                    insert_text(&mut props, "$error_message", &err.message);
                    insert_text(&mut props, "$error_type", &err.name);
                },
                None => {},
            }
        }
        proof {
            assert(members_view(props@) == mixpanel_properties(self.token(), *event));
        }
        let mut m: Vec<(String, JsonValue)> = Vec::new();
        push_member(&mut m, "event", JsonValue::Str(event_name));
        push_member(&mut m, "properties", JsonValue::Object(props));
        proof {
            assert(members_view(m@) =~= seq![
                ("event"@, Json::Str(mixpanel_event_name(*event))),
                ("properties"@, Json::Object(mixpanel_properties(self.token(), *event))),
            ]);
        }
        let payload = json_array1(JsonValue::Object(m));
        json_post("https://api.mixpanel.com/track", payload)
    }

    fn engage_request(&self, event: &BatchedEvent) -> (r: OutboundRequest)
        ensures
            is_json_post(r, mixpanel_engage_url(), mixpanel_engage_payload(self.token(), *event)),
    {
        let distinct_id = text_or_else(&event.user_id, event.context.session_id.as_str());
        let traits = match &event.traits {
            Some(t) => t.duplicate(),
            None => {
                let e: Vec<(String, JsonValue)> = Vec::new();
                proof {
                    assert(members_view(e@) =~= Seq::empty());
                }
                JsonValue::Object(e)
            },
        };
        let mut m: Vec<(String, JsonValue)> = Vec::new();
        push_member(&mut m, "$token", JsonValue::Str(self.token.clone()));
        push_member(&mut m, "$distinct_id", JsonValue::Str(distinct_id));
        push_member(&mut m, "$set", traits);
        proof {
            assert(members_view(m@) =~= seq![
                ("$token"@, Json::Str(self.token())),
                ("$distinct_id"@, Json::Str(text_or(event.user_id, event.context.session_id@))),
                ("$set"@, props_or_empty(opt_json(event.traits))),
            ]);
        }
        let payload = json_array1(JsonValue::Object(m));
        json_post("https://api.mixpanel.com/engage", payload)
    }
}

} // verus!
