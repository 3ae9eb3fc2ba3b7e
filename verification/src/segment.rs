use vstd::prelude::*;
use crate::adapter::{
    OutboundRequest, pairs_view, json_headers, json_header_list, single_body, error_properties,
    props_or_empty, with_error_details,
};
use crate::event::{BatchedEvent, EventType, text_or, text_or_else};
use crate::json::{
    Json, JsonValue, json_array1, members_view, items_view, opt_json, opt_member, opt_str,
    push_member, push_opt_member, copy_opt, opt_json_str, field, element, lemma_obj_get_at,
};
use crate::timestamp::iso_text;

pub use crate::timestamp::unix_ms_to_iso;

verus! {

/// Segment's batch endpoint.
pub open spec fn segment_url() -> Seq<char> {
    "https://api.segment.io/v1/batch"@
}

/// Forwards events to Segment: track and identify calls; errors become track calls.
pub struct SegmentAdapter {
    write_key: String,
}

/// The campaign members taken from the UTM fields that are present.
pub open spec fn campaign_members(e: BatchedEvent) -> Seq<(Seq<char>, Json)> {
    opt_member("source"@, opt_str(e.context.utm_source)) + opt_member("medium"@, opt_str(e.context.utm_medium))
        + opt_member("name"@, opt_str(e.context.utm_campaign)) + opt_member("term"@, opt_str(e.context.utm_term))
        + opt_member("content"@, opt_str(e.context.utm_content))
}

/// The campaign context: present when the UTM source, medium or campaign is.
pub open spec fn campaign(e: BatchedEvent) -> Option<Json> {
    if e.context.utm_source is Some || e.context.utm_medium is Some || e.context.utm_campaign is Some {
        Some(Json::Object(campaign_members(e)))
    } else {
        None
    }
}

/// The page context.
pub open spec fn page(e: BatchedEvent) -> Json {
    Json::Object(
        seq![("url"@, Json::Str(e.context.url@))] + opt_member("title"@, opt_str(e.context.page_title))
            + opt_member("referrer"@, opt_str(e.context.referrer)),
    )
}

/// The context Segment receives for `e`.
pub open spec fn segment_context(e: BatchedEvent) -> Json {
    Json::Object(
        seq![("page"@, page(e))] + opt_member(
            "referrer"@,
            match e.context.referrer {
                Some(r) => Some(Json::Object(seq![("url"@, Json::Str(r@))])),
                None => None,
            },
        ) + opt_member("campaign"@, campaign(e)) + seq![
            (
                "library"@,
                Json::Object(seq![("name"@, Json::Str("nightshift"@)), ("version"@, Json::Str("0.1.0"@))]),
            ),
        ],
    )
}

/// The call Segment receives for `e`.
pub open spec fn segment_call(e: BatchedEvent) -> Json {
    let user = ("userId"@, Json::Str(text_or(e.user_id, e.context.session_id@)));
    let tail = seq![("context"@, segment_context(e)), ("timestamp"@, Json::Str(iso_text(e.context.timestamp as int)))];
    match e.event_type {
        EventType::Track => Json::Object(
            seq![("type"@, Json::Str("track"@)), user, ("event"@, Json::Str(text_or(e.event, "unknown"@)))]
                + opt_member("properties"@, opt_json(e.properties)) + tail,
        ),
        EventType::Identify => Json::Object(
            seq![("type"@, Json::Str("identify"@)), user] + opt_member("traits"@, opt_json(e.traits)) + tail,
        ),
        EventType::Error => Json::Object(
            seq![
                ("type"@, Json::Str("track"@)),
                user,
                ("event"@, Json::Str("Error"@)),
                ("properties"@, with_error_details(props_or_empty(opt_json(e.properties)), e.error, true)),
            ] + tail,
        ),
    }
}

/// The batch Segment receives for `e`.
pub open spec fn segment_payload(e: BatchedEvent) -> Json {
    Json::Object(seq![("batch"@, Json::Array(seq![segment_call(e)]))])
}

/// The one call of Segment's batch for `e`.
pub open spec fn segment_batch_call(e: BatchedEvent) -> Json {
    element(field(segment_payload(e), "batch"@)->0, 0)->0
}

/// A track call carries the event's properties unchanged, an identify call its traits; both
/// name the user by the event's user id, or by its session id when it has none.
pub proof fn lemma_segment_carries_event_data(e: BatchedEvent)
    ensures
        field(segment_payload(e), "batch"@) is Some,
        element(field(segment_payload(e), "batch"@)->0, 0) is Some,
        e.event_type == EventType::Track && e.properties is Some ==> field(segment_batch_call(e), "properties"@)
            == Some(e.properties->0@),
        e.event_type == EventType::Identify && e.traits is Some ==> field(segment_batch_call(e), "traits"@)
            == Some(e.traits->0@),
        e.user_id matches Some(u) ==> field(segment_batch_call(e), "userId"@) == Some(Json::Str(u@)),
        e.user_id is None ==> field(segment_batch_call(e), "userId"@) == Some(Json::Str(e.context.session_id@)),
{
    reveal_strlit("batch");
    reveal_strlit("type");
    reveal_strlit("userId");
    reveal_strlit("event");
    reveal_strlit("properties");
    reveal_strlit("traits");
    let top = segment_payload(e)->Object_0;
    lemma_obj_get_at(top, "batch"@, 0);
    let m = segment_call(e)->Object_0;
    assert(segment_batch_call(e) == segment_call(e));
    assert(m[0].0 == "type"@);
    assert(m[1].0 == "userId"@);
    assert(m[0].0.len() != "userId"@.len());
    lemma_obj_get_at(m, "userId"@, 1);
    if e.event_type == EventType::Track && e.properties is Some {
        assert(m[2].0 == "event"@);
        assert(m[3].0 == "properties"@);
        assert(m[0].0.len() != "properties"@.len());
        assert(m[1].0.len() != "properties"@.len());
        assert(m[2].0.len() != "properties"@.len());
        lemma_obj_get_at(m, "properties"@, 3);
    }
    if e.event_type == EventType::Identify && e.traits is Some {
        assert(m[2].0 == "traits"@);
        assert(m[0].0.len() != "traits"@.len());
        assert(m[1].0[0] != "traits"@[0]);
        lemma_obj_get_at(m, "traits"@, 2);
    }
}

/// Segment's context for an event: page, referrer, UTM campaign and library.
pub fn build_context(event: &BatchedEvent) -> (ctx: JsonValue)
    ensures
        ctx@ == segment_context(*event),
{
    let c = &event.context;
    let campaign = if c.utm_source.is_some() || c.utm_medium.is_some() || c.utm_campaign.is_some() {
        let mut m: Vec<(String, JsonValue)> = Vec::new();
        push_opt_member(&mut m, "source", opt_json_str(&c.utm_source));
        push_opt_member(&mut m, "medium", opt_json_str(&c.utm_medium));
        push_opt_member(&mut m, "name", opt_json_str(&c.utm_campaign));
        push_opt_member(&mut m, "term", opt_json_str(&c.utm_term));
        push_opt_member(&mut m, "content", opt_json_str(&c.utm_content));
        proof {
            assert(members_view(m@) =~= campaign_members(*event));
        }
        Some(JsonValue::Object(m))
    } else {
        None
    };
    let mut page: Vec<(String, JsonValue)> = Vec::new();
    push_member(&mut page, "url", JsonValue::Str(c.url.clone()));
    push_opt_member(&mut page, "title", opt_json_str(&c.page_title));
    push_opt_member(&mut page, "referrer", opt_json_str(&c.referrer));
    let referrer = match &c.referrer {
        Some(r) => {
            let mut m: Vec<(String, JsonValue)> = Vec::new();
            push_member(&mut m, "url", JsonValue::Str(r.clone()));
            proof {
                assert(members_view(m@) =~= seq![("url"@, Json::Str(r@))]);
            }
            Some(JsonValue::Object(m))
        },
        None => None,
    };
    let mut library: Vec<(String, JsonValue)> = Vec::new();
    push_member(&mut library, "name", JsonValue::Str(String::from_str("nightshift")));
    push_member(&mut library, "version", JsonValue::Str(String::from_str("0.1.0")));
    proof {
        assert(members_view(page@) =~= seq![("url"@, Json::Str(c.url@))] + opt_member("title"@, opt_str(c.page_title))
            + opt_member("referrer"@, opt_str(c.referrer)));
        assert(members_view(library@) =~= seq![("name"@, Json::Str("nightshift"@)), ("version"@, Json::Str("0.1.0"@))]);
    }
    let mut m: Vec<(String, JsonValue)> = Vec::new();
    push_member(&mut m, "page", JsonValue::Object(page));
    push_opt_member(&mut m, "referrer", referrer);
    push_opt_member(&mut m, "campaign", campaign);
    push_member(&mut m, "library", JsonValue::Object(library));
    proof {
        assert(members_view(m@) =~= match segment_context(*event) {
            Json::Object(mm) => mm,
            _ => Seq::empty(),
        });
    }
    JsonValue::Object(m)
}

impl SegmentAdapter {
    pub closed spec fn write_key(&self) -> Seq<char> {
        self.write_key@
    }

    pub fn new(write_key: String) -> (a: Self)
        ensures
            a.write_key() == write_key@,
    {
        SegmentAdapter { write_key }
    }

    pub fn name(&self) -> (n: &'static str)
        ensures
            n@ == "segment"@,
    {
        "segment"
    }

    /// Segment takes every kind of event.
    pub fn accepts(&self, event: &BatchedEvent) -> (b: bool)
        ensures
            b,
    {
        true
    }

    /// The HTTP request that delivers `event`, authenticated with the write key. Timestamps at
    /// or before -1000 ms cannot be converted to a calendar time.
    pub fn request(&self, event: &BatchedEvent) -> (r: OutboundRequest)
        requires
            event.context.timestamp > -1000,
        ensures
            r.url@ == segment_url(),
            r.query@.len() == 0,
            pairs_view(r.headers@) == json_headers(),
            r.basic_auth_user matches Some(u) && u@ == self.write_key(),
            items_view(r.body@) == seq![segment_payload(*event)],
    {
        let user_id = text_or_else(&event.user_id, event.context.session_id.as_str());
        let timestamp = unix_ms_to_iso(event.context.timestamp);
        let ctx = build_context(event);
        let mut m: Vec<(String, JsonValue)> = Vec::new();
        match event.event_type {
            EventType::Track => {
                push_member(&mut m, "type", JsonValue::Str(String::from_str("track")));
                push_member(&mut m, "userId", JsonValue::Str(user_id));
                push_member(&mut m, "event", JsonValue::Str(text_or_else(&event.event, "unknown")));
                push_opt_member(&mut m, "properties", copy_opt(&event.properties));
            },
            EventType::Identify => {
                push_member(&mut m, "type", JsonValue::Str(String::from_str("identify")));
                push_member(&mut m, "userId", JsonValue::Str(user_id));
                push_opt_member(&mut m, "traits", copy_opt(&event.traits));
            },
            EventType::Error => {
                push_member(&mut m, "type", JsonValue::Str(String::from_str("track")));
                push_member(&mut m, "userId", JsonValue::Str(user_id));
                push_member(&mut m, "event", JsonValue::Str(String::from_str("Error")));
                push_member(&mut m, "properties", error_properties(event, true));
            },
        }
        push_member(&mut m, "context", ctx);
        push_member(&mut m, "timestamp", JsonValue::Str(timestamp));
        proof {
            assert(members_view(m@) =~= match segment_call(*event) {
                Json::Object(mm) => mm,
                _ => Seq::empty(),
            });
        }
        let mut p: Vec<(String, JsonValue)> = Vec::new();
        push_member(&mut p, "batch", json_array1(JsonValue::Object(m)));
        proof {
            assert(members_view(p@) =~= seq![("batch"@, Json::Array(seq![segment_call(*event)]))]);
        }
        let q: Vec<(String, String)> = Vec::new();
        OutboundRequest {
            url: String::from_str("https://api.segment.io/v1/batch"),
            query: q,
            headers: json_header_list(),
            basic_auth_user: Some(self.write_key.clone()),
            body: single_body(JsonValue::Object(p)),
        }
    }
}

} // verus!
