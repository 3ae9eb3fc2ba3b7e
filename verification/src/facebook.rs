use vstd::prelude::*;
use crate::adapter::{OutboundRequest, pairs_view, json_headers, json_header_list, single_body, error_summary, error_summary_members};
use crate::dedup::{div_trunc, whole_seconds};
use crate::event::{BatchedEvent, EventType, text_or, text_or_else};
use crate::json::{
    Json, JsonValue, json_array1, members_view, items_view, opt_json, opt_member, opt_str,
    push_member, push_opt_member, opt_json_str, object_members_or_empty, copy_object_members,
    obj_insert,
};
use crate::text::concat;

verus! {

/// Forwards track and error events to the Facebook Conversions API (server-side pixel).
pub struct FacebookAdapter {
    pixel_id: String,
    access_token: String,
}

/// Facebook's name for `e`.
pub open spec fn facebook_event_name(e: BatchedEvent) -> Seq<char> {
    match e.event_type {
        EventType::Error => "Error"@,
        _ => text_or(e.event, "CustomEvent"@),
    }
}

/// The custom data sent for `e`; none when empty.
pub open spec fn custom_data(e: BatchedEvent) -> Option<Json> {
    if error_summary_members(e).len() == 0 {
        None
    } else {
        Some(Json::Object(error_summary_members(e)))
    }
}

/// The server event for `e`. The client IP is never forwarded.
pub open spec fn facebook_event(e: BatchedEvent) -> Json {
    Json::Object(
        seq![
            ("event_name"@, Json::Str(facebook_event_name(e))),
            ("event_time"@, Json::Int(div_trunc(e.context.timestamp as int, 1000))),
            ("action_source"@, Json::Str("website"@)),
            ("event_source_url"@, Json::Str(e.context.url@)),
            ("user_data"@, Json::Object(opt_member("client_user_agent"@, opt_str(e.context.user_agent)))),
        ] + opt_member("custom_data"@, custom_data(e)),
    )
}

/// The upload Facebook receives for `e`.
pub open spec fn facebook_payload(e: BatchedEvent) -> Json {
    Json::Object(seq![("data"@, Json::Array(seq![facebook_event(e)]))])
}

impl FacebookAdapter {
    pub closed spec fn pixel_id(&self) -> Seq<char> {
        self.pixel_id@
    }

    pub closed spec fn access_token(&self) -> Seq<char> {
        self.access_token@
    }

    pub fn new(pixel_id: String, access_token: String) -> (a: Self)
        ensures
            a.pixel_id() == pixel_id@,
            a.access_token() == access_token@,
    {
        FacebookAdapter { pixel_id, access_token }
    }

    /// The events endpoint of the pixel.
    pub fn endpoint(&self) -> (u: String)
        ensures
            u@ == "https://graph.facebook.com/v18.0/"@ + self.pixel_id() + "/events"@,
    {
        let a = concat("https://graph.facebook.com/v18.0/", self.pixel_id.as_str());
        concat(a.as_str(), "/events")
    }

    pub fn name(&self) -> (n: &'static str)
        ensures
            n@ == "facebook"@,
    {
        "facebook"
    }

    /// Identify has no server-side equivalent: only track and error events are taken.
    pub fn accepts(&self, event: &BatchedEvent) -> (b: bool)
        ensures
            b == (event.event_type != EventType::Identify),
    {
        event.event_type != EventType::Identify
    }

    /// The HTTP request that delivers `event`, which must be one this adapter accepts.
    pub fn request(&self, event: &BatchedEvent) -> (r: OutboundRequest)
        requires
            event.event_type != EventType::Identify,
        ensures
            r.url@ == "https://graph.facebook.com/v18.0/"@ + self.pixel_id() + "/events"@,
            pairs_view(r.query@) == seq![("access_token"@, self.access_token())],
            pairs_view(r.headers@) == json_headers(),
            r.basic_auth_user is None,
            items_view(r.body@) == seq![facebook_payload(*event)],
    {
        let event_name = match event.event_type {
            EventType::Error => String::from_str("Error"),
            _ => text_or_else(&event.event, "CustomEvent"),
        };
        let data = error_summary(event);
        let custom = if data.len() == 0 {
            None
        } else {
            Some(JsonValue::Object(data))
        };
        let mut user_data: Vec<(String, JsonValue)> = Vec::new();
        push_opt_member(&mut user_data, "client_user_agent", opt_json_str(&event.context.user_agent));
        let mut m: Vec<(String, JsonValue)> = Vec::new();
        push_member(&mut m, "event_name", JsonValue::Str(event_name));
        push_member(&mut m, "event_time", JsonValue::Int(whole_seconds(event.context.timestamp) as i128));
        push_member(&mut m, "action_source", JsonValue::Str(String::from_str("website")));
        push_member(&mut m, "event_source_url", JsonValue::Str(event.context.url.clone()));
        proof {
            assert(Seq::<(Seq<char>, Json)>::empty() + opt_member("client_user_agent"@, opt_str(event.context.user_agent))
                =~= opt_member("client_user_agent"@, opt_str(event.context.user_agent)));
        }
        push_member(&mut m, "user_data", JsonValue::Object(user_data));
        push_opt_member(&mut m, "custom_data", custom);
        proof {
            assert(members_view(m@) =~= match facebook_event(*event) {
                Json::Object(mm) => mm,
                _ => Seq::empty(),
            });
        }
        let fb_event = JsonValue::Object(m);
        let mut p: Vec<(String, JsonValue)> = Vec::new();
        push_member(&mut p, "data", json_array1(fb_event));
        proof {
            assert(members_view(p@) =~= seq![("data"@, Json::Array(seq![facebook_event(*event)]))]);
        }
        let payload = JsonValue::Object(p);
        let mut query: Vec<(String, String)> = Vec::new();
        query.push((String::from_str("access_token"), self.access_token.clone()));
        let headers = json_header_list();
        let body = single_body(payload);
        proof {
            assert(pairs_view(query@) =~= seq![("access_token"@, self.access_token())]);
        }
        OutboundRequest { url: self.endpoint(), query, headers, basic_auth_user: None, body }
    }
}

} // verus!
