use vstd::prelude::*;
use crate::adapter::{OutboundRequest, pairs_view, text_pair, single_body, error_summary, error_summary_members};
use crate::event::{BatchedEvent, EventType, text_or, text_or_else};
use crate::json::{
    Json, JsonValue, members_view, items_view, opt_member, opt_str, push_member, push_opt_member,
    opt_json_str,
};
use crate::timestamp::iso_text;

pub use crate::timestamp::unix_ms_to_iso;

verus! {

/// TikTok Events API endpoint (server-side pixel).
pub open spec fn tiktok_url() -> Seq<char> {
    "https://business-api.us.tiktok.com/open_api/v1.3/event/track/"@
}

/// Forwards track and error events to the TikTok Events API.
pub struct TikTokAdapter {
    pixel_code: String,
    access_token: String,
}

/// TikTok's name for `e`.
pub open spec fn tiktok_event_name(e: BatchedEvent) -> Seq<char> {
    match e.event_type {
        EventType::Error => "Error"@,
        _ => text_or(e.event, "CustomEvent"@),
    }
}

/// The event TikTok receives for `e`.
pub open spec fn tiktok_payload(pixel_code: Seq<char>, e: BatchedEvent) -> Json {
    Json::Object(
        seq![
            ("pixel_code"@, Json::Str(pixel_code)),
            ("event"@, Json::Str(tiktok_event_name(e))),
            ("timestamp"@, Json::Str(iso_text(e.context.timestamp as int))),
            (
                "context"@,
                Json::Object(
                    seq![
                        (
                            "page"@,
                            Json::Object(
                                seq![("url"@, Json::Str(e.context.url@))] + opt_member(
                                    "referrer"@,
                                    opt_str(e.context.referrer),
                                ),
                            ),
                        ),
                    ] + opt_member("user_agent"@, opt_str(e.context.user_agent)),
                ),
            ),
        ] + opt_member(
            "properties"@,
            if error_summary_members(e).len() == 0 {
                None
            } else {
                Some(Json::Object(error_summary_members(e)))
            },
        ),
    )
}

impl TikTokAdapter {
    pub closed spec fn pixel_code(&self) -> Seq<char> {
        self.pixel_code@
    }

    pub closed spec fn access_token(&self) -> Seq<char> {
        self.access_token@
    }

    pub fn new(pixel_code: String, access_token: String) -> (a: Self)
        ensures
            a.pixel_code() == pixel_code@,
            a.access_token() == access_token@,
    {
        TikTokAdapter { pixel_code, access_token }
    }

    pub fn name(&self) -> (n: &'static str)
        ensures
            n@ == "tiktok"@,
    {
        "tiktok"
    }

    /// TikTok has no identify equivalent: only track and error events are taken.
    pub fn accepts(&self, event: &BatchedEvent) -> (b: bool)
        ensures
            b == (event.event_type != EventType::Identify),
    {
        event.event_type != EventType::Identify
    }

    /// The HTTP request that delivers `event`, which must be one this adapter accepts and
    /// whose timestamp is after -1000 ms.
    pub fn request(&self, event: &BatchedEvent) -> (r: OutboundRequest)
        requires
            event.event_type != EventType::Identify,
            event.context.timestamp > -1000,
        ensures
            r.url@ == tiktok_url(),
            r.query@.len() == 0,
            pairs_view(r.headers@) == seq![
                ("Access-Token"@, self.access_token()),
                ("Content-Type"@, "application/json"@),
            ],
            r.basic_auth_user is None,
            items_view(r.body@) == seq![tiktok_payload(self.pixel_code(), *event)],
    {
        let event_name = match event.event_type {
            EventType::Error => String::from_str("Error"),
            _ => text_or_else(&event.event, "CustomEvent"),
        };
        let timestamp = unix_ms_to_iso(event.context.timestamp);
        let data = error_summary(event);
        let properties = if data.len() == 0 {
            None
        } else {
            Some(JsonValue::Object(data))
        };
        let mut page: Vec<(String, JsonValue)> = Vec::new();
        push_member(&mut page, "url", JsonValue::Str(event.context.url.clone()));
        push_opt_member(&mut page, "referrer", opt_json_str(&event.context.referrer));
        let mut context: Vec<(String, JsonValue)> = Vec::new();
        push_member(&mut context, "page", JsonValue::Object(page));
        push_opt_member(&mut context, "user_agent", opt_json_str(&event.context.user_agent));
        let mut m: Vec<(String, JsonValue)> = Vec::new();
        push_member(&mut m, "pixel_code", JsonValue::Str(self.pixel_code.clone()));
        push_member(&mut m, "event", JsonValue::Str(event_name));
        push_member(&mut m, "timestamp", JsonValue::Str(timestamp));
        push_member(&mut m, "context", JsonValue::Object(context));
        push_opt_member(&mut m, "properties", properties);
        proof {
            assert(members_view(m@) =~= match tiktok_payload(self.pixel_code(), *event) {
                Json::Object(mm) => mm,
                _ => Seq::empty(),
            });
        }
        let mut headers: Vec<(String, String)> = Vec::new();
        headers.push((String::from_str("Access-Token"), self.access_token.clone()));
        headers.push(text_pair("Content-Type", "application/json"));
        proof {
            assert(pairs_view(headers@) =~= seq![
                ("Access-Token"@, self.access_token()),
                ("Content-Type"@, "application/json"@),
            ]);
        }
        let q: Vec<(String, String)> = Vec::new();
        OutboundRequest {
            url: String::from_str("https://business-api.us.tiktok.com/open_api/v1.3/event/track/"),
            query: q,
            headers,
            basic_auth_user: None,
            body: single_body(JsonValue::Object(m)),
        }
    }
}

} // verus!
