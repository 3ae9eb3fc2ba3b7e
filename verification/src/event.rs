use vstd::prelude::*;
use crate::json::JsonValue;

verus! {

/// The three kinds of event a client sends.
#[derive(Debug, Clone, Copy, PartialEq, Eq, Structural)]
pub enum EventType {
    Track,
    Identify,
    Error,
}

/// Where and when an event happened, as the client reports it and the edge enriches it.
#[derive(Debug, Clone)]
pub struct EventContext {
    pub viewport: String,
    pub url: String,
    pub session_id: String,
    pub app_version: String,
    pub timestamp: i64,
    /// Enriched server-side from CF-Connecting-IP / X-Forwarded-For
    pub ip: Option<String>,
    /// Enriched server-side from User-Agent header
    pub user_agent: Option<String>,
    /// ISO 3166-1 alpha-2 country from geo lookup
    pub country: Option<String>,
    pub referrer: Option<String>,
    pub page_title: Option<String>,
    pub utm_source: Option<String>,
    pub utm_medium: Option<String>,
    pub utm_campaign: Option<String>,
    pub utm_term: Option<String>,
    pub utm_content: Option<String>,
}

impl Default for EventContext {
    fn default() -> (c: EventContext)
        ensures
            c.viewport@ == Seq::<char>::empty(),
            c.url@ == Seq::<char>::empty(),
            c.session_id@ == Seq::<char>::empty(),
            c.app_version@ == Seq::<char>::empty(),
            c.timestamp == 0,
            c.ip is None,
            c.user_agent is None,
            c.country is None,
            c.referrer is None,
            c.page_title is None,
            c.utm_source is None,
            c.utm_medium is None,
            c.utm_campaign is None,
            c.utm_term is None,
            c.utm_content is None,
    {
        EventContext {
            viewport: String::new(),
            url: String::new(),
            session_id: String::new(),
            app_version: String::new(),
            timestamp: 0,
            ip: None,
            user_agent: None,
            country: None,
            referrer: None,
            page_title: None,
            utm_source: None,
            utm_medium: None,
            utm_campaign: None,
            utm_term: None,
            utm_content: None,
        }
    }
}

/// A JavaScript error as the client serialises it.
#[derive(Debug, Clone)]
pub struct SerializedError {
    pub message: String,
    pub name: String,
    pub stack: Option<String>,
}

/// One event of a batch.
#[derive(Debug)]
pub struct BatchedEvent {
    pub event_type: EventType,
    pub event: Option<String>,
    pub user_id: Option<String>,
    pub properties: Option<JsonValue>,
    pub traits: Option<JsonValue>,
    pub error: Option<SerializedError>,
    pub context: EventContext,
}

/// The body of an ingest request.
#[derive(Debug)]
pub struct IngestBatch {
    pub batch: Vec<BatchedEvent>,
}

/// The text of an optional string, or `default` when there is none.
pub open spec fn text_or(o: Option<String>, default: Seq<char>) -> Seq<char> {
    match o {
        Some(s) => s@,
        None => default,
    }
}

/// The text of an optional string.
pub open spec fn opt_text(o: Option<String>) -> Option<Seq<char>> {
    match o {
        Some(s) => Some(s@),
        None => None,
    }
}

/// A copy of an optional string.
pub fn copy_text(o: &Option<String>) -> (r: Option<String>)
    ensures
        r == *o,
{
    match o {
        Some(s) => Some(s.clone()),
        None => None,
    }
}

/// The text of `o`, or `default` when there is none.
pub fn text_or_else(o: &Option<String>, default: &str) -> (r: String)
    ensures
        r@ == text_or(*o, default@),
{
    match o {
        Some(s) => s.clone(),
        None => String::from_str(default),
    }
}

} // verus!
