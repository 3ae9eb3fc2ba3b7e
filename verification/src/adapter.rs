use vstd::prelude::*;
use crate::event::{BatchedEvent, EventType, SerializedError};
use crate::json::{
    Json, JsonValue, json_view, obj_insert, members_view, items_view, opt_json, object_insert,
    object_members_or_empty, copy_object_members,
};

verus! {

/// Why delivering an event to a vendor failed.
#[derive(Debug)]
pub enum AdapterError {
    /// The vendor answered with a non-success status.
    Http { status: u16, body: String },
    /// The payload could not be serialised; holds the serializer's message.
    Serialization(String),
    /// The request did not reach the vendor; holds the transport's message.
    Network(String),
    /// The adapter is misconfigured.
    Config(String),
}

/// Whether a failure is worth another attempt: network errors, server errors and rate limits.
pub open spec fn retryable(e: AdapterError) -> bool {
    match e {
        AdapterError::Network(_) => true,
        AdapterError::Http { status, .. } => status >= 500 || status == 429,
        _ => false,
    }
}

impl AdapterError {
    pub fn is_retryable(&self) -> (r: bool)
        ensures
            r == retryable(*self),
    {
        match self {
            AdapterError::Network(_) => true,
            AdapterError::Http { status, .. } => *status >= 500 || *status == 429,
            _ => false,
        }
    }
}

/// Whether an HTTP status reports success (the 2xx range).
pub open spec fn success_status(status: u16) -> bool {
    200 <= status <= 299
}

/// Whether a vendor's answer with `status` is a success.
pub fn is_success_status(status: u16) -> (b: bool)
    ensures
        b == success_status(status),
{
    200 <= status && status <= 299
}

/// The outcome of a delivery the vendor answered with `status` and `body`: success for a 2xx
/// status, otherwise an HTTP error carrying both.
pub fn http_outcome(status: u16, body: String) -> (r: Result<(), AdapterError>)
    ensures
        success_status(status) ==> r is Ok,
        !success_status(status) ==> r == Err::<(), AdapterError>(AdapterError::Http { status, body }),
{
    if is_success_status(status) {
        Ok(())
    } else {
        Err(AdapterError::Http { status, body })
    }
}

/// Attempts a delivery may take in all.
pub const MAX_ATTEMPTS: u8 = 3;

/// Pause before the first retry, in milliseconds.
pub const FIRST_DELAY_MS: u64 = 100;

/// Where a delivery with retries stands: the attempt about to be made (from 0) and the pause
/// that precedes the next retry.
#[derive(Debug, Clone, Copy, PartialEq, Eq, Structural)]
pub struct RetryState {
    pub attempt: u8,
    pub delay_ms: u64,
}

/// What to do once an attempt has returned.
#[derive(Debug, Clone, Copy, PartialEq, Eq, Structural)]
pub enum RetryStep {
    /// The delivery is over: it succeeded or failed for good.
    Stop,
    /// Sleep `sleep_ms`, then make the next attempt in state `next`.
    Retry { sleep_ms: u64, next: RetryState },
}

/// `2^k`.
pub open spec fn pow2(k: nat) -> nat
    decreases k,
{
    if k == 0 {
        1
    } else {
        2 * pow2((k - 1) as nat)
    }
}

/// The step after an attempt in state `s` ended with `outcome`.
pub open spec fn retry_step_spec(s: RetryState, outcome: Result<(), AdapterError>) -> RetryStep {
    match outcome {
        Ok(_) => RetryStep::Stop,
        Err(e) => if retryable(e) && s.attempt < 2 {
            RetryStep::Retry {
                sleep_ms: s.delay_ms,
                next: RetryState { attempt: (s.attempt + 1) as u8, delay_ms: (s.delay_ms * 2) as u64 },
            }
        } else {
            RetryStep::Stop
        },
    }
}

impl RetryState {
    /// The state before the first attempt.
    pub fn start() -> (s: RetryState)
        ensures
            s.attempt == 0,
            s.delay_ms == 100,
    {
        RetryState { attempt: 0, delay_ms: FIRST_DELAY_MS }
    }

    /// Whether `self` can be reached from `start` by retries.
    pub open spec fn reachable(self) -> bool {
        self.attempt < MAX_ATTEMPTS && self.delay_ms == 100 * pow2(self.attempt as nat)
    }
}

/// Decides what follows an attempt: stop on success, retry a transient failure after a
/// pause that doubles each time, give up otherwise or after the third attempt.
pub fn retry_step(state: RetryState, outcome: &Result<(), AdapterError>) -> (step: RetryStep)
    requires
        state.reachable(),
    ensures
        step == retry_step_spec(state, *outcome),
{
    match outcome {
        Ok(_) => RetryStep::Stop,
        Err(e) => {
            if e.is_retryable() && state.attempt < MAX_ATTEMPTS - 1 {
                proof {
                    assert(pow2(1) == 2) by {
                        reveal_with_fuel(pow2, 2);
                    }
                    assert(pow2(0) == 1);
                }
                RetryStep::Retry {
                    sleep_ms: state.delay_ms,
                    next: RetryState { attempt: state.attempt + 1, delay_ms: state.delay_ms * 2 },
                }
            } else {
                RetryStep::Stop
            }
        },
    }
}

/// Retries stay bounded: from any reachable state a retry leads to a reachable state one
/// attempt further on, after sleeping `100 * 2^attempt` ms, and only for a transient failure;
/// so a delivery makes at most three attempts, pausing 100 ms and then 200 ms.
pub proof fn lemma_retry_bounded(s: RetryState, outcome: Result<(), AdapterError>)
    requires
        s.reachable(),
    ensures
        retry_step_spec(s, outcome) matches RetryStep::Retry { sleep_ms, next } ==> {
            &&& outcome matches Err(e) && retryable(e)
            &&& next.reachable()
            &&& next.attempt == s.attempt + 1
            &&& sleep_ms == 100 * pow2(s.attempt as nat)
        },
        s.attempt == MAX_ATTEMPTS - 1 ==> retry_step_spec(s, outcome) == RetryStep::Stop,
        outcome is Ok ==> retry_step_spec(s, outcome) == RetryStep::Stop,
{
    if let RetryStep::Retry { sleep_ms, next } = retry_step_spec(s, outcome) {
        reveal_with_fuel(pow2, 3);
        assert(pow2((s.attempt + 1) as nat) == 2 * pow2(s.attempt as nat));
        assert(s.delay_ms <= 200);
    }
}

/// Whether `(i, j)` comes before `(k, l)` in row-major order.
pub open spec fn pair_lt(a: (usize, usize), b: (usize, usize)) -> bool {
    a.0 < b.0 || (a.0 == b.0 && a.1 < b.1)
}

/// The deliveries a batch fans out to: `(event, adapter)` for every adapter that accepts the
/// event, events in order and, for each, adapters in order.
pub open spec fn is_dispatch_plan(accepted: Seq<Seq<bool>>, plan: Seq<(usize, usize)>) -> bool {
    &&& forall|k: int|
        0 <= k < plan.len() ==> {
            &&& #[trigger] plan[k].0 < accepted.len()
            &&& plan[k].1 < accepted[plan[k].0 as int].len()
            &&& accepted[plan[k].0 as int][plan[k].1 as int]
        }
    &&& forall|i: int, j: int|
        0 <= i < accepted.len() && 0 <= j < accepted[i].len() && #[trigger] accepted[i][j]
            ==> exists|k: int| 0 <= k < plan.len() && #[trigger] plan[k] == (i as usize, j as usize)
    &&& forall|a: int, b: int| 0 <= a < b < plan.len() ==> pair_lt(#[trigger] plan[a], #[trigger] plan[b])
}

/// Lists the `(event, adapter)` deliveries for a batch: `accepted[i][j]` tells whether adapter
/// `j` accepts event `i`.
pub fn dispatch_plan(accepted: &Vec<Vec<bool>>) -> (plan: Vec<(usize, usize)>)
    ensures
        is_dispatch_plan(accepted@.map_values(|r: Vec<bool>| r@), plan@),
{
    let ghost acc = accepted@.map_values(|r: Vec<bool>| r@);
    let mut plan: Vec<(usize, usize)> = Vec::new();
    let mut i: usize = 0;
    while i < accepted.len()
        invariant
            i <= accepted.len(),
            acc == accepted@.map_values(|r: Vec<bool>| r@),
            forall|k: int|
                0 <= k < plan.len() ==> {
                    &&& #[trigger] plan@[k].0 < i
                    &&& plan@[k].1 < acc[plan@[k].0 as int].len()
                    &&& acc[plan@[k].0 as int][plan@[k].1 as int]
                },
            forall|a: int, b: int| 0 <= a < i && 0 <= b < acc[a].len() && #[trigger] acc[a][b]
                ==> exists|k: int| 0 <= k < plan.len() && #[trigger] plan@[k] == (a as usize, b as usize),
            forall|a: int, b: int| 0 <= a < b < plan.len() ==> pair_lt(#[trigger] plan@[a], #[trigger] plan@[b]),
        decreases accepted.len() - i,
    {
        let row = &accepted[i];
        let ghost start = plan.len();
        let mut j: usize = 0;
        while j < row.len()
            invariant
                i < accepted.len(),
                row@ == acc[i as int],
                acc == accepted@.map_values(|r: Vec<bool>| r@),
                start <= plan.len(),
                j <= row.len(),
                forall|k: int|
                    0 <= k < plan.len() ==> {
                        &&& #[trigger] plan@[k].0 <= i
                        &&& plan@[k].1 < acc[plan@[k].0 as int].len()
                        &&& acc[plan@[k].0 as int][plan@[k].1 as int]
                        &&& (k >= start ==> plan@[k].0 == i && plan@[k].1 < j)
                        &&& (k < start ==> plan@[k].0 < i)
                    },
                forall|a: int, b: int| 0 <= a < i && 0 <= b < acc[a].len() && #[trigger] acc[a][b]
                    ==> exists|k: int| 0 <= k < plan.len() && #[trigger] plan@[k] == (a as usize, b as usize),
                forall|b: int| 0 <= b < j && #[trigger] acc[i as int][b]
                    ==> exists|k: int| 0 <= k < plan.len() && #[trigger] plan@[k] == (i, b as usize),
                forall|a: int, b: int| 0 <= a < b < plan.len() ==> pair_lt(#[trigger] plan@[a], #[trigger] plan@[b]),
            decreases row.len() - j,
        {
            if row[j] {
                let ghost before = plan@;
                plan.push((i, j));
                proof {
                    assert forall|a: int, b: int| 0 <= a < i && 0 <= b < acc[a].len() && #[trigger] acc[a][b]
                        implies exists|k: int| 0 <= k < plan.len() && #[trigger] plan@[k] == (a as usize, b as usize) by {
                        let k = choose|k: int| 0 <= k < before.len() && #[trigger] before[k] == (a as usize, b as usize);
                        assert(plan@[k] == before[k]);
                    }
                    assert forall|b: int| 0 <= b < j + 1 && #[trigger] acc[i as int][b]
                        implies exists|k: int| 0 <= k < plan.len() && #[trigger] plan@[k] == (i, b as usize) by {
                        if b < j {
                            let k = choose|k: int| 0 <= k < before.len() && #[trigger] before[k] == (i, b as usize);
                            assert(plan@[k] == before[k]);
                        } else {
                            assert(plan@[plan.len() - 1] == (i, b as usize));
                        }
                    }
                }
            }
            j = j + 1;
        }
        i = i + 1;
    }
    plan
}

/// An HTTP POST a vendor expects for one event.
#[derive(Debug)]
pub struct OutboundRequest {
    pub url: String,
    /// Query parameters appended to the URL.
    pub query: Vec<(String, String)>,
    /// Request headers, in order.
    pub headers: Vec<(String, String)>,
    /// User name for HTTP basic authentication with no password.
    pub basic_auth_user: Option<String>,
    /// The body: these JSON documents, each serialised, joined by newlines.
    pub body: Vec<JsonValue>,
}


/// The headers of a request as text pairs.
pub open spec fn pairs_view(v: Seq<(String, String)>) -> Seq<(Seq<char>, Seq<char>)> {
    v.map_values(|p: (String, String)| (p.0@, p.1@))
}

/// The header every JSON request carries.
pub open spec fn json_headers() -> Seq<(Seq<char>, Seq<char>)> {
    seq![("Content-Type"@, "application/json"@)]
}

/// A request to `url` with the JSON content type and the single document `payload`.
pub open spec fn is_json_post(r: OutboundRequest, url: Seq<char>, payload: Json) -> bool {
    &&& r.url@ == url
    &&& r.query@.len() == 0
    &&& pairs_view(r.headers@) == json_headers()
    &&& r.basic_auth_user is None
    &&& items_view(r.body@) == seq![payload]
}

/// A text pair.
pub fn text_pair(a: &str, b: &str) -> (p: (String, String))
    ensures
        p.0@ == a@,
        p.1@ == b@,
{
    (String::from_str(a), String::from_str(b))
}

/// A body made of the one document `payload`.
pub fn single_body(payload: JsonValue) -> (body: Vec<JsonValue>)
    ensures
        items_view(body@) == seq![payload@],
{
    let mut body: Vec<JsonValue> = Vec::new();
    body.push(payload);
    proof {
        assert(body@.drop_last() =~= Seq::<JsonValue>::empty());
        assert(items_view(Seq::<JsonValue>::empty()) =~= Seq::<Json>::empty());
        assert(items_view(body@) =~= seq![json_view(body@[0])]);
    }
    body
}

/// The one header of a JSON request.
pub fn json_header_list() -> (h: Vec<(String, String)>)
    ensures
        pairs_view(h@) == json_headers(),
{
    let mut headers: Vec<(String, String)> = Vec::new();
    headers.push(text_pair("Content-Type", "application/json"));
    proof {
        assert(pairs_view(headers@) =~= json_headers());
    }
    headers
}

/// A request to `url` with the JSON content type carrying `payload`.
pub fn json_post(url: &str, payload: JsonValue) -> (r: OutboundRequest)
    ensures
        is_json_post(r, url@, payload@),
{
    let headers = json_header_list();
    let body = single_body(payload);
    let q: Vec<(String, String)> = Vec::new();
    OutboundRequest { url: String::from_str(url), query: q, headers, basic_auth_user: None, body }
}

/// `props` when there are any, an empty object otherwise.
pub open spec fn props_or_empty(o: Option<Json>) -> Json {
    match o {
        Some(j) => j,
        None => Json::Object(Seq::empty()),
    }
}

/// `props` with the error's message, name and (when `with_stack` and present) stack added
/// under `error_message`, `error_name` and `error_stack`, when `props` is an object and there
/// is an error; `props` unchanged otherwise.
pub open spec fn with_error_details(props: Json, error: Option<SerializedError>, with_stack: bool) -> Json {
    match (props, error) {
        (Json::Object(m), Some(e)) => {
            let m1 = obj_insert(obj_insert(m, "error_message"@, Json::Str(e.message@)), "error_name"@, Json::Str(e.name@));
            Json::Object(
                match e.stack {
                    Some(st) => if with_stack {
                        obj_insert(m1, "error_stack"@, Json::Str(st@))
                    } else {
                        m1
                    },
                    None => m1,
                },
            )
        },
        _ => props,
    }
}

/// Sets member `key` to the string `value`.
pub fn insert_text(members: &mut Vec<(String, JsonValue)>, key: &str, value: &String)
    ensures
        members_view(final(members)@) == obj_insert(members_view(old(members)@), key@, Json::Str(value@)),
{
    object_insert(members, key, JsonValue::Str(value.clone()));
}

/// The event's object properties, with the error's message and name for error events.
pub open spec fn error_summary_members(e: BatchedEvent) -> Seq<(Seq<char>, Json)> {
    let m = object_members_or_empty(opt_json(e.properties));
    match (e.event_type, e.error) {
        (EventType::Error, Some(err)) => obj_insert(
            obj_insert(m, "error_message"@, Json::Str(err.message@)),
            "error_name"@,
            Json::Str(err.name@),
        ),
        _ => m,
    }
}

/// The event's object properties with, for an error event, the error's message and name.
pub fn error_summary(event: &BatchedEvent) -> (m: Vec<(String, JsonValue)>)
    ensures
        members_view(m@) == error_summary_members(*event),
{
    let mut data = copy_object_members(&event.properties);
    if event.event_type == EventType::Error {
        match &event.error {
            Some(err) => {
                insert_text(&mut data, "error_message", &err.message);
                insert_text(&mut data, "error_name", &err.name);
            },
            None => {},
        }
    }
    data
}

/// The event's properties with its error details added (see `with_error_details`).
pub fn error_properties(event: &BatchedEvent, with_stack: bool) -> (r: JsonValue)
    ensures
        r@ == with_error_details(props_or_empty(opt_json(event.properties)), event.error, with_stack),
{
    let props = match &event.properties {
        Some(p) => p.duplicate(),
        None => {
            let m: Vec<(String, JsonValue)> = Vec::new();
            proof {
                assert(members_view(m@) =~= Seq::empty());
            }
            JsonValue::Object(m)
        },
    };
    match (props, &event.error) {
        (JsonValue::Object(m), Some(e)) => {
            let mut m = m;
            insert_text(&mut m, "error_message", &e.message);
            insert_text(&mut m, "error_name", &e.name);
            if with_stack {
                match &e.stack {
                    Some(st) => insert_text(&mut m, "error_stack", st),
                    None => {},
                }
            }
            JsonValue::Object(m)
        },
        (p, _) => p,
    }
}

} // verus!
