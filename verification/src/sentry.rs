use vstd::prelude::*;
use crate::adapter::{AdapterError, OutboundRequest, pairs_view, text_pair};
use crate::event::{BatchedEvent, EventType, opt_text, text_or, text_or_else};
use crate::json::{
    Json, JsonValue, members_view, items_view, opt_member, opt_str, push_member, push_opt_member,
    opt_json_str, json_array1, json_view, opt_json,
};
use crate::text::{
    chars_of, concat, push_str, push_padded, push_int, string_of, trim, trim_start, has_prefix,
    trim_bounds, trim_start_bounds, chars_start_with, before_char, dec, zero_pad, int_text,
};

verus! {

/// What `url::Url::parse` makes of `input`: the URL's user name, host and path, or the
/// message (its `Display` text) of the error it gives when it rejects the input.
pub uninterp spec fn url_parts(input: Seq<char>) -> Result<(Seq<char>, Option<Seq<char>>, Seq<char>), Seq<char>>;

/// The parts of a parsed URL that a DSN uses.
pub struct UrlParts {
    pub username: String,
    pub host: Option<String>,
    pub path: String,
}

/// Parses `input` with `url::Url::parse` and keeps `username()`, `host_str()` and `path()`;
/// a parse error is handed back as its message.
#[verifier::external_body]
fn parse_url(input: &str) -> (r: Result<UrlParts, String>)
    ensures
        match url_parts(input@) {
            Ok(p) => r matches Ok(u) && u.username@ == p.0 && opt_text(u.host) == p.1 && u.path@ == p.2,
            Err(m) => r matches Err(e) && e@ == m,
        },
{
    match url::Url::parse(input) {
        Ok(u) => Ok(UrlParts {
            username: u.username().to_owned(),
            host: u.host_str().map(|h| h.to_owned()),
            path: u.path().to_owned(),
        }),
        Err(e) => Err(e.to_string()),
    }
}

/// Whether `c` is a lowercase hexadecimal digit.
pub open spec fn is_lower_hex(c: char) -> bool {
    (48 <= (c as u32) <= 57) || (97 <= (c as u32) <= 102)
}

/// A fresh random event id: `uuid::Uuid::new_v4()` in its simple form, 32 lowercase
/// hexadecimal digits. Which digits come out is chance.
#[verifier::external_body]
fn new_event_id() -> (id: String)
    ensures
        id@.len() == 32,
        forall|i: int| 0 <= i < 32 ==> is_lower_hex(#[trigger] id@[i]),
{
    uuid::Uuid::new_v4().simple().to_string()
}

/// `s` without its leading `c`s.
pub open spec fn strip_leading(s: Seq<char>, c: char) -> Seq<char>
    decreases s.len(),
{
    if s.len() > 0 && s[0] == c {
        strip_leading(s.drop_first(), c)
    } else {
        s
    }
}

proof fn lemma_strip_leading(s: Seq<char>, c: char, i: int)
    requires
        0 <= i <= s.len(),
        forall|j: int| 0 <= j < i ==> #[trigger] s[j] == c,
        i < s.len() ==> s[i] != c,
    ensures
        strip_leading(s, c) == s.skip(i),
    decreases i,
{
    if i > 0 {
        lemma_strip_leading(s.drop_first(), c, i - 1);
        assert(s.drop_first().skip(i - 1) =~= s.skip(i));
    } else {
        assert(s.skip(0) =~= s);
    }
}

/// The parts of a Sentry DSN `https://<key>@<host>/<project_id>`.
#[derive(Debug)]
pub struct SentryDsn {
    pub public_key: String,
    pub host: String,
    pub project_id: String,
}

/// The parse of a DSN: none when the URL is rejected or lacks a key, a host or a project.
pub open spec fn dsn_parts(dsn: Seq<char>) -> Option<(Seq<char>, Seq<char>, Seq<char>)> {
    match url_parts(dsn) {
        Ok(p) => if p.0.len() == 0 {
            None
        } else {
            match p.1 {
                Some(h) => if strip_leading(p.2, '/').len() == 0 {
                    None
                } else {
                    Some((p.0, h, strip_leading(p.2, '/')))
                },
                None => None,
            }
        },
        Err(_) => None,
    }
}

/// The configuration error a DSN that parses as a URL but is incomplete gives.
pub open spec fn dsn_problem(dsn: Seq<char>) -> Seq<char> {
    let p = match url_parts(dsn) {
        Ok(p) => p,
        Err(_) => (Seq::empty(), None, Seq::empty()),
    };
    if p.0.len() == 0 {
        "Sentry DSN missing public key"@
    } else if p.1 is None {
        "Sentry DSN missing host"@
    } else {
        "Sentry DSN missing project ID"@
    }
}

impl SentryDsn {
    /// Parses a Sentry DSN of the form: https://<key>@<host>/<project_id>
    pub fn parse(dsn: &str) -> (r: Result<SentryDsn, AdapterError>)
        ensures
            match dsn_parts(dsn@) {
                Some(p) => r matches Ok(d) && d.public_key@ == p.0 && d.host@ == p.1 && d.project_id@ == p.2,
                None => r matches Err(AdapterError::Config(msg)) && match url_parts(dsn@) {
                    Err(m) => msg@ == "invalid Sentry DSN: "@ + m,
                    Ok(_) => msg@ == dsn_problem(dsn@),
                },
            },
    {
        let parts = match parse_url(dsn) {
            Ok(p) => p,
            Err(text) => {
                let msg = concat("invalid Sentry DSN: ", text.as_str());
                return Err(AdapterError::Config(msg));
            },
        };
        let UrlParts { username, host, path } = parts;
        if username.as_str().is_empty() {
            return Err(AdapterError::Config(String::from_str("Sentry DSN missing public key")));
        }
        let host = match host {
            Some(h) => h,
            None => {
                return Err(AdapterError::Config(String::from_str("Sentry DSN missing host")));
            },
        };
        let cs = chars_of(path.as_str());
        let mut i: usize = 0;
        while i < cs.len() && cs[i] == '/'
            invariant
                i <= cs.len(),
                forall|j: int| 0 <= j < i ==> #[trigger] cs@[j] == '/',
            decreases cs.len() - i,
        {
            i = i + 1;
        }
        proof {
            lemma_strip_leading(cs@, '/', i as int);
            assert(cs@.skip(i as int) =~= cs@.subrange(i as int, cs.len() as int));
        }
        let project_id = string_of(&cs, i, cs.len());
        if i == cs.len() {
            return Err(AdapterError::Config(String::from_str("Sentry DSN missing project ID")));
        }
        Ok(SentryDsn { public_key: username, host, project_id })
    }

    /// The envelope endpoint of the project.
    pub fn envelope_url(&self) -> (u: String)
        ensures
            u@ == "https://"@ + self.host@ + "/api/"@ + self.project_id@ + "/envelope/"@,
    {
        let mut u = String::new();
        push_str(&mut u, "https://");
        push_str(&mut u, self.host.as_str());
        push_str(&mut u, "/api/");
        push_str(&mut u, self.project_id.as_str());
        push_str(&mut u, "/envelope/");
        proof {
            assert(u@ =~= "https://"@ + self.host@ + "/api/"@ + self.project_id@ + "/envelope/"@);
        }
        u
    }

    /// The `X-Sentry-Auth` header value.
    pub fn auth_header(&self) -> (h: String)
        ensures
            h@ == "Sentry sentry_version=7, sentry_client=nightshift/0.1.0, sentry_key="@ + self.public_key@,
    {
        concat("Sentry sentry_version=7, sentry_client=nightshift/0.1.0, sentry_key=", self.public_key.as_str())
    }

    /// The DSN as text.
    pub fn to_text(&self) -> (s: String)
        ensures
            s@ == "https://"@ + self.public_key@ + "@"@ + self.host@ + "/"@ + self.project_id@,
    {
        let mut s = String::new();
        push_str(&mut s, "https://");
        push_str(&mut s, self.public_key.as_str());
        push_str(&mut s, "@");
        push_str(&mut s, self.host.as_str());
        push_str(&mut s, "/");
        push_str(&mut s, self.project_id.as_str());
        proof {
            assert(s@ =~= "https://"@ + self.public_key@ + "@"@ + self.host@ + "/"@ + self.project_id@);
        }
        s
    }
}


/// The frames of a JavaScript stack trace: each line (split at `\n`) that, less its leading
/// white space, begins with `at `, trimmed. Splitting at `\n` alone gives the same frames as
/// `str::lines`: the `\r` it also removes is white space that trimming removes.
pub open spec fn stack_frames(s: Seq<char>) -> Seq<Seq<char>>
    decreases s.len(),
{
    let line = before_char(s, '\n');
    let head = if has_prefix(trim_start(line), "at "@) {
        seq![trim(line)]
    } else {
        Seq::empty()
    };
    if line.len() >= s.len() {
        head
    } else {
        head + stack_frames(s.skip(line.len() + 1int))
    }
}

pub proof fn lemma_before_char_len(s: Seq<char>, c: char)
    ensures
        before_char(s, c).len() <= s.len(),
        before_char(s, c).len() < s.len() ==> s[before_char(s, c).len() as int] == c,
        forall|j: int| 0 <= j < before_char(s, c).len() ==> s[j] == #[trigger] before_char(s, c)[j],
    decreases s.len(),
{
    if s.len() > 0 && s[0] != c {
        lemma_before_char_len(s.drop_first(), c);
        let b = before_char(s, c);
        let r = before_char(s.drop_first(), c);
        assert(b =~= seq![s[0]] + r);
        assert forall|j: int| 0 <= j < b.len() implies s[j] == #[trigger] b[j] by {
            if j > 0 {
                assert(b[j] == r[j - 1]);
            }
        }
    }
}

/// Index of the first `c` in `cs[lo..]`, or the length.
fn find_char_from(cs: &Vec<char>, lo: usize, c: char) -> (j: usize)
    requires
        lo <= cs.len(),
    ensures
        lo <= j <= cs.len(),
        cs@.subrange(lo as int, j as int) == before_char(cs@.skip(lo as int), c),
{
    let mut j = lo;
    while j < cs.len() && cs[j] != c
        invariant
            lo <= j <= cs.len(),
            forall|k: int| lo <= k < j ==> #[trigger] cs@[k] != c,
        decreases cs.len() - j,
    {
        j = j + 1;
    }
    proof {
        let t = cs@.skip(lo as int);
        lemma_before_char_len(t, c);
        let b = before_char(t, c);
        let n = (j - lo) as int;
        // b is the prefix of t up to its first c, which is at n
        if b.len() < n {
            assert(t[b.len() as int] == c);
            assert(cs@[lo + b.len()] == c);
        }
        if b.len() > n {
            assert(t[n] == b[n]);
            assert(t[n] == c);
            assert(b[n] != c) by {
                crate::text::lemma_before_char_no(t, c, n);
            }
        }
        assert(b.len() == n);
        assert(cs@.subrange(lo as int, j as int) =~= b);
    }
    j
}

/// The frames of a stack trace (see `stack_frames`).
pub fn parse_stack_frames(stack: &str) -> (frames: Vec<String>)
    ensures
        frames@.map_values(|f: String| f@) == stack_frames(stack@),
{
    let cs = chars_of(stack);
    let mut frames: Vec<String> = Vec::new();
    let mut lo: usize = 0;
    proof {
        assert(cs@.skip(0) =~= cs@);
    }
    loop
        invariant
            lo <= cs.len(),
            cs@ == stack@,
            stack_frames(stack@) == frames@.map_values(|f: String| f@) + stack_frames(cs@.skip(lo as int)),
        decreases cs.len() - lo,
    {
        let hi = find_char_from(&cs, lo, '\n');
        let ghost rest = cs@.skip(lo as int);
        let ghost line = cs@.subrange(lo as int, hi as int);
        let start = trim_start_bounds(&cs, lo, hi);
        let ghost before = frames@.map_values(|f: String| f@);
        if chars_start_with(&cs, start, hi, "at ") {
            let (a, b) = trim_bounds(&cs, lo, hi);
            frames.push(string_of(&cs, a, b));
            proof {
                assert(frames@.map_values(|f: String| f@) =~= before.push(trim(line)));
            }
        } else {
            proof {
                assert(frames@.map_values(|f: String| f@) =~= before);
            }
        }
        proof {
            lemma_before_char_len(rest, '\n');
        }
        if hi == cs.len() {
            proof {
                assert(frames@.map_values(|f: String| f@) =~= before + (if has_prefix(trim_start(line), "at "@) {
                    seq![trim(line)]
                } else {
                    Seq::empty()
                }));
                assert(stack_frames(stack@) =~= frames@.map_values(|f: String| f@));
            }
            return frames;
        }
        proof {
            assert(rest.skip(line.len() + 1int) =~= cs@.skip(hi + 1));
            assert(stack_frames(stack@) =~= frames@.map_values(|f: String| f@) + stack_frames(cs@.skip(hi + 1)));
        }
        lo = hi + 1;
    }
}


/// The last three decimal places of a millisecond count as Sentry's float timestamp prints
/// them: trailing zeros dropped, at least one digit.
pub open spec fn frac_text(r: nat) -> Seq<char> {
    if r == 0 {
        "0"@
    } else if r % 100 == 0 {
        dec(r / 100)
    } else if r % 10 == 0 {
        zero_pad(dec(r / 10), 2)
    } else {
        zero_pad(dec(r), 3)
    }
}

/// `ts_ms / 1000` as decimal text with a fractional part, the number Sentry's `timestamp`
/// (Unix seconds as a float) carries.
pub open spec fn seconds_text(ts_ms: int) -> Seq<char> {
    let a = if ts_ms < 0 {
        -ts_ms
    } else {
        ts_ms
    };
    (if ts_ms < 0 {
        "-"@
    } else {
        Seq::empty()
    }) + dec((a / 1000) as nat) + "."@ + frac_text((a % 1000) as nat)
}

/// `ts_ms` as Unix seconds (see `seconds_text`).
pub fn seconds_of(ts_ms: i64) -> (s: String)
    ensures
        s@ == seconds_text(ts_ms as int),
{
    let mut s = String::new();
    let a: u64 = if ts_ms < 0 {
        (-(ts_ms as i128)) as u64
    } else {
        ts_ms as u64
    };
    if ts_ms < 0 {
        push_str(&mut s, "-");
    }
    let ghost prefix = s@;
    push_padded(&mut s, a / 1000, 0);
    push_str(&mut s, ".");
    let r = a % 1000;
    if r == 0 {
        push_str(&mut s, "0");
    } else if r % 100 == 0 {
        push_padded(&mut s, r / 100, 0);
    } else if r % 10 == 0 {
        push_padded(&mut s, r / 10, 2);
    } else {
        push_padded(&mut s, r, 3);
    }
    proof {
        reveal_strlit("-");
        reveal_strlit(".");
        reveal_strlit("0");
        crate::text::lemma_dec_len((a / 1000) as nat, 1);
        if r % 100 == 0 && r != 0 {
            crate::text::lemma_dec_len((r / 100) as nat, 1);
        }
        assert(prefix == (if ts_ms < 0 {
            "-"@
        } else {
            Seq::<char>::empty()
        }));
        assert(s@ =~= seconds_text(ts_ms as int));
    }
    s
}

/// The stack trace Sentry receives: one frame per frame line, holding the raw line.
fn stacktrace_value(stack: &str) -> (v: JsonValue)
    ensures
        v@ == Json::Object(seq![("frames"@, Json::Array(frames_json(stack_frames(stack@))))]),
{
    let frames = parse_stack_frames(stack);
    let ghost fs = frames@.map_values(|f: String| f@);
    let mut items: Vec<JsonValue> = Vec::new();
    let mut i: usize = 0;
    while i < frames.len()
        invariant
            i <= frames.len(),
            fs == frames@.map_values(|f: String| f@),
            items_view(items@) == frames_json(fs.take(i as int)),
        decreases frames.len() - i,
    {
        let mut f: Vec<(String, JsonValue)> = Vec::new();
        push_member(&mut f, "raw_function", JsonValue::Str(frames[i].clone()));
        let ghost fv = Json::Object(seq![("raw_function"@, Json::Str(fs[i as int]))]);
        proof {
            assert(fs[i as int] == frames@[i as int]@);
            assert(members_view(f@) =~= seq![("raw_function"@, Json::Str(fs[i as int]))]);
        }
        let ghost before = items@;
        let x = JsonValue::Object(f);
        assert(json_view(x) == fv);
        items.push(x);
        proof {
            assert(items@.drop_last() =~= before);
            assert(items_view(items@) == items_view(before).push(fv));
            assert(fs.take(i + 1).drop_last() =~= fs.take(i as int));
            assert(frames_json(fs.take(i + 1)) =~= frames_json(fs.take(i as int)).push(fv));
        }
        i = i + 1;
    }
    proof {
        assert(fs.take(frames.len() as int) =~= fs);
    }
    let mut t: Vec<(String, JsonValue)> = Vec::new();
    push_member(&mut t, "frames", JsonValue::Array(items));
    proof {
        assert(members_view(t@) =~= seq![("frames"@, Json::Array(frames_json(stack_frames(stack@))))]);
    }
    JsonValue::Object(t)
}

/// Forwards error events to Sentry through the envelope API.
pub struct SentryAdapter {
    dsn: SentryDsn,
    release: Option<String>,
    environment: Option<String>,
}

/// The `frames` of a stack trace.
pub open spec fn frames_json(frames: Seq<Seq<char>>) -> Seq<Json> {
    frames.map_values(|f: Seq<char>| Json::Object(seq![("raw_function"@, Json::Str(f))]))
}

/// The Sentry event for error `err` of `e`, with id `id`.
pub open spec fn sentry_event(
    release: Option<Seq<char>>,
    environment: Option<Seq<char>>,
    e: BatchedEvent,
    err_name: Seq<char>,
    err_message: Seq<char>,
    err_stack: Option<Seq<char>>,
    id: Seq<char>,
) -> Json {
    let exception = Json::Object(
        seq![("type"@, Json::Str(err_name)), ("value"@, Json::Str(err_message))] + opt_member(
            "stacktrace"@,
            match err_stack {
                Some(st) => Some(Json::Object(seq![("frames"@, Json::Array(frames_json(stack_frames(st))))])),
                None => None,
            },
        ),
    );
    Json::Object(
        seq![
            ("event_id"@, Json::Str(id)),
            ("timestamp"@, Json::Float(seconds_text(e.context.timestamp as int))),
            ("platform"@, Json::Str("javascript"@)),
            ("level"@, Json::Str("error"@)),
            ("exception"@, Json::Object(seq![("values"@, Json::Array(seq![exception]))])),
            (
                "tags"@,
                Json::Object(
                    seq![
                        ("viewport"@, Json::Str(e.context.viewport@)),
                        ("app_version"@, Json::Str(e.context.app_version@)),
                    ] + opt_member("country"@, opt_str(e.context.country)),
                ),
            ),
            (
                "release"@,
                Json::Str(
                    match release {
                        Some(r) => r,
                        None => e.context.app_version@,
                    },
                ),
            ),
        ] + opt_member(
            "environment"@,
            match environment {
                Some(v) => Some(Json::Str(v)),
                None => None,
            },
        ) + opt_member(
            "user"@,
            if has_prefix(e.context.session_id@, "anon_"@) {
                Some(Json::Object(seq![("id"@, Json::Str(e.context.session_id@))]))
            } else {
                None
            },
        ),
    )
}

impl SentryAdapter {
    pub closed spec fn public_key(&self) -> Seq<char> {
        self.dsn.public_key@
    }

    pub closed spec fn host(&self) -> Seq<char> {
        self.dsn.host@
    }

    pub closed spec fn project_id(&self) -> Seq<char> {
        self.dsn.project_id@
    }

    pub closed spec fn release(&self) -> Option<Seq<char>> {
        opt_text(self.release)
    }

    pub closed spec fn environment(&self) -> Option<Seq<char>> {
        opt_text(self.environment)
    }

    /// The envelope that carries the error of `e` under id `id`: envelope header, item header
    /// and event, one per line.
    pub open spec fn envelope(&self, e: BatchedEvent, id: Seq<char>) -> Seq<Json> {
        let err = e.error->0;
        seq![
            Json::Object(
                seq![
                    ("event_id"@, Json::Str(id)),
                    ("dsn"@, Json::Str("https://"@ + self.public_key() + "@"@ + self.host() + "/"@ + self.project_id())),
                ],
            ),
            Json::Object(seq![("type"@, Json::Str("event"@))]),
            sentry_event(self.release(), self.environment(), e, err.name@, err.message@, opt_text(err.stack), id),
        ]
    }

    /// Whether `r` delivers the error of `e` under id `id`.
    pub open spec fn is_envelope_request(&self, r: OutboundRequest, e: BatchedEvent, id: Seq<char>) -> bool {
        &&& r.url@ == "https://"@ + self.host() + "/api/"@ + self.project_id() + "/envelope/"@
        &&& r.query@.len() == 0
        &&& pairs_view(r.headers@) == seq![
            ("Content-Type"@, "application/x-sentry-envelope"@),
            ("X-Sentry-Auth"@, "Sentry sentry_version=7, sentry_client=nightshift/0.1.0, sentry_key="@ + self.public_key()),
        ]
        &&& r.basic_auth_user is None
        &&& items_view(r.body@) == self.envelope(e, id)
    }

    /// An adapter for the project the DSN names; fails as `SentryDsn::parse` does.
    pub fn new(dsn: &str) -> (r: Result<Self, AdapterError>)
        ensures
            match dsn_parts(dsn@) {
                Some(p) => r matches Ok(a) && a.public_key() == p.0 && a.host() == p.1 && a.project_id() == p.2
                    && a.release() is None && a.environment() is None,
                None => r matches Err(AdapterError::Config(_)),
            },
    {
        let dsn = SentryDsn::parse(dsn)?;
        Ok(SentryAdapter { dsn, release: None, environment: None })
    }

    pub fn with_release(self, release: String) -> (a: Self)
        ensures
            a.public_key() == self.public_key() && a.host() == self.host() && a.project_id() == self.project_id(),
            a.release() == Some(release@),
            a.environment() == self.environment(),
    {
        SentryAdapter { dsn: self.dsn, release: Some(release), environment: self.environment }
    }

    pub fn with_environment(self, env: String) -> (a: Self)
        ensures
            a.public_key() == self.public_key() && a.host() == self.host() && a.project_id() == self.project_id(),
            a.release() == self.release(),
            a.environment() == Some(env@),
    {
        SentryAdapter { dsn: self.dsn, release: self.release, environment: Some(env) }
    }

    pub fn name(&self) -> (n: &'static str)
        ensures
            n@ == "sentry"@,
    {
        "sentry"
    }

    /// Sentry takes error events only.
    pub fn accepts(&self, event: &BatchedEvent) -> (b: bool)
        ensures
            b == (event.event_type == EventType::Error),
    {
        event.event_type == EventType::Error
    }

    fn event_value(
        &self,
        event: &BatchedEvent,
        err: &crate::event::SerializedError,
        stacktrace: Option<JsonValue>,
        event_id: &str,
    ) -> (v: JsonValue)
        requires
            opt_json(stacktrace) == match err.stack {
                Some(st) => Some(Json::Object(seq![("frames"@, Json::Array(frames_json(stack_frames(st@))))])),
                None => None,
            },
        ensures
            v@ == sentry_event(self.release(), self.environment(), *event, err.name@, err.message@, opt_text(err.stack), event_id@),
    {
        let mut exc: Vec<(String, JsonValue)> = Vec::new();
        push_member(&mut exc, "type", JsonValue::Str(err.name.clone()));
        push_member(&mut exc, "value", JsonValue::Str(err.message.clone()));
        push_opt_member(&mut exc, "stacktrace", stacktrace);
        let ghost exception = Json::Object(
            seq![("type"@, Json::Str(err.name@)), ("value"@, Json::Str(err.message@))] + opt_member(
                "stacktrace"@,
                match opt_text(err.stack) {
                    Some(st) => Some(Json::Object(seq![("frames"@, Json::Array(frames_json(stack_frames(st))))])),
                    None => None,
                },
            ),
        );
        proof {
            assert(members_view(exc@) =~= match exception {
                Json::Object(m) => m,
                _ => Seq::empty(),
            });
        }
        let mut values: Vec<(String, JsonValue)> = Vec::new();
        push_member(&mut values, "values", json_array1(JsonValue::Object(exc)));
        proof {
            assert(members_view(values@) =~= seq![("values"@, Json::Array(seq![exception]))]);
        }
        let mut tags: Vec<(String, JsonValue)> = Vec::new();
        push_member(&mut tags, "viewport", JsonValue::Str(event.context.viewport.clone()));
        push_member(&mut tags, "app_version", JsonValue::Str(event.context.app_version.clone()));
        push_opt_member(&mut tags, "country", opt_json_str(&event.context.country));
        proof {
            assert(members_view(tags@) =~= seq![
                ("viewport"@, Json::Str(event.context.viewport@)),
                ("app_version"@, Json::Str(event.context.app_version@)),
            ] + opt_member("country"@, opt_str(event.context.country)));
        }
        let release = match &self.release {
            Some(r) => r.clone(),
            None => event.context.app_version.clone(),
        };
        let sid = chars_of(event.context.session_id.as_str());
        let user = if chars_start_with(&sid, 0, sid.len(), "anon_") {
            let mut u: Vec<(String, JsonValue)> = Vec::new();
            push_member(&mut u, "id", JsonValue::Str(event.context.session_id.clone()));
            proof {
                assert(members_view(u@) =~= seq![("id"@, Json::Str(event.context.session_id@))]);
            }
            Some(JsonValue::Object(u))
        } else {
            None
        };
        proof {
            assert(sid@.subrange(0, sid.len() as int) =~= sid@);
        }
        let mut ev: Vec<(String, JsonValue)> = Vec::new();
        push_member(&mut ev, "event_id", JsonValue::Str(String::from_str(event_id)));
        push_member(&mut ev, "timestamp", JsonValue::Float(seconds_of(event.context.timestamp)));
        push_member(&mut ev, "platform", JsonValue::Str(String::from_str("javascript")));
        push_member(&mut ev, "level", JsonValue::Str(String::from_str("error")));
        push_member(&mut ev, "exception", JsonValue::Object(values));
        push_member(&mut ev, "tags", JsonValue::Object(tags));
        push_member(&mut ev, "release", JsonValue::Str(release));
        push_opt_member(&mut ev, "environment", opt_json_str(&self.environment));
        push_opt_member(&mut ev, "user", user);
        proof {
            let se = sentry_event(self.release(), self.environment(), *event, err.name@, err.message@, opt_text(err.stack), event_id@);
            assert(members_view(ev@) =~= match se {
                Json::Object(m) => m,
                _ => Seq::empty(),
            });
        }
        JsonValue::Object(ev)
    }

    /// The request that reports the error of `event` under `event_id`; none when the event
    /// carries no error.
    pub fn request(&self, event: &BatchedEvent, event_id: &str) -> (r: Option<OutboundRequest>)
        ensures
            event.error is None ==> r is None,
            event.error is Some ==> (r matches Some(q) && self.is_envelope_request(q, *event, event_id@)),
    {
        let err = match &event.error {
            Some(e) => e,
            None => {
                return None;
            },
        };
        let stacktrace = match &err.stack {
            Some(st) => Some(stacktrace_value(st.as_str())),
            None => None,
        };
        let ev = self.event_value(event, err, stacktrace, event_id);
        let mut header: Vec<(String, JsonValue)> = Vec::new();
        push_member(&mut header, "event_id", JsonValue::Str(String::from_str(event_id)));
        push_member(&mut header, "dsn", JsonValue::Str(self.dsn.to_text()));
        let mut item: Vec<(String, JsonValue)> = Vec::new();
        push_member(&mut item, "type", JsonValue::Str(String::from_str("event")));
        proof {
            assert(members_view(header@) =~= seq![
                ("event_id"@, Json::Str(event_id@)),
                ("dsn"@, Json::Str("https://"@ + self.public_key() + "@"@ + self.host() + "/"@ + self.project_id())),
            ]);
            assert(members_view(item@) =~= seq![("type"@, Json::Str("event"@))]);
        }
        let mut body: Vec<JsonValue> = Vec::new();
        body.push(JsonValue::Object(header));
        body.push(JsonValue::Object(item));
        body.push(ev);
        proof {
            crate::json::lemma_items_view(body@);
            let env = self.envelope(*event, event_id@);
            assert(items_view(body@)[0] == env[0]);
            assert(items_view(body@)[1] == env[1]);
            assert(items_view(body@)[2] == env[2]);
            assert(items_view(body@) =~= env);
        }
        let mut headers: Vec<(String, String)> = Vec::new();
        headers.push(text_pair("Content-Type", "application/x-sentry-envelope"));
        headers.push((String::from_str("X-Sentry-Auth"), self.dsn.auth_header()));
        proof {
            assert(pairs_view(headers@) =~= seq![
                ("Content-Type"@, "application/x-sentry-envelope"@),
                ("X-Sentry-Auth"@, "Sentry sentry_version=7, sentry_client=nightshift/0.1.0, sentry_key="@ + self.public_key()),
            ]);
        }
        let q: Vec<(String, String)> = Vec::new();
        Some(OutboundRequest { url: self.dsn.envelope_url(), query: q, headers, basic_auth_user: None, body })
    }

    /// The request that reports the error of `event` under a fresh random event id.
    pub fn prepare(&self, event: &BatchedEvent) -> (r: Option<OutboundRequest>)
        ensures
            event.error is None ==> r is None,
            event.error is Some ==> (r matches Some(q) && exists|id: Seq<char>|
                id.len() == 32 && (forall|i: int| 0 <= i < 32 ==> is_lower_hex(#[trigger] id[i]))
                    && self.is_envelope_request(q, *event, id)),
    {
        let id = new_event_id();
        self.request(event, id.as_str())
    }
}

} // verus!
