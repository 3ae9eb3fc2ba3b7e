use vstd::prelude::*;
use crate::event::{BatchedEvent, EventContext, SerializedError, opt_text};
use crate::json::{
    Json, JsonValue, json_view, items_view, members_view, lemma_items_view, lemma_members_view,
    opt_json,
};

verus! {

#[verifier::external_type_specification]
#[verifier::external_body]
pub struct ExRegex(regex::Regex);

#[verifier::external_type_specification]
#[verifier::external_body]
pub struct ExRegexError(regex::Error);

/// What `Regex::replace_all` returns for a regex compiled from `pattern`, a haystack and a
/// replacement string.
pub uninterp spec fn regex_replace_all(
    pattern: Seq<char>,
    haystack: Seq<char>,
    replacement: Seq<char>,
) -> Seq<char>;

/// Whether `regex::Regex::new` accepts `pattern`: it refuses only a pattern whose syntax is
/// invalid or whose compiled form exceeds the default size limit.
pub uninterp spec fn regex_compiles(pattern: Seq<char>) -> bool;

/// Compiles `pattern` with `regex::Regex::new`, which succeeds exactly on the patterns it
/// accepts; the two redaction patterns are valid and small, so it accepts them.
#[verifier::external_body]
fn compile_regex(pattern: &str) -> (r: Result<regex::Regex, regex::Error>)
    ensures
        r is Ok <==> regex_compiles(pattern@),
        (pattern@ == email_pattern() || pattern@ == token_pattern()) ==> r is Ok,
{
    regex::Regex::new(pattern)
}

/// The message of a regex compilation error, as its `Display` renders it.
#[verifier::external_body]
fn regex_error_text(e: &regex::Error) -> (s: String) {
    e.to_string()
}

/// Why a pattern could not be compiled; holds the compiler's message.
#[derive(Debug)]
pub enum PatternError {
    Invalid(String),
}

/// A regular expression together with the pattern it was compiled from.
pub struct Pattern {
    source: String,
    compiled: regex::Regex,
}

impl Pattern {
    /// The pattern text.
    pub closed spec fn source(&self) -> Seq<char> {
        self.source@
    }

    /// Compiles `source`; fails exactly when `regex::Regex::new` refuses it, which it does not
    /// for the two redaction patterns.
    pub fn new(source: &str) -> (r: Result<Pattern, PatternError>)
        ensures
            r is Ok <==> regex_compiles(source@),
            (source@ == email_pattern() || source@ == token_pattern()) ==> r is Ok,
            r matches Ok(p) ==> p.source() == source@,
    {
        match compile_regex(source) {
            Ok(compiled) => Ok(Pattern { source: String::from_str(source), compiled }),
            Err(e) => Err(PatternError::Invalid(regex_error_text(&e))),
        }
    }
}

/// Calls `regex::Regex::replace_all` with a plain string replacement and returns the text.
/// The contract rests on `compiled` having been built from `source`, which only
/// `Pattern::new` does.
#[verifier::external_body]
fn replace_all(pattern: &Pattern, haystack: &str, replacement: &str) -> (r: String)
    ensures
        r@ == regex_replace_all(pattern.source(), haystack@, replacement@),
{
    pattern.compiled.replace_all(haystack, replacement).into_owned()
}

/// The pattern that finds e-mail addresses.
pub open spec fn email_pattern() -> Seq<char> {
    "[a-zA-Z0-9._%+\\-]+@[a-zA-Z0-9.\\-]+\\.[a-zA-Z]{2,}"@
}

/// The pattern that finds bearer tokens and API keys.
pub open spec fn token_pattern() -> Seq<char> {
    "(?i)(bearer\\s+|token[=:\\s]+|api[_\\-]?key[=:\\s]+)[a-zA-Z0-9\\-_.]{20,}"@
}

/// `s` with e-mail addresses, then tokens, replaced by markers.
pub open spec fn redact(s: Seq<char>) -> Seq<char> {
    regex_replace_all(
        token_pattern(),
        regex_replace_all(email_pattern(), s, "[REDACTED_EMAIL]"@),
        "[REDACTED_TOKEN]"@,
    )
}

/// `j` with every string in it redacted; all else unchanged.
pub open spec fn redact_json(j: Json) -> Json
    decreases j,
{
    match j {
        Json::Str(s) => Json::Str(redact(s)),
        Json::Array(items) => Json::Array(redact_items(items)),
        Json::Object(members) => Json::Object(redact_members(members)),
        _ => j,
    }
}

pub open spec fn redact_items(s: Seq<Json>) -> Seq<Json>
    decreases s,
{
    if s.len() == 0 {
        Seq::empty()
    } else {
        redact_items(s.drop_last()).push(redact_json(s.last()))
    }
}

pub open spec fn redact_members(s: Seq<(Seq<char>, Json)>) -> Seq<(Seq<char>, Json)>
    decreases s,
{
    if s.len() == 0 {
        Seq::empty()
    } else {
        redact_members(s.drop_last()).push((s.last().0, redact_json(s.last().1)))
    }
}

/// `j` with the text of every string removed: what is left is its shape, its keys and its
/// other values.
pub open spec fn blank_strings(j: Json) -> Json
    decreases j,
{
    match j {
        Json::Str(_) => Json::Str(Seq::empty()),
        Json::Array(items) => Json::Array(blank_items(items)),
        Json::Object(members) => Json::Object(blank_members(members)),
        _ => j,
    }
}

pub open spec fn blank_items(s: Seq<Json>) -> Seq<Json>
    decreases s,
{
    if s.len() == 0 {
        Seq::empty()
    } else {
        blank_items(s.drop_last()).push(blank_strings(s.last()))
    }
}

pub open spec fn blank_members(s: Seq<(Seq<char>, Json)>) -> Seq<(Seq<char>, Json)>
    decreases s,
{
    if s.len() == 0 {
        Seq::empty()
    } else {
        blank_members(s.drop_last()).push((s.last().0, blank_strings(s.last().1)))
    }
}

/// Redaction changes text only: every key, every number, boolean and null, and the shape of
/// arrays and objects are kept.
pub proof fn lemma_redaction_touches_only_strings(j: Json)
    ensures
        blank_strings(redact_json(j)) == blank_strings(j),
    decreases j,
{
    match j {
        Json::Array(items) => {
            lemma_redaction_items(items);
        },
        Json::Object(members) => {
            lemma_redaction_members(members);
        },
        _ => {},
    }
}

proof fn lemma_redaction_items(s: Seq<Json>)
    ensures
        blank_items(redact_items(s)) == blank_items(s),
    decreases s,
{
    if s.len() > 0 {
        lemma_redaction_items(s.drop_last());
        lemma_redaction_touches_only_strings(s.last());
        assert(redact_items(s).drop_last() =~= redact_items(s.drop_last()));
    }
}

proof fn lemma_redaction_members(s: Seq<(Seq<char>, Json)>)
    ensures
        blank_members(redact_members(s)) == blank_members(s),
    decreases s,
{
    if s.len() > 0 {
        lemma_redaction_members(s.drop_last());
        lemma_redaction_touches_only_strings(s.last().1);
        assert(redact_members(s).drop_last() =~= redact_members(s.drop_last()));
    }
}

/// The model of an optional document after redaction.
pub open spec fn redact_opt(o: Option<JsonValue>) -> Option<Json> {
    match o {
        Some(v) => Some(redact_json(json_view(v))),
        None => None,
    }
}

/// Removes personal data from events: e-mail addresses and API tokens in text.
pub struct PiiRedactor {
    email: Pattern,
    token: Pattern,
}

impl PiiRedactor {
    #[verifier::type_invariant]
    closed spec fn wf(&self) -> bool {
        &&& self.email.source() == email_pattern()
        &&& self.token.source() == token_pattern()
    }

    /// The pattern that finds e-mail addresses in this redactor.
    pub closed spec fn email_source(&self) -> Seq<char> {
        self.email.source()
    }

    /// The pattern that finds tokens in this redactor.
    pub closed spec fn token_source(&self) -> Seq<char> {
        self.token.source()
    }

    /// Compiles the two patterns, which always succeeds: the redactor finds e-mail addresses
    /// with `email_pattern()` and tokens with `token_pattern()`.
    pub fn new() -> (r: Result<PiiRedactor, PatternError>)
        ensures
            r matches Ok(p) && p.email_source() == email_pattern() && p.token_source() == token_pattern(),
    {
        let email = Pattern::new("[a-zA-Z0-9._%+\\-]+@[a-zA-Z0-9.\\-]+\\.[a-zA-Z]{2,}")?;
        let token = Pattern::new(
            "(?i)(bearer\\s+|token[=:\\s]+|api[_\\-]?key[=:\\s]+)[a-zA-Z0-9\\-_.]{20,}",
        )?;
        Ok(PiiRedactor { email, token })
    }

    /// Replaces e-mail addresses, then tokens, in `s`.
    pub fn redact_string(&self, s: &str) -> (r: String)
        ensures
            r@ == redact(s@),
    {
        proof {
            use_type_invariant(self);
        }
        let without_email = replace_all(&self.email, s, "[REDACTED_EMAIL]");
        replace_all(&self.token, without_email.as_str(), "[REDACTED_TOKEN]")
    }

    /// A copy of `value` with every string in it redacted.
    #[verifier::loop_isolation(false)]
    pub fn sanitize_value(&self, value: &JsonValue) -> (r: JsonValue)
        ensures
            r@ == redact_json(value@),
        decreases value,
    {
        match value {
            JsonValue::Str(s) => JsonValue::Str(self.redact_string(s.as_str())),
            JsonValue::Array(items) => {
                let mut out: Vec<JsonValue> = Vec::new();
                let mut i: usize = 0;
                proof {
                    lemma_items_view(items@);
                }
                while i < items.len()
                    invariant
                        i <= items.len(),
                        items_view(out@) == redact_items(items_view(items@.take(i as int))),
                    decreases items.len() - i,
                {
                    proof {
                        assert(decreases_to!(*value => items@[i as int]));
                    }
                    let c = self.sanitize_value(&items[i]);
                    proof {
                        assert(out@.push(c).drop_last() =~= out@);
                        assert(items@.take(i + 1).drop_last() =~= items@.take(i as int));
                        assert(items_view(items@.take(i + 1)).drop_last() =~= items_view(
                            items@.take(i as int),
                        ));
                    }
                    out.push(c);
                    i = i + 1;
                }
                proof {
                    assert(items@.take(items.len() as int) =~= items@);
                }
                JsonValue::Array(out)
            },
            JsonValue::Object(members) => {
                let mut out: Vec<(String, JsonValue)> = Vec::new();
                let mut i: usize = 0;
                while i < members.len()
                    invariant
                        i <= members.len(),
                        members_view(out@) == redact_members(members_view(members@.take(i as int))),
                    decreases members.len() - i,
                {
                    proof {
                        assert(decreases_to!(*value => members@[i as int].1));
                    }
                    let k = members[i].0.clone();
                    let c = self.sanitize_value(&members[i].1);
                    proof {
                        assert(out@.push((k, c)).drop_last() =~= out@);
                        assert(members@.take(i + 1).drop_last() =~= members@.take(i as int));
                        assert(members_view(members@.take(i + 1)).drop_last() =~= members_view(
                            members@.take(i as int),
                        ));
                    }
                    out.push((k, c));
                    i = i + 1;
                }
                proof {
                    assert(members@.take(members.len() as int) =~= members@);
                }
                JsonValue::Object(out)
            },
            JsonValue::Null => JsonValue::Null,
            JsonValue::Bool(b) => JsonValue::Bool(*b),
            JsonValue::Int(n) => JsonValue::Int(*n),
            JsonValue::Float(t) => JsonValue::Float(t.clone()),
        }
    }

    fn sanitize_opt(&self, value: Option<JsonValue>) -> (r: Option<JsonValue>)
        ensures
            opt_json(r) == redact_opt(value),
    {
        match value {
            Some(v) => Some(self.sanitize_value(&v)),
            None => None,
        }
    }
}

/// Whether `r` is `e` with the client IP removed and personal data redacted.
pub open spec fn is_sanitized(r: BatchedEvent, e: BatchedEvent) -> bool {
    &&& r.context.ip is None
    &&& r.event_type == e.event_type
    &&& opt_text(r.event) == opt_text(e.event)
    &&& opt_text(r.user_id) == opt_text(e.user_id)
    &&& opt_json(r.properties) == redact_opt(e.properties)
    &&& opt_json(r.traits) == redact_opt(e.traits)
    &&& r.error is Some == e.error is Some
    &&& e.error matches Some(err) ==> {
        &&& r.error->0.message@ == redact(err.message@)
        &&& r.error->0.name@ == err.name@
        &&& opt_text(r.error->0.stack) == match err.stack {
            Some(st) => Some(redact(st@)),
            None => None::<Seq<char>>,
        }
    }
    &&& r.context == (EventContext { ip: None, ..e.context })
}

/// Sanitizes a single event before it leaves for any vendor:
/// - strips the client IP (never forwarded)
/// - redacts e-mail addresses and API tokens in properties, traits and error strings
pub fn sanitize_event(redactor: &PiiRedactor, event: BatchedEvent) -> (r: BatchedEvent)
    ensures
        is_sanitized(r, event),
{
    let BatchedEvent { event_type, event: name, user_id, properties, traits, error, context } =
        event;
    let mut context = context;
    context.ip = None;
    let properties = redactor.sanitize_opt(properties);
    let traits = redactor.sanitize_opt(traits);
    let error = match error {
        Some(e) => {
            let message = redactor.redact_string(e.message.as_str());
            let stack = match &e.stack {
                Some(st) => Some(redactor.redact_string(st.as_str())),
                None => None,
            };
            Some(SerializedError { message, name: e.name, stack })
        },
        None => None,
    };
    BatchedEvent { event_type, event: name, user_id, properties, traits, error, context }
}

} // verus!
