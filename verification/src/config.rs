use vstd::prelude::*;
use crate::adapter::AdapterError;
use crate::amplitude::AmplitudeAdapter;
use crate::facebook::FacebookAdapter;
use crate::mixpanel::MixpanelAdapter;
use crate::posthog::PostHogAdapter;
use crate::segment::SegmentAdapter;
use crate::sentry::{SentryAdapter, dsn_parts};
use crate::tiktok::TikTokAdapter;
use crate::event::{BatchedEvent, EventContext, EventType, opt_text};
use crate::adapter::OutboundRequest;
use crate::text::{chars_of, parse_unsigned_chars, parse_unsigned};

verus! {

/// The edge's settings, one field per environment variable.
#[derive(Debug, Clone)]
pub struct EdgeConfig {
    pub port: u16,
    // GA4
    pub ga4_measurement_id: Option<String>,
    pub ga4_api_secret: Option<String>,
    // Webhook
    pub webhook_url: Option<String>,
    pub webhook_secret: Option<String>,
    // Sentry
    pub sentry_dsn: Option<String>,
    pub sentry_release: Option<String>,
    pub sentry_environment: Option<String>,
    // Mixpanel
    pub mixpanel_token: Option<String>,
    // PostHog
    pub posthog_api_key: Option<String>,
    pub posthog_endpoint: Option<String>,
    // Amplitude
    pub amplitude_api_key: Option<String>,
    // Segment
    pub segment_write_key: Option<String>,
    // Facebook Conversions API
    pub facebook_pixel_id: Option<String>,
    pub facebook_access_token: Option<String>,
    // TikTok Events API
    pub tiktok_pixel_code: Option<String>,
    pub tiktok_access_token: Option<String>,
    /// Dedup TTL in seconds (default: 30)
    pub dedup_ttl_secs: u64,
    pub debug: bool,
}

/// An environment value read as an unsigned number, or `default` when it is unset or does not
/// parse.
pub open spec fn number_or(value: Option<Seq<char>>, max: nat, default: nat) -> nat {
    match value {
        Some(v) => match parse_unsigned(v, max) {
            Some(n) => n,
            None => default,
        },
        None => default,
    }
}

/// The port setting: the value when it parses as a `u16`, `default` otherwise.
pub fn env_u16(value: Option<&str>, default: u16) -> (n: u16)
    ensures
        n == number_or(
            match value {
                Some(v) => Some(v@),
                None => None,
            },
            65535,
            default as nat,
        ),
{
    match value {
        Some(v) => {
            let cs = chars_of(v);
            proof {
                assert(cs@.subrange(0, cs.len() as int) =~= cs@);
            }
            match parse_unsigned_chars(&cs, 0, cs.len(), 65535) {
                Some(n) => n as u16,
                None => default,
            }
        },
        None => default,
    }
}

/// A numeric setting: the value when it parses as a `u64`, `default` otherwise.
pub fn env_u64(value: Option<&str>, default: u64) -> (n: u64)
    ensures
        n == number_or(
            match value {
                Some(v) => Some(v@),
                None => None,
            },
            18446744073709551615,
            default as nat,
        ),
{
    match value {
        Some(v) => {
            let cs = chars_of(v);
            proof {
                assert(cs@.subrange(0, cs.len() as int) =~= cs@);
            }
            match parse_unsigned_chars(&cs, 0, cs.len(), 18446744073709551615u64) {
                Some(n) => n,
                None => default,
            }
        },
        None => default,
    }
}

/// One configured vendor adapter.
pub enum VendorAdapter {
    Sentry(SentryAdapter),
    Mixpanel(MixpanelAdapter),
    PostHog(PostHogAdapter),
    Amplitude(AmplitudeAdapter),
    Segment(SegmentAdapter),
    Facebook(FacebookAdapter),
    TikTok(TikTokAdapter),
}

/// Whether adapter `a` takes event `e`.
pub open spec fn takes(a: VendorAdapter, e: BatchedEvent) -> bool {
    match a {
        VendorAdapter::Sentry(_) => e.event_type == EventType::Error,
        VendorAdapter::Facebook(_) => e.event_type != EventType::Identify,
        VendorAdapter::TikTok(_) => e.event_type != EventType::Identify,
        _ => true,
    }
}

/// Whether adapter `a` has no request for an identify event (it cannot deliver one at all).
pub open spec fn refuses_identify(a: VendorAdapter) -> bool {
    match a {
        VendorAdapter::Facebook(_) => true,
        VendorAdapter::TikTok(_) => true,
        _ => false,
    }
}

/// Whether adapter `a` stamps its payload with calendar time.
pub open spec fn needs_calendar(a: VendorAdapter) -> bool {
    match a {
        VendorAdapter::PostHog(_) => true,
        VendorAdapter::Segment(_) => true,
        VendorAdapter::TikTok(_) => true,
        _ => false,
    }
}

/// The name under which adapter `a` reports.
pub open spec fn adapter_name(a: VendorAdapter) -> Seq<char> {
    match a {
        VendorAdapter::Sentry(_) => "sentry"@,
        VendorAdapter::Mixpanel(_) => "mixpanel"@,
        VendorAdapter::PostHog(_) => "posthog"@,
        VendorAdapter::Amplitude(_) => "amplitude"@,
        VendorAdapter::Segment(_) => "segment"@,
        VendorAdapter::Facebook(_) => "facebook"@,
        VendorAdapter::TikTok(_) => "tiktok"@,
    }
}

impl VendorAdapter {
    pub fn name(&self) -> (n: &'static str)
        ensures
            n@ == adapter_name(*self),
    {
        match self {
            VendorAdapter::Sentry(a) => a.name(),
            VendorAdapter::Mixpanel(a) => a.name(),
            VendorAdapter::PostHog(a) => a.name(),
            VendorAdapter::Amplitude(a) => a.name(),
            VendorAdapter::Segment(a) => a.name(),
            VendorAdapter::Facebook(a) => a.name(),
            VendorAdapter::TikTok(a) => a.name(),
        }
    }

    pub fn accepts(&self, event: &BatchedEvent) -> (b: bool)
        ensures
            b == takes(*self, *event),
    {
        match self {
            VendorAdapter::Sentry(a) => a.accepts(event),
            VendorAdapter::Mixpanel(a) => a.accepts(event),
            VendorAdapter::PostHog(a) => a.accepts(event),
            VendorAdapter::Amplitude(a) => a.accepts(event),
            VendorAdapter::Segment(a) => a.accepts(event),
            VendorAdapter::Facebook(a) => a.accepts(event),
            VendorAdapter::TikTok(a) => a.accepts(event),
        }
    }

    /// Whether this adapter stamps its payload with calendar time, which timestamps at or
    /// before -1000 ms do not have.
    pub fn needs_calendar(&self) -> (b: bool)
        ensures
            b == needs_calendar(*self),
    {
        match self {
            VendorAdapter::PostHog(_) | VendorAdapter::Segment(_) | VendorAdapter::TikTok(_) => true,
            _ => false,
        }
    }

    /// The request that delivers `event`; none when there is nothing to send (for Sentry, an
    /// event without an error, whatever its type). Facebook and TikTok have no request for an
    /// identify event.
    pub fn prepare(&self, event: &BatchedEvent) -> (r: Option<OutboundRequest>)
        requires
            refuses_identify(*self) ==> event.event_type != EventType::Identify,
            needs_calendar(*self) ==> event.context.timestamp > -1000,
        ensures
            match *self {
                VendorAdapter::Sentry(a) => {
                    &&& event.error is None ==> r is None
                    &&& event.error is Some ==> (r matches Some(q) && exists|id: Seq<char>|
                        id.len() == 32 && (forall|i: int| 0 <= i < 32 ==> crate::sentry::is_lower_hex(#[trigger] id[i]))
                            && a.is_envelope_request(q, *event, id))
                },
                VendorAdapter::Mixpanel(a) => r matches Some(q) && if event.event_type == EventType::Identify {
                    crate::adapter::is_json_post(q, crate::mixpanel::mixpanel_engage_url(), crate::mixpanel::mixpanel_engage_payload(a.token(), *event))
                } else {
                    crate::adapter::is_json_post(q, crate::mixpanel::mixpanel_track_url(), crate::mixpanel::mixpanel_track_payload(a.token(), *event))
                },
                VendorAdapter::PostHog(a) => r matches Some(q) && crate::adapter::is_json_post(
                    q,
                    a.endpoint(),
                    crate::posthog::posthog_payload(a.api_key(), *event),
                ),
                VendorAdapter::Amplitude(a) => r matches Some(q) && crate::adapter::is_json_post(
                    q,
                    crate::amplitude::amplitude_url(),
                    crate::amplitude::amplitude_payload(a.api_key(), *event),
                ),
                VendorAdapter::Segment(a) => r matches Some(q) && {
                    &&& q.url@ == crate::segment::segment_url()
                    &&& q.query@.len() == 0
                    &&& crate::adapter::pairs_view(q.headers@) == crate::adapter::json_headers()
                    &&& q.basic_auth_user matches Some(u) && u@ == a.write_key()
                    &&& crate::json::items_view(q.body@) == seq![crate::segment::segment_payload(*event)]
                },
                VendorAdapter::Facebook(a) => r matches Some(q) && {
                    &&& q.url@ == "https://graph.facebook.com/v18.0/"@ + a.pixel_id() + "/events"@
                    &&& crate::adapter::pairs_view(q.query@) == seq![("access_token"@, a.access_token())]
                    &&& crate::adapter::pairs_view(q.headers@) == crate::adapter::json_headers()
                    &&& q.basic_auth_user is None
                    &&& crate::json::items_view(q.body@) == seq![crate::facebook::facebook_payload(*event)]
                },
                VendorAdapter::TikTok(a) => r matches Some(q) && {
                    &&& q.url@ == crate::tiktok::tiktok_url()
                    &&& q.query@.len() == 0
                    &&& crate::adapter::pairs_view(q.headers@) == seq![
                        ("Access-Token"@, a.access_token()),
                        ("Content-Type"@, "application/json"@),
                    ]
                    &&& q.basic_auth_user is None
                    &&& crate::json::items_view(q.body@) == seq![crate::tiktok::tiktok_payload(a.pixel_code(), *event)]
                },
            },
    {
        match self {
            VendorAdapter::Sentry(a) => a.prepare(event),
            VendorAdapter::Mixpanel(a) => Some(a.request(event)),
            VendorAdapter::PostHog(a) => Some(a.request(event)),
            VendorAdapter::Amplitude(a) => Some(a.request(event)),
            VendorAdapter::Segment(a) => Some(a.request(event)),
            VendorAdapter::Facebook(a) => Some(a.request(event)),
            VendorAdapter::TikTok(a) => Some(a.request(event)),
        }
    }
}

/// IP addresses never reach vendors: every payload is the same whatever the event's client
/// IP is.
pub proof fn lemma_payloads_ignore_ip(e: BatchedEvent, ip: Option<String>, key: Seq<char>, sentry: SentryAdapter, id: Seq<char>)
    ensures
        ({
            let f = BatchedEvent { context: EventContext { ip: ip, ..e.context }, ..e };
            &&& crate::amplitude::amplitude_payload(key, e) == crate::amplitude::amplitude_payload(key, f)
            &&& crate::facebook::facebook_payload(e) == crate::facebook::facebook_payload(f)
            &&& crate::mixpanel::mixpanel_track_payload(key, e) == crate::mixpanel::mixpanel_track_payload(key, f)
            &&& crate::mixpanel::mixpanel_engage_payload(key, e) == crate::mixpanel::mixpanel_engage_payload(key, f)
            &&& crate::posthog::posthog_payload(key, e) == crate::posthog::posthog_payload(key, f)
            &&& crate::segment::segment_payload(e) == crate::segment::segment_payload(f)
            &&& crate::tiktok::tiktok_payload(key, e) == crate::tiktok::tiktok_payload(key, f)
            &&& sentry.envelope(e, id) == sentry.envelope(f, id)
        }),
{
}

/// The adapters a configuration enables, and the error that disabled Sentry if its DSN is
/// invalid.
pub struct AdapterSetup {
    pub adapters: Vec<VendorAdapter>,
    pub sentry_error: Option<AdapterError>,
}


/// Position of each kind of adapter in a setup, in the order they are enabled.
pub open spec fn kind_of(a: VendorAdapter) -> nat {
    match a {
        VendorAdapter::Sentry(_) => 0,
        VendorAdapter::Mixpanel(_) => 1,
        VendorAdapter::PostHog(_) => 2,
        VendorAdapter::Amplitude(_) => 3,
        VendorAdapter::Segment(_) => 4,
        VendorAdapter::Facebook(_) => 5,
        VendorAdapter::TikTok(_) => 6,
    }
}

/// Whether Sentry is configured with a DSN that parses.
pub open spec fn sentry_enabled(c: EdgeConfig) -> bool {
    c.sentry_dsn matches Some(d) && dsn_parts(d@) is Some
}

/// The kinds of adapter a configuration enables, in order: each one whose settings are all
/// present (Sentry also needs a DSN that parses).
pub open spec fn enabled_kinds(c: EdgeConfig) -> Seq<nat> {
    (if sentry_enabled(c) { seq![0nat] } else { Seq::empty() })
        + (if c.mixpanel_token is Some { seq![1nat] } else { Seq::empty() })
        + (if c.posthog_api_key is Some { seq![2nat] } else { Seq::empty() })
        + (if c.amplitude_api_key is Some { seq![3nat] } else { Seq::empty() })
        + (if c.segment_write_key is Some { seq![4nat] } else { Seq::empty() })
        + (if c.facebook_pixel_id is Some && c.facebook_access_token is Some { seq![5nat] } else { Seq::empty() })
        + (if c.tiktok_pixel_code is Some && c.tiktok_access_token is Some { seq![6nat] } else { Seq::empty() })
}

/// Whether adapter `a` carries the settings of `c`.
pub open spec fn configured_as(a: VendorAdapter, c: EdgeConfig) -> bool {
    match a {
        VendorAdapter::Sentry(s) => {
            let p = dsn_parts(c.sentry_dsn->0@)->0;
            &&& s.public_key() == p.0
            &&& s.host() == p.1
            &&& s.project_id() == p.2
            &&& s.release() == opt_text(c.sentry_release)
            &&& s.environment() == opt_text(c.sentry_environment)
        },
        VendorAdapter::Mixpanel(m) => m.token() == c.mixpanel_token->0@,
        VendorAdapter::PostHog(p) => {
            &&& p.api_key() == c.posthog_api_key->0@
            &&& p.endpoint() == match c.posthog_endpoint {
                Some(e) => e@,
                None => crate::posthog::posthog_capture_url(),
            }
        },
        VendorAdapter::Amplitude(m) => m.api_key() == c.amplitude_api_key->0@,
        VendorAdapter::Segment(m) => m.write_key() == c.segment_write_key->0@,
        VendorAdapter::Facebook(f) => f.pixel_id() == c.facebook_pixel_id->0@ && f.access_token()
            == c.facebook_access_token->0@,
        VendorAdapter::TikTok(t) => t.pixel_code() == c.tiktok_pixel_code->0@ && t.access_token()
            == c.tiktok_access_token->0@,
    }
}

fn push_adapter(
    adapters: &mut Vec<VendorAdapter>,
    a: VendorAdapter,
    c: Ghost<EdgeConfig>,
)
    requires
        configured_as(a, c@),
        forall|i: int| 0 <= i < old(adapters)@.len() ==> configured_as(#[trigger] old(adapters)@[i], c@),
    ensures
        final(adapters)@.map_values(|x: VendorAdapter| kind_of(x)) == old(adapters)@.map_values(
            |x: VendorAdapter| kind_of(x),
        ).push(kind_of(a)),
        forall|i: int| 0 <= i < final(adapters)@.len() ==> configured_as(#[trigger] final(adapters)@[i], c@),
{
    adapters.push(a);
    proof {
        assert(adapters@.map_values(|x: VendorAdapter| kind_of(x)) =~= old(adapters)@.map_values(
            |x: VendorAdapter| kind_of(x),
        ).push(kind_of(a)));
    }
}

/// The Sentry adapter for `dsn` with the configuration's release and environment, or the
/// error that the DSN gives.
fn sentry_from_config(dsn: &str, config: &EdgeConfig) -> (r: Result<SentryAdapter, AdapterError>)
    requires
        config.sentry_dsn matches Some(d) && d@ == dsn@,
    ensures
        r is Ok <==> sentry_enabled(*config),
        r matches Ok(a) ==> configured_as(VendorAdapter::Sentry(a), *config),
{
    let mut adapter = SentryAdapter::new(dsn)?;
    match &config.sentry_release {
        Some(r) => {
            adapter = adapter.with_release(r.clone());
        },
        None => {},
    }
    match &config.sentry_environment {
        Some(e) => {
            adapter = adapter.with_environment(e.clone());
        },
        None => {},
    }
    Ok(adapter)
}

/// Builds the adapters the configuration enables, each only if its settings are present.
#[verifier::rlimit(30)]
pub fn adapters_from_config(config: &EdgeConfig) -> (r: AdapterSetup)
    ensures
        r.adapters@.map_values(|x: VendorAdapter| kind_of(x)) == enabled_kinds(*config),
        forall|i: int| 0 <= i < r.adapters@.len() ==> configured_as(#[trigger] r.adapters@[i], *config),
        r.sentry_error is Some <==> (config.sentry_dsn is Some && !sentry_enabled(*config)),
{
    let ghost c = *config;
    let mut adapters: Vec<VendorAdapter> = Vec::new();
    let mut sentry_error: Option<AdapterError> = None;
    proof {
        assert(adapters@.map_values(|x: VendorAdapter| kind_of(x)) =~= Seq::<nat>::empty());
    }
    match &config.sentry_dsn {
        Some(dsn) => match sentry_from_config(dsn.as_str(), config) {
            Ok(adapter) => {
                push_adapter(&mut adapters, VendorAdapter::Sentry(adapter), Ghost(c));
            },
            Err(e) => {
                sentry_error = Some(e);
            },
        },
        None => {},
    }
    match &config.mixpanel_token {
        Some(t) => {
            push_adapter(&mut adapters, VendorAdapter::Mixpanel(MixpanelAdapter::new(t.clone())), Ghost(c));
        },
        None => {},
    }
    match &config.posthog_api_key {
        Some(k) => {
            let mut adapter = PostHogAdapter::new(k.clone());
            match &config.posthog_endpoint {
                Some(e) => {
                    adapter = adapter.with_endpoint(e.clone());
                },
                None => {},
            }
            push_adapter(&mut adapters, VendorAdapter::PostHog(adapter), Ghost(c));
        },
        None => {},
    }
    match &config.amplitude_api_key {
        Some(k) => {
            push_adapter(&mut adapters, VendorAdapter::Amplitude(AmplitudeAdapter::new(k.clone())), Ghost(c));
        },
        None => {},
    }
    match &config.segment_write_key {
        Some(k) => {
            push_adapter(&mut adapters, VendorAdapter::Segment(SegmentAdapter::new(k.clone())), Ghost(c));
        },
        None => {},
    }
    match (&config.facebook_pixel_id, &config.facebook_access_token) {
        (Some(p), Some(t)) => {
            push_adapter(&mut adapters, VendorAdapter::Facebook(FacebookAdapter::new(p.clone(), t.clone())), Ghost(c));
        },
        _ => {},
    }
    match (&config.tiktok_pixel_code, &config.tiktok_access_token) {
        (Some(p), Some(t)) => {
            push_adapter(&mut adapters, VendorAdapter::TikTok(TikTokAdapter::new(p.clone(), t.clone())), Ghost(c));
        },
        _ => {},
    }
    proof {
        assert(adapters@.map_values(|x: VendorAdapter| kind_of(x)) =~= enabled_kinds(c));
    }
    AdapterSetup { adapters, sentry_error }
}

} // verus!
