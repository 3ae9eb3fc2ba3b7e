# nightshift

An analytics edge: it receives batches of browser events, enriches them with what the
request says about the client, drops duplicates within a time window, strips personal data
and fans each event out to the configured vendors (Sentry, Mixpanel, PostHog, Amplitude,
Segment, Facebook Conversions API, TikTok Events API).

## Layout

- `src/` — the library, verified with Verus:
  - `json`, `text`, `timestamp`: the JSON model, string helpers and the civil calendar used
    for ISO 8601 timestamps;
  - `event`, `pii`, `dedup`, `ingest`: the event model, redaction, the dedup window and the
    preparation of an ingest batch;
  - `adapter` and one module per vendor: the exact request each vendor receives, the retry
    policy and the fan-out plan;
  - `config`: settings and the adapters they enable.
- `tests/` — tests of the library on concrete values.
- `app/` — the HTTP server around the library (axum, reqwest, tokio): reading the
  environment, serving `/ingest` and `/health`, sending requests and sleeping between retries.

## Not included

- **GA4 and webhook delivery.** This project has no definition of the requests those two
  destinations take, so it has no adapter for them. `EdgeConfig` still carries their
  settings, which are ignored; the server logs a warning when they are set.
- **Serverless targets.** Only the long-running server in `app/` is provided; there is no
  build for a serverless edge runtime and no key-value store for deduplication across
  instances. Deduplication uses the in-memory window of a single server.
