pub mod json;
pub mod text;
pub mod timestamp;
pub mod event;
pub mod pii;
pub mod dedup;
pub mod adapter;
pub mod amplitude;
pub mod facebook;
pub mod mixpanel;
pub mod posthog;
pub mod segment;
pub mod tiktok;
pub mod sentry;
pub mod ingest;
pub mod config;
