//! Conformance checking for HTTP Live Streaming endpoints.
//!
//! The crate watches a live media playlist over successive reloads and
//! reports protocol violations, cache misbehaviour and operational
//! anomalies as structured events.  The heart of the library is the
//! differential analysis in [`check`], fed by the playlist model and
//! parser in [`playlist`], the rolling segment [`timeline`], and the
//! HTTP transaction records in [`http`].

pub mod check;
pub mod dates;
pub mod events;
pub mod headers;
pub mod http;
pub mod laws;
pub mod media_manifest;
pub mod metrics;
pub mod multivariant;
pub mod playlist;
pub mod poll;
pub mod textfmt;
pub mod timeline;
