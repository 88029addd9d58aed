//! Wall-clock instants as plain values.
//!
//! Dates that occur in playlists (`EXT-X-PROGRAM-DATE-TIME`, the date
//! attributes of `EXT-X-DATERANGE`) are held as an epoch-millisecond
//! value together with the UTC offset the manifest wrote them with.
//! Two instants are the same moment exactly when their millisecond
//! values agree; the offset is kept only so the textual form can be
//! reproduced.

use vstd::prelude::*;
use chrono::TimeZone;

verus! {

/// An instant in time: milliseconds since the Unix epoch, plus the
/// UTC offset (in seconds) of the textual form it was read from.
#[derive(Clone, Copy, Debug, PartialEq, Eq, Structural)]
pub struct Timestamp {
    pub epoch_millis: i64,
    pub offset_secs: i32,
}

/// The instant and offset encoded by an RFC 3339 date-time text, if
/// it parses.
pub uninterp spec fn rfc3339_parse_of(s: Seq<u8>) -> Option<(i64, i32)>;

/// Relies on `chrono::DateTime::parse_from_rfc3339`: the parse result
/// is a function of the text alone.
#[verifier::external_body]
pub fn parse_rfc3339(s: &[u8]) -> (r: Option<Timestamp>)
    ensures
        match r {
            Some(ts) => rfc3339_parse_of(s@) == Some((ts.epoch_millis, ts.offset_secs)),
            None => rfc3339_parse_of(s@) is None,
        },
{
    let text = core::str::from_utf8(s).ok()?;
    let dt = chrono::DateTime::parse_from_rfc3339(text).ok()?;
    Some(Timestamp { epoch_millis: dt.timestamp_millis(), offset_secs: dt.offset().local_minus_utc() })
}

/// The RFC 3339 rendering of an instant at a given offset.
pub uninterp spec fn rfc3339_bytes_of(epoch_millis: i64, offset_secs: i32) -> Seq<u8>;

/// Relies on `chrono::FixedOffset::east_opt`,
/// `TimeZone::timestamp_millis_opt` and `DateTime::to_rfc3339`: the
/// rendering is a function of the instant and offset alone (out of
/// range values render as the empty string).
#[verifier::external_body]
pub fn format_rfc3339(ts: &Timestamp) -> (r: Vec<u8>)
    ensures
        r@ == rfc3339_bytes_of(ts.epoch_millis, ts.offset_secs),
{
    let off = match chrono::FixedOffset::east_opt(ts.offset_secs) {
        Some(o) => o,
        None => {
            return Vec::new();
        },
    };
    match off.timestamp_millis_opt(ts.epoch_millis) {
        chrono::LocalResult::Single(dt) => dt.to_rfc3339().into_bytes(),
        _ => Vec::new(),
    }
}

/// Relies on `chrono::Utc::now`: the current wall-clock time in
/// milliseconds since the Unix epoch.  Nothing is promised of the
/// value.
#[verifier::external_body]
pub fn now_unix_millis() -> i64 {
    chrono::Utc::now().timestamp_millis()
}

} // verus!
