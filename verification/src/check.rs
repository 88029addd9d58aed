//! The media-playlist checker: differential analysis between
//! successive playlist snapshots.
//!
//! One checker instance watches one media playlist URL.  It receives
//! fresh snapshots, 304 notifications and reload failures, updates
//! its rolling [`Timeline`], and records findings into an event log
//! and media-sequence regressions into a metric log, both of which
//! the embedding drains after each call.
//!
//! The contracts below pin the emitted events exactly: each spec
//! function gives the event sequence of one check, and the methods
//! promise the concatenation, in emission order.

use vstd::prelude::*;
use crate::dates::rfc3339_bytes_of;
use crate::events::{
    delta, spec_delta, EventLog, EventSeverity, EventV, HlsEvent,
};
use crate::headers::spec_header_get;
use crate::http::{HttpRef, HttpResponseInfo};
use crate::playlist::{ByteRange, DateRange, MediaPlaylist, MediaSegment};
use crate::textfmt::{
    ascii_bytes, bytes_eq, copy_bytes, millis_as_secs, parse_u64_dec, spec_dec,
    spec_millis_as_secs, spec_parse_u64, str_bytes, u64_to_dec,
};
use crate::timeline::{push_marks, spec_remove_older, Timeline};

verus! {

/// A playlist snapshot paired with the transaction that produced it.
#[derive(Debug)]
pub struct PlaylistInfo {
    pub playlist: MediaPlaylist,
    pub href: HttpRef,
}

impl PlaylistInfo {
    /// The snapshot came from a completed transaction with a
    /// readable body, and its playlist is well-formed.  An empty
    /// playlist satisfies this: only the update checks between two
    /// snapshots need segments.
    pub open spec fn ok_resp(self) -> bool {
        &&& self.playlist.wf()
        &&& self.href.spec_info().response is Ok
        &&& self.resp().body is Ok
    }

    /// What the update checks rely on of each of the two snapshots:
    /// [`Self::ok_resp`], and at least one segment.
    pub open spec fn wf(self) -> bool {
        &&& self.ok_resp()
        &&& self.playlist.segments@.len() > 0
    }

    /// The wire-level response behind this snapshot.
    pub open spec fn resp(self) -> HttpResponseInfo {
        self.href.spec_info().response->Ok_0
    }

    /// The response headers.
    pub open spec fn hdrs(self) -> Seq<(Seq<u8>, Seq<u8>)> {
        self.resp().headers@
    }

    /// The Content-Type header value.
    pub open spec fn content_type(self) -> Option<Seq<u8>> {
        spec_header_get(self.hdrs(), ascii_bytes("content-type"@))
    }

    /// The Last-Modified header value.
    pub open spec fn last_modified(self) -> Option<Seq<u8>> {
        spec_header_get(self.hdrs(), ascii_bytes("last-modified"@))
    }

    /// The ETag header value.
    pub open spec fn etag(self) -> Option<Seq<u8>> {
        spec_header_get(self.hdrs(), ascii_bytes("etag"@))
    }

    /// The body fingerprint.
    pub open spec fn body_hash(self) -> u64 {
        self.resp().body->Ok_0.hash
    }

    /// The media sequence number of the last segment.
    pub open spec fn last_msn(self) -> usize
        recommends
            self.playlist.segments@.len() > 0,
    {
        self.playlist.segments@.last().msn
    }
}

/// `x + 1`, stopping at the top of `usize`.
pub open spec fn inc_sat(x: usize) -> usize {
    if x == usize::MAX {
        x
    } else {
        (x + 1) as usize
    }
}

/// Events for one whole-playlist boolean property that must not
/// toggle between snapshots.
pub open spec fn prop_flag_events(
    d: crate::events::Delta,
    prev_val: bool,
    this_val: bool,
    name: Seq<char>,
) -> Seq<(EventSeverity, EventV)> {
    if prev_val != this_val {
        if prev_val {
            seq![
                (
                    EventSeverity::Error,
                    EventV::UnexpectedPlaylistPropertyRemoval { delta: d, name },
                ),
            ]
        } else {
            seq![
                (
                    EventSeverity::Error,
                    EventV::UnexpectedPlaylistPropertyAddition { delta: d, name },
                ),
            ]
        }
    } else {
        Seq::empty()
    }
}

/// Events of the cross-snapshot stability checks: the i-frames-only
/// and independent-segments flags, the target duration and the
/// Content-Type header must not change while a stream is live.
pub open spec fn invariant_prop_events(p: PlaylistInfo, t: PlaylistInfo) -> Seq<
    (EventSeverity, EventV),
> {
    let d = spec_delta(p.href, t.href);
    prop_flag_events(
        d,
        p.playlist.has_i_frames_only,
        t.playlist.has_i_frames_only,
        "EXT-X-I-FRAMES-ONLY"@,
    ) + prop_flag_events(
        d,
        p.playlist.has_independent_segments,
        t.playlist.has_independent_segments,
        "ext-x-independent-segments"@,
    ) + (if p.playlist.target_duration_millis != t.playlist.target_duration_millis {
        seq![
            (
                EventSeverity::Error,
                EventV::TargetDurationChanged {
                    delta: d,
                    last_target_duration_millis: p.playlist.target_duration_millis,
                    this_target_duration_millis: t.playlist.target_duration_millis,
                },
            ),
        ]
    } else {
        Seq::empty()
    }) + (if p.content_type() != t.content_type() {
        seq![
            (
                EventSeverity::Error,
                EventV::ContentTypeChanged {
                    delta: d,
                    last_content_type: p.content_type(),
                    this_content_type: t.content_type(),
                },
            ),
        ]
    } else {
        Seq::empty()
    })
}

/// The warning when `EXT-X-ENDLIST` disappears again.
pub open spec fn endlist_events(p: PlaylistInfo, t: PlaylistInfo) -> Seq<
    (EventSeverity, EventV),
> {
    if p.playlist.has_end_list && !t.playlist.has_end_list {
        seq![(EventSeverity::Warning, EventV::EndListTagRemoved)]
    } else {
        Seq::empty()
    }
}

/// The textual form of an `EXT-X-BYTERANGE`: `length[@start]`.
pub open spec fn fmt_byte_range(br: ByteRange) -> Seq<u8> {
    match br.start {
        Some(s) => spec_dec(br.length as int) + seq![0x40u8] + spec_dec(s as int),
        None => spec_dec(br.length as int),
    }
}

/// The textual form of an optional byte range.
pub open spec fn fmt_opt_byte_range(o: Option<ByteRange>) -> Option<Seq<u8>> {
    match o {
        Some(br) => Some(fmt_byte_range(br)),
        None => None,
    }
}

/// Events for one segment that both snapshots claim to describe: the
/// URI, discontinuity flag, duration and byte range must agree.  A
/// changed URI suppresses the remaining comparisons for the pair.
pub open spec fn seg_pair_events(d: crate::events::Delta, a: MediaSegment, b: MediaSegment) -> Seq<
    (EventSeverity, EventV),
> {
    if a.uri@ != b.uri@ {
        seq![
            (
                EventSeverity::Error,
                EventV::ManifestHistoryChangedUri {
                    delta: d,
                    msn: b.msn,
                    last_uri: a.uri@,
                    this_uri: b.uri@,
                },
            ),
        ]
    } else {
        (if a.has_discontinuity != b.has_discontinuity {
            if b.has_discontinuity {
                seq![
                    (
                        EventSeverity::Error,
                        EventV::ManifestHistoryAddedDiscontinuity { delta: d, msn: b.msn },
                    ),
                ]
            } else {
                seq![
                    (
                        EventSeverity::Error,
                        EventV::ManifestHistoryRemovedDiscontinuity { delta: d, msn: b.msn },
                    ),
                ]
            }
        } else {
            Seq::empty()
        }) + (if a.duration_millis != b.duration_millis {
            seq![
                (
                    EventSeverity::Error,
                    EventV::ManifestHistoryChangedSegmentDuration {
                        delta: d,
                        msn: b.msn,
                        last_duration_millis: a.duration_millis,
                        this_duration_millis: b.duration_millis,
                    },
                ),
            ]
        } else {
            Seq::empty()
        }) + (if a.byte_range != b.byte_range {
            seq![
                (
                    EventSeverity::Error,
                    EventV::ManifestHistoryChangedSegmentByterange {
                        delta: d,
                        msn: b.msn,
                        last_byterange: fmt_opt_byte_range(a.byte_range),
                        this_byterange: fmt_opt_byte_range(b.byte_range),
                    },
                ),
            ]
        } else {
            Seq::empty()
        })
    }
}

/// How many segment pairs the history check compares: segments of
/// the new snapshot that the old snapshot also described.
pub open spec fn pair_count(p_len: int, t_len: int, skip: int) -> int {
    let avail = p_len - skip;
    let m = if avail < t_len {
        avail
    } else {
        t_len
    };
    if m < 0 {
        0
    } else {
        m
    }
}

/// Events of the history check for the first `i` compared pairs.
pub open spec fn history_events_upto(
    d: crate::events::Delta,
    ps: Seq<MediaSegment>,
    ts: Seq<MediaSegment>,
    skip: int,
    i: int,
) -> Seq<(EventSeverity, EventV)>
    decreases i,
{
    if i <= 0 {
        Seq::empty()
    } else {
        history_events_upto(d, ps, ts, skip, i - 1) + seg_pair_events(
            d,
            ps[skip + i - 1],
            ts[i - 1],
        )
    }
}

/// All events of the manifest-history check.
pub open spec fn history_events(
    d: crate::events::Delta,
    ps: Seq<MediaSegment>,
    ts: Seq<MediaSegment>,
    skip: int,
) -> Seq<(EventSeverity, EventV)> {
    history_events_upto(d, ps, ts, skip, pair_count(ps.len() as int, ts.len() as int, skip))
}

/// The staleness event of one reload, if any: once no new segment
/// has appeared for more than one reload, the playlist is reported
/// stale, as a warning at first and as an error from the third
/// unchanged reload on.
pub open spec fn stale_events(
    since: usize,
    fresh: Option<HttpRef>,
    fmsn: Option<usize>,
    t: PlaylistInfo,
) -> Seq<(EventSeverity, EventV)> {
    match fmsn {
        Some(f) => if f >= t.last_msn() && since > 1 {
            seq![
                (
                    if since > 2 {
                        EventSeverity::Error
                    } else {
                        EventSeverity::Warning
                    },
                    EventV::ManifestStale {
                        delta: spec_delta(fresh->Some_0, t.href),
                        since_list_update: since,
                    },
                ),
            ]
        } else {
            Seq::empty()
        },
        None => Seq::empty(),
    }
}

/// The reload counter after the staleness check: reset by an advance
/// (and then counted once for this reload), incremented otherwise.
pub open spec fn stale_since_after(since: usize, fmsn: Option<usize>, t: PlaylistInfo) -> usize {
    match fmsn {
        Some(f) => if f < t.last_msn() {
            1
        } else {
            inc_sat(since)
        },
        None => inc_sat(since),
    }
}

/// The fresh-playlist reference after the staleness check.
pub open spec fn stale_fresh_after(
    fresh: Option<HttpRef>,
    fmsn: Option<usize>,
    t: PlaylistInfo,
) -> Option<HttpRef> {
    match fmsn {
        Some(f) => if f < t.last_msn() {
            Some(t.href)
        } else {
            fresh
        },
        None => fresh,
    }
}

/// The most recent `EXT-X-DATERANGE` with the given id among the
/// segments before index `i`.
pub open spec fn last_range_before(segs: Seq<MediaSegment>, i: int, id: Seq<u8>) -> Option<
    DateRange,
>
    decreases i,
{
    if i <= 0 {
        None
    } else {
        match segs[i - 1].date_range {
            Some(dr) => if dr.id@ == id {
                Some(dr)
            } else {
                last_range_before(segs, i - 1, id)
            },
            None => last_range_before(segs, i - 1, id),
        }
    }
}

/// One changed-attribute event.
pub open spec fn attr_changed(
    href: HttpRef,
    id: Seq<u8>,
    name: Seq<char>,
    prev_value: Seq<u8>,
    this_value: Seq<u8>,
) -> (EventSeverity, EventV) {
    (
        EventSeverity::Error,
        EventV::DaterangeAttributeChanged {
            req_id: href,
            daterange_id: id,
            attr_name: name,
            prev_value,
            this_value,
        },
    )
}

/// The event when an optional duration attribute changed.
pub open spec fn dur_attr_events(
    href: HttpRef,
    id: Seq<u8>,
    name: Seq<char>,
    this_millis: Option<u64>,
    prev_millis: Option<u64>,
) -> Seq<(EventSeverity, EventV)> {
    match (this_millis, prev_millis) {
        (Some(td), Some(pd)) => if td != pd {
            seq![
                attr_changed(
                    href,
                    id,
                    name,
                    spec_millis_as_secs(pd as int),
                    spec_millis_as_secs(td as int),
                ),
            ]
        } else {
            Seq::empty()
        },
        _ => Seq::empty(),
    }
}

/// The event when an optional date attribute changed (dates compare
/// by instant).
pub open spec fn date_attr_events(
    href: HttpRef,
    id: Seq<u8>,
    name: Seq<char>,
    this_date: Option<crate::dates::Timestamp>,
    prev_date: Option<crate::dates::Timestamp>,
) -> Seq<(EventSeverity, EventV)> {
    match (this_date, prev_date) {
        (Some(ts), Some(ps)) => if ts.epoch_millis != ps.epoch_millis {
            seq![
                attr_changed(
                    href,
                    id,
                    name,
                    rfc3339_bytes_of(ps.epoch_millis, ps.offset_secs),
                    rfc3339_bytes_of(ts.epoch_millis, ts.offset_secs),
                ),
            ]
        } else {
            Seq::empty()
        },
        _ => Seq::empty(),
    }
}

/// The event when an optional textual attribute changed.
pub open spec fn text_attr_events(
    href: HttpRef,
    id: Seq<u8>,
    name: Seq<char>,
    this_text: Option<Vec<u8>>,
    prev_text: Option<Vec<u8>>,
) -> Seq<(EventSeverity, EventV)> {
    match (this_text, prev_text) {
        (Some(tc), Some(pc)) => if tc@ != pc@ {
            seq![attr_changed(href, id, name, pc@, tc@)]
        } else {
            Seq::empty()
        },
        _ => Seq::empty(),
    }
}

/// Events for one daterange id seen again: every attribute that is
/// present on both sightings must be unchanged.  Dates compare by
/// instant; durations are reported in seconds, dates in RFC 3339.
pub open spec fn attr_events(href: HttpRef, this_dr: DateRange, prev_dr: DateRange) -> Seq<
    (EventSeverity, EventV),
> {
    let id = this_dr.id@;
    dur_attr_events(href, id, "DURATION"@, this_dr.duration_millis, prev_dr.duration_millis)
        + date_attr_events(href, id, "START-DATE"@, this_dr.start_date, prev_dr.start_date)
        + dur_attr_events(
        href,
        id,
        "PLANNED-DURATION"@,
        this_dr.planned_duration_millis,
        prev_dr.planned_duration_millis,
    ) + date_attr_events(href, id, "END-DATE"@, this_dr.end_date, prev_dr.end_date)
        + text_attr_events(href, id, "SCTE-CMD"@, this_dr.scte35_cmd, prev_dr.scte35_cmd)
        + text_attr_events(href, id, "SCTE-OUT"@, this_dr.scte35_out, prev_dr.scte35_out)
        + text_attr_events(href, id, "SCTE-IN"@, this_dr.scte35_in, prev_dr.scte35_in)
}

/// Events of the daterange scan over the first `i` segments: each
/// daterange on a segment newer than `last_msn` is compared with the
/// previous sighting of the same id.
pub open spec fn daterange_events_upto(
    href: HttpRef,
    segs: Seq<MediaSegment>,
    last_msn: usize,
    i: int,
) -> Seq<(EventSeverity, EventV)>
    decreases i,
{
    if i <= 0 {
        Seq::empty()
    } else {
        daterange_events_upto(href, segs, last_msn, i - 1) + (match segs[i - 1].date_range {
            Some(dr) => if segs[i - 1].msn > last_msn {
                match last_range_before(segs, i - 1, dr.id@) {
                    Some(pd) => attr_events(href, dr, pd),
                    None => Seq::empty(),
                }
            } else {
                Seq::empty()
            },
            None => Seq::empty(),
        })
    }
}

/// All events of the daterange scan.
pub open spec fn daterange_events(
    href: HttpRef,
    segs: Seq<MediaSegment>,
    last_msn: usize,
) -> Seq<(EventSeverity, EventV)> {
    daterange_events_upto(href, segs, last_msn, segs.len() as int)
}

/// The warning when two responses carry byte-identical bodies but
/// different `Last-Modified` values.
pub open spec fn lm_identical_events(p: PlaylistInfo, t: PlaylistInfo) -> Seq<
    (EventSeverity, EventV),
> {
    if t.body_hash() == p.body_hash() && t.last_modified() is Some && p.last_modified() is Some
        && t.last_modified() != p.last_modified() {
        seq![
            (
                EventSeverity::Warning,
                EventV::LastModifiedChangedButBodiesIdentical {
                    delta: spec_delta(p.href, t.href),
                    this_last_modified: t.last_modified()->Some_0,
                    last_last_modified: p.last_modified()->Some_0,
                },
            ),
        ]
    } else {
        Seq::empty()
    }
}

/// The warning when both cache validators matched the previous
/// response yet the server answered with a full body instead of 304.
pub open spec fn missed_304_events(p: PlaylistInfo, t: PlaylistInfo) -> Seq<
    (EventSeverity, EventV),
> {
    if t.resp().status != 304 && (p.etag() is Some || p.last_modified() is Some) && t.etag()
        == p.etag() && t.last_modified() == p.last_modified() {
        seq![
            (
                EventSeverity::Warning,
                EventV::MissedLastModifiedResponse {
                    delta: spec_delta(p.href, t.href),
                    this_last_modified: t.last_modified(),
                    last_last_modified: p.last_modified(),
                    this_etag: t.etag(),
                    last_etag: p.etag(),
                },
            ),
        ]
    } else {
        Seq::empty()
    }
}

/// The update checks run between two snapshots once both exist,
/// after the endlist check: a media-sequence regression or a segment
/// truncation each end the tick early; otherwise the history,
/// staleness and daterange checks run.
pub open spec fn update_tail_events(
    p: PlaylistInfo,
    t: PlaylistInfo,
    since: usize,
    fresh: Option<HttpRef>,
    fmsn: Option<usize>,
) -> Seq<(EventSeverity, EventV)> {
    let d = spec_delta(p.href, t.href);
    if p.playlist.media_sequence > t.playlist.media_sequence {
        seq![
            (
                EventSeverity::Error,
                EventV::MsnGoneBackwards {
                    delta: d,
                    last_msn: p.playlist.media_sequence,
                    this_msn: t.playlist.media_sequence,
                },
            ),
        ]
    } else {
        let pl = p.last_msn();
        let tl = t.last_msn();
        if pl > tl {
            seq![
                (
                    if pl - tl > 1 {
                        EventSeverity::Error
                    } else {
                        EventSeverity::Warning
                    },
                    EventV::LiveSegmentsRemoved {
                        delta: d,
                        last_msn: pl,
                        this_msn: tl,
                        removed_count: (pl - tl) as usize,
                    },
                ),
            ]
        } else {
            history_events(
                d,
                p.playlist.segments@,
                t.playlist.segments@,
                t.playlist.media_sequence - p.playlist.media_sequence,
            ) + stale_events(since, fresh, fmsn, t) + daterange_events(
                t.href,
                t.playlist.segments@,
                pl,
            )
        }
    }
}

/// Whether the tick reaches the history/staleness/timeline branch.
pub open spec fn sane_update(p: PlaylistInfo, t: PlaylistInfo) -> bool {
    p.playlist.media_sequence <= t.playlist.media_sequence && p.last_msn() <= t.last_msn()
}

/// All events of one update tick (both snapshots exist).
pub open spec fn update_events(
    p: PlaylistInfo,
    t: PlaylistInfo,
    since: usize,
    fresh: Option<HttpRef>,
    fmsn: Option<usize>,
) -> Seq<(EventSeverity, EventV)> {
    endlist_events(p, t) + update_tail_events(p, t, since, fresh, fmsn) + lm_identical_events(
        p,
        t,
    ) + missed_304_events(p, t)
}

/// The error when the first snapshot's Content-Type is not the HLS
/// media type.
pub open spec fn content_type_events(t: PlaylistInfo) -> Seq<(EventSeverity, EventV)> {
    if t.content_type() != Some(ascii_bytes("application/vnd.apple.mpegurl"@)) {
        seq![
            (
                EventSeverity::Error,
                EventV::IncorrectContentType { req_id: t.href, content_type: t.content_type() },
            ),
        ]
    } else {
        Seq::empty()
    }
}

/// All events of the first snapshot's checks.
pub open spec fn initial_events(t: PlaylistInfo) -> Seq<(EventSeverity, EventV)> {
    content_type_events(t) + daterange_events(t.href, t.playlist.segments@, 0)
}

/// The warning when the `Age` header exceeds the target duration.
pub open spec fn age_events(t: PlaylistInfo) -> Seq<(EventSeverity, EventV)> {
    match spec_header_get(t.hdrs(), ascii_bytes("age"@)) {
        Some(v) => match spec_parse_u64(v) {
            Some(age) => if age * 1000 > t.playlist.target_duration_millis {
                seq![
                    (
                        EventSeverity::Warning,
                        EventV::CachedTooLong {
                            req_id: t.href,
                            age,
                            target_duration: (t.playlist.target_duration_millis / 1000) as u64,
                        },
                    ),
                ]
            } else {
                Seq::empty()
            },
            None => Seq::empty(),
        },
        None => Seq::empty(),
    }
}

/// The error when the reload took at least as long as the target
/// duration.
pub open spec fn slow_events(t: PlaylistInfo, total_time_millis: u64) -> Seq<
    (EventSeverity, EventV),
> {
    if total_time_millis >= t.playlist.target_duration_millis {
        seq![
            (
                EventSeverity::Error,
                EventV::SlowMediaManifestResponse {
                    req_id: t.href,
                    response_time_millis: total_time_millis,
                    target_duration_millis: t.playlist.target_duration_millis,
                },
            ),
        ]
    } else {
        Seq::empty()
    }
}

/// The info event when `EXT-X-ENDLIST` is first observed.
pub open spec fn end_events(t: PlaylistInfo, ended: bool) -> Seq<(EventSeverity, EventV)> {
    if t.playlist.has_end_list && !ended {
        seq![(EventSeverity::Info, EventV::End { req_id: t.href })]
    } else {
        Seq::empty()
    }
}

/// Every event of one `next_playlist` call, in emission order.
pub open spec fn next_playlist_events(
    prev: Option<PlaylistInfo>,
    since: usize,
    fresh: Option<HttpRef>,
    fmsn: Option<usize>,
    ended: bool,
    t: PlaylistInfo,
    total_time_millis: u64,
) -> Seq<(EventSeverity, EventV)> {
    (match prev {
        Some(p) => invariant_prop_events(p, t) + update_events(p, t, since, fresh, fmsn),
        None => initial_events(t),
    }) + age_events(t) + slow_events(t, total_time_millis) + end_events(t, ended)
}

/// The metric samples of one `next_playlist` call: the regression
/// distance when the media sequence number went backwards, zero
/// otherwise, and nothing on the first snapshot.
pub open spec fn next_playlist_metric(prev: Option<PlaylistInfo>, t: PlaylistInfo) -> Seq<u64> {
    match prev {
        Some(p) => if p.playlist.media_sequence > t.playlist.media_sequence {
            seq![(p.playlist.media_sequence - t.playlist.media_sequence) as u64]
        } else {
            seq![0u64]
        },
        None => Seq::empty(),
    }
}

/// The timeline after a sane update tick: drop everything older than
/// the new first MSN, then append the genuinely new segments.
///
/// When an earlier regression or truncation tick left the retained
/// numbering incompatible with the timeline (those ticks skip the
/// timeline update), appending would violate the timeline's span
/// invariant; the timeline is deliberately reseeded from the new
/// snapshot instead, exactly as the very first snapshot seeds it.
pub open spec fn updated_timeline(
    tl: Seq<crate::timeline::Sequence>,
    p: PlaylistInfo,
    t: PlaylistInfo,
) -> Seq<crate::timeline::Sequence> {
    let segs = t.playlist.segments@;
    let tl1 = spec_remove_older(tl, t.playlist.media_sequence);
    let skip = if p.last_msn() >= t.playlist.media_sequence {
        1 + p.last_msn() - t.playlist.media_sequence
    } else {
        0
    };
    if skip >= segs.len() {
        tl1
    } else if tl1.len() == 0 {
        push_marks(tl1, segs, skip)
    } else if segs[skip].msn == tl1.last().last_msn + 1 {
        push_marks(tl1, segs, skip)
    } else {
        push_marks(Seq::empty(), segs, 0)
    }
}

/// The checker's record of the last reload failure, for demoting
/// repeats of the same failure to warnings.
#[derive(Clone, Copy, Debug, PartialEq, Eq, Structural)]
pub enum LastError {
    NoError,
    HttpError(u16),
    Timeout,
}

/// The response headers behind a snapshot.
fn resp_headers<'a>(pi: &'a PlaylistInfo) -> (r: &'a crate::headers::Headers)
    requires
        pi.href.spec_info().response is Ok,
    ensures
        *r == pi.resp().headers,
{
    match &pi.href.info().response {
        Ok(resp) => &resp.headers,
        Err(_) => unreached(),
    }
}

/// A snapshot's header value by lower-case ASCII name.
fn snapshot_header<'a>(pi: &'a PlaylistInfo, name: &str) -> (r: Option<&'a Vec<u8>>)
    requires
        pi.href.spec_info().response is Ok,
        name.is_ascii(),
    ensures
        match r {
            Some(v) => spec_header_get(pi.hdrs(), ascii_bytes(name@)) == Some(v@),
            None => spec_header_get(pi.hdrs(), ascii_bytes(name@)) is None,
        },
{
    let bytes = str_bytes(name);
    resp_headers(pi).get(bytes.as_slice())
}

/// Copy an optional byte string out of a header lookup.
fn copy_opt(o: Option<&Vec<u8>>) -> (r: Option<Vec<u8>>)
    ensures
        crate::events::view_opt_bytes(r) == match o {
            Some(v) => Some::<Seq<u8>>(v@),
            None => None::<Seq<u8>>,
        },
{
    match o {
        Some(v) => Some(copy_bytes(v.as_slice())),
        None => None,
    }
}

/// Equality of two optional byte strings, by content.
fn opt_bytes_eq(a: Option<&Vec<u8>>, b: Option<&Vec<u8>>) -> (r: bool)
    ensures
        r == ((match a {
            Some(v) => Some::<Seq<u8>>(v@),
            None => None::<Seq<u8>>,
        }) == (match b {
            Some(v) => Some::<Seq<u8>>(v@),
            None => None::<Seq<u8>>,
        })),
{
    match (a, b) {
        (Some(x), Some(y)) => bytes_eq(x.as_slice(), y.as_slice()),
        (None, None) => true,
        _ => false,
    }
}

/// Emit errors if whole-playlist properties that are fixed for the
/// stream lifetime are seen to change between two live snapshots.
fn check_invariant_properties(log: &mut EventLog, prev: &PlaylistInfo, this: &PlaylistInfo)
    requires
        prev.wf(),
        this.wf(),
    ensures
        final(log)@ == old(log)@ + invariant_prop_events(*prev, *this),
{
    let ghost l0: Seq<(EventSeverity, EventV)> = log@;
    if prev.playlist.has_i_frames_only != this.playlist.has_i_frames_only {
        if prev.playlist.has_i_frames_only {
            log.error(HlsEvent::UnexpectedPlaylistPropertyRemoval {
                delta: delta(&prev.href, &this.href),
                name: "EXT-X-I-FRAMES-ONLY",
            });
        } else {
            log.error(HlsEvent::UnexpectedPlaylistPropertyAddition {
                delta: delta(&prev.href, &this.href),
                name: "EXT-X-I-FRAMES-ONLY",
            });
        }
    }
    if prev.playlist.has_independent_segments != this.playlist.has_independent_segments {
        if prev.playlist.has_independent_segments {
            log.error(HlsEvent::UnexpectedPlaylistPropertyRemoval {
                delta: delta(&prev.href, &this.href),
                name: "ext-x-independent-segments",
            });
        } else {
            log.error(HlsEvent::UnexpectedPlaylistPropertyAddition {
                delta: delta(&prev.href, &this.href),
                name: "ext-x-independent-segments",
            });
        }
    }
    if prev.playlist.target_duration_millis != this.playlist.target_duration_millis {
        log.error(HlsEvent::TargetDurationChanged {
            delta: delta(&prev.href, &this.href),
            last_target_duration_millis: prev.playlist.target_duration_millis,
            this_target_duration_millis: this.playlist.target_duration_millis,
        });
    }
    proof {
        reveal_strlit("content-type");
    }
    let prev_ct = snapshot_header(prev, "content-type");
    let this_ct = snapshot_header(this, "content-type");
    if !opt_bytes_eq(prev_ct, this_ct) {
        log.error(HlsEvent::ContentTypeChanged {
            delta: delta(&prev.href, &this.href),
            last_content_type: copy_opt(prev_ct),
            this_content_type: copy_opt(this_ct),
        });
    }
    proof {
        assert(log@ =~= l0 + invariant_prop_events(*prev, *this));
    }
}

/// The textual form of an `EXT-X-BYTERANGE`.
fn fmt_byte_range_exec(br: &ByteRange) -> (r: Vec<u8>)
    ensures
        r@ == fmt_byte_range(*br),
{
    let mut v = u64_to_dec(br.length);
    if let Some(s) = br.start {
        v.push(0x40);
        let mut tail = u64_to_dec(s);
        v.append(&mut tail);
        proof {
            assert(v@ =~= fmt_byte_range(*br));
        }
    }
    v
}

/// The textual form of an optional byte range.
fn fmt_opt_byte_range_exec(o: &Option<ByteRange>) -> (r: Option<Vec<u8>>)
    ensures
        crate::events::view_opt_bytes(r) == fmt_opt_byte_range(*o),
{
    match o {
        Some(br) => Some(fmt_byte_range_exec(br)),
        None => None,
    }
}

/// Compare one segment as the two snapshots describe it.
fn check_segment_invariant(
    log: &mut EventLog,
    prev_href: &HttpRef,
    this_href: &HttpRef,
    last_seg: &MediaSegment,
    this_seg: &MediaSegment,
)
    ensures
        final(log)@ == old(log)@ + seg_pair_events(
            spec_delta(*prev_href, *this_href),
            *last_seg,
            *this_seg,
        ),
{
    let ghost l0: Seq<(EventSeverity, EventV)> = log@;
    if !bytes_eq(last_seg.uri.as_slice(), this_seg.uri.as_slice()) {
        log.error(HlsEvent::ManifestHistoryChangedUri {
            delta: delta(prev_href, this_href),
            msn: this_seg.msn,
            last_uri: copy_bytes(last_seg.uri.as_slice()),
            this_uri: copy_bytes(this_seg.uri.as_slice()),
        });
        proof {
            assert(log@ =~= l0 + seg_pair_events(
                spec_delta(*prev_href, *this_href),
                *last_seg,
                *this_seg,
            ));
        }
        return ;
    }
    if last_seg.has_discontinuity != this_seg.has_discontinuity {
        if this_seg.has_discontinuity {
            log.error(HlsEvent::ManifestHistoryAddedDiscontinuity {
                delta: delta(prev_href, this_href),
                msn: this_seg.msn,
            });
        } else {
            log.error(HlsEvent::ManifestHistoryRemovedDiscontinuity {
                delta: delta(prev_href, this_href),
                msn: this_seg.msn,
            });
        }
    }
    if last_seg.duration_millis != this_seg.duration_millis {
        log.error(HlsEvent::ManifestHistoryChangedSegmentDuration {
            delta: delta(prev_href, this_href),
            msn: this_seg.msn,
            last_duration_millis: last_seg.duration_millis,
            this_duration_millis: this_seg.duration_millis,
        });
    }
    let br_differ = match (&last_seg.byte_range, &this_seg.byte_range) {
        (Some(a), Some(b)) => !(a.length == b.length && a.start == b.start),
        (None, None) => false,
        _ => true,
    };
    if br_differ {
        log.error(HlsEvent::ManifestHistoryChangedSegmentByterange {
            delta: delta(prev_href, this_href),
            msn: this_seg.msn,
            last_byterange: fmt_opt_byte_range_exec(&last_seg.byte_range),
            this_byterange: fmt_opt_byte_range_exec(&this_seg.byte_range),
        });
    }
    proof {
        assert(log@ =~= l0 + seg_pair_events(
            spec_delta(*prev_href, *this_href),
            *last_seg,
            *this_seg,
        ));
    }
}

/// Walk the overlap of the two snapshots' segment lists and compare
/// each pair that claims the same media sequence number.
fn check_manifest_history_invariant(log: &mut EventLog, prev: &PlaylistInfo, this: &PlaylistInfo)
    requires
        prev.wf(),
        this.wf(),
        prev.playlist.media_sequence <= this.playlist.media_sequence,
    ensures
        final(log)@ == old(log)@ + history_events(
            spec_delta(prev.href, this.href),
            prev.playlist.segments@,
            this.playlist.segments@,
            this.playlist.media_sequence - prev.playlist.media_sequence,
        ),
{
    let ghost l0: Seq<(EventSeverity, EventV)> = log@;
    let ghost d = spec_delta(prev.href, this.href);
    let ghost ps = prev.playlist.segments@;
    let ghost ts = this.playlist.segments@;
    let skip: usize = this.playlist.media_sequence - prev.playlist.media_sequence;
    let n: usize = if prev.playlist.segments.len() > skip {
        let avail = prev.playlist.segments.len() - skip;
        if avail < this.playlist.segments.len() {
            avail
        } else {
            this.playlist.segments.len()
        }
    } else {
        0
    };
    proof {
        assert(n as int == pair_count(ps.len() as int, ts.len() as int, skip as int));
    }
    let mut i: usize = 0;
    while i < n
        invariant
            0 <= i <= n,
            n == 0 || n + skip <= ps.len(),
            ps.len() <= usize::MAX,
            n <= ts.len(),
            ps == prev.playlist.segments@,
            ts == this.playlist.segments@,
            log@ == l0 + history_events_upto(d, ps, ts, skip as int, i as int),
            d == spec_delta(prev.href, this.href),
        decreases n - i,
    {
        check_segment_invariant(
            log,
            &prev.href,
            &this.href,
            &prev.playlist.segments[skip + i],
            &this.playlist.segments[i],
        );
        proof {
            assert(log@ =~= l0 + history_events_upto(d, ps, ts, skip as int, i + 1));
        }
        i = i + 1;
    }
}

/// Track whether the playlist has advanced; report a stale playlist
/// once more than one reload brought nothing new.
fn check_stale(
    log: &mut EventLog,
    since: &mut usize,
    fresh: &mut Option<HttpRef>,
    fmsn: &mut Option<usize>,
    this: &PlaylistInfo,
)
    requires
        this.wf(),
        *old(fmsn) is Some ==> *old(fresh) is Some,
    ensures
        final(log)@ == old(log)@ + stale_events(*old(since), *old(fresh), *old(fmsn), *this),
        *final(since) == stale_since_after(*old(since), *old(fmsn), *this),
        *final(fresh) == stale_fresh_after(*old(fresh), *old(fmsn), *this),
        *final(fmsn) == Some(this.last_msn()),
{
    let this_msn = match this.playlist.last_msn() {
        Some(m) => m,
        None => unreached(),
    };
    if let Some(f) = *fmsn {
        if f >= this_msn {
            if *since > 1 {
                let fresh_ref = match fresh {
                    Some(r) => r.clone(),
                    None => unreached(),
                };
                let ev = HlsEvent::ManifestStale {
                    delta: delta(&fresh_ref, &this.href),
                    since_list_update: *since,
                };
                if *since > 2 {
                    log.error(ev);
                } else {
                    log.warning(ev);
                }
            }
        } else {
            *since = 0;
            *fresh = Some(this.href.clone());
        }
    }
    if *since < usize::MAX {
        *since = *since + 1;
    }
    *fmsn = Some(this_msn);
}

/// Bring the timeline up to date with the new snapshot: drop content
/// older than the new first MSN and append the new segments.  When
/// an earlier regression or truncation tick left the numbering
/// incompatible with the timeline, the timeline is reseeded from
/// the snapshot, as [`updated_timeline`] lays out.
#[verifier::rlimit(60)]
fn update_timeline(timeline: &mut Timeline, prev: &PlaylistInfo, this: &PlaylistInfo)
    requires
        old(timeline).wf(),
        prev.wf(),
        this.wf(),
        sane_update(*prev, *this),
    ensures
        final(timeline).wf(),
        final(timeline)@ == updated_timeline(old(timeline)@, *prev, *this),
{
    timeline.remove_older_than(this.playlist.media_sequence);
    let end_msn = match prev.playlist.last_msn() {
        Some(m) => m,
        None => unreached(),
    };
    let prev_len = prev.playlist.segments.len();
    proof {
        assert(prev.playlist.segments@[prev_len - 1].msn == prev.playlist.media_sequence
            + prev_len - 1);
        assert(end_msn == prev.playlist.media_sequence + prev_len - 1);
    }
    let skip: usize = if end_msn >= this.playlist.media_sequence {
        (end_msn - this.playlist.media_sequence) + 1
    } else {
        0
    };
    if skip < this.playlist.segments.len() {
        proof {
            assert(forall|i: int|
                0 <= i < this.playlist.segments@.len() ==> (#[trigger] this.playlist.segments@[i]).msn
                    == this.playlist.media_sequence + i);
        }
        match timeline.end_msn() {
            None => {
                timeline.append_new_segments(&this.playlist.segments, skip);
            },
            Some(e) => {
                if e < usize::MAX && this.playlist.segments[skip].msn == e + 1 {
                    timeline.append_new_segments(&this.playlist.segments, skip);
                } else {
                    let mut reseeded = Timeline::new();
                    reseeded.append_new_segments(&this.playlist.segments, 0);
                    *timeline = reseeded;
                }
            },
        }
    }
}

/// The most recent daterange with this id among the segments before
/// index `i`.
fn find_prev_range<'a>(segs: &'a Vec<MediaSegment>, i: usize, id: &Vec<u8>) -> (r: Option<
    &'a DateRange,
>)
    requires
        i <= segs@.len(),
    ensures
        match r {
            Some(pd) => last_range_before(segs@, i as int, id@) == Some(*pd),
            None => last_range_before(segs@, i as int, id@) is None,
        },
{
    let mut j: usize = i;
    while j > 0
        invariant
            0 <= j <= i <= segs@.len(),
            last_range_before(segs@, i as int, id@) == last_range_before(segs@, j as int, id@),
        decreases j,
    {
        j = j - 1;
        if let Some(dr) = &segs[j].date_range {
            if bytes_eq(dr.id.as_slice(), id.as_slice()) {
                return Some(dr);
            }
        }
    }
    None
}

/// Report one changed duration attribute of a daterange.
fn emit_dur_attr(
    log: &mut EventLog,
    href: &HttpRef,
    id: &Vec<u8>,
    name: &'static str,
    this_millis: Option<u64>,
    prev_millis: Option<u64>,
)
    ensures
        final(log)@ == old(log)@ + dur_attr_events(*href, id@, name@, this_millis, prev_millis),
{
    let ghost l0: Seq<(EventSeverity, EventV)> = log@;
    if let (Some(td), Some(pd)) = (this_millis, prev_millis) {
        if td != pd {
            log.error(HlsEvent::DaterangeAttributeChanged {
                req_id: href.clone(),
                daterange_id: copy_bytes(id.as_slice()),
                attr_name: name,
                prev_value: millis_as_secs(pd),
                this_value: millis_as_secs(td),
            });
        }
    }
    proof {
        assert(log@ =~= l0 + dur_attr_events(*href, id@, name@, this_millis, prev_millis));
    }
}

/// Report one changed date attribute of a daterange.
fn emit_date_attr(
    log: &mut EventLog,
    href: &HttpRef,
    id: &Vec<u8>,
    name: &'static str,
    this_date: Option<crate::dates::Timestamp>,
    prev_date: Option<crate::dates::Timestamp>,
)
    ensures
        final(log)@ == old(log)@ + date_attr_events(*href, id@, name@, this_date, prev_date),
{
    let ghost l0: Seq<(EventSeverity, EventV)> = log@;
    if let (Some(ts), Some(ps)) = (this_date, prev_date) {
        if ts.epoch_millis != ps.epoch_millis {
            log.error(HlsEvent::DaterangeAttributeChanged {
                req_id: href.clone(),
                daterange_id: copy_bytes(id.as_slice()),
                attr_name: name,
                prev_value: crate::dates::format_rfc3339(&ps),
                this_value: crate::dates::format_rfc3339(&ts),
            });
        }
    }
    proof {
        assert(log@ =~= l0 + date_attr_events(*href, id@, name@, this_date, prev_date));
    }
}

/// Report one changed textual attribute of a daterange.
fn emit_text_attr(
    log: &mut EventLog,
    href: &HttpRef,
    id: &Vec<u8>,
    name: &'static str,
    this_text: &Option<Vec<u8>>,
    prev_text: &Option<Vec<u8>>,
)
    ensures
        final(log)@ == old(log)@ + text_attr_events(*href, id@, name@, *this_text, *prev_text),
{
    let ghost l0: Seq<(EventSeverity, EventV)> = log@;
    if let (Some(tc), Some(pc)) = (this_text, prev_text) {
        if !bytes_eq(tc.as_slice(), pc.as_slice()) {
            log.error(HlsEvent::DaterangeAttributeChanged {
                req_id: href.clone(),
                daterange_id: copy_bytes(id.as_slice()),
                attr_name: name,
                prev_value: copy_bytes(pc.as_slice()),
                this_value: copy_bytes(tc.as_slice()),
            });
        }
    }
    proof {
        assert(log@ =~= l0 + text_attr_events(*href, id@, name@, *this_text, *prev_text));
    }
}

/// Report every attribute that changed between two sightings of the
/// same daterange id.
#[verifier::rlimit(100)]
#[verifier::spinoff_prover]
fn check_daterange_attr_invariants(
    log: &mut EventLog,
    href: &HttpRef,
    this_range: &DateRange,
    last_range: &DateRange,
)
    ensures
        final(log)@ == old(log)@ + attr_events(*href, *this_range, *last_range),
{
    let ghost l0: Seq<(EventSeverity, EventV)> = log@;
    emit_dur_attr(
        log,
        href,
        &this_range.id,
        "DURATION",
        this_range.duration_millis,
        last_range.duration_millis,
    );
    emit_date_attr(
        log,
        href,
        &this_range.id,
        "START-DATE",
        this_range.start_date,
        last_range.start_date,
    );
    emit_dur_attr(
        log,
        href,
        &this_range.id,
        "PLANNED-DURATION",
        this_range.planned_duration_millis,
        last_range.planned_duration_millis,
    );
    emit_date_attr(log, href, &this_range.id, "END-DATE", this_range.end_date, last_range.end_date);
    emit_text_attr(
        log,
        href,
        &this_range.id,
        "SCTE-CMD",
        &this_range.scte35_cmd,
        &last_range.scte35_cmd,
    );
    emit_text_attr(
        log,
        href,
        &this_range.id,
        "SCTE-OUT",
        &this_range.scte35_out,
        &last_range.scte35_out,
    );
    emit_text_attr(
        log,
        href,
        &this_range.id,
        "SCTE-IN",
        &this_range.scte35_in,
        &last_range.scte35_in,
    );
    proof {
        assert(log@ =~= l0 + attr_events(*href, *this_range, *last_range));
    }
}

/// Scan the snapshot's dateranges: every id seen again past
/// `last_msn` must carry unchanged attributes.
fn check_daterange(log: &mut EventLog, last_msn: usize, this: &PlaylistInfo)
    ensures
        final(log)@ == old(log)@ + daterange_events(
            this.href,
            this.playlist.segments@,
            last_msn,
        ),
{
    let ghost l0: Seq<(EventSeverity, EventV)> = log@;
    let ghost segs = this.playlist.segments@;
    let mut i: usize = 0;
    while i < this.playlist.segments.len()
        invariant
            0 <= i <= segs.len(),
            segs == this.playlist.segments@,
            log@ == l0 + daterange_events_upto(this.href, segs, last_msn, i as int),
        decreases segs.len() - i,
    {
        let seg = &this.playlist.segments[i];
        if let Some(dr) = &seg.date_range {
            if seg.msn > last_msn {
                if let Some(pd) = find_prev_range(&this.playlist.segments, i, &dr.id) {
                    check_daterange_attr_invariants(log, &this.href, dr, pd);
                }
            }
        }
        proof {
            assert(log@ =~= l0 + daterange_events_upto(this.href, segs, last_msn, i + 1));
        }
        i = i + 1;
    }
}

/// Warn when two responses carried identical bodies but different
/// `Last-Modified` values.
fn check_last_modified_changed_but_bodies_identical(
    log: &mut EventLog,
    prev: &PlaylistInfo,
    this: &PlaylistInfo,
)
    requires
        prev.wf(),
        this.wf(),
    ensures
        final(log)@ == old(log)@ + lm_identical_events(*prev, *this),
{
    let ghost l0: Seq<(EventSeverity, EventV)> = log@;
    proof {
        reveal_strlit("last-modified");
    }
    let prev_hash = body_hash_exec(prev);
    let this_hash = body_hash_exec(this);
    if this_hash == prev_hash {
        let this_lm = snapshot_header(this, "last-modified");
        let prev_lm = snapshot_header(prev, "last-modified");
        if let (Some(t), Some(p)) = (this_lm, prev_lm) {
            if !bytes_eq(t.as_slice(), p.as_slice()) {
                log.warning(HlsEvent::LastModifiedChangedButBodiesIdentical {
                    delta: delta(&prev.href, &this.href),
                    this_last_modified: copy_bytes(t.as_slice()),
                    last_last_modified: copy_bytes(p.as_slice()),
                });
            }
        }
    }
    proof {
        assert(log@ =~= l0 + lm_identical_events(*prev, *this));
    }
}

/// Warn when the server sent a full body although both cache
/// validators still matched the previous response.
fn check_missed_not_modified_response(
    log: &mut EventLog,
    prev: &PlaylistInfo,
    this: &PlaylistInfo,
)
    requires
        prev.wf(),
        this.wf(),
    ensures
        final(log)@ == old(log)@ + missed_304_events(*prev, *this),
{
    let ghost l0: Seq<(EventSeverity, EventV)> = log@;
    proof {
        reveal_strlit("last-modified");
        reveal_strlit("etag");
    }
    let status = match &this.href.info().response {
        Ok(resp) => resp.status,
        Err(_) => unreached(),
    };
    let prev_etag = snapshot_header(prev, "etag");
    let prev_lm = snapshot_header(prev, "last-modified");
    if status != 304 && (prev_etag.is_some() || prev_lm.is_some()) {
        let this_etag = snapshot_header(this, "etag");
        let this_lm = snapshot_header(this, "last-modified");
        if opt_bytes_eq(this_etag, prev_etag) && opt_bytes_eq(this_lm, prev_lm) {
            log.warning(HlsEvent::MissedLastModifiedResponse {
                delta: delta(&prev.href, &this.href),
                this_last_modified: copy_opt(this_lm),
                last_last_modified: copy_opt(prev_lm),
                this_etag: copy_opt(this_etag),
                last_etag: copy_opt(prev_etag),
            });
        }
    }
    proof {
        assert(log@ =~= l0 + missed_304_events(*prev, *this));
    }
}

/// The body fingerprint behind a snapshot.
fn body_hash_exec(pi: &PlaylistInfo) -> (r: u64)
    requires
        pi.ok_resp(),
    ensures
        r == pi.body_hash(),
{
    match &pi.href.info().response {
        Ok(resp) => match &resp.body {
            Ok(b) => b.hash,
            Err(_) => unreached(),
        },
        Err(_) => unreached(),
    }
}

/// Warn when an HTTP cache reports having held the playlist longer
/// than its target duration.
fn check_headers(log: &mut EventLog, this: &PlaylistInfo)
    requires
        this.ok_resp(),
    ensures
        final(log)@ == old(log)@ + age_events(*this),
{
    let ghost l0: Seq<(EventSeverity, EventV)> = log@;
    proof {
        reveal_strlit("age");
    }
    let age_header = snapshot_header(this, "age");
    if let Some(v) = age_header {
        if let Some(age) = parse_u64_dec(v.as_slice()) {
            let td = this.playlist.target_duration_millis;
            let exceeded = if age > u64::MAX / 1000 {
                proof {
                    assert(age * 1000 > u64::MAX) by (nonlinear_arith)
                        requires
                            age > u64::MAX / 1000,
                    ;
                }
                true
            } else {
                proof {
                    assert(age * 1000 <= u64::MAX) by (nonlinear_arith)
                        requires
                            age <= u64::MAX / 1000,
                    ;
                }
                age * 1000 > td
            };
            if exceeded {
                log.warning(HlsEvent::CachedTooLong {
                    req_id: this.href.clone(),
                    age,
                    target_duration: td / 1000,
                });
            }
        }
    }
    proof {
        assert(log@ =~= l0 + age_events(*this));
    }
}

/// The checks run on the very first snapshot: the Content-Type must
/// be the HLS media type, and the daterange scan runs from MSN 0.
fn check_initial_configuration(log: &mut EventLog, this: &PlaylistInfo)
    requires
        this.ok_resp(),
    ensures
        final(log)@ == old(log)@ + initial_events(*this),
{
    let ghost l0: Seq<(EventSeverity, EventV)> = log@;
    proof {
        reveal_strlit("content-type");
        reveal_strlit("application/vnd.apple.mpegurl");
    }
    let ct = snapshot_header(this, "content-type");
    let expected = str_bytes("application/vnd.apple.mpegurl");
    let matches_expected = match ct {
        Some(v) => bytes_eq(v.as_slice(), expected.as_slice()),
        None => false,
    };
    if !matches_expected {
        log.error(HlsEvent::IncorrectContentType {
            req_id: this.href.clone(),
            content_type: copy_opt(ct),
        });
    }
    check_daterange(log, 0, this);
    proof {
        assert(log@ =~= l0 + initial_events(*this));
    }
}


/// Run the update checks between the retained snapshot and a fresh
/// one: the endlist check, the media-sequence and truncation guards,
/// and (when the numbering is sane) the history, staleness, timeline
/// and daterange checks, followed by the cache-validator checks.
#[verifier::rlimit(100)]
#[verifier::spinoff_prover]
fn check_update(
    log: &mut EventLog,
    msn_regression: &mut Vec<u64>,
    timeline: &mut Timeline,
    since: &mut usize,
    fresh: &mut Option<HttpRef>,
    fmsn: &mut Option<usize>,
    prev: &PlaylistInfo,
    this: &PlaylistInfo,
)
    requires
        prev.wf(),
        this.wf(),
        old(timeline).wf(),
        *old(fmsn) is Some ==> *old(fresh) is Some,
    ensures
        final(log)@ == old(log)@ + update_events(*prev, *this, *old(since), *old(fresh), *old(fmsn)),
        final(msn_regression)@ == old(msn_regression)@ + next_playlist_metric(
            Some(*prev),
            *this,
        ),
        final(timeline).wf(),
        sane_update(*prev, *this) ==> final(timeline)@ == updated_timeline(
            old(timeline)@,
            *prev,
            *this,
        ) && *final(since) == stale_since_after(*old(since), *old(fmsn), *this) && *final(fresh)
            == stale_fresh_after(*old(fresh), *old(fmsn), *this) && *final(fmsn) == Some(
            this.last_msn(),
        ),
        !sane_update(*prev, *this) ==> final(timeline)@ == old(timeline)@ && *final(since) == *old(
            since,
        ) && *final(fresh) == *old(fresh) && *final(fmsn) == *old(fmsn),
{
    let ghost l0: Seq<(EventSeverity, EventV)> = log@;
    let ghost e_end = endlist_events(*prev, *this);
    let ghost e_tail = update_tail_events(*prev, *this, *old(since), *old(fresh), *old(fmsn));
    let ghost e_lm = lm_identical_events(*prev, *this);
    let ghost e_missed = missed_304_events(*prev, *this);
    if prev.playlist.has_end_list && !this.playlist.has_end_list {
        log.warning(HlsEvent::EndListTagRemoved);
    }
    proof {
        assert(log@ =~= l0 + e_end);
    }
    if prev.playlist.media_sequence > this.playlist.media_sequence {
        let regression = prev.playlist.media_sequence - this.playlist.media_sequence;
        msn_regression.push(regression as u64);
        log.error(HlsEvent::MsnGoneBackwards {
            delta: delta(&prev.href, &this.href),
            last_msn: prev.playlist.media_sequence,
            this_msn: this.playlist.media_sequence,
        });
    } else {
        msn_regression.push(0);
        let last_msn = match prev.playlist.last_msn() {
            Some(m) => m,
            None => unreached(),
        };
        let this_msn = match this.playlist.last_msn() {
            Some(m) => m,
            None => unreached(),
        };
        if last_msn > this_msn {
            let removed_count = last_msn - this_msn;
            let event = HlsEvent::LiveSegmentsRemoved {
                delta: delta(&prev.href, &this.href),
                last_msn,
                this_msn,
                removed_count,
            };
            if removed_count > 1 {
                log.error(event);
            } else {
                log.warning(event);
            }
        } else {
            check_manifest_history_invariant(log, prev, this);
            check_stale(log, since, fresh, fmsn, this);
            update_timeline(timeline, prev, this);
            check_daterange(log, last_msn, this);
        }
    }
    proof {
        assert(log@ =~= l0 + e_end + e_tail);
    }
    check_last_modified_changed_but_bodies_identical(log, prev, this);
    check_missed_not_modified_response(log, prev, this);
    proof {
        assert(log@ =~= l0 + e_end + e_tail + e_lm + e_missed);
        assert(log@ =~= l0 + update_events(*prev, *this, *old(since), *old(fresh), *old(fmsn)));
    }
}

/// The per-media-playlist conformance checker.  It retains the last
/// snapshot, the rolling [`Timeline`] and the staleness counters, and
/// records findings and media-sequence-regression samples for the
/// embedding to drain.
pub struct MediaPlaylistCheck {
    log: EventLog,
    last_playlist: Option<PlaylistInfo>,
    timeline: Timeline,
    since_last_update: usize,
    last_fresh_playlist_req: Option<HttpRef>,
    final_msn: Option<usize>,
    ended: bool,
    msn_regression: Vec<u64>,
    last_error: LastError,
}

impl MediaPlaylistCheck {
    /// The emitted events not yet drained.
    pub closed spec fn spec_log(self) -> Seq<(EventSeverity, EventV)> {
        self.log@
    }

    /// The retained snapshot.
    pub closed spec fn spec_last_playlist(self) -> Option<PlaylistInfo> {
        self.last_playlist
    }

    /// The timeline spans.
    pub closed spec fn spec_timeline(self) -> Seq<crate::timeline::Sequence> {
        self.timeline@
    }

    /// Consecutive reloads without a new segment.
    pub closed spec fn spec_since_last_update(self) -> usize {
        self.since_last_update
    }

    /// The transaction that last advanced the playlist.
    pub closed spec fn spec_last_fresh(self) -> Option<HttpRef> {
        self.last_fresh_playlist_req
    }

    /// The last observed terminal media sequence number.
    pub closed spec fn spec_final_msn(self) -> Option<usize> {
        self.final_msn
    }

    /// Whether `EXT-X-ENDLIST` has been observed.
    pub closed spec fn spec_ended(self) -> bool {
        self.ended
    }

    /// The regression metric samples not yet drained.
    pub closed spec fn spec_metric(self) -> Seq<u64> {
        self.msn_regression@
    }

    /// The last reload failure.
    pub closed spec fn spec_last_error(self) -> LastError {
        self.last_error
    }

    /// The checker invariant: the timeline is well formed (and empty
    /// before the first snapshot), and every retained snapshot is one
    /// the checker can keep analysing.
    pub open spec fn wf(self) -> bool {
        &&& crate::timeline::seq_wf(self.spec_timeline())
        &&& self.spec_last_playlist() is None ==> self.spec_timeline() == Seq::<
            crate::timeline::Sequence,
        >::empty()
        &&& self.spec_last_playlist() matches Some(pi) ==> pi.ok_resp() && self.spec_last_fresh() is Some
    }

    pub fn new() -> (r: MediaPlaylistCheck)
        ensures
            r.wf(),
            r.spec_log() =~= Seq::<(EventSeverity, EventV)>::empty(),
            r.spec_last_playlist() is None,
            r.spec_timeline() =~= Seq::<crate::timeline::Sequence>::empty(),
            r.spec_since_last_update() == 0,
            r.spec_last_fresh() is None,
            r.spec_final_msn() is None,
            !r.spec_ended(),
            r.spec_metric() =~= Seq::<u64>::empty(),
            r.spec_last_error() == LastError::NoError,
    {
        MediaPlaylistCheck {
            log: EventLog::new(),
            last_playlist: None,
            timeline: Timeline::new(),
            since_last_update: 0,
            last_fresh_playlist_req: None,
            final_msn: None,
            ended: false,
            msn_regression: Vec::new(),
            last_error: LastError::NoError,
        }
    }

    /// A reload came back 304 Not Modified: count it against
    /// staleness, nothing else.
    pub fn not_modified(&mut self)
        requires
            old(self).wf(),
        ensures
            final(self).wf(),
            final(self).spec_since_last_update() == inc_sat(old(self).spec_since_last_update()),
            final(self).spec_log() == old(self).spec_log(),
            final(self).spec_last_playlist() == old(self).spec_last_playlist(),
            final(self).spec_timeline() == old(self).spec_timeline(),
            final(self).spec_last_fresh() == old(self).spec_last_fresh(),
            final(self).spec_final_msn() == old(self).spec_final_msn(),
            final(self).spec_ended() == old(self).spec_ended(),
            final(self).spec_metric() == old(self).spec_metric(),
            final(self).spec_last_error() == old(self).spec_last_error(),
    {
        if self.since_last_update < usize::MAX {
            self.since_last_update = self.since_last_update + 1;
        }
    }

    /// A reload failed with an HTTP error status.  The first failure
    /// is an error; an immediate repeat of the identical status is
    /// demoted to a warning.
    pub fn error_status(&mut self, href: HttpRef, status: u16)
        requires
            old(self).wf(),
        ensures
            final(self).wf(),
            final(self).spec_log() == old(self).spec_log().push(
                (
                    if old(self).spec_last_error() == LastError::HttpError(status) {
                        EventSeverity::Warning
                    } else {
                        EventSeverity::Error
                    },
                    EventV::HttpErrorStatus { req_id: href, status_code: status },
                ),
            ),
            final(self).spec_last_error() == LastError::HttpError(status),
            final(self).spec_last_playlist() == old(self).spec_last_playlist(),
            final(self).spec_timeline() == old(self).spec_timeline(),
            final(self).spec_since_last_update() == old(self).spec_since_last_update(),
            final(self).spec_last_fresh() == old(self).spec_last_fresh(),
            final(self).spec_final_msn() == old(self).spec_final_msn(),
            final(self).spec_ended() == old(self).spec_ended(),
            final(self).spec_metric() == old(self).spec_metric(),
    {
        let evt = HlsEvent::HttpErrorStatus { req_id: href, status_code: status };
        let repeat = match self.last_error {
            LastError::HttpError(e) => e == status,
            _ => false,
        };
        if repeat {
            self.log.warning(evt);
        } else {
            self.log.error(evt);
        }
        self.last_error = LastError::HttpError(status);
    }

    /// A reload timed out.  The first timeout is an error; an
    /// immediate repeat is demoted to a warning.
    pub fn timeout(&mut self, req: HttpRef)
        requires
            old(self).wf(),
        ensures
            final(self).wf(),
            final(self).spec_log() == old(self).spec_log().push(
                (
                    if old(self).spec_last_error() == LastError::Timeout {
                        EventSeverity::Warning
                    } else {
                        EventSeverity::Error
                    },
                    EventV::HttpTimeout { req_id: req },
                ),
            ),
            final(self).spec_last_error() == LastError::Timeout,
            final(self).spec_last_playlist() == old(self).spec_last_playlist(),
            final(self).spec_timeline() == old(self).spec_timeline(),
            final(self).spec_since_last_update() == old(self).spec_since_last_update(),
            final(self).spec_last_fresh() == old(self).spec_last_fresh(),
            final(self).spec_final_msn() == old(self).spec_final_msn(),
            final(self).spec_ended() == old(self).spec_ended(),
            final(self).spec_metric() == old(self).spec_metric(),
    {
        let evt = HlsEvent::HttpTimeout { req_id: req };
        let repeat = match self.last_error {
            LastError::Timeout => true,
            _ => false,
        };
        if repeat {
            self.log.warning(evt);
        } else {
            self.log.error(evt);
        }
        self.last_error = LastError::Timeout;
    }

    /// A fresh snapshot arrived: run the initial or update checks,
    /// the response-header checks, and the slow-response and endlist
    /// observations, then retain the snapshot.
    ///
    /// Once `spec_ended()` is set it never becomes false again: a
    /// later snapshot without `EXT-X-ENDLIST` only draws the
    /// end-list-removed warning.
    #[verifier::rlimit(100)]
    #[verifier::spinoff_prover]
    pub fn next_playlist(&mut self, href: HttpRef, playlist: MediaPlaylist, total_time_millis: u64)
        requires
            old(self).wf(),
            (PlaylistInfo { playlist, href }).ok_resp(),
            old(self).spec_last_playlist() matches Some(p) ==> p.playlist.segments@.len() > 0
                && playlist.segments@.len() > 0,
        ensures
            final(self).wf(),
            final(self).spec_log() == old(self).spec_log() + next_playlist_events(
                old(self).spec_last_playlist(),
                old(self).spec_since_last_update(),
                old(self).spec_last_fresh(),
                old(self).spec_final_msn(),
                old(self).spec_ended(),
                (PlaylistInfo { playlist, href }),
                total_time_millis,
            ),
            final(self).spec_metric() == old(self).spec_metric() + next_playlist_metric(
                old(self).spec_last_playlist(),
                (PlaylistInfo { playlist, href }),
            ),
            final(self).spec_last_error() == LastError::NoError,
            final(self).spec_ended() == (old(self).spec_ended() || playlist.has_end_list),
            old(self).spec_ended() ==> final(self).spec_ended(),
            final(self).spec_last_playlist() == Some(PlaylistInfo { playlist, href }),
            final(self).spec_since_last_update() == (match old(self).spec_last_playlist() {
                Some(p) => if sane_update(p, (PlaylistInfo { playlist, href })) {
                    stale_since_after(
                        old(self).spec_since_last_update(),
                        old(self).spec_final_msn(),
                        (PlaylistInfo { playlist, href }),
                    )
                } else {
                    old(self).spec_since_last_update()
                },
                None => old(self).spec_since_last_update(),
            }),
            final(self).spec_last_fresh() == (match old(self).spec_last_playlist() {
                Some(p) => if sane_update(p, (PlaylistInfo { playlist, href })) {
                    stale_fresh_after(
                        old(self).spec_last_fresh(),
                        old(self).spec_final_msn(),
                        (PlaylistInfo { playlist, href }),
                    )
                } else {
                    old(self).spec_last_fresh()
                },
                None => Some(href),
            }),
            final(self).spec_final_msn() == (match old(self).spec_last_playlist() {
                Some(p) => if sane_update(p, (PlaylistInfo { playlist, href })) {
                    Some((PlaylistInfo { playlist, href }).last_msn())
                } else {
                    old(self).spec_final_msn()
                },
                None => old(self).spec_final_msn(),
            }),
            final(self).spec_timeline() == (match old(self).spec_last_playlist() {
                Some(p) => if sane_update(p, (PlaylistInfo { playlist, href })) {
                    updated_timeline(old(self).spec_timeline(), p, (PlaylistInfo { playlist, href }))
                } else {
                    old(self).spec_timeline()
                },
                None => push_marks(
                    Seq::<crate::timeline::Sequence>::empty(),
                    playlist.segments@,
                    0,
                ),
            }),
    {
        let ghost l0: Seq<(EventSeverity, EventV)> = self.log@;
        self.last_error = LastError::NoError;
        let this_info = PlaylistInfo { playlist, href };
        let ghost t = this_info;
        let ghost e_first = match old(self).spec_last_playlist() {
            Some(p) => invariant_prop_events(p, t) + update_events(
                p,
                t,
                old(self).spec_since_last_update(),
                old(self).spec_last_fresh(),
                old(self).spec_final_msn(),
            ),
            None => initial_events(t),
        };
        let mut prev: Option<PlaylistInfo> = None;
        core::mem::swap(&mut prev, &mut self.last_playlist);
        match prev {
            Some(prev) => {
                check_invariant_properties(&mut self.log, &prev, &this_info);
                check_update(
                    &mut self.log,
                    &mut self.msn_regression,
                    &mut self.timeline,
                    &mut self.since_last_update,
                    &mut self.last_fresh_playlist_req,
                    &mut self.final_msn,
                    &prev,
                    &this_info,
                );
            },
            None => {
                check_initial_configuration(&mut self.log, &this_info);
                self.timeline.append_new_segments(&this_info.playlist.segments, 0);
                self.last_fresh_playlist_req = Some(this_info.href.clone());
            },
        }
        proof {
            assert(self.log@ =~= l0 + e_first);
        }
        check_headers(&mut self.log, &this_info);
        if total_time_millis >= this_info.playlist.target_duration_millis {
            self.log.error(HlsEvent::SlowMediaManifestResponse {
                req_id: this_info.href.clone(),
                response_time_millis: total_time_millis,
                target_duration_millis: this_info.playlist.target_duration_millis,
            });
        }
        proof {
            assert(self.log@ =~= l0 + e_first + age_events(t) + slow_events(t, total_time_millis));
        }
        if this_info.playlist.has_end_list && !self.ended {
            self.log.info(HlsEvent::End { req_id: this_info.href.clone() });
            self.ended = true;
        }
        self.last_playlist = Some(this_info);
        proof {
            assert(self.log@ =~= l0 + next_playlist_events(
                old(self).spec_last_playlist(),
                old(self).spec_since_last_update(),
                old(self).spec_last_fresh(),
                old(self).spec_final_msn(),
                old(self).spec_ended(),
                t,
                total_time_millis,
            ));
        }
    }

    /// The events emitted so far and not yet drained.
    pub fn events(&self) -> (r: &Vec<(EventSeverity, HlsEvent)>)
        ensures
            crate::events::view_entries(r@) == self.spec_log(),
    {
        self.log.entries()
    }

    /// Hand the emitted events to the caller, leaving the log empty.
    pub fn drain_events(&mut self) -> (r: Vec<(EventSeverity, HlsEvent)>)
        requires
            old(self).wf(),
        ensures
            final(self).wf(),
            crate::events::view_entries(r@) == old(self).spec_log(),
            final(self).spec_log() =~= Seq::<(EventSeverity, EventV)>::empty(),
            final(self).spec_last_playlist() == old(self).spec_last_playlist(),
            final(self).spec_timeline() == old(self).spec_timeline(),
            final(self).spec_since_last_update() == old(self).spec_since_last_update(),
            final(self).spec_last_fresh() == old(self).spec_last_fresh(),
            final(self).spec_final_msn() == old(self).spec_final_msn(),
            final(self).spec_ended() == old(self).spec_ended(),
            final(self).spec_metric() == old(self).spec_metric(),
            final(self).spec_last_error() == old(self).spec_last_error(),
    {
        self.log.drain()
    }

    /// The regression metric samples recorded so far.
    pub fn msn_regression_samples(&self) -> (r: &Vec<u64>)
        ensures
            r@ == self.spec_metric(),
    {
        &self.msn_regression
    }

    /// Hand the metric samples to the caller, leaving the record
    /// empty.
    pub fn drain_metric(&mut self) -> (r: Vec<u64>)
        requires
            old(self).wf(),
        ensures
            final(self).wf(),
            r@ == old(self).spec_metric(),
            final(self).spec_metric() =~= Seq::<u64>::empty(),
            final(self).spec_log() == old(self).spec_log(),
            final(self).spec_last_playlist() == old(self).spec_last_playlist(),
            final(self).spec_timeline() == old(self).spec_timeline(),
            final(self).spec_since_last_update() == old(self).spec_since_last_update(),
            final(self).spec_last_fresh() == old(self).spec_last_fresh(),
            final(self).spec_final_msn() == old(self).spec_final_msn(),
            final(self).spec_ended() == old(self).spec_ended(),
            final(self).spec_last_error() == old(self).spec_last_error(),
    {
        let mut out: Vec<u64> = Vec::new();
        core::mem::swap(&mut out, &mut self.msn_regression);
        out
    }

    /// The timeline spans, for inspection.
    pub fn timeline_sequences(&self) -> (r: &Vec<crate::timeline::Sequence>)
        ensures
            r@ == self.spec_timeline(),
    {
        self.timeline.sequences()
    }

    /// Whether `EXT-X-ENDLIST` has been observed.
    pub fn has_ended(&self) -> (r: bool)
        ensures
            r == self.spec_ended(),
    {
        self.ended
    }

    /// Whether a snapshot has already been retained.  A caller that
    /// may hand over empty playlists tests this first: an empty
    /// playlist is only analysable as the very first snapshot.
    pub fn has_snapshot(&self) -> (r: bool)
        ensures
            r == (self.spec_last_playlist() is Some),
    {
        self.last_playlist.is_some()
    }
}

} // verus!

