//! The event taxonomy: every finding the checker can emit, the
//! severity levels, and the manifest-level error type they are
//! lowered from.
//!
//! Each event carries enough [`HttpRef`]s and literal values to
//! reproduce the finding; cross-snapshot events carry a [`Delta`]
//! citing the transaction on each side.

use vstd::prelude::*;
use crate::http::{Error, HttpRef, TransportFault};

verus! {

/// Severity of an emitted event.
#[derive(Clone, Copy, Debug, PartialEq, Eq, Structural)]
pub enum EventSeverity {
    Info,
    Warning,
    Error,
}

/// A reference to one fetched manifest: the transaction that
/// produced it and, when known, a source line.
#[derive(Clone, Debug)]
pub struct ManifestRef {
    pub req_id: HttpRef,
    pub line: Option<usize>,
}

/// Two media manifests between which something of note changed.
#[derive(Clone, Debug)]
pub struct Delta {
    pub before: ManifestRef,
    pub after: ManifestRef,
}

/// The [`Delta`] citing two transactions, with no line info.
pub open spec fn spec_delta(before: HttpRef, after: HttpRef) -> Delta {
    Delta {
        before: ManifestRef { req_id: before, line: None },
        after: ManifestRef { req_id: after, line: None },
    }
}

/// Build a [`Delta`] citing the two transactions, with no line info.
pub fn delta(before: &HttpRef, after: &HttpRef) -> (r: Delta)
    ensures
        r == spec_delta(*before, *after),
{
    Delta {
        before: ManifestRef { req_id: before.clone(), line: None },
        after: ManifestRef { req_id: after.clone(), line: None },
    }
}

/// A finding about an HLS endpoint.  Textual fields hold raw
/// manifest or header bytes.
#[derive(Clone, Debug)]
pub enum HlsEvent {
    LoadedMain { req_id: HttpRef, variant_count: usize },
    MsnGoneBackwards { delta: Delta, last_msn: usize, this_msn: usize },
    /// The earlier playlist had `EXT-X-ENDLIST`, but in the current
    /// playlist it is gone again.
    EndListTagRemoved,
    UnexpectedPlaylistPropertyAddition { delta: Delta, name: &'static str },
    UnexpectedPlaylistPropertyRemoval { delta: Delta, name: &'static str },
    TargetDurationChanged {
        delta: Delta,
        last_target_duration_millis: u64,
        this_target_duration_millis: u64,
    },
    PlaylistTypeChanged {
        delta: Delta,
        last_type: Option<crate::playlist::PlaylistType>,
        this_type: Option<crate::playlist::PlaylistType>,
    },
    ManifestHistoryChangedUri { delta: Delta, msn: usize, last_uri: Vec<u8>, this_uri: Vec<u8> },
    ManifestHistoryAddedDiscontinuity { delta: Delta, msn: usize },
    ManifestHistoryRemovedDiscontinuity { delta: Delta, msn: usize },
    ManifestHistoryChangedSegmentDuration {
        delta: Delta,
        msn: usize,
        last_duration_millis: u64,
        this_duration_millis: u64,
    },
    ManifestHistoryChangedSegmentByterange {
        delta: Delta,
        msn: usize,
        last_byterange: Option<Vec<u8>>,
        this_byterange: Option<Vec<u8>>,
    },
    /// One or more segments that used to be at the end of the
    /// playlist have disappeared.
    LiveSegmentsRemoved { delta: Delta, last_msn: usize, this_msn: usize, removed_count: usize },
    /// Multiple manifest reloads happened without an update arriving.
    ManifestStale { delta: Delta, since_list_update: usize },
    /// The media manifest contains an `EXT-X-ENDLIST` tag: no more
    /// segments will be appended.
    End { req_id: HttpRef },
    SlowMediaManifestResponse {
        req_id: HttpRef,
        response_time_millis: u64,
        target_duration_millis: u64,
    },
    /// The HTTP `Age` response header shows a cache held this
    /// playlist longer than the playlist's target duration.
    CachedTooLong { req_id: HttpRef, age: u64, target_duration: u64 },
    IncorrectContentType { req_id: HttpRef, content_type: Option<Vec<u8>> },
    ContentTypeChanged {
        delta: Delta,
        last_content_type: Option<Vec<u8>>,
        this_content_type: Option<Vec<u8>>,
    },
    LastModifiedInFuture { req_id: HttpRef, date: Vec<u8>, last_modified: Vec<u8> },
    HttpErrorStatus { req_id: HttpRef, status_code: u16 },
    HttpUnknownError { req_id: HttpRef },
    HttpBodyError { req_id: HttpRef },
    HttpDecodeError { req_id: HttpRef },
    HttpRedirectError { req_id: HttpRef },
    HttpTimeout { req_id: HttpRef },
    PlaylistUtf8Error { req_id: HttpRef },
    PlaylistParseError { req_id: HttpRef },
    PlaylistMalformedUrl { req_id: HttpRef },
    ResponseSizeExceedsLimit { req_id: HttpRef, limit: usize },
    NumberOfRequestsExceedsLimit { limit: u64 },
    MediaPlaylistWithoutExtinf { req_id: HttpRef, url: Vec<u8>, start: usize, end: usize },
    LastModifiedChangedButBodiesIdentical {
        delta: Delta,
        this_last_modified: Vec<u8>,
        last_last_modified: Vec<u8>,
    },
    /// Both cache validators matched the previous response, yet the
    /// server answered with a full body instead of 304.
    MissedLastModifiedResponse {
        delta: Delta,
        this_last_modified: Option<Vec<u8>>,
        last_last_modified: Option<Vec<u8>>,
        this_etag: Option<Vec<u8>>,
        last_etag: Option<Vec<u8>>,
    },
    DaterangeAttributeChanged {
        req_id: HttpRef,
        daterange_id: Vec<u8>,
        attr_name: &'static str,
        prev_value: Vec<u8>,
        this_value: Vec<u8>,
    },
}

/// The mathematical value of an [`HlsEvent`]: byte payloads as
/// `Seq<u8>`, names as `Seq<char>`.  Contracts state emitted events
/// in terms of this view.
pub enum EventV {
    LoadedMain { req_id: HttpRef, variant_count: usize },
    MsnGoneBackwards { delta: Delta, last_msn: usize, this_msn: usize },
    EndListTagRemoved,
    UnexpectedPlaylistPropertyAddition { delta: Delta, name: Seq<char> },
    UnexpectedPlaylistPropertyRemoval { delta: Delta, name: Seq<char> },
    TargetDurationChanged {
        delta: Delta,
        last_target_duration_millis: u64,
        this_target_duration_millis: u64,
    },
    PlaylistTypeChanged {
        delta: Delta,
        last_type: Option<crate::playlist::PlaylistType>,
        this_type: Option<crate::playlist::PlaylistType>,
    },
    ManifestHistoryChangedUri { delta: Delta, msn: usize, last_uri: Seq<u8>, this_uri: Seq<u8> },
    ManifestHistoryAddedDiscontinuity { delta: Delta, msn: usize },
    ManifestHistoryRemovedDiscontinuity { delta: Delta, msn: usize },
    ManifestHistoryChangedSegmentDuration {
        delta: Delta,
        msn: usize,
        last_duration_millis: u64,
        this_duration_millis: u64,
    },
    ManifestHistoryChangedSegmentByterange {
        delta: Delta,
        msn: usize,
        last_byterange: Option<Seq<u8>>,
        this_byterange: Option<Seq<u8>>,
    },
    LiveSegmentsRemoved { delta: Delta, last_msn: usize, this_msn: usize, removed_count: usize },
    ManifestStale { delta: Delta, since_list_update: usize },
    End { req_id: HttpRef },
    SlowMediaManifestResponse {
        req_id: HttpRef,
        response_time_millis: u64,
        target_duration_millis: u64,
    },
    CachedTooLong { req_id: HttpRef, age: u64, target_duration: u64 },
    IncorrectContentType { req_id: HttpRef, content_type: Option<Seq<u8>> },
    ContentTypeChanged {
        delta: Delta,
        last_content_type: Option<Seq<u8>>,
        this_content_type: Option<Seq<u8>>,
    },
    LastModifiedInFuture { req_id: HttpRef, date: Seq<u8>, last_modified: Seq<u8> },
    HttpErrorStatus { req_id: HttpRef, status_code: u16 },
    HttpUnknownError { req_id: HttpRef },
    HttpBodyError { req_id: HttpRef },
    HttpDecodeError { req_id: HttpRef },
    HttpRedirectError { req_id: HttpRef },
    HttpTimeout { req_id: HttpRef },
    PlaylistUtf8Error { req_id: HttpRef },
    PlaylistParseError { req_id: HttpRef },
    PlaylistMalformedUrl { req_id: HttpRef },
    ResponseSizeExceedsLimit { req_id: HttpRef, limit: usize },
    NumberOfRequestsExceedsLimit { limit: u64 },
    MediaPlaylistWithoutExtinf { req_id: HttpRef, url: Seq<u8>, start: usize, end: usize },
    LastModifiedChangedButBodiesIdentical {
        delta: Delta,
        this_last_modified: Seq<u8>,
        last_last_modified: Seq<u8>,
    },
    MissedLastModifiedResponse {
        delta: Delta,
        this_last_modified: Option<Seq<u8>>,
        last_last_modified: Option<Seq<u8>>,
        this_etag: Option<Seq<u8>>,
        last_etag: Option<Seq<u8>>,
    },
    DaterangeAttributeChanged {
        req_id: HttpRef,
        daterange_id: Seq<u8>,
        attr_name: Seq<char>,
        prev_value: Seq<u8>,
        this_value: Seq<u8>,
    },
}

/// The view of an optional byte payload.
pub open spec fn view_opt_bytes(o: Option<Vec<u8>>) -> Option<Seq<u8>> {
    match o {
        Some(v) => Some(v@),
        None => None,
    }
}

impl View for HlsEvent {
    type V = EventV;

    open spec fn view(&self) -> EventV {
        match *self {
            HlsEvent::LoadedMain { req_id, variant_count } => EventV::LoadedMain {
                req_id,
                variant_count,
            },
            HlsEvent::MsnGoneBackwards { delta, last_msn, this_msn } => EventV::MsnGoneBackwards {
                delta,
                last_msn,
                this_msn,
            },
            HlsEvent::EndListTagRemoved => EventV::EndListTagRemoved,
            HlsEvent::UnexpectedPlaylistPropertyAddition { delta, name } => EventV::UnexpectedPlaylistPropertyAddition {
                delta,
                name: name@,
            },
            HlsEvent::UnexpectedPlaylistPropertyRemoval { delta, name } => EventV::UnexpectedPlaylistPropertyRemoval {
                delta,
                name: name@,
            },
            HlsEvent::TargetDurationChanged {
                delta,
                last_target_duration_millis,
                this_target_duration_millis,
            } => EventV::TargetDurationChanged {
                delta,
                last_target_duration_millis,
                this_target_duration_millis,
            },
            HlsEvent::PlaylistTypeChanged { delta, last_type, this_type } => EventV::PlaylistTypeChanged {
                delta,
                last_type,
                this_type,
            },
            HlsEvent::ManifestHistoryChangedUri { delta, msn, last_uri, this_uri } => EventV::ManifestHistoryChangedUri {
                delta,
                msn,
                last_uri: last_uri@,
                this_uri: this_uri@,
            },
            HlsEvent::ManifestHistoryAddedDiscontinuity { delta, msn } => EventV::ManifestHistoryAddedDiscontinuity {
                delta,
                msn,
            },
            HlsEvent::ManifestHistoryRemovedDiscontinuity { delta, msn } => EventV::ManifestHistoryRemovedDiscontinuity {
                delta,
                msn,
            },
            HlsEvent::ManifestHistoryChangedSegmentDuration {
                delta,
                msn,
                last_duration_millis,
                this_duration_millis,
            } => EventV::ManifestHistoryChangedSegmentDuration {
                delta,
                msn,
                last_duration_millis,
                this_duration_millis,
            },
            HlsEvent::ManifestHistoryChangedSegmentByterange {
                delta,
                msn,
                last_byterange,
                this_byterange,
            } => EventV::ManifestHistoryChangedSegmentByterange {
                delta,
                msn,
                last_byterange: view_opt_bytes(last_byterange),
                this_byterange: view_opt_bytes(this_byterange),
            },
            HlsEvent::LiveSegmentsRemoved { delta, last_msn, this_msn, removed_count } => EventV::LiveSegmentsRemoved {
                delta,
                last_msn,
                this_msn,
                removed_count,
            },
            HlsEvent::ManifestStale { delta, since_list_update } => EventV::ManifestStale {
                delta,
                since_list_update,
            },
            HlsEvent::End { req_id } => EventV::End { req_id },
            HlsEvent::SlowMediaManifestResponse {
                req_id,
                response_time_millis,
                target_duration_millis,
            } => EventV::SlowMediaManifestResponse {
                req_id,
                response_time_millis,
                target_duration_millis,
            },
            HlsEvent::CachedTooLong { req_id, age, target_duration } => EventV::CachedTooLong {
                req_id,
                age,
                target_duration,
            },
            HlsEvent::IncorrectContentType { req_id, content_type } => EventV::IncorrectContentType {
                req_id,
                content_type: view_opt_bytes(content_type),
            },
            HlsEvent::ContentTypeChanged { delta, last_content_type, this_content_type } => EventV::ContentTypeChanged {
                delta,
                last_content_type: view_opt_bytes(last_content_type),
                this_content_type: view_opt_bytes(this_content_type),
            },
            HlsEvent::LastModifiedInFuture { req_id, date, last_modified } => EventV::LastModifiedInFuture {
                req_id,
                date: date@,
                last_modified: last_modified@,
            },
            HlsEvent::HttpErrorStatus { req_id, status_code } => EventV::HttpErrorStatus {
                req_id,
                status_code,
            },
            HlsEvent::HttpUnknownError { req_id } => EventV::HttpUnknownError { req_id },
            HlsEvent::HttpBodyError { req_id } => EventV::HttpBodyError { req_id },
            HlsEvent::HttpDecodeError { req_id } => EventV::HttpDecodeError { req_id },
            HlsEvent::HttpRedirectError { req_id } => EventV::HttpRedirectError { req_id },
            HlsEvent::HttpTimeout { req_id } => EventV::HttpTimeout { req_id },
            HlsEvent::PlaylistUtf8Error { req_id } => EventV::PlaylistUtf8Error { req_id },
            HlsEvent::PlaylistParseError { req_id } => EventV::PlaylistParseError { req_id },
            HlsEvent::PlaylistMalformedUrl { req_id } => EventV::PlaylistMalformedUrl { req_id },
            HlsEvent::ResponseSizeExceedsLimit { req_id, limit } => EventV::ResponseSizeExceedsLimit {
                req_id,
                limit,
            },
            HlsEvent::NumberOfRequestsExceedsLimit { limit } => EventV::NumberOfRequestsExceedsLimit {
                limit,
            },
            HlsEvent::MediaPlaylistWithoutExtinf { req_id, url, start, end } => EventV::MediaPlaylistWithoutExtinf {
                req_id,
                url: url@,
                start,
                end,
            },
            HlsEvent::LastModifiedChangedButBodiesIdentical {
                delta,
                this_last_modified,
                last_last_modified,
            } => EventV::LastModifiedChangedButBodiesIdentical {
                delta,
                this_last_modified: this_last_modified@,
                last_last_modified: last_last_modified@,
            },
            HlsEvent::MissedLastModifiedResponse {
                delta,
                this_last_modified,
                last_last_modified,
                this_etag,
                last_etag,
            } => EventV::MissedLastModifiedResponse {
                delta,
                this_last_modified: view_opt_bytes(this_last_modified),
                last_last_modified: view_opt_bytes(last_last_modified),
                this_etag: view_opt_bytes(this_etag),
                last_etag: view_opt_bytes(last_etag),
            },
            HlsEvent::DaterangeAttributeChanged {
                req_id,
                daterange_id,
                attr_name,
                prev_value,
                this_value,
            } => EventV::DaterangeAttributeChanged {
                req_id,
                daterange_id: daterange_id@,
                attr_name: attr_name@,
                prev_value: prev_value@,
                this_value: this_value@,
            },
        }
    }
}

/// A fatal or loop-terminating condition while watching one playlist.
#[derive(Debug)]
pub enum HlsManifestError {
    HttpTimeout(HttpRef),
    HttpStatus(HttpRef, u16),
    HttpBody(HttpRef),
    HttpDecode(HttpRef),
    HttpRedirect(HttpRef),
    HttpUnknownFailure(HttpRef),
    Utf8(HttpRef),
    Parse(HttpRef, crate::playlist::ParseError),
    Parse2(HttpRef),
    Url(HttpRef),
    ResponseSizeExceedsLimit(HttpRef, usize),
    NumberOfRequestsExceedsLimit(u64),
    /// Control-flow sentinel used inside the polling loop only; it is
    /// never surfaced as an event.
    NotModified,
}

impl HlsManifestError {
    /// Classify a failed transaction record.
    pub fn from_req(req: HttpRef) -> (r: HlsManifestError)
        requires
            req.spec_info().response is Err,
        ensures
            r == match req.spec_info().response {
                Err(TransportFault::Timeout) => HlsManifestError::HttpTimeout(req),
                Err(TransportFault::Body) => HlsManifestError::HttpBody(req),
                Err(TransportFault::Decode) => HlsManifestError::HttpDecode(req),
                Err(TransportFault::Redirect) => HlsManifestError::HttpRedirect(req),
                _ => HlsManifestError::HttpUnknownFailure(req),
            },
    {
        let fault = match &req.info().response {
            Err(f) => *f,
            Ok(_) => TransportFault::Other,  // unreachable under the precondition
        };
        match fault {
            TransportFault::Timeout => HlsManifestError::HttpTimeout(req),
            TransportFault::Body => HlsManifestError::HttpBody(req),
            TransportFault::Decode => HlsManifestError::HttpDecode(req),
            TransportFault::Redirect => HlsManifestError::HttpRedirect(req),
            TransportFault::Other => HlsManifestError::HttpUnknownFailure(req),
        }
    }

    /// Lower a diagnostic-client error into the manifest taxonomy.
    pub fn from_err(e: Error) -> (r: HlsManifestError)
        requires
            e matches Error::Status(href) ==> href.spec_info().response is Ok,
        ensures
            match e {
                Error::RequestTimeout(href) => r == HlsManifestError::HttpTimeout(href),
                Error::RequestRedirect(href) => r == HlsManifestError::HttpRedirect(href),
                Error::RequestDecode(href) => r == HlsManifestError::HttpDecode(href),
                Error::RequestBody(href) => r == HlsManifestError::HttpBody(href),
                Error::Status(href) => r == HlsManifestError::HttpStatus(
                    href,
                    href.spec_info().response->Ok_0.status,
                ),
                Error::ResponseSizeExceedsLimit(href, limit) => r
                    == HlsManifestError::ResponseSizeExceedsLimit(href, limit),
                Error::NumberOfRequestsExceedsLimit(limit) => r
                    == HlsManifestError::NumberOfRequestsExceedsLimit(limit),
                Error::RequestUnknownFault(href) => r == HlsManifestError::HttpUnknownFailure(
                    href,
                ),
            },
    {
        match e {
            Error::RequestTimeout(href) => HlsManifestError::HttpTimeout(href),
            Error::RequestRedirect(href) => HlsManifestError::HttpRedirect(href),
            Error::RequestDecode(href) => HlsManifestError::HttpDecode(href),
            Error::RequestBody(href) => HlsManifestError::HttpBody(href),
            Error::Status(href) => {
                let status = match &href.info().response {
                    Ok(resp) => resp.status,
                    Err(_) => 0,  // unreachable under the precondition
                };
                HlsManifestError::HttpStatus(href, status)
            },
            Error::ResponseSizeExceedsLimit(href, limit) => HlsManifestError::ResponseSizeExceedsLimit(
                href,
                limit,
            ),
            Error::NumberOfRequestsExceedsLimit(limit) => HlsManifestError::NumberOfRequestsExceedsLimit(
                limit,
            ),
            Error::RequestUnknownFault(href) => HlsManifestError::HttpUnknownFailure(href),
        }
    }
}

impl HlsEvent {
    /// The event that reports a manifest error to the sink.  The
    /// `NotModified` sentinel is handled in-band by the polling loop
    /// and never becomes an event.
    pub fn from_manifest_err(e: HlsManifestError) -> (r: HlsEvent)
        requires
            !(e is NotModified),
        ensures
            match e {
                HlsManifestError::HttpTimeout(req) => r == HlsEvent::HttpTimeout { req_id: req },
                HlsManifestError::HttpStatus(req, status) => r == HlsEvent::HttpErrorStatus {
                    req_id: req,
                    status_code: status,
                },
                HlsManifestError::HttpUnknownFailure(req) => r == HlsEvent::HttpUnknownError {
                    req_id: req,
                },
                HlsManifestError::HttpBody(req) => r == HlsEvent::HttpBodyError { req_id: req },
                HlsManifestError::HttpDecode(req) => r == HlsEvent::HttpDecodeError {
                    req_id: req,
                },
                HlsManifestError::HttpRedirect(req) => r == HlsEvent::HttpRedirectError {
                    req_id: req,
                },
                HlsManifestError::Utf8(req) => r == HlsEvent::PlaylistUtf8Error { req_id: req },
                HlsManifestError::Parse(req, _) => r == HlsEvent::PlaylistParseError {
                    req_id: req,
                },
                HlsManifestError::Parse2(req) => r == HlsEvent::PlaylistParseError {
                    req_id: req,
                },
                HlsManifestError::Url(req) => r == HlsEvent::PlaylistMalformedUrl { req_id: req },
                HlsManifestError::ResponseSizeExceedsLimit(req, limit) => r
                    == HlsEvent::ResponseSizeExceedsLimit { req_id: req, limit },
                HlsManifestError::NumberOfRequestsExceedsLimit(limit) => r
                    == HlsEvent::NumberOfRequestsExceedsLimit { limit },
                HlsManifestError::NotModified => true,
            },
    {
        match e {
            HlsManifestError::HttpTimeout(req) => HlsEvent::HttpTimeout { req_id: req },
            HlsManifestError::HttpStatus(req, status) => HlsEvent::HttpErrorStatus {
                req_id: req,
                status_code: status,
            },
            HlsManifestError::HttpUnknownFailure(req) => HlsEvent::HttpUnknownError {
                req_id: req,
            },
            HlsManifestError::HttpBody(req) => HlsEvent::HttpBodyError { req_id: req },
            HlsManifestError::HttpDecode(req) => HlsEvent::HttpDecodeError { req_id: req },
            HlsManifestError::HttpRedirect(req) => HlsEvent::HttpRedirectError { req_id: req },
            HlsManifestError::Utf8(req) => HlsEvent::PlaylistUtf8Error { req_id: req },
            HlsManifestError::Parse(req, _) => HlsEvent::PlaylistParseError { req_id: req },
            HlsManifestError::Parse2(req) => HlsEvent::PlaylistParseError { req_id: req },
            HlsManifestError::Url(req) => HlsEvent::PlaylistMalformedUrl { req_id: req },
            HlsManifestError::ResponseSizeExceedsLimit(req, limit) => HlsEvent::ResponseSizeExceedsLimit {
                req_id: req,
                limit,
            },
            HlsManifestError::NumberOfRequestsExceedsLimit(limit) => HlsEvent::NumberOfRequestsExceedsLimit {
                limit,
            },
            HlsManifestError::NotModified => HlsEvent::EndListTagRemoved,  // excluded by the precondition
        }
    }
}

/// A sink for severity-levelled findings.  Implementations live with
/// the embedding program; the checker itself records into an
/// [`EventLog`] that the embedding drains.
pub trait EventSink: Clone {
    type Extra;

    fn info(&mut self, data: Self::Extra);

    fn error(&mut self, data: Self::Extra);

    fn warning(&mut self, data: Self::Extra);

    fn close(self);
}

/// The views of a sequence of emitted events.
pub open spec fn view_entries(s: Seq<(EventSeverity, HlsEvent)>) -> Seq<(EventSeverity, EventV)> {
    s.map_values(|p: (EventSeverity, HlsEvent)| (p.0, p.1@))
}

/// An ordered record of emitted events, severity first.
#[derive(Debug)]
pub struct EventLog {
    entries: Vec<(EventSeverity, HlsEvent)>,
}

impl View for EventLog {
    type V = Seq<(EventSeverity, EventV)>;

    closed spec fn view(&self) -> Seq<(EventSeverity, EventV)> {
        view_entries(self.entries@)
    }
}

impl EventLog {
    pub fn new() -> (r: EventLog)
        ensures
            r@ =~= Seq::<(EventSeverity, EventV)>::empty(),
    {
        EventLog { entries: Vec::new() }
    }

    pub fn info(&mut self, ev: HlsEvent)
        ensures
            final(self)@ == old(self)@.push((EventSeverity::Info, ev@)),
    {
        let ghost before: Seq<(EventSeverity, HlsEvent)> = self.entries@;
        self.entries.push((EventSeverity::Info, ev));
        proof {
            assert(self@ =~= view_entries(before).push((EventSeverity::Info, self.entries@.last().1@)));
        }
    }

    pub fn warning(&mut self, ev: HlsEvent)
        ensures
            final(self)@ == old(self)@.push((EventSeverity::Warning, ev@)),
    {
        let ghost before: Seq<(EventSeverity, HlsEvent)> = self.entries@;
        self.entries.push((EventSeverity::Warning, ev));
        proof {
            assert(self@ =~= view_entries(before).push((EventSeverity::Warning, self.entries@.last().1@)));
        }
    }

    pub fn error(&mut self, ev: HlsEvent)
        ensures
            final(self)@ == old(self)@.push((EventSeverity::Error, ev@)),
    {
        let ghost before: Seq<(EventSeverity, HlsEvent)> = self.entries@;
        self.entries.push((EventSeverity::Error, ev));
        proof {
            assert(self@ =~= view_entries(before).push((EventSeverity::Error, self.entries@.last().1@)));
        }
    }

    /// The emitted events, in emission order.
    pub fn entries(&self) -> (r: &Vec<(EventSeverity, HlsEvent)>)
        ensures
            view_entries(r@) == self@,
    {
        &self.entries
    }

    /// Hand every recorded event to the caller, leaving the log empty.
    pub fn drain(&mut self) -> (r: Vec<(EventSeverity, HlsEvent)>)
        ensures
            view_entries(r@) == old(self)@,
            final(self)@ =~= Seq::<(EventSeverity, EventV)>::empty(),
    {
        let mut out: Vec<(EventSeverity, HlsEvent)> = Vec::new();
        core::mem::swap(&mut out, &mut self.entries);
        out
    }
}

} // verus!
