//! Immutable records of HTTP transactions, and the pure parts of the
//! diagnostic client: response-size bounding, body fingerprinting,
//! transport-fault classification and the request-count gate.
//!
//! The network itself is driven outside the library; each completed
//! attempt is handed in as a plain [`HttpInfo`] value, wrapped in a
//! cheaply cloneable [`HttpRef`] that later events cite.

use vstd::prelude::*;
use std::rc::Rc;
use crate::headers::Headers;

verus! {

/// Seed of the 64-bit body fingerprint.
pub const FINGERPRINT_SEED: u64 = 0x3C089B1F88804C3F;

/// The fingerprint of a byte string under the given seed.
pub uninterp spec fn wyhash_of(data: Seq<u8>, seed: u64) -> u64;

/// Relies on `wyhash::wyhash`: the hash is a function of the input
/// bytes and the seed alone.
#[verifier::external_body]
fn wyhash_bytes(data: &[u8], seed: u64) -> (r: u64)
    ensures
        r == wyhash_of(data@, seed),
{
    wyhash::wyhash(data, seed)
}

/// Fingerprint a response body so later snapshots can cheaply test
/// "same body?".
pub fn fingerprint(data: &[u8]) -> (r: u64)
    ensures
        r == wyhash_of(data@, FINGERPRINT_SEED),
{
    wyhash_bytes(data, FINGERPRINT_SEED)
}

/// A response payload together with its fingerprint.
#[derive(Debug)]
pub struct BodyInfo {
    /// The body payload bytes.
    pub data: Vec<u8>,
    /// Fingerprint of `data`, for cheap equality tests between one
    /// response payload and another.
    pub hash: u64,
}

impl BodyInfo {
    /// The fingerprint matches the data.
    pub open spec fn wf(self) -> bool {
        self.hash == wyhash_of(self.data@, FINGERPRINT_SEED)
    }

    /// Package body bytes with their fingerprint.
    pub fn from_data(data: Vec<u8>) -> (r: BodyInfo)
        ensures
            r.data == data,
            r.wf(),
    {
        let hash = fingerprint(data.as_slice());
        BodyInfo { data, hash }
    }
}

/// Why no body is available for a response.
#[derive(Clone, Copy, Debug, PartialEq, Eq, Structural)]
pub enum BodyError {
    /// The transport failed while the body was being read.
    Http,
    /// The accumulated body would have exceeded the configured size
    /// limit (carried here), so the read was aborted.
    ResponseSize(usize),
}

/// Accumulates response-body chunks while enforcing the configured
/// size limit, mirroring a bounded streaming read.
pub struct BodyAccumulator {
    data: Vec<u8>,
    limit: usize,
}

impl BodyAccumulator {
    /// The accumulated bytes so far.
    pub closed spec fn spec_data(self) -> Seq<u8> {
        self.data@
    }

    /// The configured size limit.
    pub closed spec fn spec_limit(self) -> usize {
        self.limit
    }

    pub fn new(limit: usize) -> (r: BodyAccumulator)
        ensures
            r.spec_data() =~= Seq::<u8>::empty(),
            r.spec_limit() == limit,
    {
        BodyAccumulator { data: Vec::new(), limit }
    }

    /// Add one chunk.  If the accumulated length would exceed the
    /// limit the chunk is refused and the read must be aborted.
    pub fn push_chunk(&mut self, chunk: &[u8]) -> (r: Result<(), BodyError>)
        ensures
            final(self).spec_limit() == old(self).spec_limit(),
            old(self).spec_data().len() + chunk@.len() <= old(self).spec_limit() ==> r is Ok
                && final(self).spec_data() == old(self).spec_data() + chunk@,
            old(self).spec_data().len() + chunk@.len() > old(self).spec_limit() ==> r
                == Err::<(), BodyError>(BodyError::ResponseSize(old(self).spec_limit()))
                && final(self).spec_data() == old(self).spec_data(),
    {
        if self.data.len() <= self.limit && chunk.len() <= self.limit - self.data.len() {
            let ghost before: Seq<u8> = self.data@;
            self.data.extend_from_slice(chunk);
            proof {
                assert(self.data@ =~= before + chunk@);
            }
            Ok(())
        } else {
            Err(BodyError::ResponseSize(self.limit))
        }
    }

    /// Finish the read: fingerprint what was accumulated.
    pub fn finish(self) -> (r: BodyInfo)
        ensures
            r.data@ == self.spec_data(),
            r.wf(),
    {
        BodyInfo::from_data(self.data)
    }
}

/// The transport-level classification of a failed request, derived
/// from the flags the HTTP client reports about its error.
#[derive(Clone, Copy, Debug, PartialEq, Eq, Structural)]
pub enum TransportFault {
    Timeout,
    Redirect,
    Decode,
    Body,
    /// The client reported a failure it could not attribute further.
    Other,
}

/// Lower an HTTP client error into a [`TransportFault`], checking the
/// classification flags in fixed priority order.
pub fn classify_transport(is_timeout: bool, is_redirect: bool, is_decode: bool, is_body: bool) -> (r:
    TransportFault)
    ensures
        r == if is_timeout {
            TransportFault::Timeout
        } else if is_redirect {
            TransportFault::Redirect
        } else if is_decode {
            TransportFault::Decode
        } else if is_body {
            TransportFault::Body
        } else {
            TransportFault::Other
        },
{
    if is_timeout {
        TransportFault::Timeout
    } else if is_redirect {
        TransportFault::Redirect
    } else if is_decode {
        TransportFault::Decode
    } else if is_body {
        TransportFault::Body
    } else {
        TransportFault::Other
    }
}

/// What came back on the wire for one successful exchange.
#[derive(Debug)]
pub struct HttpResponseInfo {
    /// The HTTP status code.
    pub status: u16,
    /// Response headers, names lower-cased.
    pub headers: Headers,
    /// The HTTP version as text, e.g. `HTTP/1.1`.
    pub version: Vec<u8>,
    /// The payload, or why it is missing.
    pub body: Result<BodyInfo, BodyError>,
    /// The peer's socket address as text, when known.
    pub remote_address: Option<Vec<u8>>,
}

impl HttpResponseInfo {
    /// The body fingerprint, if a body was read.
    pub fn hash(&self) -> (r: Result<u64, &BodyError>)
        ensures
            match self.body {
                Ok(b) => r == Ok::<u64, &BodyError>(b.hash),
                Err(_) => r is Err && self.body is Err,
            },
    {
        match &self.body {
            Ok(b) => Ok(b.hash),
            Err(e) => Err(e),
        }
    }
}

/// The immutable record of one HTTP transaction, success or failure.
#[derive(Debug)]
pub struct HttpInfo {
    /// Per-request unique 128-bit id.
    pub id: u128,
    /// The requested URL.
    pub url: Vec<u8>,
    /// Wall-clock start of the request, milliseconds since the epoch.
    pub time_unix_millis: u64,
    /// Total elapsed time of the exchange, in milliseconds.
    pub time_total_millis: u64,
    /// Elapsed time until the body started arriving, when known.
    pub time_pretransfer_millis: Option<u64>,
    /// The response, or the transport-level fault.
    pub response: Result<HttpResponseInfo, TransportFault>,
    /// Label noting what content the request was expected to produce.
    pub content_role: Option<Vec<u8>>,
}

impl HttpInfo {
    pub fn new(
        id: u128,
        url: Vec<u8>,
        time_unix_millis: u64,
        time_total_millis: u64,
        time_pretransfer_millis: Option<u64>,
        response: Result<HttpResponseInfo, TransportFault>,
        content_role: Option<Vec<u8>>,
    ) -> (r: HttpInfo)
        ensures
            r == (HttpInfo {
                id,
                url,
                time_unix_millis,
                time_total_millis,
                time_pretransfer_millis,
                response,
                content_role,
            }),
    {
        HttpInfo { id, url, time_unix_millis, time_total_millis, time_pretransfer_millis, response, content_role }
    }
}

/// A shared, cheaply cloneable handle to an [`HttpInfo`].  The record
/// never changes once the handle exists.
#[derive(Debug)]
pub struct HttpRef {
    inner: Rc<HttpInfo>,
}

impl HttpRef {
    /// The transaction record this handle refers to.
    pub closed spec fn spec_info(&self) -> HttpInfo {
        *self.inner
    }

    /// Wrap a finished transaction record.
    pub fn new(info: HttpInfo) -> (r: HttpRef)
        ensures
            r.spec_info() == info,
    {
        HttpRef { inner: Rc::new(info) }
    }

    /// The per-request unique id.
    pub fn id(&self) -> (r: u128)
        ensures
            r == self.spec_info().id,
    {
        self.inner.id
    }

    /// Read the transaction record.
    pub fn info(&self) -> (r: &HttpInfo)
        ensures
            *r == self.spec_info(),
    {
        &*self.inner
    }
}

impl Clone for HttpRef {
    /// Another handle to the same record.
    fn clone(&self) -> (r: Self)
        ensures
            r == *self,
    {
        HttpRef { inner: Rc::clone(&self.inner) }
    }
}

/// The error taxonomy of the diagnostic client.
#[derive(Debug)]
pub enum Error {
    RequestTimeout(HttpRef),
    RequestRedirect(HttpRef),
    RequestDecode(HttpRef),
    RequestBody(HttpRef),
    /// The client reported an error with the request without specific
    /// detail.
    RequestUnknownFault(HttpRef),
    /// The response carried a client- or server-error status.
    Status(HttpRef),
    ResponseSizeExceedsLimit(HttpRef, usize),
    NumberOfRequestsExceedsLimit(u64),
}

impl Error {
    /// Classify a failed transaction record into the taxonomy.
    pub fn from_ref(req: HttpRef) -> (r: Error)
        requires
            req.spec_info().response is Err,
        ensures
            r == match req.spec_info().response {
                Err(TransportFault::Timeout) => Error::RequestTimeout(req),
                Err(TransportFault::Redirect) => Error::RequestRedirect(req),
                Err(TransportFault::Decode) => Error::RequestDecode(req),
                Err(TransportFault::Body) => Error::RequestBody(req),
                _ => Error::RequestUnknownFault(req),
            },
    {
        let fault = match &req.info().response {
            Err(f) => *f,
            Ok(_) => TransportFault::Other,  // unreachable under the precondition
        };
        match fault {
            TransportFault::Timeout => Error::RequestTimeout(req),
            TransportFault::Redirect => Error::RequestRedirect(req),
            TransportFault::Decode => Error::RequestDecode(req),
            TransportFault::Body => Error::RequestBody(req),
            TransportFault::Other => Error::RequestUnknownFault(req),
        }
    }
}

/// The charset parameter of a Content-Type header value, if the
/// value parses as a media type carrying one.
pub uninterp spec fn charset_param_of(content_type: Seq<u8>) -> Option<Seq<u8>>;

/// Relies on `mime::Mime` (its `FromStr`) and `Mime::get_param`: the
/// charset parameter is a function of the Content-Type text alone.
#[verifier::external_body]
fn charset_of(content_type: &[u8]) -> (r: Option<Vec<u8>>)
    ensures
        match r {
            Some(l) => charset_param_of(content_type@) == Some(l@),
            None => charset_param_of(content_type@) is None,
        },
{
    let text = match core::str::from_utf8(content_type) {
        Ok(t) => t,
        Err(_) => {
            return None;
        },
    };
    let m: mime::Mime = match text.parse() {
        Ok(m) => m,
        Err(_) => {
            return None;
        },
    };
    m.get_param("charset").map(|n| n.as_str().as_bytes().to_vec())
}

/// The text that decoding `data` under the encoding labelled `label`
/// yields (an unknown label falls back to UTF-8).
pub uninterp spec fn decoded_text_of(label: Seq<u8>, data: Seq<u8>) -> Seq<char>;

/// Relies on `encoding_rs::Encoding::for_label` and
/// `Encoding::decode`: the decoded text, with replacement characters
/// for malformed input, is a function of the label and bytes alone.
#[verifier::external_body]
fn decode_body(label: &[u8], data: &[u8]) -> (r: String)
    ensures
        r@ == decoded_text_of(label@, data@),
{
    let enc = encoding_rs::Encoding::for_label(label).unwrap_or(encoding_rs::UTF_8);
    enc.decode(data).0.into_owned()
}

/// The charset label that [`Response::text_with_charset`] decodes
/// under: the charset parameter of the Content-Type header, else the
/// supplied default.
pub open spec fn spec_chosen_label(
    headers: Seq<(Seq<u8>, Seq<u8>)>,
    default_label: Seq<u8>,
) -> Seq<u8> {
    match crate::headers::spec_header_get(headers, crate::textfmt::ascii_bytes("content-type"@)) {
        Some(ct) => match charset_param_of(ct) {
            Some(l) => l,
            None => default_label,
        },
        None => default_label,
    }
}

/// A successfully exchanged HTTP transaction, ready for reading.
#[derive(Debug)]
pub struct Response {
    inner: HttpRef,
}

impl Response {
    /// The handle this response reads through.
    pub closed spec fn spec_href(self) -> HttpRef {
        self.inner
    }

    /// The response is one that actually completed with a status.
    pub open spec fn wf(self) -> bool {
        self.spec_href().spec_info().response is Ok
    }

    /// The wire-level response record.
    pub open spec fn resp(self) -> HttpResponseInfo
        recommends
            self.wf(),
    {
        self.spec_href().spec_info().response->Ok_0
    }

    /// Wrap a completed transaction, refusing failed ones.
    pub fn try_new(href: HttpRef) -> (r: Option<Response>)
        ensures
            match r {
                Some(resp) => resp.spec_href() == href && resp.wf(),
                None => href.spec_info().response is Err,
            },
    {
        if href.info().response.is_ok() {
            Some(Response { inner: href })
        } else {
            None
        }
    }

    /// The HTTP status code.
    pub fn status(&self) -> (r: u16)
        requires
            self.wf(),
        ensures
            r == self.resp().status,
    {
        match &self.inner.info().response {
            Ok(resp) => resp.status,
            Err(_) => 0,  // unreachable under the precondition
        }
    }

    /// Classify client- and server-error statuses as [`Error::Status`].
    pub fn error_for_status_ref(&self) -> (r: Result<&Response, Error>)
        requires
            self.wf(),
        ensures
            400 <= self.resp().status < 600 ==> (r matches Err(e) && e == Error::Status(
                self.spec_href(),
            )),
            !(400 <= self.resp().status < 600) ==> (r matches Ok(me) && *me == *self),
    {
        let stat = self.status();
        if 400 <= stat && stat < 600 {
            Err(Error::Status(self.inner.clone()))
        } else {
            Ok(self)
        }
    }

    /// The body bytes, when a body was read.
    pub fn bytes(&self) -> (r: Result<&Vec<u8>, &BodyError>)
        requires
            self.wf(),
        ensures
            match r {
                Ok(v) => self.resp().body matches Ok(b) && v@ == b.data@,
                Err(e) => self.resp().body matches Err(be) && *e == be,
            },
    {
        match &self.inner.info().response {
            Ok(resp) => match &resp.body {
                Ok(b) => Ok(&b.data),
                Err(e) => Err(e),
            },
            Err(_) => Err(&BodyError::Http),  // unreachable under the precondition
        }
    }

    /// Decode the body as text using the charset of the Content-Type
    /// header, falling back to UTF-8.
    pub fn text(&self) -> (r: Result<String, Error>)
        requires
            self.wf(),
        ensures
            match r {
                Ok(t) => self.resp().body matches Ok(b) && t@ == decoded_text_of(
                    spec_chosen_label(self.resp().headers@, crate::textfmt::ascii_bytes("utf-8"@)),
                    b.data@,
                ),
                Err(_) => self.resp().body is Err,
            },
    {
        proof {
            reveal_strlit("utf-8");
        }
        self.text_with_charset("utf-8")
    }

    /// Decode the body as text using the charset of the Content-Type
    /// header, falling back to the given default encoding label.
    pub fn text_with_charset(&self, default_encoding: &str) -> (r: Result<String, Error>)
        requires
            self.wf(),
            default_encoding.is_ascii(),
        ensures
            match r {
                Ok(t) => self.resp().body matches Ok(b) && t@ == decoded_text_of(
                    spec_chosen_label(
                        self.resp().headers@,
                        crate::textfmt::ascii_bytes(default_encoding@),
                    ),
                    b.data@,
                ),
                Err(_) => self.resp().body is Err,
            },
    {
        let default_label = crate::textfmt::str_bytes(default_encoding);
        let label: Vec<u8> = match self.header_owned() {
            Some(ct) => match charset_of(ct.as_slice()) {
                Some(l) => l,
                None => default_label,
            },
            None => default_label,
        };
        let data = match self.bytes() {
            Ok(d) => d,
            Err(e) => {
                let err = match *e {
                    BodyError::ResponseSize(limit) => Error::ResponseSizeExceedsLimit(
                        self.inner.clone(),
                        limit,
                    ),
                    BodyError::Http => Error::RequestBody(self.inner.clone()),
                };
                return Err(err);
            },
        };
        Ok(decode_body(label.as_slice(), data.as_slice()))
    }

    /// The Content-Type header value, copied out.
    fn header_owned(&self) -> (r: Option<Vec<u8>>)
        requires
            self.wf(),
        ensures
            match r {
                Some(v) => crate::headers::spec_header_get(
                    self.resp().headers@,
                    crate::textfmt::ascii_bytes("content-type"@),
                ) == Some(v@),
                None => crate::headers::spec_header_get(
                    self.resp().headers@,
                    crate::textfmt::ascii_bytes("content-type"@),
                ) is None,
            },
    {
        proof {
            reveal_strlit("content-type");
        }
        let name = crate::textfmt::str_bytes("content-type");
        match self.headers().get(name.as_slice()) {
            Some(v) => {
                let mut out: Vec<u8> = Vec::new();
                out.extend_from_slice(v.as_slice());
                proof {
                    assert(out@ =~= v@);
                }
                Some(out)
            },
            None => None,
        }
    }

    /// A header value by (lower-case) name.
    pub fn header(&self, key: &[u8]) -> (r: Option<&Vec<u8>>)
        requires
            self.wf(),
        ensures
            match r {
                Some(v) => crate::headers::spec_header_get(self.resp().headers@, key@) == Some(v@),
                None => crate::headers::spec_header_get(self.resp().headers@, key@) is None,
            },
    {
        self.headers().get(key)
    }

    /// All response headers.
    pub fn headers(&self) -> (r: &Headers)
        requires
            self.wf(),
        ensures
            *r == self.resp().headers,
    {
        match &self.inner.info().response {
            Ok(resp) => &resp.headers,
            Err(_) => unreached(),  // excluded by the precondition
        }
    }

    /// The per-request unique id.
    pub fn req_id(&self) -> (r: u128)
        ensures
            r == self.spec_href().spec_info().id,
    {
        self.inner.id()
    }

    /// Total elapsed time of the exchange, in milliseconds.
    pub fn total_time_millis(&self) -> (r: u64)
        ensures
            r == self.spec_href().spec_info().time_total_millis,
    {
        self.inner.info().time_total_millis
    }

    /// The transaction handle, for citing in events.
    pub fn href(&self) -> (r: HttpRef)
        ensures
            r == self.spec_href(),
    {
        self.inner.clone()
    }
}

/// Counts request attempts against the optional global cap.
pub struct RequestGate {
    count: u64,
    max: Option<u64>,
}

impl RequestGate {
    pub closed spec fn spec_count(self) -> u64 {
        self.count
    }

    pub closed spec fn spec_max(self) -> Option<u64> {
        self.max
    }

    /// The cap is present and already reached.
    pub open spec fn at_cap(self) -> bool {
        match self.spec_max() {
            Some(m) => self.spec_count() >= m,
            None => false,
        }
    }

    pub fn new(max: Option<u64>) -> (r: RequestGate)
        ensures
            r.spec_count() == 0,
            r.spec_max() == max,
    {
        RequestGate { count: 0, max }
    }

    /// Admit one request attempt, or refuse it once the cap is
    /// reached; the counter advances only for admitted attempts.
    pub fn try_start(&mut self) -> (r: Result<(), u64>)
        ensures
            final(self).spec_max() == old(self).spec_max(),
            old(self).at_cap() ==> r == Err::<(), u64>(old(self).spec_max()->Some_0)
                && final(self).spec_count() == old(self).spec_count(),
            !old(self).at_cap() ==> r is Ok && final(self).spec_count() == (if old(self).spec_count() == u64::MAX {
                u64::MAX as int
            } else {
                old(self).spec_count() + 1
            }),
    {
        if let Some(m) = self.max {
            if self.count >= m {
                return Err(m);
            }
        }
        if self.count < u64::MAX {
            self.count = self.count + 1;
        }
        Ok(())
    }

    /// How many requests have been attempted.
    pub fn total_request_count(&self) -> (r: u64)
        ensures
            r == self.spec_count(),
    {
        self.count
    }
}

} // verus!
