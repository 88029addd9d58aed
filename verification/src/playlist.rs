//! The media-playlist data model and the `#EXTM3U` parser.
//!
//! A playlist snapshot is the typed result of one reload: target
//! duration, the media sequence number of the first segment, the
//! ordered segments, and the handful of whole-playlist flags the
//! checker compares across reloads.  Textual fields hold the raw
//! manifest bytes; durations are whole milliseconds.

use vstd::prelude::*;
use crate::dates::Timestamp;

verus! {

/// What went wrong while reading a playlist.  `UrlWithoutExtinf` is a
/// non-fatal diagnostic; the rest terminate the parse.
#[derive(Clone, Debug, PartialEq, Eq)]
pub enum ParseError {
    /// A URI line appeared without a preceding `#EXTINF` tag.  The
    /// span is in byte offsets into the source text.
    UrlWithoutExtinf { url: Vec<u8>, start: usize, end: usize },
    /// A tag that needs a number carried something else.
    InvalidNumber,
    /// No `EXT-X-TARGETDURATION` tag was present.
    MissingTargetDuration,
    /// No `EXT-X-VERSION` tag was present.
    MissingVersion,
    /// A date tag carried text that is not an RFC 3339 date-time.
    Chrono,
    /// A tag's attribute list was malformed or incomplete.
    Attributes,
}

/// The `EXT-X-BYTERANGE` of a segment: a length and an optional start
/// offset, both in bytes.
#[derive(Clone, Copy, Debug, PartialEq, Eq, Structural)]
pub struct ByteRange {
    pub length: u64,
    pub start: Option<u64>,
}

/// One `EXT-X-DATERANGE` tag: identifier-keyed out-of-band signalling
/// whose attributes are expected to stay stable across reloads.
#[derive(Clone, Debug)]
pub struct DateRange {
    pub id: Vec<u8>,
    pub duration_millis: Option<u64>,
    pub start_date: Option<Timestamp>,
    pub planned_duration_millis: Option<u64>,
    pub end_date: Option<Timestamp>,
    pub scte35_cmd: Option<Vec<u8>>,
    pub scte35_out: Option<Vec<u8>>,
    pub scte35_in: Option<Vec<u8>>,
}

/// One media segment of a playlist snapshot.
#[derive(Clone, Debug)]
pub struct MediaSegment {
    /// The absolute media sequence number of this segment.
    pub msn: usize,
    pub uri: Vec<u8>,
    pub duration_millis: u64,
    pub has_discontinuity: bool,
    pub byte_range: Option<ByteRange>,
    pub program_date_time: Option<Timestamp>,
    pub date_range: Option<DateRange>,
}

/// The `EXT-X-PLAYLIST-TYPE` of a playlist, when present.
#[derive(Clone, Copy, Debug, PartialEq, Eq, Structural)]
pub enum PlaylistType {
    Event,
    Vod,
}

/// One parsed media-playlist snapshot.
#[derive(Clone, Debug)]
pub struct MediaPlaylist {
    pub target_duration_millis: u64,
    /// Media sequence number of the first segment.
    pub media_sequence: usize,
    pub segments: Vec<MediaSegment>,
    pub has_end_list: bool,
    pub playlist_type: Option<PlaylistType>,
    pub has_i_frames_only: bool,
    pub has_independent_segments: bool,
    pub version: u64,
}

impl MediaPlaylist {
    /// Every segment's media sequence number is the playlist's
    /// `media_sequence` plus the segment's index.
    pub open spec fn wf(self) -> bool {
        forall|i: int|
            0 <= i < self.segments@.len() ==> (#[trigger] self.segments@[i]).msn
                == self.media_sequence + i
    }

    /// The media sequence number of the last segment, if any.
    pub open spec fn spec_last_msn(self) -> Option<usize> {
        if self.segments@.len() == 0 {
            None
        } else {
            Some(self.segments@.last().msn)
        }
    }

    /// The media sequence number of the last segment, if any.
    pub fn last_msn(&self) -> (r: Option<usize>)
        ensures
            r == self.spec_last_msn(),
    {
        if self.segments.len() == 0 {
            None
        } else {
            Some(self.segments[self.segments.len() - 1].msn)
        }
    }
}


/// The mathematical value of a [`DateRange`].
pub struct DateRangeV {
    pub id: Seq<u8>,
    pub duration_millis: Option<u64>,
    pub start_date: Option<Timestamp>,
    pub planned_duration_millis: Option<u64>,
    pub end_date: Option<Timestamp>,
    pub scte35_cmd: Option<Seq<u8>>,
    pub scte35_out: Option<Seq<u8>>,
    pub scte35_in: Option<Seq<u8>>,
}

/// The view of an optional byte payload.
pub open spec fn view_opt(o: Option<Vec<u8>>) -> Option<Seq<u8>> {
    match o {
        Some(v) => Some(v@),
        None => None,
    }
}

impl View for DateRange {
    type V = DateRangeV;

    open spec fn view(&self) -> DateRangeV {
        DateRangeV {
            id: self.id@,
            duration_millis: self.duration_millis,
            start_date: self.start_date,
            planned_duration_millis: self.planned_duration_millis,
            end_date: self.end_date,
            scte35_cmd: view_opt(self.scte35_cmd),
            scte35_out: view_opt(self.scte35_out),
            scte35_in: view_opt(self.scte35_in),
        }
    }
}

/// The mathematical value of a [`MediaSegment`].
pub struct MediaSegmentV {
    pub msn: usize,
    pub uri: Seq<u8>,
    pub duration_millis: u64,
    pub has_discontinuity: bool,
    pub byte_range: Option<ByteRange>,
    pub program_date_time: Option<Timestamp>,
    pub date_range: Option<DateRangeV>,
}

impl View for MediaSegment {
    type V = MediaSegmentV;

    open spec fn view(&self) -> MediaSegmentV {
        MediaSegmentV {
            msn: self.msn,
            uri: self.uri@,
            duration_millis: self.duration_millis,
            has_discontinuity: self.has_discontinuity,
            byte_range: self.byte_range,
            program_date_time: self.program_date_time,
            date_range: match self.date_range {
                Some(dr) => Some(dr@),
                None => None,
            },
        }
    }
}

/// The mathematical value of a [`ParseError`].
pub enum ParseErrorV {
    UrlWithoutExtinf { url: Seq<u8>, start: usize, end: usize },
    InvalidNumber,
    MissingTargetDuration,
    MissingVersion,
    Chrono,
    Attributes,
}

impl View for ParseError {
    type V = ParseErrorV;

    open spec fn view(&self) -> ParseErrorV {
        match *self {
            ParseError::UrlWithoutExtinf { url, start, end } => ParseErrorV::UrlWithoutExtinf {
                url: url@,
                start,
                end,
            },
            ParseError::InvalidNumber => ParseErrorV::InvalidNumber,
            ParseError::MissingTargetDuration => ParseErrorV::MissingTargetDuration,
            ParseError::MissingVersion => ParseErrorV::MissingVersion,
            ParseError::Chrono => ParseErrorV::Chrono,
            ParseError::Attributes => ParseErrorV::Attributes,
        }
    }
}

/// The mathematical value of a [`MediaPlaylist`].
pub struct MediaPlaylistV {
    pub target_duration_millis: u64,
    pub media_sequence: usize,
    pub segments: Seq<MediaSegmentV>,
    pub has_end_list: bool,
    pub playlist_type: Option<PlaylistType>,
    pub has_i_frames_only: bool,
    pub has_independent_segments: bool,
    pub version: u64,
}

impl View for MediaPlaylist {
    type V = MediaPlaylistV;

    open spec fn view(&self) -> MediaPlaylistV {
        MediaPlaylistV {
            target_duration_millis: self.target_duration_millis,
            media_sequence: self.media_sequence,
            segments: self.segments@.map_values(|s: MediaSegment| s@),
            has_end_list: self.has_end_list,
            playlist_type: self.playlist_type,
            has_i_frames_only: self.has_i_frames_only,
            has_independent_segments: self.has_independent_segments,
            version: self.version,
        }
    }
}

/// The milliseconds written by up to three leading fractional-second
/// digits (further digits are ignored).
pub open spec fn spec_frac_millis(fp: Seq<u8>) -> int {
    if fp.len() >= 3 {
        crate::textfmt::digits_val(fp.take(3))
    } else if fp.len() == 2 {
        crate::textfmt::digits_val(fp) * 10
    } else if fp.len() == 1 {
        crate::textfmt::digits_val(fp) * 100
    } else {
        0
    }
}

/// Whether every byte is a decimal digit.
pub open spec fn all_digits(s: Seq<u8>) -> bool {
    forall|i: int| 0 <= i < s.len() ==> crate::textfmt::is_digit(#[trigger] s[i])
}

/// A decimal-seconds duration as whole milliseconds: `SS` or
/// `SS.mmm`, with fractional digits beyond the third ignored.
/// Defined exactly when the text is such a number and the result
/// fits in `u64`.
pub open spec fn spec_parse_duration_millis(s: Seq<u8>) -> Option<u64> {
    match crate::headers::spec_find_byte(s, 0x2e) {
        None => match crate::textfmt::spec_parse_u64(s) {
            Some(n) => if n <= u64::MAX / 1000 {
                Some((n * 1000) as u64)
            } else {
                None
            },
            None => None,
        },
        Some(d) => {
            let ip = s.take(d);
            let fp = s.skip(d + 1);
            if (ip.len() > 0 || fp.len() > 0) && all_digits(ip) && all_digits(fp)
                && crate::textfmt::digits_val(ip) * 1000 + spec_frac_millis(fp) <= u64::MAX {
                Some((crate::textfmt::digits_val(ip) * 1000 + spec_frac_millis(fp)) as u64)
            } else {
                None
            }
        },
    }
}

/// Up to three digits denote fewer than 1000 (and tighter bounds
/// for shorter strings).
proof fn lemma_digits_val_bound(s: Seq<u8>)
    requires
        all_digits(s),
        s.len() <= 3,
    ensures
        0 <= crate::textfmt::digits_val(s),
        crate::textfmt::digits_val(s) < 1000,
        s.len() <= 2 ==> crate::textfmt::digits_val(s) < 100,
        s.len() <= 1 ==> crate::textfmt::digits_val(s) < 10,
    decreases s.len(),
{
    if s.len() > 0 {
        assert(forall|i: int|
            0 <= i < s.len() - 1 ==> crate::textfmt::is_digit(#[trigger] s.drop_last()[i]));
        lemma_digits_val_bound(s.drop_last());
        assert(crate::textfmt::is_digit(s.last()));
    }
}

/// The fractional-millisecond value is under one second.
proof fn lemma_frac_millis_bound(fp: Seq<u8>)
    requires
        all_digits(fp),
    ensures
        0 <= spec_frac_millis(fp),
        spec_frac_millis(fp) < 1000,
{
    if fp.len() >= 3 {
        assert(forall|i: int|
            0 <= i < 3 ==> crate::textfmt::is_digit(#[trigger] fp.take(3)[i]));
        lemma_digits_val_bound(fp.take(3));
    } else {
        lemma_digits_val_bound(fp);
    }
}

/// Parse a digit string of known-bounded length.
fn parse_digits_bounded(s: &[u8]) -> (r: Option<u64>)
    ensures
        match r {
            Some(n) => all_digits(s@) && n == crate::textfmt::digits_val(s@),
            None => !all_digits(s@) || crate::textfmt::digits_val(s@) > u64::MAX,
        },
{
    match crate::textfmt::parse_u64_dec(s) {
        Some(n) => {
            proof {
                crate::textfmt::lemma_digits_val_nonneg(s@);
            }
            Some(n)
        },
        None => {
            if s.len() == 0 {
                proof {
                    assert(crate::textfmt::digits_val(s@) == 0);
                }
                Some(0)
            } else {
                None
            }
        },
    }
}

/// Parse a decimal-seconds duration into whole milliseconds.
#[verifier::rlimit(100)]
pub fn parse_duration_millis(s: &[u8]) -> (r: Option<u64>)
    ensures
        r == spec_parse_duration_millis(s@),
{
    match crate::headers::find_byte(s, 0x2e) {
        None => match crate::textfmt::parse_u64_dec(s) {
            Some(n) => {
                if n <= u64::MAX / 1000 {
                    proof {
                        assert(n * 1000 <= u64::MAX) by (nonlinear_arith)
                            requires
                                n <= u64::MAX / 1000,
                        ;
                    }
                    Some(n * 1000)
                } else {
                    None
                }
            },
            None => None,
        },
        Some(d) => {
            let ghost ip: Seq<u8> = s@.take(d as int);
            let ghost fp: Seq<u8> = s@.skip(d + 1);
            let (ip_s, rest) = s.split_at(d);
            let fp_s = rest.split_at(1).1;
            proof {
                assert(ip_s@ =~= ip);
                assert(fp_s@ =~= fp);
            }
            if ip_s.len() == 0 && fp_s.len() == 0 {
                return None;
            }
            let iv = match parse_digits_bounded(ip_s) {
                Some(v) => v,
                None => {
                    proof {
                        if all_digits(ip) && all_digits(fp) {
                            crate::textfmt::lemma_digits_val_nonneg(ip);
                            lemma_frac_millis_bound(fp);
                        }
                    }
                    return None;
                },
            };
            let flen = fp_s.len();
            let f3 = if flen >= 3 {
                fp_s.split_at(3).0
            } else {
                fp_s
            };
            proof {
                if flen >= 3 {
                    assert(f3@ =~= fp.take(3));
                } else {
                    assert(f3@ =~= fp);
                }
            }
            let fv = match parse_digits_bounded(f3) {
                Some(v) => v,
                None => {
                    proof {
                        // three digits cannot exceed u64::MAX, so the
                        // fractional part must hold a non-digit
                        if all_digits(f3@) {
                            lemma_digits_val_bound(f3@);
                        }
                        assert(!all_digits(fp)) by {
                            if all_digits(fp) {
                                assert(forall|i: int|
                                    0 <= i < f3@.len() ==> crate::textfmt::is_digit(
                                        #[trigger] f3@[i],
                                    )) by {
                                    assert(forall|i: int|
                                        0 <= i < f3@.len() ==> f3@[i] == fp[i]);
                                }
                            }
                        }
                    }
                    return None;
                },
            };
            if flen >= 3 {
                // the remaining fractional digits must still be digits
                let mut k: usize = 3;
                while k < flen
                    invariant
                        3 <= k <= flen,
                        flen == fp.len(),
                        fp == fp_s@,
                        crate::headers::spec_find_byte(s@, 0x2e) == Some(d as int),
                        fp == s@.skip(d + 1),
                        forall|i: int| 3 <= i < k ==> crate::textfmt::is_digit(#[trigger] fp[i]),
                    decreases flen - k,
                {
                    let b = fp_s[k];
                    if !(0x30 <= b && b <= 0x39) {
                        proof {
                            assert(!crate::textfmt::is_digit(fp[k as int]));
                            assert(!all_digits(fp));
                            assert(spec_parse_duration_millis(s@) is None);
                        }
                        return None;
                    }
                    k = k + 1;
                }
            }
            proof {
                assert(all_digits(fp)) by {
                    assert(forall|i: int|
                        0 <= i < f3@.len() ==> crate::textfmt::is_digit(#[trigger] f3@[i]));
                    assert(forall|i: int| 0 <= i < f3@.len() ==> fp[i] == f3@[i]);
                }
                lemma_frac_millis_bound(fp);
            }
            let fm: u64 = if flen >= 3 {
                fv
            } else if flen == 2 {
                proof {
                    lemma_digits_val_bound(f3@);
                }
                fv * 10
            } else if flen == 1 {
                proof {
                    lemma_digits_val_bound(f3@);
                }
                fv * 100
            } else {
                0
            };
            proof {
                assert(fm == spec_frac_millis(fp));
            }
            if iv > (u64::MAX - fm) / 1000 {
                proof {
                    assert(iv * 1000 + fm > u64::MAX) by (nonlinear_arith)
                        requires
                            iv > (u64::MAX - fm) / 1000,
                            0 <= fm <= 999,
                            iv >= 0,
                    ;
                }
                return None;
            }
            proof {
                assert(iv * 1000 + fm <= u64::MAX) by (nonlinear_arith)
                    requires
                        iv <= (u64::MAX - fm) / 1000,
                        0 <= fm <= 999,
                        iv >= 0,
                ;
            }
            Some(iv * 1000 + fm)
        },
    }
}


/// The first `KEY=VALUE` split of one attribute: the text before the
/// first `=` and the text after it.
pub open spec fn attr_split(a: Seq<u8>) -> Option<(Seq<u8>, Seq<u8>)> {
    match crate::headers::spec_find_byte(a, 0x3d) {
        Some(e) => Some((a.take(e), a.skip(e + 1))),
        None => None,
    }
}

/// An attribute list split at commas.  Quoting is not interpreted:
/// attribute values are expected not to contain commas.
pub open spec fn split_commas(s: Seq<u8>) -> Seq<Seq<u8>>
    decreases s.len(),
{
    match crate::headers::spec_find_byte(s, 0x2c) {
        Some(c) => if 0 <= c < s.len() {
            seq![s.take(c)] + split_commas(s.skip(c + 1))
        } else {
            seq![s]
        },
        None => seq![s],
    }
}

/// The raw value of the first attribute with the given key.
pub open spec fn find_attr(attrs: Seq<Seq<u8>>, key: Seq<u8>) -> Option<Seq<u8>>
    decreases attrs.len(),
{
    if attrs.len() == 0 {
        None
    } else {
        match attr_split(attrs[0]) {
            Some((k, v)) => if k == key {
                Some(v)
            } else {
                find_attr(attrs.drop_first(), key)
            },
            None => find_attr(attrs.drop_first(), key),
        }
    }
}

/// A value with its surrounding double quotes removed, when present.
pub open spec fn spec_unquote(v: Seq<u8>) -> Seq<u8> {
    if v.len() >= 2 && v[0] == 0x22 && v.last() == 0x22 {
        v.subrange(1, v.len() - 1)
    } else {
        v
    }
}

/// Remove surrounding double quotes, when present.
pub fn unquote(v: &[u8]) -> (r: Vec<u8>)
    ensures
        r@ == spec_unquote(v@),
{
    if v.len() >= 2 && v[0] == 0x22 && v[v.len() - 1] == 0x22 {
        let inner = v.split_at(v.len() - 1).0.split_at(1).1;
        proof {
            assert(inner@ =~= v@.subrange(1, v@.len() - 1));
        }
        crate::textfmt::copy_bytes(inner)
    } else {
        crate::textfmt::copy_bytes(v)
    }
}

/// Find the first attribute with the given key in a comma-separated
/// attribute list.
pub fn find_attr_exec(payload: &[u8], key: &[u8]) -> (r: Option<Vec<u8>>)
    ensures
        match r {
            Some(v) => find_attr(split_commas(payload@), key@) == Some(v@),
            None => find_attr(split_commas(payload@), key@) is None,
        },
{
    proof {
        assert(payload@.skip(0) =~= payload@);
    }
    let n = payload.len();
    proof {
        assert(n == payload@.len());
    }
    let mut pos: usize = 0;
    loop
        invariant
            0 <= pos <= payload@.len(),
            payload@.len() <= usize::MAX,
            find_attr(split_commas(payload@), key@) == find_attr(
                split_commas(payload@.skip(pos as int)),
                key@,
            ),
        decreases payload@.len() - pos,
    {
        let rest = payload.split_at(pos).1;
        proof {
            assert(rest@ =~= payload@.skip(pos as int));
        }
        let (chunk, next_pos, last) = match crate::headers::find_byte(rest, 0x2c) {
            Some(c) => (rest.split_at(c).0, pos + c + 1, false),
            None => (rest, payload.len(), true),
        };
        proof {
            if !last {
                assert(chunk@ =~= rest@.take(next_pos - pos - 1));
                let tail = split_commas(rest@.skip(next_pos - pos));
                assert(split_commas(rest@) == seq![chunk@] + tail);
                assert((seq![chunk@] + tail)[0] == chunk@);
                assert((seq![chunk@] + tail).drop_first() =~= tail);
            } else {
                assert(chunk@ =~= rest@);
                assert(split_commas(rest@) == seq![chunk@]);
                assert(seq![chunk@][0] == chunk@);
                assert(seq![chunk@].drop_first() =~= Seq::<Seq<u8>>::empty());
            }
        }
        match crate::headers::find_byte(chunk, 0x3d) {
            Some(e) => {
                let (k, v_eq) = chunk.split_at(e);
                let v = v_eq.split_at(1).1;
                proof {
                    assert(k@ =~= chunk@.take(e as int));
                    assert(v@ =~= chunk@.skip(e + 1));
                }
                if crate::textfmt::bytes_eq(k, key) {
                    return Some(crate::textfmt::copy_bytes(v));
                }
                proof {
                    assert(attr_split(chunk@) == Some((k@, v@)));
                    assert(k@ != key@);
                }
            },
            None => {
                proof {
                    assert(attr_split(chunk@) is None);
                }
            },
        }
        if last {
            proof {
                let attrs1: Seq<Seq<u8>> = seq![chunk@];
                assert(attrs1[0] == chunk@);
                assert(attrs1.drop_first() =~= Seq::<Seq<u8>>::empty());
                assert(find_attr(attrs1.drop_first(), key@) is None);
                assert(find_attr(attrs1, key@) is None);
            }
            return None;
        }
        proof {
            assert(rest@.skip(next_pos - pos) =~= payload@.skip(next_pos as int));
        }
        pos = next_pos;
    }
}

/// An `EXT-X-BYTERANGE` payload: `length[@start]`.
pub open spec fn spec_parse_byte_range(s: Seq<u8>) -> Option<ByteRange> {
    match crate::headers::spec_find_byte(s, 0x40) {
        None => match crate::textfmt::spec_parse_u64(s) {
            Some(n) => Some(ByteRange { length: n, start: None }),
            None => None,
        },
        Some(a) => match (
            crate::textfmt::spec_parse_u64(s.take(a)),
            crate::textfmt::spec_parse_u64(s.skip(a + 1)),
        ) {
            (Some(n), Some(o)) => Some(ByteRange { length: n, start: Some(o) }),
            _ => None,
        },
    }
}

/// Parse an `EXT-X-BYTERANGE` payload.
pub fn parse_byte_range(s: &[u8]) -> (r: Option<ByteRange>)
    ensures
        r == spec_parse_byte_range(s@),
{
    match crate::headers::find_byte(s, 0x40) {
        None => match crate::textfmt::parse_u64_dec(s) {
            Some(n) => Some(ByteRange { length: n, start: None }),
            None => None,
        },
        Some(a) => {
            let (len_s, rest) = s.split_at(a);
            let off_s = rest.split_at(1).1;
            proof {
                assert(len_s@ =~= s@.take(a as int));
                assert(off_s@ =~= s@.skip(a + 1));
            }
            match (crate::textfmt::parse_u64_dec(len_s), crate::textfmt::parse_u64_dec(off_s)) {
                (Some(n), Some(o)) => Some(ByteRange { length: n, start: Some(o) }),
                _ => None,
            }
        },
    }
}

/// A parsed optional duration attribute: absent, present and valid,
/// or present and malformed.
pub open spec fn spec_attr_duration(attrs: Seq<Seq<u8>>, key: Seq<u8>) -> Result<
    Option<u64>,
    (),
> {
    match find_attr(attrs, key) {
        None => Ok(None),
        Some(v) => match spec_parse_duration_millis(spec_unquote(v)) {
            Some(ms) => Ok(Some(ms)),
            None => Err(()),
        },
    }
}

/// A parsed optional date attribute.
pub open spec fn spec_attr_date(attrs: Seq<Seq<u8>>, key: Seq<u8>) -> Result<
    Option<Timestamp>,
    (),
> {
    match find_attr(attrs, key) {
        None => Ok(None),
        Some(v) => match crate::dates::rfc3339_parse_of(spec_unquote(v)) {
            Some((ms, off)) => Ok(Some(Timestamp { epoch_millis: ms, offset_secs: off })),
            None => Err(()),
        },
    }
}

/// A raw optional textual attribute, unquoted.
pub open spec fn spec_attr_text(attrs: Seq<Seq<u8>>, key: Seq<u8>) -> Option<Seq<u8>> {
    match find_attr(attrs, key) {
        None => None,
        Some(v) => Some(spec_unquote(v)),
    }
}

/// An `EXT-X-DATERANGE` payload: the attributes the checker compares
/// across reloads.  `ID` is required; a malformed duration is an
/// attribute error, a malformed date a date error.
pub open spec fn spec_parse_daterange(payload: Seq<u8>) -> Result<DateRangeV, ParseErrorV> {
    let attrs = split_commas(payload);
    match spec_attr_text(attrs, crate::textfmt::ascii_bytes("ID"@)) {
        None => Err(ParseErrorV::Attributes),
        Some(id) => match spec_attr_duration(attrs, crate::textfmt::ascii_bytes("DURATION"@)) {
            Err(_) => Err(ParseErrorV::Attributes),
            Ok(dur) => match spec_attr_date(attrs, crate::textfmt::ascii_bytes("START-DATE"@)) {
                Err(_) => Err(ParseErrorV::Chrono),
                Ok(sd) => match spec_attr_duration(
                    attrs,
                    crate::textfmt::ascii_bytes("PLANNED-DURATION"@),
                ) {
                    Err(_) => Err(ParseErrorV::Attributes),
                    Ok(pdur) => match spec_attr_date(
                        attrs,
                        crate::textfmt::ascii_bytes("END-DATE"@),
                    ) {
                        Err(_) => Err(ParseErrorV::Chrono),
                        Ok(ed) => Ok(
                            DateRangeV {
                                id,
                                duration_millis: dur,
                                start_date: sd,
                                planned_duration_millis: pdur,
                                end_date: ed,
                                scte35_cmd: spec_attr_text(
                                    attrs,
                                    crate::textfmt::ascii_bytes("SCTE35-CMD"@),
                                ),
                                scte35_out: spec_attr_text(
                                    attrs,
                                    crate::textfmt::ascii_bytes("SCTE35-OUT"@),
                                ),
                                scte35_in: spec_attr_text(
                                    attrs,
                                    crate::textfmt::ascii_bytes("SCTE35-IN"@),
                                ),
                            },
                        ),
                    },
                },
            },
        },
    }
}

/// Parse an optional duration attribute.
fn attr_duration(payload: &[u8], key: &str) -> (r: Result<Option<u64>, ()>)
    requires
        key.is_ascii(),
    ensures
        r == spec_attr_duration(split_commas(payload@), crate::textfmt::ascii_bytes(key@)),
{
    let key_b = crate::textfmt::str_bytes(key);
    match find_attr_exec(payload, key_b.as_slice()) {
        None => Ok(None),
        Some(v) => {
            let u = unquote(v.as_slice());
            match parse_duration_millis(u.as_slice()) {
                Some(ms) => Ok(Some(ms)),
                None => Err(()),
            }
        },
    }
}

/// Parse an optional date attribute.
fn attr_date(payload: &[u8], key: &str) -> (r: Result<Option<Timestamp>, ()>)
    requires
        key.is_ascii(),
    ensures
        r == spec_attr_date(split_commas(payload@), crate::textfmt::ascii_bytes(key@)),
{
    let key_b = crate::textfmt::str_bytes(key);
    match find_attr_exec(payload, key_b.as_slice()) {
        None => Ok(None),
        Some(v) => {
            let u = unquote(v.as_slice());
            match crate::dates::parse_rfc3339(u.as_slice()) {
                Some(ts) => Ok(Some(ts)),
                None => Err(()),
            }
        },
    }
}

/// Read an optional textual attribute.
fn attr_text(payload: &[u8], key: &str) -> (r: Option<Vec<u8>>)
    requires
        key.is_ascii(),
    ensures
        view_opt(r) == spec_attr_text(split_commas(payload@), crate::textfmt::ascii_bytes(key@)),
{
    let key_b = crate::textfmt::str_bytes(key);
    match find_attr_exec(payload, key_b.as_slice()) {
        None => None,
        Some(v) => Some(unquote(v.as_slice())),
    }
}

/// Parse an `EXT-X-DATERANGE` payload.
pub fn parse_daterange(payload: &[u8]) -> (r: Result<DateRange, ParseError>)
    ensures
        match spec_parse_daterange(payload@) {
            Ok(drv) => r matches Ok(dr) && dr@ == drv,
            Err(e) => r matches Err(pe) && pe@ == e,
        },
{
    proof {
        reveal_strlit("ID");
        reveal_strlit("DURATION");
        reveal_strlit("START-DATE");
        reveal_strlit("PLANNED-DURATION");
        reveal_strlit("END-DATE");
        reveal_strlit("SCTE35-CMD");
        reveal_strlit("SCTE35-OUT");
        reveal_strlit("SCTE35-IN");
    }
    let id = match attr_text(payload, "ID") {
        Some(id) => id,
        None => {
            return Err(ParseError::Attributes);
        },
    };
    let duration_millis = match attr_duration(payload, "DURATION") {
        Ok(d) => d,
        Err(_) => {
            return Err(ParseError::Attributes);
        },
    };
    let start_date = match attr_date(payload, "START-DATE") {
        Ok(d) => d,
        Err(_) => {
            return Err(ParseError::Chrono);
        },
    };
    let planned_duration_millis = match attr_duration(payload, "PLANNED-DURATION") {
        Ok(d) => d,
        Err(_) => {
            return Err(ParseError::Attributes);
        },
    };
    let end_date = match attr_date(payload, "END-DATE") {
        Ok(d) => d,
        Err(_) => {
            return Err(ParseError::Chrono);
        },
    };
    let scte35_cmd = attr_text(payload, "SCTE35-CMD");
    let scte35_out = attr_text(payload, "SCTE35-OUT");
    let scte35_in = attr_text(payload, "SCTE35-IN");
    Ok(
        DateRange {
            id,
            duration_millis,
            start_date,
            planned_duration_millis,
            end_date,
            scte35_cmd,
            scte35_out,
            scte35_in,
        },
    )
}


/// The parser state after some prefix of the manifest lines: the
/// whole-playlist values seen so far, the drafted segments (media
/// sequence numbers still unassigned), the tags pending for the next
/// segment, and the non-fatal diagnostics.
#[verifier::ext_equal]
pub struct BuilderV {
    pub target_duration_millis: Option<u64>,
    pub version: Option<u64>,
    pub media_sequence: usize,
    pub has_end_list: bool,
    pub playlist_type: Option<PlaylistType>,
    pub has_i_frames_only: bool,
    pub has_independent_segments: bool,
    pub drafts: Seq<MediaSegmentV>,
    pub pending_duration: Option<u64>,
    pub pending_discontinuity: bool,
    pub pending_byte_range: Option<ByteRange>,
    pub pending_pdt: Option<Timestamp>,
    pub pending_daterange: Option<DateRangeV>,
    pub diags: Seq<ParseErrorV>,
}

/// The state before any line.
pub open spec fn init_builder() -> BuilderV {
    BuilderV {
        target_duration_millis: None,
        version: None,
        media_sequence: 0,
        has_end_list: false,
        playlist_type: None,
        has_i_frames_only: false,
        has_independent_segments: false,
        drafts: Seq::empty(),
        pending_duration: None,
        pending_discontinuity: false,
        pending_byte_range: None,
        pending_pdt: None,
        pending_daterange: None,
        diags: Seq::empty(),
    }
}

/// Whether `line` starts with `tag`.
pub open spec fn has_pfx(line: Seq<u8>, tag: Seq<u8>) -> bool {
    line.len() >= tag.len() && line.take(tag.len() as int) == tag
}

/// What one manifest line does to the parser state, or the fatal
/// error it raises.  `start` and `end` are the line's byte offsets
/// into the source text.
pub open spec fn spec_line_step(st: BuilderV, line: Seq<u8>, start: usize, end: usize) -> Result<
    BuilderV,
    ParseErrorV,
> {
    let a = |t: Seq<char>| crate::textfmt::ascii_bytes(t);
    if line.len() == 0 {
        Ok(st)
    } else if line[0] != 0x23 {
        // a URI line closes the pending segment, or is diagnosed
        match st.pending_duration {
            Some(d) => Ok(
                BuilderV {
                    drafts: st.drafts.push(
                        MediaSegmentV {
                            msn: 0,
                            uri: line,
                            duration_millis: d,
                            has_discontinuity: st.pending_discontinuity,
                            byte_range: st.pending_byte_range,
                            program_date_time: st.pending_pdt,
                            date_range: st.pending_daterange,
                        },
                    ),
                    pending_duration: None,
                    pending_discontinuity: false,
                    pending_byte_range: None,
                    pending_pdt: None,
                    pending_daterange: None,
                    ..st
                },
            ),
            None => Ok(
                BuilderV {
                    diags: st.diags.push(ParseErrorV::UrlWithoutExtinf { url: line, start, end }),
                    ..st
                },
            ),
        }
    } else if has_pfx(line, a("#EXT-X-VERSION:"@)) {
        match crate::textfmt::spec_parse_u64(line.skip(15)) {
            Some(n) => Ok(BuilderV { version: Some(n), ..st }),
            None => Err(ParseErrorV::InvalidNumber),
        }
    } else if has_pfx(line, a("#EXT-X-TARGETDURATION:"@)) {
        match crate::textfmt::spec_parse_u64(line.skip(22)) {
            Some(n) => if n <= u64::MAX / 1000 {
                Ok(BuilderV { target_duration_millis: Some((n * 1000) as u64), ..st })
            } else {
                Err(ParseErrorV::InvalidNumber)
            },
            None => Err(ParseErrorV::InvalidNumber),
        }
    } else if has_pfx(line, a("#EXT-X-MEDIA-SEQUENCE:"@)) {
        match crate::textfmt::spec_parse_u64(line.skip(22)) {
            Some(n) => if n <= usize::MAX {
                Ok(BuilderV { media_sequence: n as usize, ..st })
            } else {
                Err(ParseErrorV::InvalidNumber)
            },
            None => Err(ParseErrorV::InvalidNumber),
        }
    } else if has_pfx(line, a("#EXTINF:"@)) {
        let payload = line.skip(8);
        let dur_text = match crate::headers::spec_find_byte(payload, 0x2c) {
            Some(c) => payload.take(c),
            None => payload,
        };
        match spec_parse_duration_millis(dur_text) {
            Some(d) => Ok(BuilderV { pending_duration: Some(d), ..st }),
            None => Err(ParseErrorV::InvalidNumber),
        }
    } else if has_pfx(line, a("#EXT-X-BYTERANGE:"@)) {
        match spec_parse_byte_range(line.skip(17)) {
            Some(br) => Ok(BuilderV { pending_byte_range: Some(br), ..st }),
            None => Err(ParseErrorV::InvalidNumber),
        }
    } else if line == a("#EXT-X-DISCONTINUITY"@) {
        Ok(BuilderV { pending_discontinuity: true, ..st })
    } else if has_pfx(line, a("#EXT-X-PROGRAM-DATE-TIME:"@)) {
        match crate::dates::rfc3339_parse_of(line.skip(25)) {
            Some((ms, off)) => Ok(
                BuilderV {
                    pending_pdt: Some(Timestamp { epoch_millis: ms, offset_secs: off }),
                    ..st
                },
            ),
            None => Err(ParseErrorV::Chrono),
        }
    } else if has_pfx(line, a("#EXT-X-DATERANGE:"@)) {
        match spec_parse_daterange(line.skip(17)) {
            Ok(dr) => Ok(BuilderV { pending_daterange: Some(dr), ..st }),
            Err(e) => Err(e),
        }
    } else if line == a("#EXT-X-ENDLIST"@) {
        Ok(BuilderV { has_end_list: true, ..st })
    } else if has_pfx(line, a("#EXT-X-PLAYLIST-TYPE:"@)) {
        let payload = line.skip(21);
        if payload == a("EVENT"@) {
            Ok(BuilderV { playlist_type: Some(PlaylistType::Event), ..st })
        } else if payload == a("VOD"@) {
            Ok(BuilderV { playlist_type: Some(PlaylistType::Vod), ..st })
        } else {
            Ok(st)
        }
    } else if line == a("#EXT-X-I-FRAMES-ONLY"@) {
        Ok(BuilderV { has_i_frames_only: true, ..st })
    } else if line == a("#EXT-X-INDEPENDENT-SEGMENTS"@) {
        Ok(BuilderV { has_independent_segments: true, ..st })
    } else {
        // other comments and unrecognized tags are ignored
        Ok(st)
    }
}

/// The parser state after every line of `s` from byte `pos` on, or
/// the first fatal error.  Lines end at a newline byte; a carriage
/// return before the newline is not part of the line.
pub open spec fn spec_parse_lines(s: Seq<u8>, pos: int, st: BuilderV) -> Result<
    BuilderV,
    ParseErrorV,
>
    decreases s.len() - pos,
{
    if pos < 0 || pos >= s.len() {
        Ok(st)
    } else {
        let rest = s.skip(pos);
        match crate::headers::spec_find_byte(rest, 0x0a) {
            Some(k) => if 0 <= k < rest.len() {
                let raw = rest.take(k);
                let line = if raw.len() > 0 && raw.last() == 0x0d {
                    raw.drop_last()
                } else {
                    raw
                };
                match spec_line_step(st, line, pos as usize, (pos + line.len()) as usize) {
                    Ok(st2) => spec_parse_lines(s, pos + k + 1, st2),
                    Err(e) => Err(e),
                }
            } else {
                Ok(st)
            },
            None => {
                let line = if rest.len() > 0 && rest.last() == 0x0d {
                    rest.drop_last()
                } else {
                    rest
                };
                spec_line_step(st, line, pos as usize, (pos + line.len()) as usize)
            },
        }
    }
}

/// The playlist a finished parser state builds, or the fatal error:
/// the required tags must have been present, and the media sequence
/// numbering must fit.  Each segment's MSN becomes `media_sequence`
/// plus its index.
pub open spec fn spec_build(st: BuilderV) -> Result<MediaPlaylistV, ParseErrorV> {
    if st.target_duration_millis is None {
        Err(ParseErrorV::MissingTargetDuration)
    } else if st.version is None {
        Err(ParseErrorV::MissingVersion)
    } else if st.drafts.len() > 0 && st.media_sequence > usize::MAX - (st.drafts.len() - 1) {
        Err(ParseErrorV::InvalidNumber)
    } else {
        Ok(
            MediaPlaylistV {
                target_duration_millis: st.target_duration_millis->Some_0,
                media_sequence: st.media_sequence,
                segments: Seq::new(
                    st.drafts.len(),
                    |i: int|
                        MediaSegmentV {
                            msn: (st.media_sequence + i) as usize,
                            ..st.drafts[i]
                        },
                ),
                has_end_list: st.has_end_list,
                playlist_type: st.playlist_type,
                has_i_frames_only: st.has_i_frames_only,
                has_independent_segments: st.has_independent_segments,
                version: st.version->Some_0,
            },
        )
    }
}

/// The whole parse: every line, then the build step, with the
/// collected non-fatal diagnostics.
pub open spec fn spec_parse_playlist(s: Seq<u8>) -> Result<
    (MediaPlaylistV, Seq<ParseErrorV>),
    ParseErrorV,
> {
    match spec_parse_lines(s, 0, init_builder()) {
        Ok(st) => match spec_build(st) {
            Ok(p) => Ok((p, st.diags)),
            Err(e) => Err(e),
        },
        Err(e) => Err(e),
    }
}

/// The incremental playlist parser state.
#[derive(Debug)]
pub struct PlaylistBuilder {
    target_duration_millis: Option<u64>,
    version: Option<u64>,
    media_sequence: usize,
    has_end_list: bool,
    playlist_type: Option<PlaylistType>,
    has_i_frames_only: bool,
    has_independent_segments: bool,
    drafts: Vec<MediaSegment>,
    pending_duration: Option<u64>,
    pending_discontinuity: bool,
    pending_byte_range: Option<ByteRange>,
    pending_pdt: Option<Timestamp>,
    pending_daterange: Option<DateRange>,
    diags: Vec<ParseError>,
}

impl View for PlaylistBuilder {
    type V = BuilderV;

    closed spec fn view(&self) -> BuilderV {
        BuilderV {
            target_duration_millis: self.target_duration_millis,
            version: self.version,
            media_sequence: self.media_sequence,
            has_end_list: self.has_end_list,
            playlist_type: self.playlist_type,
            has_i_frames_only: self.has_i_frames_only,
            has_independent_segments: self.has_independent_segments,
            drafts: self.drafts@.map_values(|s: MediaSegment| s@),
            pending_duration: self.pending_duration,
            pending_discontinuity: self.pending_discontinuity,
            pending_byte_range: self.pending_byte_range,
            pending_pdt: self.pending_pdt,
            pending_daterange: match self.pending_daterange {
                Some(dr) => Some(dr@),
                None => None,
            },
            diags: self.diags@.map_values(|e: ParseError| e@),
        }
    }
}

/// The payload of `line` after `tag`, when `line` starts with `tag`.
fn tag_payload<'a>(line: &'a [u8], tag: &str) -> (r: Option<&'a [u8]>)
    requires
        tag.is_ascii(),
    ensures
        match r {
            Some(p) => has_pfx(line@, crate::textfmt::ascii_bytes(tag@)) && p@ == line@.skip(
                crate::textfmt::ascii_bytes(tag@).len() as int,
            ),
            None => !has_pfx(line@, crate::textfmt::ascii_bytes(tag@)),
        },
{
    let tb = crate::textfmt::str_bytes(tag);
    if line.len() >= tb.len() {
        let (head, tail) = line.split_at(tb.len());
        proof {
            assert(head@ =~= line@.take(tb@.len() as int));
            assert(tail@ =~= line@.skip(tb@.len() as int));
        }
        if crate::textfmt::bytes_eq(head, tb.as_slice()) {
            Some(tail)
        } else {
            None
        }
    } else {
        None
    }
}

/// Whether `line` is exactly the ASCII text `tag`.
fn line_is<'a>(line: &'a [u8], tag: &str) -> (r: bool)
    requires
        tag.is_ascii(),
    ensures
        r == (line@ == crate::textfmt::ascii_bytes(tag@)),
{
    let tb = crate::textfmt::str_bytes(tag);
    crate::textfmt::bytes_eq(line, tb.as_slice())
}

impl PlaylistBuilder {
    /// The state before any line.
    pub fn new() -> (r: PlaylistBuilder)
        ensures
            r@ == init_builder(),
    {
        let r = PlaylistBuilder {
            target_duration_millis: None,
            version: None,
            media_sequence: 0,
            has_end_list: false,
            playlist_type: None,
            has_i_frames_only: false,
            has_independent_segments: false,
            drafts: Vec::new(),
            pending_duration: None,
            pending_discontinuity: false,
            pending_byte_range: None,
            pending_pdt: None,
            pending_daterange: None,
            diags: Vec::new(),
        };
        proof {
            assert(r@ =~= init_builder());
        }
        r
    }

    /// Consume one manifest line.
    #[verifier::rlimit(100)]
    #[verifier::spinoff_prover]
    pub fn process_line(&mut self, line: &[u8], start: usize, end: usize) -> (r: Result<
        (),
        ParseError,
    >)
        ensures
            match spec_line_step(old(self)@, line@, start, end) {
                Ok(st2) => r is Ok && final(self)@ == st2,
                Err(e) => (r matches Err(pe) && pe@ == e),
            },
    {
        proof {
            reveal_strlit("#EXT-X-VERSION:");
            reveal_strlit("#EXT-X-TARGETDURATION:");
            reveal_strlit("#EXT-X-MEDIA-SEQUENCE:");
            reveal_strlit("#EXTINF:");
            reveal_strlit("#EXT-X-BYTERANGE:");
            reveal_strlit("#EXT-X-DISCONTINUITY");
            reveal_strlit("#EXT-X-PROGRAM-DATE-TIME:");
            reveal_strlit("#EXT-X-DATERANGE:");
            reveal_strlit("#EXT-X-ENDLIST");
            reveal_strlit("#EXT-X-PLAYLIST-TYPE:");
            reveal_strlit("#EXT-X-I-FRAMES-ONLY");
            reveal_strlit("#EXT-X-INDEPENDENT-SEGMENTS");
            reveal_strlit("EVENT");
            reveal_strlit("VOD");
        }
        let ghost st0: BuilderV = self@;
        if line.len() == 0 {
            return Ok(());
        }
        if line[0] != 0x23 {
            match self.pending_duration {
                Some(d) => {
                    let mut taken_dr: Option<DateRange> = None;
                    core::mem::swap(&mut taken_dr, &mut self.pending_daterange);
                    let draft = MediaSegment {
                        msn: 0,
                        uri: crate::textfmt::copy_bytes(line),
                        duration_millis: d,
                        has_discontinuity: self.pending_discontinuity,
                        byte_range: self.pending_byte_range,
                        program_date_time: self.pending_pdt,
                        date_range: taken_dr,
                    };
                    self.drafts.push(draft);
                    self.pending_duration = None;
                    self.pending_discontinuity = false;
                    self.pending_byte_range = None;
                    self.pending_pdt = None;
                    proof {
                        assert(self@.drafts =~= st0.drafts.push(
                            self.drafts@.last()@,
                        ));
                        assert(self@ =~= spec_line_step(st0, line@, start, end)->Ok_0);
                    }
                },
                None => {
                    self.diags.push(ParseError::UrlWithoutExtinf {
                        url: crate::textfmt::copy_bytes(line),
                        start,
                        end,
                    });
                    proof {
                        assert(self@.diags =~= st0.diags.push(self.diags@.last()@));
                        assert(self@ =~= spec_line_step(st0, line@, start, end)->Ok_0);
                    }
                },
            }
            return Ok(());
        }
        if let Some(p) = tag_payload(line, "#EXT-X-VERSION:") {
            match crate::textfmt::parse_u64_dec(p) {
                Some(n) => {
                    self.version = Some(n);
                    proof {
                        assert(self@ =~= spec_line_step(st0, line@, start, end)->Ok_0);
                    }
                    return Ok(());
                },
                None => {
                    return Err(ParseError::InvalidNumber);
                },
            }
        }
        if let Some(p) = tag_payload(line, "#EXT-X-TARGETDURATION:") {
            match crate::textfmt::parse_u64_dec(p) {
                Some(n) => {
                    if n <= u64::MAX / 1000 {
                        proof {
                            assert(n * 1000 <= u64::MAX) by (nonlinear_arith)
                                requires
                                    n <= u64::MAX / 1000,
                            ;
                        }
                        self.target_duration_millis = Some(n * 1000);
                        proof {
                            assert(self@ =~= spec_line_step(st0, line@, start, end)->Ok_0);
                        }
                        return Ok(());
                    } else {
                        return Err(ParseError::InvalidNumber);
                    }
                },
                None => {
                    return Err(ParseError::InvalidNumber);
                },
            }
        }
        if let Some(p) = tag_payload(line, "#EXT-X-MEDIA-SEQUENCE:") {
            match crate::textfmt::parse_u64_dec(p) {
                Some(n) => {
                    if n <= usize::MAX as u64 {
                        self.media_sequence = n as usize;
                        proof {
                            assert(self@ =~= spec_line_step(st0, line@, start, end)->Ok_0);
                        }
                        return Ok(());
                    } else {
                        return Err(ParseError::InvalidNumber);
                    }
                },
                None => {
                    return Err(ParseError::InvalidNumber);
                },
            }
        }
        if let Some(p) = tag_payload(line, "#EXTINF:") {
            let dur_text = match crate::headers::find_byte(p, 0x2c) {
                Some(c) => p.split_at(c).0,
                None => p,
            };
            proof {
                match crate::headers::spec_find_byte(p@, 0x2c) {
                    Some(c) => {
                        assert(dur_text@ =~= p@.take(c));
                    },
                    None => {},
                }
            }
            match parse_duration_millis(dur_text) {
                Some(d) => {
                    self.pending_duration = Some(d);
                    proof {
                        assert(self@ =~= spec_line_step(st0, line@, start, end)->Ok_0);
                    }
                    return Ok(());
                },
                None => {
                    return Err(ParseError::InvalidNumber);
                },
            }
        }
        if let Some(p) = tag_payload(line, "#EXT-X-BYTERANGE:") {
            match parse_byte_range(p) {
                Some(br) => {
                    self.pending_byte_range = Some(br);
                    proof {
                        assert(self@ =~= spec_line_step(st0, line@, start, end)->Ok_0);
                    }
                    return Ok(());
                },
                None => {
                    return Err(ParseError::InvalidNumber);
                },
            }
        }
        if line_is(line, "#EXT-X-DISCONTINUITY") {
            self.pending_discontinuity = true;
            proof {
                assert(self@ =~= spec_line_step(st0, line@, start, end)->Ok_0);
            }
            return Ok(());
        }
        if let Some(p) = tag_payload(line, "#EXT-X-PROGRAM-DATE-TIME:") {
            match crate::dates::parse_rfc3339(p) {
                Some(ts) => {
                    self.pending_pdt = Some(ts);
                    proof {
                        assert(self@ =~= spec_line_step(st0, line@, start, end)->Ok_0);
                    }
                    return Ok(());
                },
                None => {
                    return Err(ParseError::Chrono);
                },
            }
        }
        if let Some(p) = tag_payload(line, "#EXT-X-DATERANGE:") {
            match parse_daterange(p) {
                Ok(dr) => {
                    self.pending_daterange = Some(dr);
                    proof {
                        assert(self@ =~= spec_line_step(st0, line@, start, end)->Ok_0);
                    }
                    return Ok(());
                },
                Err(e) => {
                    return Err(e);
                },
            }
        }
        if line_is(line, "#EXT-X-ENDLIST") {
            self.has_end_list = true;
            proof {
                assert(self@ =~= spec_line_step(st0, line@, start, end)->Ok_0);
            }
            return Ok(());
        }
        if let Some(p) = tag_payload(line, "#EXT-X-PLAYLIST-TYPE:") {
            if line_is(p, "EVENT") {
                self.playlist_type = Some(PlaylistType::Event);
            } else if line_is(p, "VOD") {
                self.playlist_type = Some(PlaylistType::Vod);
            }
            proof {
                assert(self@ =~= spec_line_step(st0, line@, start, end)->Ok_0);
            }
            return Ok(());
        }
        if line_is(line, "#EXT-X-I-FRAMES-ONLY") {
            self.has_i_frames_only = true;
            proof {
                assert(self@ =~= spec_line_step(st0, line@, start, end)->Ok_0);
            }
            return Ok(());
        }
        if line_is(line, "#EXT-X-INDEPENDENT-SEGMENTS") {
            self.has_independent_segments = true;
            proof {
                assert(self@ =~= spec_line_step(st0, line@, start, end)->Ok_0);
            }
            return Ok(());
        }
        Ok(())
    }

    /// The non-fatal diagnostics collected so far.
    pub fn errors(&self) -> (r: &Vec<ParseError>)
        ensures
            r@.map_values(|e: ParseError| e@) == self@.diags,
    {
        &self.diags
    }

    /// Hand the non-fatal diagnostics to the caller, leaving none
    /// behind.
    pub fn take_errors(&mut self) -> (r: Vec<ParseError>)
        ensures
            r@.map_values(|e: ParseError| e@) == old(self)@.diags,
            final(self)@ == (BuilderV { diags: Seq::empty(), ..old(self)@ }),
    {
        let mut out: Vec<ParseError> = Vec::new();
        core::mem::swap(&mut out, &mut self.diags);
        proof {
            assert(self@ =~= (BuilderV { diags: Seq::<ParseErrorV>::empty(), ..old(self)@ }));
        }
        out
    }

    /// Finish the parse: the required tags must have been present.
    /// Each segment's media sequence number becomes the playlist's
    /// `media_sequence` plus its index.
    #[verifier::rlimit(60)]
    pub fn build(self) -> (r: Result<MediaPlaylist, ParseError>)
        ensures
            match spec_build(self@) {
                Ok(pv) => r matches Ok(pl) && pl@ == pv && pl.wf(),
                Err(e) => (r matches Err(pe) && pe@ == e),
            },
    {
        let ghost stv: BuilderV = self@;
        if self.target_duration_millis.is_none() {
            return Err(ParseError::MissingTargetDuration);
        }
        if self.version.is_none() {
            return Err(ParseError::MissingVersion);
        }
        let td = match self.target_duration_millis {
            Some(t) => t,
            None => unreached(),
        };
        let ver = match self.version {
            Some(v) => v,
            None => unreached(),
        };
        let n = self.drafts.len();
        if n > 0 && self.media_sequence > usize::MAX - (n - 1) {
            return Err(ParseError::InvalidNumber);
        }
        let ms = self.media_sequence;
        let mut drafts = self.drafts;
        let mut segments: Vec<MediaSegment> = Vec::new();
        let mut i: usize = 0;
        while drafts.len() > 0
            invariant
                i + drafts@.len() == n,
                n == stv.drafts.len(),
                0 <= i <= n,
                n > 0 ==> ms + n - 1 <= usize::MAX,
                ms == stv.media_sequence,
                drafts@.map_values(|s: MediaSegment| s@) =~= stv.drafts.skip(i as int),
                segments@.len() == i,
                forall|j: int|
                    0 <= j < i ==> (#[trigger] segments@[j])@ == (MediaSegmentV {
                        msn: (stv.media_sequence + j) as usize,
                        ..stv.drafts[j]
                    }),
            decreases drafts@.len(),
        {
            let ghost pre: Seq<MediaSegment> = drafts@;
            let mut d = drafts.remove(0);
            proof {
                assert(pre.map_values(|s: MediaSegment| s@)[0] == pre[0]@);
                assert(stv.drafts.skip(i as int)[0] == stv.drafts[i as int]);
                assert(d@ == stv.drafts[i as int]);
                assert(drafts@ =~= pre.skip(1));
                assert(drafts@.map_values(|s: MediaSegment| s@) =~= pre.map_values(
                    |s: MediaSegment| s@,
                ).skip(1));
                assert(pre.map_values(|s: MediaSegment| s@).skip(1) =~= stv.drafts.skip(i + 1));
            }
            d.msn = ms + i;
            segments.push(d);
            i = i + 1;
        }
        let pl = MediaPlaylist {
            target_duration_millis: td,
            media_sequence: ms,
            segments,
            has_end_list: self.has_end_list,
            playlist_type: self.playlist_type,
            has_i_frames_only: self.has_i_frames_only,
            has_independent_segments: self.has_independent_segments,
            version: ver,
        };
        proof {
            assert(pl@.segments =~= spec_build(stv)->Ok_0.segments);
            assert(pl@ =~= spec_build(stv)->Ok_0);
            assert forall|j: int| 0 <= j < pl.segments@.len() implies (
            #[trigger] pl.segments@[j]).msn == pl.media_sequence + j by {
                assert(pl.segments@[j]@ == pl@.segments[j]);
            }
        }
        Ok(pl)
    }
}

/// Parse a whole media-playlist text: every line, then the build
/// step.  On success the playlist comes with the ordered non-fatal
/// diagnostics; a missing required tag or a malformed number, date
/// or attribute list is fatal.
#[verifier::rlimit(100)]
#[verifier::spinoff_prover]
pub fn parse_media_playlist(data: &[u8]) -> (r: Result<
    (MediaPlaylist, Vec<ParseError>),
    ParseError,
>)
    ensures
        match spec_parse_playlist(data@) {
            Ok((pv, dv)) => r matches Ok((pl, diags)) && pl@ == pv && diags@.map_values(
                |e: ParseError| e@,
            ) == dv && pl.wf(),
            Err(e) => (r matches Err(pe) && pe@ == e),
        },
{
    let mut b = PlaylistBuilder::new();
    let n = data.len();
    let mut pos: usize = 0;
    proof {
        assert(data@.skip(0) =~= data@);
    }
    while pos < n
        invariant
            0 <= pos <= n,
            n == data@.len(),
            spec_parse_lines(data@, 0, init_builder()) == spec_parse_lines(data@, pos as int, b@),
        decreases n - pos,
    {
        let ghost st_before: BuilderV = b@;
        let rest = data.split_at(pos).1;
        proof {
            assert(rest@ =~= data@.skip(pos as int));
        }
        let (raw, next_pos) = match crate::headers::find_byte(rest, 0x0a) {
            Some(k) => (rest.split_at(k).0, pos + k + 1),
            None => (rest, n),
        };
        proof {
            assert(raw@ =~= rest@.take(raw@.len() as int));
        }
        let line = if raw.len() > 0 && raw[raw.len() - 1] == 0x0d {
            raw.split_at(raw.len() - 1).0
        } else {
            raw
        };
        proof {
            if raw@.len() > 0 && raw@.last() == 0x0d {
                assert(line@ =~= raw@.drop_last());
            }
        }
        let line_end = pos + line.len();
        match b.process_line(line, pos, line_end) {
            Ok(_) => {},
            Err(e) => {
                proof {
                    assert(spec_parse_lines(data@, pos as int, st_before) == Err::<
                        BuilderV,
                        ParseErrorV,
                    >(e@));
                }
                return Err(e);
            },
        }
        proof {
            assert(spec_parse_lines(data@, pos as int, st_before) == spec_parse_lines(
                data@,
                next_pos as int,
                b@,
            ));
        }
        pos = next_pos;
    }
    let diags = b.take_errors();
    let ghost st_final: BuilderV = b@;
    match b.build() {
        Ok(pl) => {
            proof {
                assert(spec_build(st_final) == spec_build(
                    spec_parse_lines(data@, 0, init_builder())->Ok_0,
                ));
            }
            Ok((pl, diags))
        },
        Err(e) => Err(e),
    }
}

/// The canonical text of one segment in a segment list:
/// `#EXTINF:<seconds>,` then the URI, each on its own line.
pub open spec fn spec_segment_text(s: MediaSegmentV) -> Seq<u8> {
    crate::textfmt::ascii_bytes("#EXTINF:"@) + crate::textfmt::spec_millis_as_secs(
        s.duration_millis as int,
    ) + seq![0x2cu8, 0x0au8] + s.uri + seq![0x0au8]
}

/// The canonical text of the first `i` segments.
pub open spec fn spec_segment_list_text(segs: Seq<MediaSegmentV>, i: int) -> Seq<u8>
    decreases i,
{
    if i <= 0 {
        Seq::empty()
    } else {
        spec_segment_list_text(segs, i - 1) + spec_segment_text(segs[i - 1])
    }
}

/// Re-emit a playlist's segment list in canonical form.
pub fn write_segment_list(pl: &MediaPlaylist) -> (r: Vec<u8>)
    ensures
        r@ == spec_segment_list_text(pl@.segments, pl@.segments.len() as int),
{
    proof {
        reveal_strlit("#EXTINF:");
    }
    let mut out: Vec<u8> = Vec::new();
    let mut i: usize = 0;
    while i < pl.segments.len()
        invariant
            0 <= i <= pl.segments@.len(),
            out@ == spec_segment_list_text(pl@.segments, i as int),
            pl@.segments.len() == pl.segments@.len(),
            forall|j: int| 0 <= j < pl.segments@.len() ==> pl@.segments[j] == (
            #[trigger] pl.segments@[j])@,
        decreases pl.segments@.len() - i,
    {
        proof {
            reveal_strlit("#EXTINF:");
        }
        let seg = &pl.segments[i];
        let mut tag = crate::textfmt::str_bytes("#EXTINF:");
        out.append(&mut tag);
        let mut dur = crate::textfmt::millis_as_secs(seg.duration_millis);
        out.append(&mut dur);
        out.push(0x2c);
        out.push(0x0a);
        out.extend_from_slice(seg.uri.as_slice());
        out.push(0x0a);
        proof {
            assert(out@ =~= spec_segment_list_text(pl@.segments, i + 1));
        }
        i = i + 1;
    }
    out
}

} // verus!
