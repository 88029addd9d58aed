//! A small parser for low-latency media manifests: it tracks the
//! media sequence numbering and extracts the whole segments and the
//! `EXT-X-PART` partial segments.
//!
//! Durations are whole milliseconds; textual fields hold the raw
//! manifest bytes.

use vstd::prelude::*;
use crate::headers::{spec_trim, trim_bytes};
use crate::playlist::{
    attr_split, has_pfx, parse_duration_millis, spec_parse_duration_millis, split_commas,
};
use crate::textfmt::{ascii_bytes, bytes_eq, copy_bytes, str_bytes};

verus! {

/// What was wrong with a manifest line.
#[derive(Debug, PartialEq)]
pub enum MediaManifestErrorKind {
    BadMediaSequenceNumber,
    BadPartDuration(Vec<u8>),
    MissingDurationAttribute,
    MissingUriAttribute,
}

/// Where and why a manifest was rejected.
#[derive(Debug, PartialEq)]
pub struct MediaManifestError {
    pub line: usize,
    pub kind: MediaManifestErrorKind,
}

/// The mathematical value of a [`MediaManifestErrorKind`].
pub enum MediaManifestErrorKindV {
    BadMediaSequenceNumber,
    BadPartDuration(Seq<u8>),
    MissingDurationAttribute,
    MissingUriAttribute,
}

impl View for MediaManifestErrorKind {
    type V = MediaManifestErrorKindV;

    open spec fn view(&self) -> MediaManifestErrorKindV {
        match *self {
            MediaManifestErrorKind::BadMediaSequenceNumber => MediaManifestErrorKindV::BadMediaSequenceNumber,
            MediaManifestErrorKind::BadPartDuration(v) => MediaManifestErrorKindV::BadPartDuration(
                v@,
            ),
            MediaManifestErrorKind::MissingDurationAttribute => MediaManifestErrorKindV::MissingDurationAttribute,
            MediaManifestErrorKind::MissingUriAttribute => MediaManifestErrorKindV::MissingUriAttribute,
        }
    }
}

/// The mathematical value of a [`MediaManifestError`].
pub struct MediaManifestErrorV {
    pub line: usize,
    pub kind: MediaManifestErrorKindV,
}

impl View for MediaManifestError {
    type V = MediaManifestErrorV;

    open spec fn view(&self) -> MediaManifestErrorV {
        MediaManifestErrorV { line: self.line, kind: self.kind@ }
    }
}

/// Build a [`MediaManifestError`].
pub fn err(line: usize, kind: MediaManifestErrorKind) -> (r: MediaManifestError)
    ensures
        r.line == line,
        r.kind == kind,
{
    MediaManifestError { line, kind }
}

/// A whole media segment: its media sequence number.
#[derive(Debug, PartialEq, Eq, Clone, Copy, Structural)]
pub struct Seg {
    pub msn: u64,
}

/// A partial segment announced by `EXT-X-PART`.
#[derive(Debug, PartialEq)]
pub struct Part {
    pub msn: u64,
    pub part_num: u16,
    pub duration_millis: u64,
    pub uri: Vec<u8>,
}

/// The mathematical value of a [`Part`].
pub struct PartV {
    pub msn: u64,
    pub part_num: u16,
    pub duration_millis: u64,
    pub uri: Seq<u8>,
}

impl View for Part {
    type V = PartV;

    open spec fn view(&self) -> PartV {
        PartV {
            msn: self.msn,
            part_num: self.part_num,
            duration_millis: self.duration_millis,
            uri: self.uri@,
        }
    }
}

/// A parsed low-latency manifest.
#[derive(Debug)]
pub struct MediaManifest {
    pub segments: Vec<Seg>,
    pub parts: Vec<Part>,
}

/// The parser state after some prefix of the lines.
#[verifier::ext_equal]
pub struct MmStateV {
    pub next_msn: u64,
    pub next_part_num: u16,
    pub segments: Seq<Seg>,
    pub parts: Seq<PartV>,
}

/// The initial parser state.
pub open spec fn mm_init() -> MmStateV {
    MmStateV { next_msn: 0, next_part_num: 0, segments: Seq::empty(), parts: Seq::empty() }
}

/// The trimmed value of the first attribute whose trimmed key is
/// `key`.
pub open spec fn find_attr_trimmed(attrs: Seq<Seq<u8>>, key: Seq<u8>) -> Option<Seq<u8>>
    decreases attrs.len(),
{
    if attrs.len() == 0 {
        None
    } else {
        match attr_split(attrs[0]) {
            Some((k, v)) => if spec_trim(k) == key {
                Some(spec_trim(v))
            } else {
                find_attr_trimmed(attrs.drop_first(), key)
            },
            None => find_attr_trimmed(attrs.drop_first(), key),
        }
    }
}

/// What one line does to the parser state, or the error it raises.
/// A `#EXT-X-MEDIA-SEQUENCE:` tag renumbers; a `#EXT-X-PART:` tag
/// adds a part; any other comment is ignored; anything else (empty
/// lines included) counts as a segment URI line.
pub open spec fn spec_mm_step(st: MmStateV, line: Seq<u8>, lineno: usize) -> Result<
    MmStateV,
    MediaManifestErrorV,
> {
    if has_pfx(line, ascii_bytes("#EXT-X-MEDIA-SEQUENCE:"@)) {
        match crate::textfmt::spec_parse_u64(line.skip(22)) {
            Some(n) => Ok(MmStateV { next_msn: n, ..st }),
            None => Err(
                MediaManifestErrorV {
                    line: lineno,
                    kind: MediaManifestErrorKindV::BadMediaSequenceNumber,
                },
            ),
        }
    } else if has_pfx(line, ascii_bytes("#EXT-X-PART:"@)) {
        let attrs = split_commas(line.skip(12));
        match find_attr_trimmed(attrs, ascii_bytes("DURATION"@)) {
            None => Err(
                MediaManifestErrorV {
                    line: lineno,
                    kind: MediaManifestErrorKindV::MissingDurationAttribute,
                },
            ),
            Some(d) => match spec_parse_duration_millis(d) {
                None => Err(
                    MediaManifestErrorV {
                        line: lineno,
                        kind: MediaManifestErrorKindV::BadPartDuration(d),
                    },
                ),
                Some(ms) => match find_attr_trimmed(attrs, ascii_bytes("URI"@)) {
                    None => Err(
                        MediaManifestErrorV {
                            line: lineno,
                            kind: MediaManifestErrorKindV::MissingUriAttribute,
                        },
                    ),
                    Some(u) => Ok(
                        MmStateV {
                            next_msn: st.next_msn,
                            next_part_num: if st.next_part_num == u16::MAX {
                                st.next_part_num
                            } else {
                                (st.next_part_num + 1) as u16
                            },
                            segments: st.segments,
                            parts: st.parts.push(
                                PartV {
                                    msn: st.next_msn,
                                    part_num: st.next_part_num,
                                    duration_millis: ms,
                                    uri: u,
                                },
                            ),
                        },
                    ),
                },
            },
        }
    } else if line.len() > 0 && line[0] == 0x23 {
        Ok(st)
    } else {
        Ok(
            MmStateV {
                next_msn: if st.next_msn == u64::MAX {
                    st.next_msn
                } else {
                    (st.next_msn + 1) as u64
                },
                next_part_num: 0,
                segments: st.segments.push(Seg { msn: st.next_msn }),
                parts: st.parts,
            },
        )
    }
}

/// The parser state after every line of `s` from byte `pos` on, or
/// the first error.  `lineno` counts the lines already consumed.
pub open spec fn spec_mm_lines(s: Seq<u8>, pos: int, lineno: int, st: MmStateV) -> Result<
    MmStateV,
    MediaManifestErrorV,
>
    decreases s.len() - pos,
{
    if pos < 0 || pos >= s.len() {
        Ok(st)
    } else {
        let rest = s.skip(pos);
        match crate::headers::spec_find_byte(rest, 0x0a) {
            Some(k) => if 0 <= k < rest.len() {
                let raw = rest.take(k);
                let line = if raw.len() > 0 && raw.last() == 0x0d {
                    raw.drop_last()
                } else {
                    raw
                };
                match spec_mm_step(st, line, lineno as usize) {
                    Ok(st2) => spec_mm_lines(s, pos + k + 1, lineno + 1, st2),
                    Err(e) => Err(e),
                }
            } else {
                Ok(st)
            },
            None => {
                let line = if rest.len() > 0 && rest.last() == 0x0d {
                    rest.drop_last()
                } else {
                    rest
                };
                spec_mm_step(st, line, lineno as usize)
            },
        }
    }
}

/// The whole parse.
pub open spec fn spec_parse_manifest(s: Seq<u8>) -> Result<MmStateV, MediaManifestErrorV> {
    spec_mm_lines(s, 0, 0, mm_init())
}

/// Find the first attribute with the given trimmed key in a
/// comma-separated attribute list, returning its trimmed value.
fn find_attr_trimmed_exec(payload: &[u8], key: &[u8]) -> (r: Option<Vec<u8>>)
    ensures
        match r {
            Some(v) => find_attr_trimmed(split_commas(payload@), key@) == Some(v@),
            None => find_attr_trimmed(split_commas(payload@), key@) is None,
        },
{
    proof {
        assert(payload@.skip(0) =~= payload@);
    }
    let n = payload.len();
    let mut pos: usize = 0;
    loop
        invariant
            0 <= pos <= payload@.len(),
            n == payload@.len(),
            find_attr_trimmed(split_commas(payload@), key@) == find_attr_trimmed(
                split_commas(payload@.skip(pos as int)),
                key@,
            ),
        decreases payload@.len() - pos,
    {
        let rest = payload.split_at(pos).1;
        proof {
            assert(rest@ =~= payload@.skip(pos as int));
        }
        let (chunk, next_pos, last) = match crate::headers::find_byte(rest, 0x2c) {
            Some(c) => (rest.split_at(c).0, pos + c + 1, false),
            None => (rest, n, true),
        };
        proof {
            if !last {
                assert(chunk@ =~= rest@.take(next_pos - pos - 1));
                let tail = split_commas(rest@.skip(next_pos - pos));
                assert(split_commas(rest@) == seq![chunk@] + tail);
                assert((seq![chunk@] + tail)[0] == chunk@);
                assert((seq![chunk@] + tail).drop_first() =~= tail);
            } else {
                assert(chunk@ =~= rest@);
                assert(split_commas(rest@) == seq![chunk@]);
                assert(seq![chunk@][0] == chunk@);
                assert(seq![chunk@].drop_first() =~= Seq::<Seq<u8>>::empty());
            }
        }
        match crate::headers::find_byte(chunk, 0x3d) {
            Some(e) => {
                let (k, v_eq) = chunk.split_at(e);
                let v = v_eq.split_at(1).1;
                proof {
                    assert(k@ =~= chunk@.take(e as int));
                    assert(v@ =~= chunk@.skip(e + 1));
                }
                let kt = trim_bytes(k);
                if bytes_eq(kt.as_slice(), key) {
                    return Some(trim_bytes(v));
                }
                proof {
                    assert(attr_split(chunk@) == Some((k@, v@)));
                    assert(spec_trim(k@) != key@);
                }
            },
            None => {
                proof {
                    assert(attr_split(chunk@) is None);
                }
            },
        }
        if last {
            proof {
                let attrs1: Seq<Seq<u8>> = seq![chunk@];
                assert(attrs1[0] == chunk@);
                assert(attrs1.drop_first() =~= Seq::<Seq<u8>>::empty());
                assert(find_attr_trimmed(attrs1.drop_first(), key@) is None);
                assert(find_attr_trimmed(attrs1, key@) is None);
            }
            return None;
        }
        proof {
            assert(rest@.skip(next_pos - pos) =~= payload@.skip(next_pos as int));
        }
        pos = next_pos;
    }
}

/// The running parser state.
struct MmState {
    next_msn: u64,
    next_part_num: u16,
    segments: Vec<Seg>,
    parts: Vec<Part>,
}

impl View for MmState {
    type V = MmStateV;

    closed spec fn view(&self) -> MmStateV {
        MmStateV {
            next_msn: self.next_msn,
            next_part_num: self.next_part_num,
            segments: self.segments@,
            parts: self.parts@.map_values(|p: Part| p@),
        }
    }
}

/// Consume one manifest line.
#[verifier::rlimit(60)]
#[verifier::spinoff_prover]
fn mm_process_line(st: &mut MmState, line: &[u8], lineno: usize) -> (r: Result<
    (),
    MediaManifestError,
>)
    ensures
        match spec_mm_step(old(st)@, line@, lineno) {
            Ok(s2) => r is Ok && final(st)@ == s2,
            Err(e) => (r matches Err(me) && me@ == e),
        },
{
    proof {
        reveal_strlit("#EXT-X-MEDIA-SEQUENCE:");
        reveal_strlit("#EXT-X-PART:");
        reveal_strlit("DURATION");
        reveal_strlit("URI");
    }
    let ghost st0: MmStateV = st@;
    let ms_tag = str_bytes("#EXT-X-MEDIA-SEQUENCE:");
    if line.len() >= 22 {
        let (head, payload) = line.split_at(22);
        proof {
            assert(head@ =~= line@.take(22));
            assert(payload@ =~= line@.skip(22));
        }
        if bytes_eq(head, ms_tag.as_slice()) {
            match crate::textfmt::parse_u64_dec(payload) {
                Some(n) => {
                    st.next_msn = n;
                    proof {
                        assert(st@ =~= spec_mm_step(st0, line@, lineno)->Ok_0);
                    }
                    return Ok(());
                },
                None => {
                    return Err(err(lineno, MediaManifestErrorKind::BadMediaSequenceNumber));
                },
            }
        }
    }
    let part_tag = str_bytes("#EXT-X-PART:");
    if line.len() >= 12 {
        let (head, payload) = line.split_at(12);
        proof {
            assert(head@ =~= line@.take(12));
            assert(payload@ =~= line@.skip(12));
        }
        if bytes_eq(head, part_tag.as_slice()) {
            let dur_key = str_bytes("DURATION");
            let d = match find_attr_trimmed_exec(payload, dur_key.as_slice()) {
                Some(d) => d,
                None => {
                    return Err(err(lineno, MediaManifestErrorKind::MissingDurationAttribute));
                },
            };
            let ms = match parse_duration_millis(d.as_slice()) {
                Some(ms) => ms,
                None => {
                    return Err(err(lineno, MediaManifestErrorKind::BadPartDuration(d)));
                },
            };
            let uri_key = str_bytes("URI");
            let u = match find_attr_trimmed_exec(payload, uri_key.as_slice()) {
                Some(u) => u,
                None => {
                    return Err(err(lineno, MediaManifestErrorKind::MissingUriAttribute));
                },
            };
            let part = Part {
                msn: st.next_msn,
                part_num: st.next_part_num,
                duration_millis: ms,
                uri: u,
            };
            st.parts.push(part);
            if st.next_part_num < u16::MAX {
                st.next_part_num = st.next_part_num + 1;
            }
            proof {
                assert(st@.parts =~= st0.parts.push(st.parts@.last()@));
                assert(st@ =~= spec_mm_step(st0, line@, lineno)->Ok_0);
            }
            return Ok(());
        }
    }
    if line.len() > 0 && line[0] == 0x23 {
        return Ok(());
    }
    let seg = Seg { msn: st.next_msn };
    st.segments.push(seg);
    if st.next_msn < u64::MAX {
        st.next_msn = st.next_msn + 1;
    }
    st.next_part_num = 0;
    proof {
        assert(st@ =~= spec_mm_step(st0, line@, lineno)->Ok_0);
    }
    Ok(())
}

impl MediaManifest {
    /// Parse a whole manifest text, line by line.
    #[verifier::rlimit(100)]
    #[verifier::spinoff_prover]
    pub fn parse(data: &[u8]) -> (r: Result<MediaManifest, MediaManifestError>)
        ensures
            match spec_parse_manifest(data@) {
                Ok(st) => r matches Ok(m) && m.segments@ == st.segments && m.parts@.map_values(
                    |p: Part| p@,
                ) == st.parts,
                Err(e) => (r matches Err(me) && me@ == e),
            },
    {
        let mut st = MmState {
            next_msn: 0,
            next_part_num: 0,
            segments: Vec::new(),
            parts: Vec::new(),
        };
        proof {
            assert(st@ =~= mm_init());
            assert(data@.skip(0) =~= data@);
        }
        let n = data.len();
        let mut pos: usize = 0;
        let mut lineno: usize = 0;
        while pos < n
            invariant
                0 <= pos <= n,
                lineno <= pos,
                n == data@.len(),
                spec_mm_lines(data@, 0, 0, mm_init()) == spec_mm_lines(
                    data@,
                    pos as int,
                    lineno as int,
                    st@,
                ),
            decreases n - pos,
        {
            let ghost st_before: MmStateV = st@;
            let rest = data.split_at(pos).1;
            proof {
                assert(rest@ =~= data@.skip(pos as int));
            }
            let (raw, next_pos) = match crate::headers::find_byte(rest, 0x0a) {
                Some(k) => (rest.split_at(k).0, pos + k + 1),
                None => (rest, n),
            };
            proof {
                assert(raw@ =~= rest@.take(raw@.len() as int));
            }
            let line = if raw.len() > 0 && raw[raw.len() - 1] == 0x0d {
                raw.split_at(raw.len() - 1).0
            } else {
                raw
            };
            proof {
                if raw@.len() > 0 && raw@.last() == 0x0d {
                    assert(line@ =~= raw@.drop_last());
                }
            }
            match mm_process_line(&mut st, line, lineno) {
                Ok(_) => {},
                Err(e) => {
                    proof {
                        assert(spec_mm_lines(data@, pos as int, lineno as int, st_before) == Err::<
                            MmStateV,
                            MediaManifestErrorV,
                        >(e@));
                    }
                    return Err(e);
                },
            }
            proof {
                assert(spec_mm_lines(data@, pos as int, lineno as int, st_before)
                    == spec_mm_lines(data@, next_pos as int, lineno + 1, st@));
            }
            pos = next_pos;
            lineno = lineno + 1;
        }
        Ok(MediaManifest { segments: st.segments, parts: st.parts })
    }
}

} // verus!
