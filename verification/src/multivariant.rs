//! The multivariant (master) playlist: the ordered variant streams
//! and alternate renditions, and the resolution of their URIs
//! against the manifest URL.

use vstd::prelude::*;
use crate::playlist::{attr_split, find_attr, has_pfx, spec_unquote, split_commas, unquote};
use crate::textfmt::{ascii_bytes, copy_bytes, str_bytes};

verus! {

/// A parsed multivariant playlist: the variant-stream URIs (plain
/// and i-frame, in manifest order) and the alternate-rendition URIs
/// of the `EXT-X-MEDIA` tags that carry one.
#[derive(Debug)]
pub struct MultivariantPlaylist {
    pub variant_uris: Vec<Vec<u8>>,
    pub media_uris: Vec<Vec<u8>>,
}

/// The parser state after some prefix of the lines.
#[verifier::ext_equal]
pub struct MvStateV {
    pub variants: Seq<Seq<u8>>,
    pub media: Seq<Seq<u8>>,
    /// A `EXT-X-STREAM-INF` tag was seen and its URI line is pending.
    pub pending_stream: bool,
}

/// The initial parser state.
pub open spec fn mv_init() -> MvStateV {
    MvStateV { variants: Seq::empty(), media: Seq::empty(), pending_stream: false }
}

/// What one line of the multivariant playlist does to the state: a
/// stream tag announces the next URI line as a variant; an i-frame
/// stream tag and a media tag carry their URI as an attribute.
pub open spec fn spec_mv_step(st: MvStateV, line: Seq<u8>) -> MvStateV {
    if has_pfx(line, ascii_bytes("#EXT-X-STREAM-INF:"@)) {
        MvStateV { pending_stream: true, ..st }
    } else if has_pfx(line, ascii_bytes("#EXT-X-I-FRAME-STREAM-INF:"@)) {
        match find_attr(split_commas(line.skip(26)), ascii_bytes("URI"@)) {
            Some(u) => MvStateV { variants: st.variants.push(spec_unquote(u)), ..st },
            None => st,
        }
    } else if has_pfx(line, ascii_bytes("#EXT-X-MEDIA:"@)) {
        match find_attr(split_commas(line.skip(13)), ascii_bytes("URI"@)) {
            Some(u) => MvStateV { media: st.media.push(spec_unquote(u)), ..st },
            None => st,
        }
    } else if line.len() == 0 || line[0] == 0x23 {
        st
    } else if st.pending_stream {
        MvStateV { variants: st.variants.push(line), media: st.media, pending_stream: false }
    } else {
        st
    }
}

/// The state after every line of `s` from byte `pos` on.
pub open spec fn spec_mv_lines(s: Seq<u8>, pos: int, st: MvStateV) -> MvStateV
    decreases s.len() - pos,
{
    if pos < 0 || pos >= s.len() {
        st
    } else {
        let rest = s.skip(pos);
        match crate::headers::spec_find_byte(rest, 0x0a) {
            Some(k) => if 0 <= k < rest.len() {
                let raw = rest.take(k);
                let line = if raw.len() > 0 && raw.last() == 0x0d {
                    raw.drop_last()
                } else {
                    raw
                };
                spec_mv_lines(s, pos + k + 1, spec_mv_step(st, line))
            } else {
                st
            },
            None => {
                let line = if rest.len() > 0 && rest.last() == 0x0d {
                    rest.drop_last()
                } else {
                    rest
                };
                spec_mv_step(st, line)
            },
        }
    }
}

/// The whole parse.
pub open spec fn spec_parse_multivariant(s: Seq<u8>) -> MvStateV {
    spec_mv_lines(s, 0, mv_init())
}

/// Whether the text opens with the `#EXTM3U` header line, as every
/// playlist must.
pub open spec fn spec_multivariant_header_ok(s: Seq<u8>) -> bool {
    let raw = match crate::headers::spec_find_byte(s, 0x0a) {
        Some(k) => if 0 <= k <= s.len() {
            s.take(k)
        } else {
            s
        },
        None => s,
    };
    let line = if raw.len() > 0 && raw.last() == 0x0d {
        raw.drop_last()
    } else {
        raw
    };
    line == ascii_bytes("#EXTM3U"@)
}

/// The running parser state.
struct MvState {
    variants: Vec<Vec<u8>>,
    media: Vec<Vec<u8>>,
    pending_stream: bool,
}

impl View for MvState {
    type V = MvStateV;

    closed spec fn view(&self) -> MvStateV {
        MvStateV {
            variants: self.variants@.map_values(|v: Vec<u8>| v@),
            media: self.media@.map_values(|v: Vec<u8>| v@),
            pending_stream: self.pending_stream,
        }
    }
}

/// Consume one line.
#[verifier::rlimit(60)]
#[verifier::spinoff_prover]
fn mv_process_line(st: &mut MvState, line: &[u8])
    ensures
        final(st)@ == spec_mv_step(old(st)@, line@),
{
    proof {
        reveal_strlit("#EXT-X-STREAM-INF:");
        reveal_strlit("#EXT-X-I-FRAME-STREAM-INF:");
        reveal_strlit("#EXT-X-MEDIA:");
        reveal_strlit("URI");
    }
    let ghost st0: MvStateV = st@;
    let stream_tag = str_bytes("#EXT-X-STREAM-INF:");
    if line.len() >= 18 {
        let head = line.split_at(18).0;
        proof {
            assert(head@ =~= line@.take(18));
        }
        if crate::textfmt::bytes_eq(head, stream_tag.as_slice()) {
            st.pending_stream = true;
            proof {
                assert(st@ =~= spec_mv_step(st0, line@));
            }
            return ;
        }
    }
    let iframe_tag = str_bytes("#EXT-X-I-FRAME-STREAM-INF:");
    if line.len() >= 26 {
        let (head, payload) = line.split_at(26);
        proof {
            assert(head@ =~= line@.take(26));
            assert(payload@ =~= line@.skip(26));
        }
        if crate::textfmt::bytes_eq(head, iframe_tag.as_slice()) {
            let uri_key = str_bytes("URI");
            match crate::playlist::find_attr_exec(payload, uri_key.as_slice()) {
                Some(u) => {
                    let uq = unquote(u.as_slice());
                    st.variants.push(uq);
                    proof {
                        assert(st@.variants =~= st0.variants.push(st.variants@.last()@));
                        assert(st@ =~= spec_mv_step(st0, line@));
                    }
                },
                None => {
                    proof {
                        assert(st@ =~= spec_mv_step(st0, line@));
                    }
                },
            }
            return ;
        }
    }
    let media_tag = str_bytes("#EXT-X-MEDIA:");
    if line.len() >= 13 {
        let (head, payload) = line.split_at(13);
        proof {
            assert(head@ =~= line@.take(13));
            assert(payload@ =~= line@.skip(13));
        }
        if crate::textfmt::bytes_eq(head, media_tag.as_slice()) {
            let uri_key = str_bytes("URI");
            match crate::playlist::find_attr_exec(payload, uri_key.as_slice()) {
                Some(u) => {
                    let uq = unquote(u.as_slice());
                    st.media.push(uq);
                    proof {
                        assert(st@.media =~= st0.media.push(st.media@.last()@));
                        assert(st@ =~= spec_mv_step(st0, line@));
                    }
                },
                None => {
                    proof {
                        assert(st@ =~= spec_mv_step(st0, line@));
                    }
                },
            }
            return ;
        }
    }
    if line.len() == 0 || line[0] == 0x23 {
        return ;
    }
    if st.pending_stream {
        st.variants.push(copy_bytes(line));
        st.pending_stream = false;
        proof {
            assert(st@.variants =~= st0.variants.push(st.variants@.last()@));
            assert(st@ =~= spec_mv_step(st0, line@));
        }
        return ;
    }
}

/// Parse a multivariant playlist text.  A text that does not open
/// with the `#EXTM3U` header is not a playlist at all and is
/// refused, so the caller can fail the whole run.
#[verifier::rlimit(100)]
#[verifier::spinoff_prover]
pub fn parse_multivariant(data: &[u8]) -> (r: Result<MultivariantPlaylist, ()>)
    ensures
        !spec_multivariant_header_ok(data@) ==> r is Err,
        spec_multivariant_header_ok(data@) ==> (r matches Ok(mv) && mv.variant_uris@.map_values(
            |v: Vec<u8>| v@,
        ) == spec_parse_multivariant(data@).variants && mv.media_uris@.map_values(|v: Vec<u8>| v@)
            == spec_parse_multivariant(data@).media),
{
    proof {
        reveal_strlit("#EXTM3U");
    }
    let first_raw = match crate::headers::find_byte(data, 0x0a) {
        Some(k) => data.split_at(k).0,
        None => data,
    };
    proof {
        assert(first_raw@ =~= (match crate::headers::spec_find_byte(data@, 0x0a) {
            Some(k) => if 0 <= k <= data@.len() {
                data@.take(k)
            } else {
                data@
            },
            None => data@,
        }));
    }
    let first_line = if first_raw.len() > 0 && first_raw[first_raw.len() - 1] == 0x0d {
        first_raw.split_at(first_raw.len() - 1).0
    } else {
        first_raw
    };
    proof {
        if first_raw@.len() > 0 && first_raw@.last() == 0x0d {
            assert(first_line@ =~= first_raw@.drop_last());
        }
    }
    let header = str_bytes("#EXTM3U");
    if !crate::textfmt::bytes_eq(first_line, header.as_slice()) {
        return Err(());
    }
    let mut st = MvState { variants: Vec::new(), media: Vec::new(), pending_stream: false };
    proof {
        assert(st@ =~= mv_init());
        assert(data@.skip(0) =~= data@);
    }
    let n = data.len();
    let mut pos: usize = 0;
    while pos < n
        invariant
            0 <= pos <= n,
            n == data@.len(),
            spec_mv_lines(data@, 0, mv_init()) == spec_mv_lines(data@, pos as int, st@),
        decreases n - pos,
    {
        let ghost st_before: MvStateV = st@;
        let rest = data.split_at(pos).1;
        proof {
            assert(rest@ =~= data@.skip(pos as int));
        }
        let (raw, next_pos) = match crate::headers::find_byte(rest, 0x0a) {
            Some(k) => (rest.split_at(k).0, pos + k + 1),
            None => (rest, n),
        };
        proof {
            assert(raw@ =~= rest@.take(raw@.len() as int));
        }
        let line = if raw.len() > 0 && raw[raw.len() - 1] == 0x0d {
            raw.split_at(raw.len() - 1).0
        } else {
            raw
        };
        proof {
            if raw@.len() > 0 && raw@.last() == 0x0d {
                assert(line@ =~= raw@.drop_last());
            }
        }
        mv_process_line(&mut st, line);
        proof {
            assert(spec_mv_lines(data@, pos as int, st_before) == spec_mv_lines(
                data@,
                next_pos as int,
                st@,
            ));
        }
        pos = next_pos;
    }
    Ok(MultivariantPlaylist { variant_uris: st.variants, media_uris: st.media })
}

/// The absolute URL that resolving `rel` against `base` yields, if
/// both are well-formed.
pub uninterp spec fn url_join_of(base: Seq<u8>, rel: Seq<u8>) -> Option<Seq<u8>>;

/// Relies on `url::Url::parse` and `Url::join`: the resolved URL is
/// a function of the two texts alone.
#[verifier::external_body]
fn join_url(base: &[u8], rel: &[u8]) -> (r: Option<Vec<u8>>)
    ensures
        match r {
            Some(u) => url_join_of(base@, rel@) == Some(u@),
            None => url_join_of(base@, rel@) is None,
        },
{
    let base_s = core::str::from_utf8(base).ok()?;
    let rel_s = core::str::from_utf8(rel).ok()?;
    let joined = url::Url::parse(base_s).ok()?.join(rel_s).ok()?;
    Some(joined.as_str().as_bytes().to_vec())
}

/// Every URI of a multivariant playlist, variants first.
pub open spec fn spec_all_uris(mv: MultivariantPlaylist) -> Seq<Seq<u8>> {
    mv.variant_uris@.map_values(|v: Vec<u8>| v@) + mv.media_uris@.map_values(|v: Vec<u8>| v@)
}

/// Whether every URI resolves against the base.
pub open spec fn all_resolve(base: Seq<u8>, uris: Seq<Seq<u8>>) -> bool {
    forall|i: int| 0 <= i < uris.len() ==> url_join_of(base, #[trigger] uris[i]) is Some
}

/// Resolve every media-playlist URI of a multivariant manifest
/// against the manifest URL: the variant streams first, then the
/// alternate renditions.  Fails when any URI does not resolve.
pub fn derive_media_urls(base: &[u8], mv: &MultivariantPlaylist) -> (r: Result<Vec<Vec<u8>>, ()>)
    ensures
        match r {
            Ok(urls) => {
                let all = spec_all_uris(*mv);
                &&& urls@.len() == all.len()
                &&& forall|i: int|
                    0 <= i < all.len() ==> url_join_of(base@, all[i]) == Some(
                        (#[trigger] urls@[i])@,
                    )
            },
            Err(_) => !all_resolve(base@, spec_all_uris(*mv)),
        },
{
    let ghost all: Seq<Seq<u8>> = mv.variant_uris@.map_values(|v: Vec<u8>| v@)
        + mv.media_uris@.map_values(|v: Vec<u8>| v@);
    let mut urls: Vec<Vec<u8>> = Vec::new();
    let nv = mv.variant_uris.len();
    let nm = mv.media_uris.len();
    let mut i: usize = 0;
    while i < nv
        invariant
            0 <= i <= nv,
            nv == mv.variant_uris@.len(),
            all == mv.variant_uris@.map_values(|v: Vec<u8>| v@) + mv.media_uris@.map_values(
                |v: Vec<u8>| v@,
            ),
            urls@.len() == i,
            forall|j: int|
                0 <= j < i ==> url_join_of(base@, all[j]) == Some((#[trigger] urls@[j])@),
        decreases nv - i,
    {
        proof {
            assert(all[i as int] == mv.variant_uris@.map_values(|v: Vec<u8>| v@)[i as int]);
            assert(mv.variant_uris@.map_values(|v: Vec<u8>| v@)[i as int]
                == mv.variant_uris@[i as int]@);
        }
        match join_url(base, mv.variant_uris[i].as_slice()) {
            Some(u) => {
                urls.push(u);
            },
            None => {
                return Err(());
            },
        }
        i = i + 1;
    }
    let mut k: usize = 0;
    while k < nm
        invariant
            0 <= k <= nm,
            nv == mv.variant_uris@.len(),
            nm == mv.media_uris@.len(),
            all == mv.variant_uris@.map_values(|v: Vec<u8>| v@) + mv.media_uris@.map_values(
                |v: Vec<u8>| v@,
            ),
            urls@.len() == nv + k,
            forall|j: int|
                0 <= j < nv + k ==> url_join_of(base@, all[j]) == Some((#[trigger] urls@[j])@),
        decreases nm - k,
    {
        proof {
            assert(all[nv + k] == mv.media_uris@.map_values(|v: Vec<u8>| v@)[k as int]);
            assert(mv.media_uris@.map_values(|v: Vec<u8>| v@)[k as int]
                == mv.media_uris@[k as int]@);
        }
        match join_url(base, mv.media_uris[k].as_slice()) {
            Some(u) => {
                urls.push(u);
            },
            None => {
                return Err(());
            },
        }
        k = k + 1;
    }
    Ok(urls)
}

} // verus!
