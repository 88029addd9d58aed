//! The library's cross-cutting guarantees, stated and proved once.
//!
//! Each law here relates the spec functions that the checker's and
//! timeline's contracts are written in; together with those
//! contracts they pin down the behaviours a caller may rely on.

use vstd::prelude::*;
use crate::check::{
    attr_events, daterange_events_upto, date_attr_events, dur_attr_events, endlist_events,
    history_events, history_events_upto, lm_identical_events, missed_304_events, seg_pair_events,
    stale_events, text_attr_events, update_events, update_tail_events, PlaylistInfo,
};
use crate::events::{spec_delta, EventSeverity, EventV};
use crate::http::HttpRef;
use crate::timeline::Sequence;

verus! {

/// How many media-sequence-regression events a sequence holds.
pub open spec fn count_msn_regressions(events: Seq<(EventSeverity, EventV)>) -> int
    decreases events.len(),
{
    if events.len() == 0 {
        0
    } else {
        count_msn_regressions(events.drop_last()) + (if events.last().1 is MsnGoneBackwards {
            1int
        } else {
            0int
        })
    }
}

/// Counting distributes over concatenation.
pub proof fn lemma_count_concat(a: Seq<(EventSeverity, EventV)>, b: Seq<(EventSeverity, EventV)>)
    ensures
        count_msn_regressions(a + b) == count_msn_regressions(a) + count_msn_regressions(b),
    decreases b.len(),
{
    if b.len() == 0 {
        assert(a + b =~= a);
    } else {
        assert((a + b).drop_last() =~= a + b.drop_last());
        lemma_count_concat(a, b.drop_last());
    }
}

/// A sequence of at most one non-regression event counts zero.
proof fn lemma_count_single(e: Seq<(EventSeverity, EventV)>)
    requires
        e.len() <= 1,
        e.len() == 1 ==> !(e[0].1 is MsnGoneBackwards),
    ensures
        count_msn_regressions(e) == 0,
{
    if e.len() == 1 {
        assert(e.last() == e[0]);
        assert(e.drop_last().len() == 0);
        assert(count_msn_regressions(e.drop_last()) == 0);
    }
}

/// The per-segment history comparison never reports a regression.
proof fn lemma_pair_no_regression(
    d: crate::events::Delta,
    a: crate::playlist::MediaSegment,
    b: crate::playlist::MediaSegment,
)
    ensures
        count_msn_regressions(seg_pair_events(d, a, b)) == 0,
{
    let e = seg_pair_events(d, a, b);
    if a.uri@ != b.uri@ {
        lemma_count_single(e);
    } else {
        let e1 = if a.has_discontinuity != b.has_discontinuity {
            if b.has_discontinuity {
                seq![
                    (
                        EventSeverity::Error,
                        EventV::ManifestHistoryAddedDiscontinuity { delta: d, msn: b.msn },
                    ),
                ]
            } else {
                seq![
                    (
                        EventSeverity::Error,
                        EventV::ManifestHistoryRemovedDiscontinuity { delta: d, msn: b.msn },
                    ),
                ]
            }
        } else {
            Seq::empty()
        };
        let e2 = if a.duration_millis != b.duration_millis {
            seq![
                (
                    EventSeverity::Error,
                    EventV::ManifestHistoryChangedSegmentDuration {
                        delta: d,
                        msn: b.msn,
                        last_duration_millis: a.duration_millis,
                        this_duration_millis: b.duration_millis,
                    },
                ),
            ]
        } else {
            Seq::empty()
        };
        let e3 = if a.byte_range != b.byte_range {
            seq![
                (
                    EventSeverity::Error,
                    EventV::ManifestHistoryChangedSegmentByterange {
                        delta: d,
                        msn: b.msn,
                        last_byterange: crate::check::fmt_opt_byte_range(a.byte_range),
                        this_byterange: crate::check::fmt_opt_byte_range(b.byte_range),
                    },
                ),
            ]
        } else {
            Seq::empty()
        };
        lemma_count_single(e1);
        lemma_count_single(e2);
        lemma_count_single(e3);
        lemma_count_concat(e1, e2);
        lemma_count_concat(e1 + e2, e3);
        assert(e == e1 + e2 + e3);
    }
}

/// The whole history walk never reports a regression.
proof fn lemma_history_no_regression(
    d: crate::events::Delta,
    ps: Seq<crate::playlist::MediaSegment>,
    ts: Seq<crate::playlist::MediaSegment>,
    skip: int,
    i: int,
)
    ensures
        count_msn_regressions(history_events_upto(d, ps, ts, skip, i)) == 0,
    decreases i,
{
    if i <= 0 {
    } else {
        lemma_history_no_regression(d, ps, ts, skip, i - 1);
        lemma_pair_no_regression(d, ps[skip + i - 1], ts[i - 1]);
        lemma_count_concat(
            history_events_upto(d, ps, ts, skip, i - 1),
            seg_pair_events(d, ps[skip + i - 1], ts[i - 1]),
        );
    }
}

/// The attribute comparison of one daterange never reports a
/// regression.
proof fn lemma_attrs_no_regression(
    href: HttpRef,
    this_dr: crate::playlist::DateRange,
    prev_dr: crate::playlist::DateRange,
)
    ensures
        count_msn_regressions(attr_events(href, this_dr, prev_dr)) == 0,
{
    let id = this_dr.id@;
    let e1 = dur_attr_events(href, id, "DURATION"@, this_dr.duration_millis, prev_dr.duration_millis);
    let e2 = date_attr_events(href, id, "START-DATE"@, this_dr.start_date, prev_dr.start_date);
    let e3 = dur_attr_events(
        href,
        id,
        "PLANNED-DURATION"@,
        this_dr.planned_duration_millis,
        prev_dr.planned_duration_millis,
    );
    let e4 = date_attr_events(href, id, "END-DATE"@, this_dr.end_date, prev_dr.end_date);
    let e5 = text_attr_events(href, id, "SCTE-CMD"@, this_dr.scte35_cmd, prev_dr.scte35_cmd);
    let e6 = text_attr_events(href, id, "SCTE-OUT"@, this_dr.scte35_out, prev_dr.scte35_out);
    let e7 = text_attr_events(href, id, "SCTE-IN"@, this_dr.scte35_in, prev_dr.scte35_in);
    lemma_count_single(e1);
    lemma_count_single(e2);
    lemma_count_single(e3);
    lemma_count_single(e4);
    lemma_count_single(e5);
    lemma_count_single(e6);
    lemma_count_single(e7);
    lemma_count_concat(e1, e2);
    lemma_count_concat(e1 + e2, e3);
    lemma_count_concat(e1 + e2 + e3, e4);
    lemma_count_concat(e1 + e2 + e3 + e4, e5);
    lemma_count_concat(e1 + e2 + e3 + e4 + e5, e6);
    lemma_count_concat(e1 + e2 + e3 + e4 + e5 + e6, e7);
    assert(attr_events(href, this_dr, prev_dr) == e1 + e2 + e3 + e4 + e5 + e6 + e7);
}

/// The daterange scan never reports a regression.
proof fn lemma_daterange_no_regression(
    href: HttpRef,
    segs: Seq<crate::playlist::MediaSegment>,
    last_msn: usize,
    i: int,
)
    ensures
        count_msn_regressions(daterange_events_upto(href, segs, last_msn, i)) == 0,
    decreases i,
{
    if i <= 0 {
    } else {
        lemma_daterange_no_regression(href, segs, last_msn, i - 1);
        let tail = match segs[i - 1].date_range {
            Some(dr) => if segs[i - 1].msn > last_msn {
                match crate::check::last_range_before(segs, i - 1, dr.id@) {
                    Some(pd) => attr_events(href, dr, pd),
                    None => Seq::empty(),
                }
            } else {
                Seq::empty()
            },
            None => Seq::empty(),
        };
        match segs[i - 1].date_range {
            Some(dr) => {
                if segs[i - 1].msn > last_msn {
                    match crate::check::last_range_before(segs, i - 1, dr.id@) {
                        Some(pd) => {
                            lemma_attrs_no_regression(href, dr, pd);
                        },
                        None => {},
                    }
                }
            },
            None => {},
        }
        lemma_count_concat(daterange_events_upto(href, segs, last_msn, i - 1), tail);
    }
}

/// The media sequence number may only move forward between reloads:
/// an update tick reports `MsnGoneBackwards` exactly once when the
/// number regressed, and never otherwise.
pub proof fn law_msn_regression_reported(
    p: PlaylistInfo,
    t: PlaylistInfo,
    since: usize,
    fresh: Option<HttpRef>,
    fmsn: Option<usize>,
)
    requires
        p.wf(),
        t.wf(),
    ensures
        count_msn_regressions(update_events(p, t, since, fresh, fmsn)) == (
        if p.playlist.media_sequence > t.playlist.media_sequence {
            1int
        } else {
            0int
        }),
{
    let e_end = endlist_events(p, t);
    let e_tail = update_tail_events(p, t, since, fresh, fmsn);
    let e_lm = lm_identical_events(p, t);
    let e_missed = missed_304_events(p, t);
    lemma_count_single(e_end);
    lemma_count_single(e_lm);
    lemma_count_single(e_missed);
    if p.playlist.media_sequence > t.playlist.media_sequence {
        assert(count_msn_regressions(e_tail) == 1) by {
            assert(e_tail.len() == 1);
            assert(e_tail.last() == e_tail[0]);
            assert(e_tail.last().1 is MsnGoneBackwards);
            assert(e_tail.drop_last().len() == 0);
            assert(count_msn_regressions(e_tail.drop_last()) == 0);
        }
    } else {
        let pl = p.last_msn();
        let tl = t.last_msn();
        if pl > tl {
            lemma_count_single(e_tail);
        } else {
            let d = spec_delta(p.href, t.href);
            let h = history_events(
                d,
                p.playlist.segments@,
                t.playlist.segments@,
                t.playlist.media_sequence - p.playlist.media_sequence,
            );
            let s = stale_events(since, fresh, fmsn, t);
            let dr = crate::check::daterange_events(t.href, t.playlist.segments@, pl);
            lemma_history_no_regression(
                d,
                p.playlist.segments@,
                t.playlist.segments@,
                t.playlist.media_sequence - p.playlist.media_sequence,
                crate::check::pair_count(
                    p.playlist.segments@.len() as int,
                    t.playlist.segments@.len() as int,
                    t.playlist.media_sequence - p.playlist.media_sequence,
                ),
            );
            lemma_count_single(s);
            lemma_daterange_no_regression(t.href, t.playlist.segments@, pl, t.playlist.segments@.len() as int);
            lemma_count_concat(h, s);
            lemma_count_concat(h + s, dr);
            assert(e_tail == h + s + dr);
        }
    }
    lemma_count_concat(e_end, e_tail);
    lemma_count_concat(e_end + e_tail, e_lm);
    lemma_count_concat(e_end + e_tail + e_lm, e_missed);
    assert(update_events(p, t, since, fresh, fmsn) == e_end + e_tail + e_lm + e_missed);
}

/// Byte-identical bodies whose `Last-Modified` did not change draw
/// no last-modified warning from the fingerprint check.
pub proof fn law_identical_bodies_quiet(p: PlaylistInfo, t: PlaylistInfo)
    requires
        t.body_hash() == p.body_hash(),
        t.last_modified() == p.last_modified(),
    ensures
        lm_identical_events(p, t) == Seq::<(EventSeverity, EventV)>::empty(),
{
}

/// A truncation of the live playlist is a warning when exactly one
/// segment disappeared and an error when more did.
pub proof fn law_truncation_severity(
    p: PlaylistInfo,
    t: PlaylistInfo,
    since: usize,
    fresh: Option<HttpRef>,
    fmsn: Option<usize>,
)
    requires
        p.wf(),
        t.wf(),
        p.playlist.media_sequence <= t.playlist.media_sequence,
        p.last_msn() > t.last_msn(),
    ensures
        update_tail_events(p, t, since, fresh, fmsn).len() == 1,
        update_tail_events(p, t, since, fresh, fmsn)[0].0 == (if p.last_msn() - t.last_msn() > 1 {
            EventSeverity::Error
        } else {
            EventSeverity::Warning
        }),
        update_tail_events(p, t, since, fresh, fmsn)[0].1 matches EventV::LiveSegmentsRemoved {
            removed_count,
            ..
        } && removed_count == p.last_msn() - t.last_msn(),
{
}

/// Staleness thresholds: nothing is said while at most one reload
/// brought no news; from the second unchanged reload the playlist is
/// reported stale, as a warning at counter two and as an error past
/// it (so at counter four in particular).
pub proof fn law_stale_thresholds(
    since: usize,
    fresh: Option<HttpRef>,
    fmsn: Option<usize>,
    t: PlaylistInfo,
)
    requires
        t.wf(),
        fmsn matches Some(f) && f >= t.last_msn(),
        fresh is Some,
    ensures
        since <= 1 ==> stale_events(since, fresh, fmsn, t).len() == 0,
        since == 2 ==> stale_events(since, fresh, fmsn, t).len() == 1 && stale_events(
            since,
            fresh,
            fmsn,
            t,
        )[0].0 == EventSeverity::Warning,
        since == 4 ==> stale_events(since, fresh, fmsn, t).len() == 1 && stale_events(
            since,
            fresh,
            fmsn,
            t,
        )[0].0 == EventSeverity::Error,
        since > 1 ==> stale_events(since, fresh, fmsn, t) =~= seq![
            (
                if since > 2 {
                    EventSeverity::Error
                } else {
                    EventSeverity::Warning
                },
                EventV::ManifestStale {
                    delta: spec_delta(fresh->Some_0, t.href),
                    since_list_update: since,
                },
            ),
        ],
{
}

/// Every media sequence number still covered after
/// `remove_older_than` is at least the cut-off: a span whose start
/// respects the cut-off only covers numbers past it.
pub proof fn law_timeline_msn_floor(tl: Seq<Sequence>, msn: usize, j: int, m: usize)
    requires
        forall|i: int| 0 <= i < tl.len() ==> (#[trigger] tl[i]).first_msn >= msn,
        0 <= j < tl.len(),
        tl[j].first_msn <= m,
    ensures
        m >= msn,
{
}


/// Decimal rendering is faithful: the digits of `n` are digits and
/// denote `n`.
proof fn lemma_dec_digits(n: int)
    requires
        n >= 0,
    ensures
        crate::playlist::all_digits(crate::textfmt::spec_dec(n)),
        crate::textfmt::digits_val(crate::textfmt::spec_dec(n)) == n,
        crate::textfmt::spec_dec(n).len() > 0,
    decreases n,
{
    let d = crate::textfmt::spec_dec(n);
    if n < 10 {
        assert(d =~= seq![crate::textfmt::spec_digit(n)]);
        assert(d.drop_last().len() == 0);
        assert(crate::textfmt::digits_val(d.drop_last()) == 0);
        assert(d.last() == crate::textfmt::spec_digit(n));
        assert(d.last() == 0x30 + n);
        assert(crate::textfmt::digits_val(d) == 0 * 10 + (d.last() - 0x30));
        assert(crate::playlist::all_digits(d)) by {
            assert(forall|i: int| 0 <= i < d.len() ==> d[i] == crate::textfmt::spec_digit(n));
        }
    } else {
        lemma_dec_digits(n / 10);
        let head = crate::textfmt::spec_dec(n / 10);
        assert(d == head.push(crate::textfmt::spec_digit(n % 10)));
        assert(d.drop_last() =~= head);
        assert(d.last() == crate::textfmt::spec_digit(n % 10));
        assert(crate::textfmt::digits_val(d) == n / 10 * 10 + n % 10);
        assert(crate::playlist::all_digits(d)) by {
            assert(forall|i: int| 0 <= i < head.len() ==> d[i] == head[i]);
        }
    }
}

/// No decimal digit is some other byte.
proof fn lemma_dec_free_of(n: int, b: u8)
    requires
        n >= 0,
        !crate::textfmt::is_digit(b),
    ensures
        forall|i: int|
            0 <= i < crate::textfmt::spec_dec(n).len() ==> #[trigger] crate::textfmt::spec_dec(
                n,
            )[i] != b,
{
    lemma_dec_digits(n);
}

/// A byte that occurs nowhere is never found.
proof fn lemma_find_byte_absent(s: Seq<u8>, b: u8)
    requires
        forall|i: int| 0 <= i < s.len() ==> s[i] != b,
    ensures
        crate::headers::spec_find_byte(s, b) is None,
    decreases s.len(),
{
    if s.len() > 0 {
        assert(forall|i: int| 0 <= i < s.drop_first().len() ==> s.drop_first()[i] != b);
        lemma_find_byte_absent(s.drop_first(), b);
    }
}

/// The canonical decimal-seconds rendering of a whole number of
/// milliseconds parses back to exactly that number: formatting and
/// parsing of segment durations are inverses, so re-emitted
/// `#EXTINF` durations carry the same value the manifest did.
pub proof fn law_duration_text_round_trip(ms: u64)
    ensures
        crate::playlist::spec_parse_duration_millis(
            crate::textfmt::spec_millis_as_secs(ms as int),
        ) == Some(ms),
{
    reveal_with_fuel(crate::textfmt::digits_val, 5);
    let s: int = ms as int / 1000;
    let f: int = ms as int % 1000;
    let text = crate::textfmt::spec_millis_as_secs(ms as int);
    let head = crate::textfmt::spec_dec(s);
    lemma_dec_digits(s);
    if f == 0 {
        assert(text == head);
        lemma_dec_free_of(s, 0x2e);
        lemma_find_byte_absent(text, 0x2e);
        assert(crate::textfmt::spec_parse_u64(text) == Some((s) as u64));
        assert(s <= u64::MAX / 1000);
        assert(s * 1000 == ms) by (nonlinear_arith)
            requires
                s == ms as int / 1000,
                f == ms as int % 1000,
                f == 0,
                ms >= 0,
        ;
    } else {
        let frac: Seq<u8> = if f % 100 == 0 {
            seq![crate::textfmt::spec_digit(f / 100)]
        } else if f % 10 == 0 {
            seq![crate::textfmt::spec_digit(f / 100), crate::textfmt::spec_digit((f / 10) % 10)]
        } else {
            seq![
                crate::textfmt::spec_digit(f / 100),
                crate::textfmt::spec_digit((f / 10) % 10),
                crate::textfmt::spec_digit(f % 10),
            ]
        };
        let tail = seq![0x2eu8] + frac;
        assert(text =~= head + tail);
        // the dot is found right after the integer digits
        assert(forall|i: int| 0 <= i < head.len() ==> text[i] != 0x2e) by {
            lemma_dec_free_of(s, 0x2e);
            assert(forall|i: int| 0 <= i < head.len() ==> text[i] == head[i]);
        }
        crate::headers::lemma_find_byte_skip(text, 0x2e, head.len() as int);
        assert(text.skip(head.len() as int) =~= tail);
        assert(crate::headers::spec_find_byte(tail, 0x2e) == Some(0int));
        let dotpos = head.len() as int;
        assert(crate::headers::spec_find_byte(text, 0x2e) == Some(dotpos));
        let ip = text.take(dotpos);
        let fp = text.skip(dotpos + 1);
        assert(ip =~= head);
        assert(fp =~= frac);
        assert(crate::playlist::all_digits(fp)) by {
            assert(0 <= f / 100 < 10 && 0 <= (f / 10) % 10 < 10 && 0 <= f % 10 < 10);
        }
        assert(crate::textfmt::digits_val(ip) == s);
        assert(crate::playlist::spec_frac_millis(fp) == f) by {
            if f % 100 == 0 {
                assert(fp.drop_last().len() == 0);
                assert(fp.last() == crate::textfmt::spec_digit(f / 100));
                assert(0 <= f / 100 < 10);
                assert(fp.last() == 0x30 + f / 100);
                assert(crate::textfmt::digits_val(fp) == 0 * 10 + (fp.last() - 0x30));
                assert(crate::textfmt::digits_val(fp) == f / 100);
                assert(f / 100 * 100 == f) by (nonlinear_arith)
                    requires
                        0 <= f < 1000,
                        f % 100 == 0,
                ;
            } else if f % 10 == 0 {
                assert(fp.drop_last() =~= seq![crate::textfmt::spec_digit(f / 100)]);
                assert(fp.drop_last().drop_last().len() == 0);
                assert(0 <= f / 100 < 10 && 0 <= (f / 10) % 10 < 10);
                assert(fp.drop_last().last() == 0x30 + f / 100);
                assert(crate::textfmt::digits_val(fp.drop_last()) == f / 100);
                assert(fp.last() == 0x30 + (f / 10) % 10);
                assert(crate::textfmt::digits_val(fp) == f / 100 * 10 + (f / 10) % 10);
                assert((f / 100 * 10 + (f / 10) % 10) * 10 == f) by (nonlinear_arith)
                    requires
                        0 <= f < 1000,
                        f % 10 == 0,
                ;
            } else {
                assert(fp.drop_last() =~= seq![
                    crate::textfmt::spec_digit(f / 100),
                    crate::textfmt::spec_digit((f / 10) % 10),
                ]);
                assert(fp.drop_last().drop_last() =~= seq![crate::textfmt::spec_digit(f / 100)]);
                assert(fp.drop_last().drop_last().drop_last().len() == 0);
                assert(0 <= f / 100 < 10 && 0 <= (f / 10) % 10 < 10 && 0 <= f % 10 < 10);
                assert(fp.drop_last().drop_last().last() == 0x30 + f / 100);
                assert(crate::textfmt::digits_val(fp.drop_last().drop_last()) == f / 100);
                assert(fp.drop_last().last() == 0x30 + (f / 10) % 10);
                assert(crate::textfmt::digits_val(fp.drop_last()) == f / 100 * 10 + (f / 10) % 10);
                assert(fp.last() == 0x30 + f % 10);
                assert(crate::textfmt::digits_val(fp) == (f / 100 * 10 + (f / 10) % 10) * 10 + f
                    % 10);
                assert((f / 100 * 10 + (f / 10) % 10) * 10 + f % 10 == f) by (nonlinear_arith)
                    requires
                        0 <= f < 1000,
                ;
            }
        }
        assert(s * 1000 + f == ms) by (nonlinear_arith)
            requires
                s == ms as int / 1000,
                f == ms as int % 1000,
                ms >= 0,
        ;
    }
}


/// Every byte of a canonical duration text is a digit or the dot.
proof fn lemma_dur_text_bytes(ms: u64)
    ensures
        forall|i: int|
            0 <= i < crate::textfmt::spec_millis_as_secs(ms as int).len()
                ==> crate::textfmt::is_digit(
                #[trigger] crate::textfmt::spec_millis_as_secs(ms as int)[i],
            ) || crate::textfmt::spec_millis_as_secs(ms as int)[i] == 0x2e,
{
    let s: int = ms as int / 1000;
    let f: int = ms as int % 1000;
    let text = crate::textfmt::spec_millis_as_secs(ms as int);
    let head = crate::textfmt::spec_dec(s);
    lemma_dec_digits(s);
    if f != 0 {
        assert(forall|i: int| 0 <= i < head.len() ==> text[i] == head[i]);
        assert(text[head.len() as int] == 0x2e);
        assert(0 <= f / 100 < 10 && 0 <= (f / 10) % 10 < 10 && 0 <= f % 10 < 10);
    }
}

/// A URI that may stand on its own playlist line: non-empty, no
/// line-break bytes, and not a comment.
pub open spec fn uri_ok(u: Seq<u8>) -> bool {
    &&& u.len() > 0
    &&& u[0] != 0x23
    &&& forall|i: int| 0 <= i < u.len() ==> u[i] != 0x0a && u[i] != 0x0d
}

/// No tag or pending segment state is carried.
pub open spec fn clean_pending(st: crate::playlist::BuilderV) -> bool {
    &&& st.pending_duration is None
    &&& !st.pending_discontinuity
    &&& st.pending_byte_range is None
    &&& st.pending_pdt is None
    &&& st.pending_daterange is None
}

/// The draft that parsing one canonical segment text leaves behind.
pub open spec fn draft_of(s: crate::playlist::MediaSegmentV) -> crate::playlist::MediaSegmentV {
    crate::playlist::MediaSegmentV {
        msn: 0,
        uri: s.uri,
        duration_millis: s.duration_millis,
        has_discontinuity: false,
        byte_range: None,
        program_date_time: None,
        date_range: None,
    }
}

/// The canonical text of the segments from index `i` on.
pub open spec fn list_text_from(segs: Seq<crate::playlist::MediaSegmentV>, i: int) -> Seq<u8>
    decreases segs.len() - i,
{
    if i < 0 || i >= segs.len() {
        Seq::empty()
    } else {
        crate::playlist::spec_segment_text(segs[i]) + list_text_from(segs, i + 1)
    }
}

/// The prefix and suffix renderings assemble the whole list.
proof fn lemma_list_text_split(segs: Seq<crate::playlist::MediaSegmentV>, i: int)
    requires
        0 <= i <= segs.len(),
    ensures
        crate::playlist::spec_segment_list_text(segs, i) + list_text_from(segs, i)
            == crate::playlist::spec_segment_list_text(segs, segs.len() as int) + list_text_from(
            segs,
            segs.len() as int,
        ),
    decreases segs.len() - i,
{
    if i < segs.len() {
        lemma_list_text_split(segs, i + 1);
        assert(crate::playlist::spec_segment_list_text(segs, i + 1) == crate::playlist::spec_segment_list_text(
            segs,
            i,
        ) + crate::playlist::spec_segment_text(segs[i]));
        assert(crate::playlist::spec_segment_list_text(segs, i) + (crate::playlist::spec_segment_text(
            segs[i],
        ) + list_text_from(segs, i + 1)) =~= crate::playlist::spec_segment_list_text(segs, i + 1)
            + list_text_from(segs, i + 1));
    }
}

/// The `#EXTINF` line of a canonical segment text parses back to a
/// pending duration.
#[verifier::rlimit(100)]
#[verifier::spinoff_prover]
proof fn lemma_step_extinf(st: crate::playlist::BuilderV, ms: u64, start: usize, end: usize)
    ensures
        ({
            let line1 = crate::textfmt::ascii_bytes("#EXTINF:"@) + crate::textfmt::spec_millis_as_secs(
                ms as int,
            ) + seq![0x2cu8];
            crate::playlist::spec_line_step(st, line1, start, end) == Ok::<
                crate::playlist::BuilderV,
                crate::playlist::ParseErrorV,
            >(crate::playlist::BuilderV { pending_duration: Some(ms), ..st })
        }),
{
    reveal_strlit("#EXTINF:");
    reveal_strlit("#EXT-X-VERSION:");
    reveal_strlit("#EXT-X-TARGETDURATION:");
    reveal_strlit("#EXT-X-MEDIA-SEQUENCE:");
    let a = |s: Seq<char>| crate::textfmt::ascii_bytes(s);
    let tag = a("#EXTINF:"@);
    let dur = crate::textfmt::spec_millis_as_secs(ms as int);
    let line1 = tag + dur + seq![0x2cu8];
    lemma_dur_text_bytes(ms);
    lemma_dec_digits(ms as int / 1000);
    assert(line1[0] == 0x23);
    assert(line1.len() >= 9);
    assert(line1[4] == 0x49);
    assert(!crate::playlist::has_pfx(line1, a("#EXT-X-VERSION:"@))) by {
        if line1.len() >= 15 && line1.take(15) == a("#EXT-X-VERSION:"@) {
            assert(line1.take(15)[4] == line1[4]);
            assert(a("#EXT-X-VERSION:"@)[4] == 0x2d);
        }
    }
    assert(!crate::playlist::has_pfx(line1, a("#EXT-X-TARGETDURATION:"@))) by {
        if line1.len() >= 22 && line1.take(22) == a("#EXT-X-TARGETDURATION:"@) {
            assert(line1.take(22)[4] == line1[4]);
            assert(a("#EXT-X-TARGETDURATION:"@)[4] == 0x2d);
        }
    }
    assert(!crate::playlist::has_pfx(line1, a("#EXT-X-MEDIA-SEQUENCE:"@))) by {
        if line1.len() >= 22 && line1.take(22) == a("#EXT-X-MEDIA-SEQUENCE:"@) {
            assert(line1.take(22)[4] == line1[4]);
            assert(a("#EXT-X-MEDIA-SEQUENCE:"@)[4] == 0x2d);
        }
    }
    assert(crate::playlist::has_pfx(line1, tag)) by {
        assert(line1.take(tag.len() as int) =~= tag);
    }
    let payload = line1.skip(8);
    assert(payload =~= dur + seq![0x2cu8]);
    assert(forall|j: int| 0 <= j < dur.len() ==> payload[j] != 0x2c) by {
        assert(forall|j: int| 0 <= j < dur.len() ==> payload[j] == dur[j]);
    }
    crate::headers::lemma_find_byte_skip(payload, 0x2c, dur.len() as int);
    assert(payload.skip(dur.len() as int)[0] == 0x2c);
    assert(crate::headers::spec_find_byte(payload, 0x2c) == Some(dur.len() as int));
    assert(payload.take(dur.len() as int) =~= dur);
    law_duration_text_round_trip(ms);
}

/// A URI line closes the pending segment.
#[verifier::rlimit(100)]
proof fn lemma_step_uri(st: crate::playlist::BuilderV, u: Seq<u8>, ms: u64, start: usize, end: usize)
    requires
        uri_ok(u),
        st.pending_duration == Some(ms),
    ensures
        crate::playlist::spec_line_step(st, u, start, end) == Ok::<
            crate::playlist::BuilderV,
            crate::playlist::ParseErrorV,
        >(
            crate::playlist::BuilderV {
                drafts: st.drafts.push(
                    crate::playlist::MediaSegmentV {
                        msn: 0,
                        uri: u,
                        duration_millis: ms,
                        has_discontinuity: st.pending_discontinuity,
                        byte_range: st.pending_byte_range,
                        program_date_time: st.pending_pdt,
                        date_range: st.pending_daterange,
                    },
                ),
                pending_duration: None,
                pending_discontinuity: false,
                pending_byte_range: None,
                pending_pdt: None,
                pending_daterange: None,
                ..st
            },
        ),
{
    assert(u[0] != 0x23);
}

/// One line of a larger text advances the parse by that line: the
/// fold consumes up to the next newline and applies the line step.
#[verifier::rlimit(100)]
#[verifier::spinoff_prover]
proof fn lemma_parse_line_step(
    t: Seq<u8>,
    pos: int,
    st: crate::playlist::BuilderV,
    line: Seq<u8>,
    rest: Seq<u8>,
)
    requires
        0 <= pos <= t.len(),
        t.skip(pos) == line + seq![0x0au8] + rest,
        forall|j: int| 0 <= j < line.len() ==> line[j] != 0x0a,
        line.len() == 0 || line.last() != 0x0d,
    ensures
        pos + line.len() + 1 <= t.len(),
        t.skip(pos + line.len() + 1) == rest,
        ({
            let step = crate::playlist::spec_line_step(
                st,
                line,
                pos as usize,
                (pos + line.len()) as usize,
            );
            match step {
                Ok(st2) => crate::playlist::spec_parse_lines(t, pos, st)
                    == crate::playlist::spec_parse_lines(t, pos + line.len() + 1, st2),
                Err(e) => crate::playlist::spec_parse_lines(t, pos, st) == Err::<
                    crate::playlist::BuilderV,
                    crate::playlist::ParseErrorV,
                >(e),
            }
        }),
{
    let rest0 = t.skip(pos);
    let k = line.len() as int;
    assert(rest0.len() == t.len() - pos);
    assert(forall|j: int| 0 <= j < k ==> rest0[j] != 0x0a) by {
        assert(forall|j: int| 0 <= j < k ==> rest0[j] == line[j]);
    }
    crate::headers::lemma_find_byte_skip(rest0, 0x0a, k);
    assert(rest0.skip(k)[0] == 0x0a);
    assert(crate::headers::spec_find_byte(rest0, 0x0a) == Some(k));
    assert(rest0.take(k) =~= line);
    assert(t.skip(pos + k + 1) =~= rest0.skip(k + 1));
    assert(rest0.skip(k + 1) =~= rest);
}

/// Consuming one canonical segment text: the two lines advance the
/// parse past the segment and push exactly its draft.
#[verifier::rlimit(100)]
#[verifier::spinoff_prover]
proof fn lemma_parse_one_segment(
    t: Seq<u8>,
    pos: int,
    st: crate::playlist::BuilderV,
    seg: crate::playlist::MediaSegmentV,
    tail: Seq<u8>,
)
    requires
        0 <= pos <= t.len(),
        t.skip(pos) == crate::playlist::spec_segment_text(seg) + tail,
        clean_pending(st),
        uri_ok(seg.uri),
    ensures
        ({
            let pos3 = pos + crate::playlist::spec_segment_text(seg).len();
            let st3 = crate::playlist::BuilderV { drafts: st.drafts.push(draft_of(seg)), ..st };
            &&& pos3 <= t.len()
            &&& t.skip(pos3) == tail
            &&& clean_pending(st3)
            &&& crate::playlist::spec_parse_lines(t, pos, st) == crate::playlist::spec_parse_lines(
                t,
                pos3,
                st3,
            )
        }),
{
    reveal_strlit("#EXTINF:");
    let ms = seg.duration_millis;
    let dur = crate::textfmt::spec_millis_as_secs(ms as int);
    let tag = crate::textfmt::ascii_bytes("#EXTINF:"@);
    let line1 = tag + dur + seq![0x2cu8];
    lemma_dur_text_bytes(ms);
    lemma_dec_digits(ms as int / 1000);
    assert(crate::playlist::spec_segment_text(seg) =~= line1 + seq![0x0au8] + (seg.uri + seq![
        0x0au8,
    ] + Seq::<u8>::empty()));
    let rest_after_1 = seg.uri + seq![0x0au8] + tail;
    assert(t.skip(pos) =~= line1 + seq![0x0au8] + rest_after_1);
    assert(forall|j: int| 0 <= j < line1.len() ==> line1[j] != 0x0a) by {
        assert(forall|j: int| 0 <= j < tag.len() ==> line1[j] == tag[j]);
        assert(forall|j: int|
            tag.len() <= j < tag.len() + dur.len() ==> line1[j] == dur[j - tag.len()]);
        assert(line1[line1.len() - 1] == 0x2c);
    }
    assert(line1.last() == 0x2c);
    lemma_parse_line_step(t, pos, st, line1, rest_after_1);
    let st2 = crate::playlist::BuilderV { pending_duration: Some(ms), ..st };
    lemma_step_extinf(st, ms, pos as usize, (pos + line1.len()) as usize);
    let pos2 = pos + line1.len() + 1;
    assert(crate::playlist::spec_parse_lines(t, pos, st) == crate::playlist::spec_parse_lines(
        t,
        pos2,
        st2,
    ));
    // the URI line
    assert(t.skip(pos2) == seg.uri + seq![0x0au8] + tail);
    lemma_parse_line_step(t, pos2, st2, seg.uri, tail);
    let st3 = crate::playlist::BuilderV { drafts: st.drafts.push(draft_of(seg)), ..st };
    lemma_step_uri(st2, seg.uri, ms, pos2 as usize, (pos2 + seg.uri.len()) as usize);
    assert(draft_of(seg) =~= (crate::playlist::MediaSegmentV {
        msn: 0,
        uri: seg.uri,
        duration_millis: ms,
        has_discontinuity: st2.pending_discontinuity,
        byte_range: st2.pending_byte_range,
        program_date_time: st2.pending_pdt,
        date_range: st2.pending_daterange,
    }));
    assert((crate::playlist::BuilderV {
        drafts: st2.drafts.push(draft_of(seg)),
        pending_duration: None,
        pending_discontinuity: false,
        pending_byte_range: None,
        pending_pdt: None,
        pending_daterange: None,
        ..st2
    }) =~= st3);
    let pos3 = pos2 + seg.uri.len() + 1;
    assert(crate::playlist::spec_parse_lines(t, pos2, st2) == crate::playlist::spec_parse_lines(
        t,
        pos3,
        st3,
    ));
    assert(pos3 == pos + crate::playlist::spec_segment_text(seg).len());
}

/// Parsing the canonical text of segments `i..` appends exactly
/// their drafts, leaving everything else as it stood.
#[verifier::rlimit(100)]
#[verifier::spinoff_prover]
proof fn lemma_parse_canonical_list(
    t: Seq<u8>,
    pos: int,
    st: crate::playlist::BuilderV,
    segs: Seq<crate::playlist::MediaSegmentV>,
    i: int,
)
    requires
        0 <= i <= segs.len(),
        0 <= pos <= t.len(),
        t.skip(pos) == list_text_from(segs, i),
        clean_pending(st),
        forall|j: int| 0 <= j < segs.len() ==> uri_ok((#[trigger] segs[j]).uri),
    ensures
        crate::playlist::spec_parse_lines(t, pos, st) == Ok::<
            crate::playlist::BuilderV,
            crate::playlist::ParseErrorV,
        >(
            crate::playlist::BuilderV {
                drafts: st.drafts + Seq::new((segs.len() - i) as nat, |j: int| draft_of(segs[i + j])),
                ..st
            },
        ),
    decreases segs.len() - i,
{
    if i >= segs.len() {
        assert(t.skip(pos).len() == 0);
        assert(pos >= t.len());
        assert(Seq::new(0nat, |j: int| draft_of(segs[i + j])) =~= Seq::<
            crate::playlist::MediaSegmentV,
        >::empty());
        assert((crate::playlist::BuilderV {
            drafts: st.drafts + Seq::new((segs.len() - i) as nat, |j: int| draft_of(segs[i + j])),
            ..st
        }) =~= st);
    } else {
        let seg = segs[i];
        let tail = list_text_from(segs, i + 1);
        assert(t.skip(pos) == crate::playlist::spec_segment_text(seg) + tail);
        lemma_parse_one_segment(t, pos, st, seg, tail);
        let pos3 = pos + crate::playlist::spec_segment_text(seg).len();
        let st3 = crate::playlist::BuilderV { drafts: st.drafts.push(draft_of(seg)), ..st };
        lemma_parse_canonical_list(t, pos3, st3, segs, i + 1);
        assert(st3.drafts + Seq::new((segs.len() - i - 1) as nat, |j: int| draft_of(segs[i + 1 + j]))
            =~= st.drafts + Seq::new((segs.len() - i) as nat, |j: int| draft_of(segs[i + j])));
        assert((crate::playlist::BuilderV {
            drafts: st3.drafts + Seq::new(
                (segs.len() - i - 1) as nat,
                |j: int| draft_of(segs[i + 1 + j]),
            ),
            ..st3
        }) =~= (crate::playlist::BuilderV {
            drafts: st.drafts + Seq::new((segs.len() - i) as nat, |j: int| draft_of(segs[i + j])),
            ..st
        }));
    }
}

/// Re-emission does not depend on the fields the draft resets.
proof fn lemma_draft_text(segs: Seq<crate::playlist::MediaSegmentV>, i: int)
    requires
        0 <= i <= segs.len(),
    ensures
        crate::playlist::spec_segment_list_text(
            Seq::new(segs.len() as nat, |j: int| draft_of(segs[j])),
            i,
        ) == crate::playlist::spec_segment_list_text(segs, i),
    decreases i,
{
    if i > 0 {
        lemma_draft_text(segs, i - 1);
        let drafts = Seq::new(segs.len() as nat, |j: int| draft_of(segs[j]));
        assert(crate::playlist::spec_segment_text(drafts[i - 1])
            == crate::playlist::spec_segment_text(segs[i - 1]));
    }
}

/// Parsing a canonical segment list and re-emitting it yields the
/// same bytes: on playlists whose segment lines are already in the
/// emitter's canonical form, parse and re-emit round-trip bytewise.
pub proof fn law_segment_list_round_trip(segs: Seq<crate::playlist::MediaSegmentV>)
    requires
        forall|j: int| 0 <= j < segs.len() ==> uri_ok((#[trigger] segs[j]).uri),
    ensures
        ({
            let text = crate::playlist::spec_segment_list_text(segs, segs.len() as int);
            let parsed = crate::playlist::spec_parse_lines(
                text,
                0,
                crate::playlist::init_builder(),
            );
            &&& parsed is Ok
            &&& parsed->Ok_0.drafts.len() == segs.len()
            &&& crate::playlist::spec_segment_list_text(
                parsed->Ok_0.drafts,
                parsed->Ok_0.drafts.len() as int,
            ) == text
        }),
{
    let text = crate::playlist::spec_segment_list_text(segs, segs.len() as int);
    lemma_list_text_split(segs, 0);
    assert(crate::playlist::spec_segment_list_text(segs, 0).len() == 0);
    assert(text =~= list_text_from(segs, 0));
    assert(text.skip(0) =~= list_text_from(segs, 0));
    lemma_parse_canonical_list(text, 0, crate::playlist::init_builder(), segs, 0);
    let st = crate::playlist::spec_parse_lines(text, 0, crate::playlist::init_builder())->Ok_0;
    assert(st.drafts =~= Seq::new(segs.len() as nat, |j: int| draft_of(segs[j])));
    lemma_draft_text(segs, segs.len() as int);
}


/// The fingerprint check in full: the body-identical warning is
/// emitted exactly when the two fingerprints match, both responses
/// carry `Last-Modified`, and the two values differ — and then
/// exactly once, citing both values.
pub proof fn law_last_modified_fingerprint_check(p: PlaylistInfo, t: PlaylistInfo)
    ensures
        ({
            let fires = t.body_hash() == p.body_hash() && t.last_modified() is Some
                && p.last_modified() is Some && t.last_modified() != p.last_modified();
            &&& lm_identical_events(p, t).len() == (if fires {
                1int
            } else {
                0int
            })
            &&& fires ==> lm_identical_events(p, t)[0] == (
                EventSeverity::Warning,
                EventV::LastModifiedChangedButBodiesIdentical {
                    delta: spec_delta(p.href, t.href),
                    this_last_modified: t.last_modified()->Some_0,
                    last_last_modified: p.last_modified()->Some_0,
                },
            )
        }),
{
}

/// A daterange id sighted again with a changed `PLANNED-DURATION`
/// draws the changed-attribute error citing both values in seconds.
pub proof fn law_daterange_planned_duration_change(
    href: HttpRef,
    this_dr: crate::playlist::DateRange,
    prev_dr: crate::playlist::DateRange,
)
    requires
        this_dr.planned_duration_millis matches Some(tp)
            && prev_dr.planned_duration_millis matches Some(pp) && tp != pp,
    ensures
        attr_events(href, this_dr, prev_dr).contains(
            crate::check::attr_changed(
                href,
                this_dr.id@,
                "PLANNED-DURATION"@,
                crate::textfmt::spec_millis_as_secs(
                    prev_dr.planned_duration_millis->Some_0 as int,
                ),
                crate::textfmt::spec_millis_as_secs(
                    this_dr.planned_duration_millis->Some_0 as int,
                ),
            ),
        ),
{
    let id = this_dr.id@;
    let e1 = dur_attr_events(href, id, "DURATION"@, this_dr.duration_millis, prev_dr.duration_millis);
    let e2 = date_attr_events(href, id, "START-DATE"@, this_dr.start_date, prev_dr.start_date);
    let e3 = dur_attr_events(
        href,
        id,
        "PLANNED-DURATION"@,
        this_dr.planned_duration_millis,
        prev_dr.planned_duration_millis,
    );
    let e4 = date_attr_events(href, id, "END-DATE"@, this_dr.end_date, prev_dr.end_date);
    let e5 = text_attr_events(href, id, "SCTE-CMD"@, this_dr.scte35_cmd, prev_dr.scte35_cmd);
    let e6 = text_attr_events(href, id, "SCTE-OUT"@, this_dr.scte35_out, prev_dr.scte35_out);
    let e7 = text_attr_events(href, id, "SCTE-IN"@, this_dr.scte35_in, prev_dr.scte35_in);
    let all = attr_events(href, this_dr, prev_dr);
    let target = crate::check::attr_changed(
        href,
        id,
        "PLANNED-DURATION"@,
        crate::textfmt::spec_millis_as_secs(prev_dr.planned_duration_millis->Some_0 as int),
        crate::textfmt::spec_millis_as_secs(this_dr.planned_duration_millis->Some_0 as int),
    );
    assert(e3 == seq![target]);
    assert(all == e1 + e2 + e3 + e4 + e5 + e6 + e7);
    let at = e1.len() + e2.len();
    assert(all[at as int] == target);
    assert(all.contains(target));
}

} // verus!
