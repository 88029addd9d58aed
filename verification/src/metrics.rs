//! Histogram metrics: the sink interface the pollers record into,
//! and the consumer that turns the recorded samples into a
//! fixed-width ASCII report.
//!
//! The histogram itself comes from the `hdrhistogram` crate; its
//! recorded samples are modelled as a multiset, together with the
//! highest trackable value it was constructed with and the bucket
//! points its iterator yields.

use vstd::prelude::*;
use vstd::multiset::Multiset;
use crate::textfmt::{spec_dec, u64_to_dec};

verus! {

/// A sink for numeric samples.  Implementations live with the
/// embedding program; `put` must never block, dropping the sample
/// instead.
pub trait Metric: Clone {
    fn put(&mut self, value: u64);

    fn close(self);
}

/// An `hdrhistogram::Histogram<u64>`, held opaquely: Verus refuses
/// the type's own declaration (its generic parameter is bound by the
/// crate's `Counter` trait), so the histogram lives in a hidden
/// field and is reached only through the trusted wrappers below.
#[verifier::external_body]
pub struct Hist {
    inner: hdrhistogram::Histogram<u64>,
}

/// The samples successfully recorded into a histogram.
pub uninterp spec fn histogram_values(h: Hist) -> Multiset<u64>;

/// The highest trackable value the histogram was constructed with.
pub uninterp spec fn histogram_bound(h: Hist) -> u64;

/// The `(value, count)` bucket points the histogram's full iterator
/// yields, in iteration order.
pub uninterp spec fn histogram_points(h: Hist) -> Seq<(u64, u64)>;

/// Relies on `Histogram::new_with_max`: a fresh histogram holds no
/// samples and tracks values up to `high`; construction succeeds
/// whenever `high` is at least 2 and `sigfig` at most 5.
#[verifier::external_body]
fn hist_new(high: u64, sigfig: u8) -> (r: Result<Hist, ()>)
    ensures
        r matches Ok(h) ==> histogram_values(h) == Multiset::<u64>::empty() && histogram_bound(h)
            == high,
        high >= 2 && sigfig <= 5 ==> r is Ok,
{
    match hdrhistogram::Histogram::new_with_max(high, sigfig) {
        Ok(inner) => Ok(Hist { inner }),
        Err(_) => Err(()),
    }
}

/// Relies on `Histogram::record`: every value up to the trackable
/// bound is accepted and adds exactly the given sample; a value past
/// the bound is refused (auto-resize is off) and nothing changes.
#[verifier::external_body]
fn hist_record(h: &mut Hist, value: u64) -> (r: Result<(), ()>)
    ensures
        histogram_bound(*final(h)) == histogram_bound(*old(h)),
        value <= histogram_bound(*old(h)) ==> r is Ok,
        r is Ok ==> histogram_values(*final(h)) == histogram_values(*old(h)).insert(value),
        r is Err ==> histogram_values(*final(h)) == histogram_values(*old(h))
            && histogram_points(*final(h)) == histogram_points(*old(h)),
{
    h.inner.record(value).map_err(|_| ())
}

/// Relies on `Histogram::len`: the total number of recorded samples.
#[verifier::external_body]
fn hist_len(h: &Hist) -> (r: u64)
    ensures
        r == histogram_values(*h).len(),
{
    h.inner.len()
}

/// Relies on `Histogram::iter_all`: one `(value, count)` pair per
/// quantized bucket, in iteration order — a function of the
/// histogram's contents alone, so the result carries a name.
#[verifier::external_body]
fn hist_points(h: &Hist) -> (r: Vec<(u64, u64)>)
    ensures
        r@ == histogram_points(*h),
{
    h.inner.iter_all().map(|v| (v.value_iterated_to(), v.count_at_value())).collect()
}

/// One message of a metric channel: a sample, or the terminal
/// closedown marker.
#[derive(Clone, Copy, Debug, PartialEq, Eq, Structural)]
pub enum MetricEvent {
    Closedown,
    Metric(u64),
}

/// What consuming one channel message did.
#[derive(Clone, Copy, Debug, PartialEq, Eq, Structural)]
pub enum MetricOutcome {
    /// The sample was recorded into the histogram.
    Recorded,
    /// The sample was outside the trackable range and was dropped.
    Dropped,
    /// The closedown marker arrived; the consumer is done.
    Closed,
}

/// The consumer half of a metric channel: it drains samples into a
/// histogram and renders the report on closedown.
pub struct MetricWriter {
    metric_name: Vec<u8>,
    metric: Hist,
}

/// The largest bucket count among the first `i` points.
pub open spec fn spec_max_count(points: Seq<(u64, u64)>, i: int) -> u64
    decreases i,
{
    if i <= 0 {
        0
    } else {
        let m = spec_max_count(points, i - 1);
        if points[i - 1].1 > m {
            points[i - 1].1
        } else {
            m
        }
    }
}

/// The sum of the bucket counts of the first `i` points.
pub open spec fn spec_cum_count(points: Seq<(u64, u64)>, i: int) -> int
    decreases i,
{
    if i <= 0 {
        0
    } else {
        spec_cum_count(points, i - 1) + points[i - 1].1
    }
}

/// The bar width of one report row: the bucket count scaled to at
/// most fifty marks of the largest bucket.
pub open spec fn spec_bar(c: u64, max: u64) -> int
    recommends
        max > 0,
{
    if c * 50 / (max as int) <= 50 {
        c * 50 / (max as int)
    } else {
        50
    }
}

/// The report heading: `Metric <name>, <count> samples, <max> max`.
pub open spec fn spec_heading(name: Seq<u8>, count: u64, max: u64) -> Seq<u8> {
    crate::textfmt::ascii_bytes("Metric "@) + name + crate::textfmt::ascii_bytes(", "@) + spec_dec(
        count as int,
    ) + crate::textfmt::ascii_bytes(" samples, "@) + spec_dec(max as int)
        + crate::textfmt::ascii_bytes(" max"@)
}

/// One line of the histogram report: the value right-aligned to
/// seven characters, the bar, and the count.
pub open spec fn spec_report_line(value: u64, count: u64, bar: int) -> Seq<u8> {
    let dec = spec_dec(value as int);
    let pad = if dec.len() < 7 {
        Seq::<u8>::new((7 - dec.len()) as nat, |i: int| 0x20u8)
    } else {
        Seq::<u8>::empty()
    };
    pad + dec + seq![0x20u8] + Seq::<u8>::new(bar as nat, |i: int| 0x23u8) + seq![0x20u8]
        + spec_dec(count as int)
}

/// The report rows from point `j` on: one row per bucket, stopping
/// after the row at which the cumulative count reaches the sample
/// count.
pub open spec fn spec_rows(points: Seq<(u64, u64)>, count: u64, max: u64, j: int) -> Seq<Seq<u8>>
    decreases points.len() - j,
{
    if j < 0 || j >= points.len() {
        Seq::empty()
    } else {
        let row = spec_report_line(points[j].0, points[j].1, spec_bar(points[j].1, max));
        if spec_cum_count(points, j + 1) >= count {
            seq![row]
        } else {
            seq![row] + spec_rows(points, count, max, j + 1)
        }
    }
}

/// The whole report: nothing for an empty point list; otherwise the
/// heading, and — when any bucket is occupied — the rows.
pub open spec fn spec_report_lines(name: Seq<u8>, points: Seq<(u64, u64)>, count: u64) -> Seq<
    Seq<u8>,
> {
    if points.len() == 0 {
        Seq::empty()
    } else {
        let max = spec_max_count(points, points.len() as int);
        seq![spec_heading(name, count, max)] + (if max == 0 {
            Seq::<Seq<u8>>::empty()
        } else {
            spec_rows(points, count, max, 0)
        })
    }
}

/// Render one report line.
fn report_line(value: u64, count: u64, bar: u64) -> (r: Vec<u8>)
    ensures
        r@ == spec_report_line(value, count, bar as int),
{
    let mut out: Vec<u8> = Vec::new();
    let dec = u64_to_dec(value);
    let mut pad: usize = 0;
    let ghost padlen: int = if dec@.len() < 7 {
        7 - dec@.len()
    } else {
        0
    };
    while pad < 7 && pad + dec.len() < 7
        invariant
            0 <= pad <= padlen,
            padlen == (if dec@.len() < 7 {
                7 - dec@.len()
            } else {
                0int
            }),
            out@ =~= Seq::<u8>::new(pad as nat, |i: int| 0x20u8),
        decreases 7 - pad,
    {
        out.push(0x20);
        proof {
            assert(out@ =~= Seq::<u8>::new((pad + 1) as nat, |i: int| 0x20u8));
        }
        pad = pad + 1;
    }
    out.extend_from_slice(dec.as_slice());
    out.push(0x20);
    let mut b: u64 = 0;
    let ghost mid: Seq<u8> = out@;
    while b < bar
        invariant
            0 <= b <= bar,
            out@ =~= mid + Seq::<u8>::new(b as nat, |i: int| 0x23u8),
        decreases bar - b,
    {
        out.push(0x23);
        proof {
            assert(out@ =~= mid + Seq::<u8>::new((b + 1) as nat, |i: int| 0x23u8));
        }
        b = b + 1;
    }
    out.push(0x20);
    let mut cnt = u64_to_dec(count);
    out.append(&mut cnt);
    proof {
        assert(out@ =~= spec_report_line(value, count, bar as int));
    }
    out
}

/// Build the report lines from the bucket points and the total
/// sample count, exactly as [`spec_report_lines`] lays them out.
#[verifier::rlimit(100)]
#[verifier::spinoff_prover]
pub fn report_lines(name: &Vec<u8>, points: &Vec<(u64, u64)>, count: u64) -> (r: Vec<Vec<u8>>)
    ensures
        r@.map_values(|v: Vec<u8>| v@) == spec_report_lines(name@, points@, count),
{
    let mut out: Vec<Vec<u8>> = Vec::new();
    let n = points.len();
    let mut max: u64 = 0;
    let mut i: usize = 0;
    while i < n
        invariant
            0 <= i <= n,
            n == points@.len(),
            max == spec_max_count(points@, i as int),
        decreases n - i,
    {
        if points[i].1 > max {
            max = points[i].1;
        }
        i = i + 1;
    }
    if n == 0 {
        proof {
            assert(out@.map_values(|v: Vec<u8>| v@) =~= spec_report_lines(name@, points@, count));
        }
        return out;
    }
    proof {
        reveal_strlit("Metric ");
        reveal_strlit(", ");
        reveal_strlit(" samples, ");
        reveal_strlit(" max");
    }
    let mut heading: Vec<u8> = Vec::new();
    let mut word = crate::textfmt::str_bytes("Metric ");
    heading.append(&mut word);
    heading.extend_from_slice(name.as_slice());
    let mut sep = crate::textfmt::str_bytes(", ");
    heading.append(&mut sep);
    let mut cnt = u64_to_dec(count);
    heading.append(&mut cnt);
    let mut word2 = crate::textfmt::str_bytes(" samples, ");
    heading.append(&mut word2);
    let mut mx = u64_to_dec(max);
    heading.append(&mut mx);
    let mut word3 = crate::textfmt::str_bytes(" max");
    heading.append(&mut word3);
    proof {
        assert(heading@ =~= spec_heading(name@, count, max));
    }
    out.push(heading);
    let ghost base: Seq<Seq<u8>> = seq![spec_heading(name@, count, max)];
    proof {
        assert(out@.map_values(|v: Vec<u8>| v@) =~= base);
    }
    if max == 0 {
        proof {
            assert(out@.map_values(|v: Vec<u8>| v@) =~= spec_report_lines(name@, points@, count));
        }
        return out;
    }
    let mut val: u64 = 0;
    let mut j: usize = 0;
    while j < n
        invariant_except_break
            0 <= j <= n,
            n == points@.len(),
            max == spec_max_count(points@, n as int),
            max > 0,
            j > 0 ==> spec_cum_count(points@, j as int) < count,
            val as int == (if spec_cum_count(points@, j as int) <= u64::MAX {
                spec_cum_count(points@, j as int)
            } else {
                u64::MAX as int
            }),
            out@.map_values(|v: Vec<u8>| v@) + spec_rows(points@, count, max, j as int) =~= base
                + spec_rows(points@, count, max, 0),
        ensures
            out@.map_values(|v: Vec<u8>| v@) =~= base + spec_rows(points@, count, max, 0),
        decreases n - j,
    {
        let ghost before: Seq<Seq<u8>> = out@.map_values(|v: Vec<u8>| v@);
        let (value, c) = points[j];
        let wide: u128 = (c as u128) * 50 / (max as u128);
        let bar = if wide <= 50 {
            wide as u64
        } else {
            50
        };
        proof {
            assert(bar as int == spec_bar(c, max));
        }
        out.push(report_line(value, c, bar));
        proof {
            assert(out@.map_values(|v: Vec<u8>| v@) =~= before.push(
                spec_report_line(value, c, spec_bar(c, max)),
            ));
        }
        let ghost cum_next: int = spec_cum_count(points@, j + 1);
        proof {
            assert(cum_next == spec_cum_count(points@, j as int) + c);
        }
        val = if val <= u64::MAX - c {
            val + c
        } else {
            u64::MAX
        };
        if val >= count {
            proof {
                assert(cum_next >= count);
                assert(spec_rows(points@, count, max, j as int) =~= seq![
                    spec_report_line(value, c, spec_bar(c, max)),
                ]);
                assert(out@.map_values(|v: Vec<u8>| v@) =~= base + spec_rows(
                    points@,
                    count,
                    max,
                    0,
                ));
            }
            break ;
        }
        proof {
            assert(cum_next < count);
            assert(val as int == cum_next);
            assert(spec_rows(points@, count, max, j as int) =~= seq![
                spec_report_line(value, c, spec_bar(c, max)),
            ] + spec_rows(points@, count, max, j + 1));
            assert(out@.map_values(|v: Vec<u8>| v@) + spec_rows(points@, count, max, j + 1)
                =~= base + spec_rows(points@, count, max, 0));
        }
        j = j + 1;
    }
    proof {
        assert(out@.map_values(|v: Vec<u8>| v@) =~= spec_report_lines(name@, points@, count));
    }
    out
}

impl MetricWriter {
    /// The samples recorded so far.
    pub closed spec fn spec_values(self) -> Multiset<u64> {
        histogram_values(self.metric)
    }

    /// The highest trackable value.
    pub closed spec fn spec_bound(self) -> u64 {
        histogram_bound(self.metric)
    }

    /// The bucket points the report is built from.
    pub closed spec fn spec_points(self) -> Seq<(u64, u64)> {
        histogram_points(self.metric)
    }

    /// The metric's name.
    pub closed spec fn spec_name(self) -> Seq<u8> {
        self.metric_name@
    }

    /// A consumer over a fresh histogram with the given maximum
    /// trackable value; any maximum of at least 2 is accepted.
    pub fn new(metric_name: Vec<u8>, max_trackable: u64) -> (r: Result<MetricWriter, ()>)
        ensures
            max_trackable >= 2 ==> r is Ok,
            r matches Ok(w) ==> w.spec_values() == Multiset::<u64>::empty() && w.spec_name()
                == metric_name@ && w.spec_bound() == max_trackable,
    {
        match hist_new(max_trackable, 1) {
            Ok(h) => Ok(MetricWriter { metric_name, metric: h }),
            Err(_) => Err(()),
        }
    }

    /// Consume one channel message.  Every sample up to the
    /// trackable bound is recorded; one past the bound is dropped,
    /// and the caller is told so it can report the loss.  The
    /// closedown marker ends the consumer.
    pub fn consume_event(&mut self, ev: MetricEvent) -> (r: MetricOutcome)
        ensures
            final(self).spec_name() == old(self).spec_name(),
            final(self).spec_bound() == old(self).spec_bound(),
            ev == MetricEvent::Closedown ==> r == MetricOutcome::Closed && final(self).spec_values()
                == old(self).spec_values() && final(self).spec_points() == old(self).spec_points(),
            ev matches MetricEvent::Metric(v) ==> r != MetricOutcome::Closed
                && (v <= old(self).spec_bound() ==> r == MetricOutcome::Recorded)
                && (r == MetricOutcome::Recorded ==> final(self).spec_values() == old(
                self,
            ).spec_values().insert(v)),
            r == MetricOutcome::Dropped ==> final(self).spec_values() == old(self).spec_values()
                && final(self).spec_points() == old(self).spec_points(),
    {
        match ev {
            MetricEvent::Closedown => MetricOutcome::Closed,
            MetricEvent::Metric(v) => {
                match hist_record(&mut self.metric, v) {
                    Ok(_) => MetricOutcome::Recorded,
                    Err(_) => MetricOutcome::Dropped,
                }
            },
        }
    }

    /// The report of everything recorded, exactly as
    /// [`spec_report_lines`] lays it out over the histogram's bucket
    /// points and sample count.
    pub fn dump(&self) -> (r: Vec<Vec<u8>>)
        ensures
            r@.map_values(|v: Vec<u8>| v@) == spec_report_lines(
                self.spec_name(),
                self.spec_points(),
                self.spec_values().len() as u64,
            ),
    {
        let points = hist_points(&self.metric);
        let count = hist_len(&self.metric);
        report_lines(&self.metric_name, &points, count)
    }
}

} // verus!
