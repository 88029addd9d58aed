//! The rolling view of the segment timeline.
//!
//! The timeline is an ordered list of contiguous media-sequence-number
//! spans, split wherever a segment carries the discontinuity flag.
//! Within each span `first_msn <= last_msn`, and spans are in strictly
//! ascending order.

use vstd::prelude::*;
use crate::playlist::MediaSegment;

verus! {

/// One contiguous run of media sequence numbers, separated from its
/// neighbours by discontinuities.
#[derive(Clone, Copy, Debug, PartialEq, Eq, Structural)]
pub struct Sequence {
    pub first_msn: usize,
    pub last_msn: usize,
}

impl Sequence {
    /// The span is non-empty: its first MSN does not exceed its last.
    pub open spec fn wf(self) -> bool {
        self.first_msn <= self.last_msn
    }

    /// Clamp the span's start so that nothing older than `msn` remains.
    pub fn remove_older_than(&mut self, msn: usize)
        requires
            old(self).wf(),
            msn <= old(self).last_msn,
        ensures
            final(self).wf(),
            final(self).last_msn == old(self).last_msn,
            final(self).first_msn == if old(self).first_msn < msn {
                msn
            } else {
                old(self).first_msn
            },
            final(self).first_msn >= msn,
    {
        if self.first_msn < msn {
            self.first_msn = msn;
        }
        self.assert_invariants();
    }

    /// The span invariant, checked as a (statically discharged) assertion.
    pub fn assert_invariants(&self)
        requires
            self.wf(),
    {
        assert(self.first_msn <= self.last_msn);
    }
}

/// Append one segment mark to a timeline view: a discontinuity (or an
/// empty timeline) starts a new span, anything else extends the last.
pub open spec fn push_mark(tl: Seq<Sequence>, msn: usize, disc: bool) -> Seq<Sequence> {
    if tl.len() == 0 || disc {
        tl.push(Sequence { first_msn: msn, last_msn: msn })
    } else {
        tl.update(tl.len() - 1, Sequence { first_msn: tl.last().first_msn, last_msn: msn })
    }
}

/// Fold [`push_mark`] over the segments of `segs` from index `from` on.
pub open spec fn push_marks(tl: Seq<Sequence>, segs: Seq<MediaSegment>, from: int) -> Seq<Sequence>
    decreases segs.len() - from,
{
    if from < 0 || from >= segs.len() {
        tl
    } else {
        push_marks(push_mark(tl, segs[from].msn, segs[from].has_discontinuity), segs, from + 1)
    }
}

/// Drop every span that ends before `msn` and clamp the first survivor.
pub open spec fn spec_remove_older(tl: Seq<Sequence>, msn: usize) -> Seq<Sequence>
    decreases tl.len(),
{
    if tl.len() == 0 {
        tl
    } else if tl[0].last_msn >= msn {
        if tl[0].first_msn < msn {
            tl.update(0, Sequence { first_msn: msn, last_msn: tl[0].last_msn })
        } else {
            tl
        }
    } else {
        spec_remove_older(tl.drop_first(), msn)
    }
}

/// The rolling set of media sequence numbers currently covered by the
/// playlist, split by discontinuity.
#[derive(Clone, Debug)]
pub struct Timeline {
    sequences: Vec<Sequence>,
}

impl View for Timeline {
    type V = Seq<Sequence>;

    closed spec fn view(&self) -> Seq<Sequence> {
        self.sequences@
    }
}

/// Every span is non-empty and spans are strictly ascending.
pub open spec fn seq_wf(tl: Seq<Sequence>) -> bool {
    &&& forall|i: int| 0 <= i < tl.len() ==> (#[trigger] tl[i]).wf()
    &&& forall|i: int| 0 < i < tl.len() ==> (#[trigger] tl[i]).first_msn > tl[i - 1].last_msn
}

impl Timeline {
    /// Every span is non-empty and spans are strictly ascending.
    pub open spec fn wf(self) -> bool {
        seq_wf(self@)
    }

    /// The last covered media sequence number, if any span exists.
    pub open spec fn spec_end_msn(self) -> Option<usize> {
        if self@.len() == 0 {
            None
        } else {
            Some(self@.last().last_msn)
        }
    }

    pub fn new() -> (t: Timeline)
        ensures
            t@ =~= Seq::<Sequence>::empty(),
            t.wf(),
    {
        Timeline { sequences: Vec::new() }
    }

    /// The spans, oldest first, for inspection.
    pub fn sequences(&self) -> (r: &Vec<Sequence>)
        ensures
            r@ == self@,
    {
        &self.sequences
    }

    /// The last covered media sequence number, if any span exists.
    pub fn end_msn(&self) -> (r: Option<usize>)
        ensures
            r == self.spec_end_msn(),
    {
        if self.sequences.len() == 0 {
            None
        } else {
            Some(self.sequences[self.sequences.len() - 1].last_msn)
        }
    }

    /// Remove timeline content older than the given media sequence
    /// number.  Afterwards every MSN still covered is at least `msn`.
    #[verifier::rlimit(30)]
    pub fn remove_older_than(&mut self, msn: usize)
        requires
            old(self).wf(),
        ensures
            final(self).wf(),
            final(self)@ == spec_remove_older(old(self)@, msn),
            forall|i: int|
                0 <= i < final(self)@.len() ==> (#[trigger] final(self)@[i]).first_msn >= msn,
    {
        let ghost orig: Seq<Sequence> = self.sequences@;
        let mut k: usize = 0;
        while k < self.sequences.len() && self.sequences[k].last_msn < msn
            invariant
                self@ == orig,
                self.wf(),
                0 <= k <= orig.len(),
                forall|i: int| 0 <= i < k ==> (#[trigger] orig[i]).last_msn < msn,
            decreases orig.len() - k,
        {
            k = k + 1;
        }
        let mut kept: Vec<Sequence> = Vec::new();
        let mut i: usize = k;
        while i < self.sequences.len()
            invariant
                self@ == orig,
                self.wf(),
                0 <= k <= i <= orig.len(),
                kept@ == orig.subrange(k as int, i as int),
            decreases orig.len() - i,
        {
            let ghost kept_before: Seq<Sequence> = kept@;
            kept.push(self.sequences[i]);
            proof {
                assert(kept@ =~= orig.subrange(k as int, i + 1));
            }
            i = i + 1;
        }
        if kept.len() > 0 {
            let s0 = kept[0];
            if s0.first_msn < msn {
                kept[0] = Sequence { first_msn: msn, last_msn: s0.last_msn };
            }
        }
        self.sequences = kept;
        proof {
            lemma_remove_older_skips(orig, msn, k as int);
            let tail = orig.skip(k as int);
            if k < orig.len() {
                assert(tail[0] == orig[k as int]);
                assert(orig.subrange(k as int, orig.len() as int) =~= tail);
                if tail[0].first_msn < msn {
                    assert(self@ =~= tail.update(
                        0,
                        Sequence { first_msn: msn, last_msn: tail[0].last_msn },
                    ));
                } else {
                    assert(self@ =~= tail);
                }
            } else {
                assert(self@ =~= tail);
            }
            assert forall|i: int| 0 <= i < self@.len() implies (#[trigger] self@[i]).first_msn
                >= msn by {
                if i > 0 {
                    assert(self@[0].last_msn >= msn);
                    lemma_spans_ascending(self@, 0, i);
                }
            }
        }
    }

    /// Append the segments of `segs` from index `from` on, starting a
    /// new span at each discontinuity and extending the last span
    /// otherwise.  The segments must continue the timeline: MSNs are
    /// consecutive, and the first appended MSN follows the current end.
    ///
    /// The contiguity precondition is what keeps the span invariant:
    /// appending a segment whose MSN does not follow the end would
    /// leave a span whose start exceeds its finish, a state nothing
    /// else here can repair.  A caller holding a snapshot whose
    /// numbering no longer continues the timeline rebuilds the
    /// timeline from that snapshot instead (see the checker's
    /// timeline update).
    #[verifier::rlimit(30)]
    pub fn append_new_segments(&mut self, segs: &Vec<MediaSegment>, from: usize)
        requires
            old(self).wf(),
            forall|i: int|
                from < i < segs@.len() ==> (#[trigger] segs@[i]).msn == segs@[i - 1].msn + 1,
            from < segs@.len() && old(self)@.len() > 0 ==> segs@[from as int].msn
                == old(self)@.last().last_msn + 1,
        ensures
            final(self).wf(),
            final(self)@ == push_marks(old(self)@, segs@, from as int),
            from < segs@.len() ==> final(self).spec_end_msn() == Some(segs@.last().msn),
            from >= segs@.len() ==> final(self)@ == old(self)@,
    {
        let mut i: usize = from;
        while i < segs.len()
            invariant
                self.wf(),
                from <= i,
                i <= segs@.len() || i == from,
                forall|j: int|
                    from < j < segs@.len() ==> (#[trigger] segs@[j]).msn == segs@[j - 1].msn + 1,
                i < segs@.len() && self@.len() > 0 ==> segs@[i as int].msn
                    == self@.last().last_msn + 1,
                push_marks(old(self)@, segs@, from as int) == push_marks(self@, segs@, i as int),
                from < i ==> self@.len() > 0 && self@.last().last_msn == segs@[i - 1].msn,
            decreases segs@.len() - i,
        {
            let ghost before: Seq<Sequence> = self@;
            let s = &segs[i];
            if self.sequences.len() == 0 || s.has_discontinuity {
                self.sequences.push(Sequence { first_msn: s.msn, last_msn: s.msn });
            } else {
                let li = self.sequences.len() - 1;
                let first = self.sequences[li].first_msn;
                self.sequences[li] = Sequence { first_msn: first, last_msn: s.msn };
            }
            proof {
                assert(self@ =~= push_mark(before, segs@[i as int].msn, segs@[i as int].has_discontinuity));
                assert forall|j: int| 0 <= j < self@.len() implies (#[trigger] self@[j]).wf() by {
                    assert(before.len() > 0 ==> before.last().wf());
                }
                assert forall|j: int| 0 < j < self@.len() implies (#[trigger] self@[j]).first_msn
                    > self@[j - 1].last_msn by {
                    assert(0 < j < before.len() ==> before[j].first_msn > before[j - 1].last_msn);
                }
            }
            i = i + 1;
        }
    }
}

impl Default for Timeline {
    /// An empty timeline.
    fn default() -> (t: Timeline)
        ensures
            t@ =~= Seq::<Sequence>::empty(),
            t.wf(),
    {
        Timeline::new()
    }
}

/// Spans that end before `msn` do not contribute to
/// [`spec_remove_older`]: the fold may start at the first survivor.
pub proof fn lemma_remove_older_skips(tl: Seq<Sequence>, msn: usize, k: int)
    requires
        0 <= k <= tl.len(),
        forall|i: int| 0 <= i < k ==> (#[trigger] tl[i]).last_msn < msn,
    ensures
        spec_remove_older(tl, msn) == spec_remove_older(tl.skip(k), msn),
    decreases k,
{
    if k > 0 {
        assert(tl.drop_first() =~= tl.skip(1));
        assert(tl.skip(1).skip(k - 1) =~= tl.skip(k));
        lemma_remove_older_skips(tl.skip(1), msn, k - 1);
    } else {
        assert(tl.skip(0) =~= tl);
    }
}

/// In a well-formed timeline the spans ascend: any later span starts
/// after any earlier span ends.
pub proof fn lemma_spans_ascending(tl: Seq<Sequence>, i: int, j: int)
    requires
        forall|k: int| 0 <= k < tl.len() ==> (#[trigger] tl[k]).wf(),
        forall|k: int| 0 < k < tl.len() ==> (#[trigger] tl[k]).first_msn > tl[k - 1].last_msn,
        0 <= i < j < tl.len(),
    ensures
        tl[j].first_msn > tl[i].last_msn,
    decreases j - i,
{
    if j == i + 1 {
    } else {
        lemma_spans_ascending(tl, i, j - 1);
        assert(tl[j].first_msn > tl[j - 1].last_msn);
        assert(tl[j - 1].last_msn >= tl[j - 1].first_msn);
    }
}

} // verus!
