use vstd::prelude::*;

use crate::time_key::TimeKey;

verus! {

/// One conic arc of a patched trajectory: the orbit flown, the index of the
/// body it is flown around, and the span of time in which it holds.
///
/// The orbit itself is an opaque payload here; this module reads only the
/// primary and the two bounding times.
pub struct OrbitSegment<O> {
    pub orbit: O,
    pub primary_index: usize,
    pub start_time: TimeKey,
    pub end_time: TimeKey,
}

impl<O> OrbitSegment<O> {
    /// `start_time <= time <= end_time`.
    pub open spec fn covers(self, time: TimeKey) -> bool {
        self.start_time.at_or_before(time) && time.at_or_before(self.end_time)
    }

    /// Whether `time` lies within the segment, both ends included.
    pub fn contains_time(&self, time: TimeKey) -> (r: bool)
        ensures
            r == self.covers(time),
            r == (self.start_time.at_or_before(time) && time.at_or_before(self.end_time)),
    {
        self.start_time.is_at_or_before(&time) && time.is_at_or_before(&self.end_time)
    }
}

/// A segment holds a time exactly when the time is at or after the segment's
/// start and at or before its end.
pub proof fn lemma_covers_is_time_order<O>(segment: OrbitSegment<O>, time: TimeKey)
    ensures
        segment.covers(time) <==> (segment.start_time.at_or_before(time) && time.at_or_before(
            segment.end_time,
        )),
{
}

/// A trajectory made of conic segments, each around one primary body.
pub struct PatchedTrajectory<O> {
    pub segments: Vec<OrbitSegment<O>>,
}

/// Each segment starts at the time the one before it ends.
pub open spec fn segments_contiguous<O>(segments: Seq<OrbitSegment<O>>) -> bool {
    forall|k: int|
        0 <= k < segments.len() - 1 ==> #[trigger] segments[k + 1].start_time == segments[k].end_time
}

/// Index of the first segment of `segments` that covers `time`, if any.
pub open spec fn first_covering<O>(segments: Seq<OrbitSegment<O>>, time: TimeKey) -> Option<int> {
    if exists|i: int| 0 <= i < segments.len() && #[trigger] segments[i].covers(time) {
        Some(
            choose|i: int|
                0 <= i < segments.len() && #[trigger] segments[i].covers(time) && forall|j: int|
                    0 <= j < i ==> !segments[j].covers(time),
        )
    } else {
        None
    }
}

impl<O> PatchedTrajectory<O> {
    /// The segments, as a sequence.
    pub open spec fn segment_seq(&self) -> Seq<OrbitSegment<O>> {
        self.segments@
    }

    /// Each segment starts at the time the one before it ends.
    pub open spec fn is_contiguous(&self) -> bool {
        segments_contiguous(self.segments@)
    }

    /// An empty trajectory.
    pub fn new() -> (t: Self)
        ensures
            t.segments@.len() == 0,
    {
        PatchedTrajectory { segments: Vec::new() }
    }

    /// Position of the segment active at `time`: the first one whose span
    /// holds it.
    pub fn segment_index_at(&self, time: TimeKey) -> (r: Option<usize>)
        ensures
            match r {
                Some(i) => {
                    &&& i < self.segments@.len()
                    &&& self.segments@[i as int].covers(time)
                    &&& forall|j: int| 0 <= j < i ==> !self.segments@[j].covers(time)
                },
                None => forall|j: int|
                    0 <= j < self.segments@.len() ==> !self.segments@[j].covers(time),
            },
            match r {
                Some(i) => {
                    &&& self.segments@[i as int].start_time.at_or_before(time)
                    &&& time.at_or_before(self.segments@[i as int].end_time)
                    &&& forall|j: int|
                        0 <= j < i ==> !((#[trigger] self.segments@[j]).start_time.at_or_before(time)
                            && time.at_or_before(self.segments@[j].end_time))
                },
                None => forall|j: int|
                    0 <= j < self.segments@.len() ==> !((#[trigger] self.segments@[j]).start_time.at_or_before(
                        time,
                    ) && time.at_or_before(self.segments@[j].end_time)),
            },
    {
        let n = self.segments.len();
        let mut i: usize = 0;
        while i < n
            invariant
                n == self.segments@.len(),
                i <= n,
                forall|j: int| 0 <= j < i ==> !self.segments@[j].covers(time),
            decreases n - i,
        {
            if self.segments[i].contains_time(time) {
                return Some(i);
            }
            i = i + 1;
        }
        None
    }

    /// The segment active at `time`, if any: the first one whose span holds it.
    pub fn segment_at(&self, time: TimeKey) -> (r: Option<&OrbitSegment<O>>)
        ensures
            match first_covering(self.segments@, time) {
                Some(i) => r == Some(&self.segments@[i]),
                None => r is None,
            },
    {
        match self.segment_index_at(time) {
            Some(i) => {
                proof {
                    // The first covering segment is unique, so the chosen one is `i`.
                    assert(self.segments@[i as int].covers(time));
                }
                Some(&self.segments[i])
            },
            None => None,
        }
    }

    /// Whether the trajectory consists of exactly one segment (no transition
    /// into another sphere of influence).
    pub fn is_single_segment(&self) -> (r: bool)
        ensures
            r == (self.segments@.len() == 1),
    {
        self.segments.len() == 1
    }
}

impl<O> Default for PatchedTrajectory<O> {
    fn default() -> (t: Self)
        ensures
            t.segments@.len() == 0,
    {
        PatchedTrajectory::new()
    }
}

} // verus!
