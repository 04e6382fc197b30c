use vstd::prelude::*;

use crate::patching::{
    child_bodies, earliest_event, earliest_transition, escape_target, is_child,
    lemma_earliest_transition_was_found, Transition,
};
use crate::time_key::TimeKey;
use crate::trajectory::{segments_contiguous, OrbitSegment, PatchedTrajectory};

verus! {

/// What the planner decided after a conic was recorded.
#[derive(Clone, Copy, Debug, PartialEq, Eq, Structural)]
pub enum PatchStep {
    /// The trajectory goes on with a new conic from this transition: around
    /// `next_primary`, from `time`.
    Continue(Transition),
    /// The trajectory is complete.
    Stop,
}

/// The decisions of patched-conic trajectory building: which bodies to search
/// for sphere-of-influence crossings, which crossing ends the current conic,
/// and whether another conic follows.
///
/// The orbital mechanics (conic fitting, propagation, crossing searches) are
/// done by the caller between steps; the planner keeps the trajectory built so
/// far and the state that links one conic to the next.
pub struct PatchPlanner<O> {
    body_parents: Vec<Option<usize>>,
    trajectory: PatchedTrajectory<O>,
    start_time: TimeKey,
    start_primary: usize,
    max_patches: usize,
    current_primary: usize,
    current_time: TimeKey,
    patches_left: usize,
    finished: bool,
}

impl<O> PatchPlanner<O> {
    /// Parent index of each body.
    pub closed spec fn parents(&self) -> Seq<Option<usize>> {
        self.body_parents@
    }

    /// Segments built so far.
    pub closed spec fn segments(&self) -> Seq<OrbitSegment<O>> {
        self.trajectory.segments@
    }

    /// Time at which the trajectory starts.
    pub closed spec fn start(&self) -> TimeKey {
        self.start_time
    }

    /// Body around which the trajectory starts.
    pub closed spec fn start_body(&self) -> usize {
        self.start_primary
    }

    /// Number of transitions allowed after the first conic.
    pub closed spec fn patch_limit(&self) -> nat {
        self.max_patches as nat
    }

    /// Body around which the next conic is flown.
    pub closed spec fn primary(&self) -> usize {
        self.current_primary
    }

    /// Time at which the next conic starts.
    pub closed spec fn time(&self) -> TimeKey {
        self.current_time
    }

    /// Transitions still allowed after the next conic.
    pub closed spec fn remaining(&self) -> nat {
        self.patches_left as nat
    }

    /// Whether the trajectory is complete.
    pub closed spec fn done(&self) -> bool {
        self.finished
    }

    /// The planner's invariant.
    pub closed spec fn wf(&self) -> bool {
        let segs = self.trajectory.segments@;
        &&& segments_contiguous(segs)
        &&& forall|k: int|
            0 <= k < segs.len() ==> (#[trigger] segs[k]).primary_index < self.body_parents@.len()
        &&& forall|k: int| 0 <= k < segs.len() - 1 ==> !(#[trigger] segs[k]).end_time.infinite()
        &&& segs.len() > 0 ==> segs[0].start_time == self.start_time
        &&& segs.len() > 0 ==> segs[0].primary_index == self.start_primary
        &&& forall|k: int|
            0 <= k < segs.len() - 1 ==> primary_step(
                self.body_parents@,
                (#[trigger] segs[k]).primary_index,
                segs[k + 1].primary_index,
            )
        &&& segs.len() <= self.max_patches + 1
        &&& !self.finished ==> {
            &&& segs.len() + self.patches_left == self.max_patches
            &&& segs.len() == 0 ==> self.current_time == self.start_time
            &&& segs.len() == 0 ==> self.current_primary == self.start_primary
            &&& segs.len() > 0 ==> primary_step(
                self.body_parents@,
                segs.last().primary_index,
                self.current_primary,
            )
            &&& segs.len() > 0 ==> segs.last().end_time == self.current_time
            &&& segs.len() > 0 ==> !self.current_time.infinite()
        }
    }

    /// A planner for a trajectory that starts at `start_time` around body
    /// `start_primary_index` and may pass through at most `max_patches`
    /// transitions. `body_parents[b]` is the parent index of body `b`.
    pub fn new(
        body_parents: Vec<Option<usize>>,
        start_primary_index: usize,
        start_time: TimeKey,
        max_patches: usize,
    ) -> (p: Self)
        ensures
            p.wf(),
            p.parents() == body_parents@,
            p.segments().len() == 0,
            p.start() == start_time,
            p.start_body() == start_primary_index,
            p.patch_limit() == max_patches,
            p.primary() == start_primary_index,
            p.time() == start_time,
            p.remaining() == max_patches,
            !p.done(),
    {
        PatchPlanner {
            body_parents,
            trajectory: PatchedTrajectory::new(),
            start_time,
            start_primary: start_primary_index,
            max_patches,
            current_primary: start_primary_index,
            current_time: start_time,
            patches_left: max_patches,
            finished: false,
        }
    }

    /// Body around which the next conic is flown.
    pub fn current_primary(&self) -> (r: usize)
        ensures
            r == self.primary(),
    {
        self.current_primary
    }

    /// Time at which the next conic starts.
    pub fn current_time(&self) -> (r: TimeKey)
        ensures
            r == self.time(),
    {
        self.current_time
    }

    /// Whether the trajectory is complete.
    pub fn is_finished(&self) -> (r: bool)
        ensures
            r == self.done(),
    {
        self.finished
    }

    /// Number of bodies in the hierarchy.
    pub fn body_count(&self) -> (r: usize)
        ensures
            r == self.parents().len(),
    {
        self.body_parents.len()
    }

    /// The trajectory built so far.
    pub fn trajectory(&self) -> (r: &PatchedTrajectory<O>)
        ensures
            r.segments@ == self.segments(),
    {
        &self.trajectory
    }

    /// The trajectory built, taking it out of the planner.
    pub fn into_trajectory(self) -> (r: PatchedTrajectory<O>)
        ensures
            r.segments@ == self.segments(),
    {
        self.trajectory
    }

    /// The bodies whose spheres of influence the next conic may enter: the
    /// children of the current primary, in increasing index order.
    pub fn bodies_to_search(&self) -> (children: Vec<usize>)
        requires
            self.wf(),
        ensures
            forall|k: int|
                0 <= k < children@.len() ==> is_child(
                    self.parents(),
                    #[trigger] children@[k] as int,
                    self.primary(),
                ),
            forall|b: int| is_child(self.parents(), b, self.primary()) ==> children@.contains(b as usize),
            forall|k: int, l: int| 0 <= k < l < children@.len() ==> children@[k] < children@[l],
            forall|k: int|
                0 <= k < children@.len() ==> {
                    &&& (#[trigger] children@[k]) < self.parents().len()
                    &&& self.parents()[children@[k] as int] == Some(self.primary())
                    &&& children@[k] != self.primary()
                },
            forall|b: int|
                0 <= b < self.parents().len() && #[trigger] self.parents()[b] == Some(self.primary())
                    && b != self.primary() ==> children@.contains(b as usize),
    {
        child_bodies(&self.body_parents, self.current_primary)
    }

    /// Records the conic `orbit` flown around the current primary from the
    /// current time, and decides what follows it.
    ///
    /// `start_state_finite` says whether the craft's state at the start of the
    /// conic is finite; when it is not, nothing is recorded and the trajectory
    /// is complete. `outbound_transition` is the time the craft leaves the
    /// primary's sphere of influence, when that was searched and found;
    /// `child_transitions[b]` the time it enters the sphere of child `b`, when
    /// found. The conic ends at the earliest transition, or never when there
    /// is none; the trajectory is complete when it never ends or when no
    /// transition is left.
    pub fn record_patch(
        &mut self,
        orbit: O,
        start_state_finite: bool,
        outbound_transition: Option<TimeKey>,
        child_transitions: &Vec<Option<TimeKey>>,
    ) -> (step: PatchStep)
        requires
            old(self).wf(),
            !old(self).done(),
            old(self).primary() < old(self).parents().len(),
            child_transitions@.len() == old(self).parents().len(),
        ensures
            final(self).wf(),
            final(self).parents() == old(self).parents(),
            final(self).start() == old(self).start(),
            final(self).start_body() == old(self).start_body(),
            final(self).segments().len() == 0 <==> (old(self).segments().len() == 0
                && !start_state_finite),
            final(self).patch_limit() == old(self).patch_limit(),
            !start_state_finite ==> {
                &&& step == PatchStep::Stop
                &&& final(self).done()
                &&& final(self).segments() == old(self).segments()
            },
            start_state_finite ==> {
                let event = earliest_transition(
                    old(self).parents(),
                    old(self).primary(),
                    outbound_transition,
                    child_transitions@,
                );
                let end = match event {
                    Some(tr) => tr.time,
                    None => TimeKey::PlusInfinity,
                };
                &&& final(self).segments() == old(self).segments().push(
                    OrbitSegment {
                        orbit: orbit,
                        primary_index: old(self).primary(),
                        start_time: old(self).time(),
                        end_time: end,
                    },
                )
                &&& if end.infinite() || old(self).remaining() == 0 {
                    &&& step == PatchStep::Stop
                    &&& final(self).done()
                } else {
                    &&& step == PatchStep::Continue(event.unwrap())
                    &&& !final(self).done()
                    &&& final(self).primary() == event.unwrap().next_primary
                    &&& final(self).time() == end
                    &&& final(self).remaining() == old(self).remaining() - 1
                }
            },
    {
        if !start_state_finite {
            self.finished = true;
            return PatchStep::Stop;
        }
        assert(self.body_parents@.len() == self.body_parents.len());
        let event = earliest_event(
            &self.body_parents,
            self.current_primary,
            outbound_transition,
            child_transitions,
        );
        let end = match event {
            Some(tr) => tr.time,
            None => TimeKey::PlusInfinity,
        };
        let ghost before = self.trajectory.segments@;
        self.trajectory.segments.push(
            OrbitSegment {
                orbit,
                primary_index: self.current_primary,
                start_time: self.current_time,
                end_time: end,
            },
        );
        proof {
            let segs = self.trajectory.segments@;
            assert(segs.len() == before.len() + 1);
            assert forall|k: int| 0 <= k < segs.len() - 1 implies #[trigger] segs[k + 1].start_time
                == segs[k].end_time by {
                if k + 1 < before.len() {
                    assert(segs[k + 1] == before[k + 1]);
                    assert(segs[k] == before[k]);
                }
            }
            assert forall|k: int| 0 <= k < segs.len() - 1 implies !(#[trigger] segs[k]).end_time.infinite() by {
                if k < before.len() - 1 {
                    assert(segs[k] == before[k]);
                }
            }
            assert forall|k: int| 0 <= k < segs.len() - 1 implies primary_step(
                self.body_parents@,
                (#[trigger] segs[k]).primary_index,
                segs[k + 1].primary_index,
            ) by {
                if k + 1 < before.len() {
                    assert(segs[k] == before[k]);
                    assert(segs[k + 1] == before[k + 1]);
                } else {
                    assert(segs[k] == before.last());
                }
            }
            assert forall|k: int| 0 <= k < segs.len() implies (#[trigger] segs[k]).primary_index < self.body_parents@.len() by {
                if k < before.len() {
                    assert(segs[k] == before[k]);
                }
            }
        }
        if end.is_infinite() || self.patches_left == 0 {
            self.finished = true;
            return PatchStep::Stop;
        }
        let tr = event.unwrap();
        proof {
            lemma_earliest_transition_was_found(
                self.body_parents@,
                self.current_primary,
                outbound_transition,
                child_transitions@,
            );
        }
        self.patches_left = self.patches_left - 1;
        self.current_primary = tr.next_primary;
        self.current_time = end;
        PatchStep::Continue(tr)
    }
}

/// One step of the chain of primaries: from `from`, a conic can only be
/// followed by one around the body `from` escapes to (its parent, or itself
/// when it has none) or around one of its children.
pub open spec fn primary_step(parents: Seq<Option<usize>>, from: usize, to: usize) -> bool {
    to == escape_target(parents, from) || is_child(parents, to as int, from)
}

/// The planned trajectory starts around the start body, and each conic after
/// the first is flown around the body the previous primary escapes to, or
/// around a child of the previous primary; the next conic to be planned
/// continues the chain.
pub proof fn lemma_planned_primary_chain<O>(p: &PatchPlanner<O>)
    requires
        p.wf(),
    ensures
        p.segments().len() > 0 ==> p.segments()[0].primary_index == p.start_body(),
        forall|k: int|
            0 <= k < p.segments().len() - 1 ==> primary_step(
                p.parents(),
                (#[trigger] p.segments()[k]).primary_index,
                p.segments()[k + 1].primary_index,
            ),
        !p.done() && p.segments().len() == 0 ==> p.primary() == p.start_body(),
        !p.done() && p.segments().len() > 0 ==> primary_step(
            p.parents(),
            p.segments().last().primary_index,
            p.primary(),
        ),
{
}

/// The planned trajectory is contiguous and starts at the planner's start
/// time: each conic begins where the one before it ends.
pub proof fn lemma_planned_trajectory_is_contiguous<O>(p: &PatchPlanner<O>)
    requires
        p.wf(),
    ensures
        segments_contiguous(p.segments()),
        p.segments().len() > 0 ==> p.segments()[0].start_time == p.start(),
{
}

/// Every conic of the planned trajectory is flown around one of the bodies.
pub proof fn lemma_planned_primaries_are_bodies<O>(p: &PatchPlanner<O>)
    requires
        p.wf(),
    ensures
        forall|k: int|
            0 <= k < p.segments().len() ==> (#[trigger] p.segments()[k]).primary_index
                < p.parents().len(),
{
}

/// A trajectory with at most `max_patches` transitions has at most
/// `max_patches + 1` conics, and as long as it is being built, the conics
/// made and the transitions left add up to `max_patches`.
pub proof fn lemma_planned_segment_count<O>(p: &PatchPlanner<O>)
    requires
        p.wf(),
    ensures
        p.segments().len() <= p.patch_limit() + 1,
        !p.done() ==> p.segments().len() + p.remaining() == p.patch_limit(),
{
}

/// Only the last conic of the planned trajectory can end at an infinite
/// time; while the trajectory is being built, none does, and the next conic
/// starts where the last one ended.
pub proof fn lemma_planned_trajectory_open_end<O>(p: &PatchPlanner<O>)
    requires
        p.wf(),
    ensures
        forall|k: int|
            0 <= k < p.segments().len() - 1 ==> !(#[trigger] p.segments()[k]).end_time.infinite(),
        !p.done() && p.segments().len() > 0 ==> {
            &&& p.segments().last().end_time == p.time()
            &&& !p.time().infinite()
        },
        !p.done() && p.segments().len() == 0 ==> p.time() == p.start(),
{
}

} // verus!
