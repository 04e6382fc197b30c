use vstd::prelude::*;

use crate::time_key::TimeKey;
use crate::trajectory::{OrbitSegment, PatchedTrajectory};

verus! {

/// Whether `body` is a child of `primary` in the body hierarchy given by each
/// body's parent index: its parent is `primary`, and it is not `primary` itself.
pub open spec fn is_child(parents: Seq<Option<usize>>, body: int, primary: usize) -> bool {
    &&& 0 <= body < parents.len()
    &&& parents[body] == Some(primary)
    &&& body != primary as int
}

/// `body` is a child of `primary` exactly when it is a body whose parent index
/// is `primary` and it is not `primary` itself, whatever the order of their
/// indices.
pub proof fn lemma_is_child_is_parent_relation(parents: Seq<Option<usize>>, primary: usize)
    ensures
        forall|body: int|
            #[trigger] is_child(parents, body, primary) <==> (0 <= body < parents.len()
                && parents[body] == Some(primary) && body != primary),
{
}

/// Indices of the bodies orbiting `primary` (the bodies whose sphere of
/// influence a craft around `primary` can enter), in increasing order.
pub fn child_bodies(parents: &Vec<Option<usize>>, primary: usize) -> (children: Vec<usize>)
    ensures
        forall|k: int|
            0 <= k < children@.len() ==> is_child(parents@, #[trigger] children@[k] as int, primary),
        forall|b: int| is_child(parents@, b, primary) ==> children@.contains(b as usize),
        forall|k: int, l: int| 0 <= k < l < children@.len() ==> children@[k] < children@[l],
        forall|k: int|
            0 <= k < children@.len() ==> {
                &&& (#[trigger] children@[k]) < parents@.len()
                &&& parents@[children@[k] as int] == Some(primary)
                &&& children@[k] != primary
            },
        forall|b: int|
            0 <= b < parents@.len() && #[trigger] parents@[b] == Some(primary) && b != primary
                ==> children@.contains(b as usize),
{
    proof {
        lemma_is_child_is_parent_relation(parents@, primary);
    }
    let n = parents.len();
    let mut children: Vec<usize> = Vec::new();
    let mut i: usize = 0;
    while i < n
        invariant
            n == parents@.len(),
            i <= n,
            forall|k: int|
                0 <= k < children@.len() ==> is_child(parents@, #[trigger] children@[k] as int, primary),
            forall|k: int| 0 <= k < children@.len() ==> #[trigger] children@[k] < i,
            forall|b: int| 0 <= b < i && is_child(parents@, b, primary) ==> children@.contains(b as usize),
            forall|k: int, l: int| 0 <= k < l < children@.len() ==> children@[k] < children@[l],
        decreases n - i,
    {
        let is_child_here = match parents[i] {
            Some(p) => p == primary && i != primary,
            None => false,
        };
        if is_child_here {
            let ghost before = children@;
            children.push(i);
            proof {
                assert forall|b: int| 0 <= b < i + 1 && is_child(parents@, b, primary) implies children@.contains(b as usize) by {
                    if b < i {
                        let k = choose|k: int| 0 <= k < before.len() && before[k] == b as usize;
                        assert(children@[k] == b as usize);
                    } else {
                        assert(children@[before.len() as int] == i);
                    }
                }
            }
        }
        i = i + 1;
    }
    proof {
        assert forall|b: int|
            0 <= b < parents@.len() && #[trigger] parents@[b] == Some(primary) && b != primary
                implies children@.contains(b as usize) by {
            assert(is_child(parents@, b, primary));
        }
    }
    children
}

/// Whether to search for the crossing out of the primary's sphere of
/// influence: the craft is on an escape trajectory or moving away from the
/// primary, and the sphere of influence is bounded.
pub fn searches_escape(
    escape_trajectory: bool,
    moving_outward: bool,
    sphere_of_influence_bounded: bool,
) -> (r: bool)
    ensures
        r == ((escape_trajectory || moving_outward) && sphere_of_influence_bounded),
{
    (escape_trajectory || moving_outward) && sphere_of_influence_bounded
}

/// Where a transition leads.
#[derive(Clone, Copy, Debug, PartialEq, Eq, Structural)]
pub enum TransitionSource {
    /// The craft leaves the sphere of influence of its primary.
    LeavingPrimary,
    /// The craft enters the sphere of influence of a child of its primary.
    EnteringChild,
}

/// A change of primary body at a given time.
#[derive(Clone, Copy, Debug, PartialEq, Eq, Structural)]
pub struct Transition {
    pub time: TimeKey,
    pub next_primary: usize,
    pub source: TransitionSource,
}

/// The body that becomes primary when the craft leaves `primary`'s sphere of
/// influence: its parent, or `primary` itself when it has none.
pub open spec fn escape_target(parents: Seq<Option<usize>>, primary: usize) -> usize {
    match parents[primary as int] {
        Some(p) => p,
        None => primary,
    }
}

/// Leaving a body's sphere of influence hands the craft to the body's parent
/// when it has one, and leaves it around the same body when it has none.
pub proof fn lemma_escape_target_is_parent_or_self(parents: Seq<Option<usize>>, primary: usize)
    ensures
        parents[primary as int] matches Some(q) ==> escape_target(parents, primary) == q,
        parents[primary as int] is None ==> escape_target(parents, primary) == primary,
{
}

/// The transition out of `primary`'s sphere of influence, when the crossing
/// time `outbound` was found.
pub open spec fn escape_transition(
    parents: Seq<Option<usize>>,
    primary: usize,
    outbound: Option<TimeKey>,
) -> Option<Transition> {
    match outbound {
        Some(t) => Some(
            Transition {
                time: t,
                next_primary: escape_target(parents, primary),
                source: TransitionSource::LeavingPrimary,
            },
        ),
        None => None,
    }
}

/// The candidate kept after looking at body `body` with crossing time `found`:
/// a child's crossing replaces the candidate when there is none yet, or when it
/// is strictly earlier.
pub open spec fn consider(
    parents: Seq<Option<usize>>,
    primary: usize,
    kept: Option<Transition>,
    body: int,
    found: Option<TimeKey>,
) -> Option<Transition> {
    if is_child(parents, body, primary) && found is Some && (kept is None || found.unwrap().precedes(
        kept.unwrap().time,
    )) {
        Some(
            Transition {
                time: found.unwrap(),
                next_primary: body as usize,
                source: TransitionSource::EnteringChild,
            },
        )
    } else {
        kept
    }
}

/// The candidate after bodies `0 .. n` have been looked at, in index order,
/// starting from the escape transition.
pub open spec fn earliest_among(
    parents: Seq<Option<usize>>,
    primary: usize,
    outbound: Option<TimeKey>,
    found: Seq<Option<TimeKey>>,
    n: nat,
) -> Option<Transition>
    decreases n,
{
    if n == 0 {
        escape_transition(parents, primary, outbound)
    } else {
        consider(
            parents,
            primary,
            earliest_among(parents, primary, outbound, found, (n - 1) as nat),
            n - 1,
            found[n - 1],
        )
    }
}

/// The first transition out of the current conic: the escape crossing if one
/// was found, replaced by each child crossing, in body order, that comes
/// strictly earlier than the one kept so far.
pub open spec fn earliest_transition(
    parents: Seq<Option<usize>>,
    primary: usize,
    outbound: Option<TimeKey>,
    found: Seq<Option<TimeKey>>,
) -> Option<Transition> {
    earliest_among(parents, primary, outbound, found, found.len())
}

/// Chooses the transition that ends the current conic. `outbound_transition`
/// is the time the craft crosses out of `current_primary`'s sphere of
/// influence, when it was searched and found; `child_transitions[b]` is the
/// time it enters body `b`'s sphere, when found (entries of bodies that are not
/// children of `current_primary` are not read).
pub fn earliest_event(
    parents: &Vec<Option<usize>>,
    current_primary: usize,
    outbound_transition: Option<TimeKey>,
    child_transitions: &Vec<Option<TimeKey>>,
) -> (r: Option<Transition>)
    requires
        current_primary < parents@.len(),
        child_transitions@.len() == parents@.len(),
    ensures
        r == earliest_transition(parents@, current_primary, outbound_transition, child_transitions@),
        r matches Some(tr) ==> tr.source == TransitionSource::LeavingPrimary ==> {
            &&& outbound_transition == Some(tr.time)
            &&& parents@[current_primary as int] matches Some(q) ==> tr.next_primary == q
            &&& parents@[current_primary as int] is None ==> tr.next_primary == current_primary
        },
        r matches Some(tr) ==> tr.source == TransitionSource::EnteringChild ==> {
            &&& tr.next_primary < parents@.len()
            &&& parents@[tr.next_primary as int] == Some(current_primary)
            &&& tr.next_primary != current_primary
            &&& child_transitions@[tr.next_primary as int] == Some(tr.time)
        },
        r is None <==> (outbound_transition is None && forall|b: int|
            0 <= b < parents@.len() && #[trigger] parents@[b] == Some(current_primary) && b
                != current_primary ==> child_transitions@[b] is None),
        r matches Some(tr) ==> tr.time.position() is Some ==> {
            &&& outbound_transition matches Some(s) ==> (s.position() is Some ==> tr.time.at_or_before(s))
            &&& forall|b: int|
                0 <= b < parents@.len() && #[trigger] parents@[b] == Some(current_primary) && b
                    != current_primary && child_transitions@[b] is Some
                    && child_transitions@[b].unwrap().position() is Some
                    ==> tr.time.at_or_before(child_transitions@[b].unwrap())
        },
{
    let mut kept: Option<Transition> = match outbound_transition {
        Some(t) => {
            let target = match parents[current_primary] {
                Some(p) => p,
                None => current_primary,
            };
            Some(Transition { time: t, next_primary: target, source: TransitionSource::LeavingPrimary })
        },
        None => None,
    };
    let n = parents.len();
    let mut i: usize = 0;
    while i < n
        invariant
            n == parents@.len(),
            n == child_transitions@.len(),
            i <= n,
            kept == earliest_among(
                parents@,
                current_primary,
                outbound_transition,
                child_transitions@,
                i as nat,
            ),
        decreases n - i,
    {
        let is_child_here = match parents[i] {
            Some(p) => p == current_primary && i != current_primary,
            None => false,
        };
        if is_child_here {
            match child_transitions[i] {
                Some(t) => {
                    let replace = match kept {
                        None => true,
                        Some(k) => t.is_before(&k.time),
                    };
                    if replace {
                        kept = Some(
                            Transition {
                                time: t,
                                next_primary: i,
                                source: TransitionSource::EnteringChild,
                            },
                        );
                    }
                },
                None => {},
            }
        }
        i = i + 1;
    }
    proof {
        lemma_earliest_transition_was_found(
            parents@,
            current_primary,
            outbound_transition,
            child_transitions@,
        );
        lemma_earliest_transition_none(parents@, current_primary, outbound_transition, child_transitions@);
        lemma_earliest_transition_is_earliest(
            parents@,
            current_primary,
            outbound_transition,
            child_transitions@,
        );
    }
    kept
}

proof fn earliest_among_facts(
    parents: Seq<Option<usize>>,
    primary: usize,
    outbound: Option<TimeKey>,
    found: Seq<Option<TimeKey>>,
    n: nat,
)
    requires
        primary < parents.len(),
        parents.len() <= usize::MAX,
        found.len() == parents.len(),
        n <= found.len(),
    ensures
        ({
            let r = earliest_among(parents, primary, outbound, found, n);
            &&& r is None <==> (outbound is None && forall|b: int|
                0 <= b < n && is_child(parents, b, primary) ==> found[b] is None)
            &&& r matches Some(tr) ==> {
                ||| (tr.source == TransitionSource::LeavingPrimary && outbound == Some(tr.time)
                    && tr.next_primary == escape_target(parents, primary))
                ||| (tr.source == TransitionSource::EnteringChild && tr.next_primary < n
                    && is_child(parents, tr.next_primary as int, primary)
                    && found[tr.next_primary as int] == Some(tr.time))
            }
            &&& r matches Some(tr) ==> (tr.time.position() is Some ==> {
                &&& (outbound matches Some(s) ==> !s.precedes(tr.time))
                &&& forall|b: int|
                    0 <= b < n && is_child(parents, b, primary) && found[b] is Some
                        ==> !found[b].unwrap().precedes(tr.time)
            })
        }),
    decreases n,
{
    if n > 0 {
        let m = (n - 1) as nat;
        earliest_among_facts(parents, primary, outbound, found, m);
        let prev = earliest_among(parents, primary, outbound, found, m);
        let r = earliest_among(parents, primary, outbound, found, n);
        assert(r == consider(parents, primary, prev, m as int, found[m as int]));
        if is_child(parents, m as int, primary) && found[m as int] is Some && (prev is None
            || found[m as int].unwrap().precedes(prev.unwrap().time)) {
            let t = found[m as int].unwrap();
            assert(r == Some(
                Transition { time: t, next_primary: m as usize, source: TransitionSource::EnteringChild },
            ));
            if t.position() is Some {
                if prev is None {
                    assert forall|b: int|
                        0 <= b < n && is_child(parents, b, primary) && found[b] is Some implies !found[b].unwrap().precedes(t) by {
                        if b < m {
                            assert(found[b] is None);
                        }
                    }
                } else {
                    let a = prev.unwrap().time;
                    assert(a.position() is Some);
                    assert forall|b: int|
                        0 <= b < n && is_child(parents, b, primary) && found[b] is Some implies !found[b].unwrap().precedes(t) by {
                        if b < m {
                            assert(!found[b].unwrap().precedes(a));
                        }
                    }
                }
            }
        } else {
            assert(r == prev);
            if r is None {
                assert(is_child(parents, m as int, primary) ==> found[m as int] is None);
            }
        }
    }
}

/// The transition chosen to end a conic is one that was found: either the
/// crossing out of the primary's sphere of influence, leading to the primary's
/// parent (or the primary itself when it has none), or the crossing into the
/// sphere of a child of the primary, leading to that child.
pub proof fn lemma_earliest_transition_was_found(
    parents: Seq<Option<usize>>,
    primary: usize,
    outbound: Option<TimeKey>,
    found: Seq<Option<TimeKey>>,
)
    requires
        primary < parents.len(),
        parents.len() <= usize::MAX,
        found.len() == parents.len(),
    ensures
        earliest_transition(parents, primary, outbound, found) matches Some(tr) ==> {
            ||| {
                &&& tr.source == TransitionSource::LeavingPrimary
                &&& outbound == Some(tr.time)
                &&& parents[primary as int] matches Some(q) ==> tr.next_primary == q
                &&& parents[primary as int] is None ==> tr.next_primary == primary
            }
            ||| {
                &&& tr.source == TransitionSource::EnteringChild
                &&& tr.next_primary < parents.len()
                &&& parents[tr.next_primary as int] == Some(primary)
                &&& tr.next_primary != primary
                &&& found[tr.next_primary as int] == Some(tr.time)
            }
        },
{
    earliest_among_facts(parents, primary, outbound, found, found.len());
}

/// No transition is chosen exactly when no crossing was found: neither out of
/// the primary's sphere of influence nor into the sphere of any of its children.
pub proof fn lemma_earliest_transition_none(
    parents: Seq<Option<usize>>,
    primary: usize,
    outbound: Option<TimeKey>,
    found: Seq<Option<TimeKey>>,
)
    requires
        primary < parents.len(),
        parents.len() <= usize::MAX,
        found.len() == parents.len(),
    ensures
        earliest_transition(parents, primary, outbound, found) is None <==> (outbound is None
            && forall|b: int|
            0 <= b < parents.len() && #[trigger] parents[b] == Some(primary) && b != primary
                ==> found[b] is None),
{
    earliest_among_facts(parents, primary, outbound, found, found.len());
    let n = found.len();
    if earliest_transition(parents, primary, outbound, found) is None {
        assert forall|b: int|
            0 <= b < parents.len() && #[trigger] parents[b] == Some(primary) && b != primary
                implies found[b] is None by {
            assert(0 <= b < n && is_child(parents, b, primary));
        }
    } else if outbound is None && forall|b: int|
        0 <= b < parents.len() && #[trigger] parents[b] == Some(primary) && b != primary
            ==> found[b] is None {
        assert forall|b: int| 0 <= b < n && is_child(parents, b, primary) implies found[b] is None by {
            assert(parents[b] == Some(primary));
        }
    }
}

/// When the chosen transition has a defined time, it is at or before every
/// defined crossing that was found, out of the primary's sphere or into the
/// sphere of any child (any body whose parent is the primary, other than the
/// primary itself): it is the earliest one.
pub proof fn lemma_earliest_transition_is_earliest(
    parents: Seq<Option<usize>>,
    primary: usize,
    outbound: Option<TimeKey>,
    found: Seq<Option<TimeKey>>,
)
    requires
        primary < parents.len(),
        parents.len() <= usize::MAX,
        found.len() == parents.len(),
    ensures
        earliest_transition(parents, primary, outbound, found) matches Some(tr) ==> (
        tr.time.position() is Some ==> {
            &&& (outbound matches Some(s) ==> !s.precedes(tr.time))
            &&& (outbound matches Some(s) ==> (s.position() is Some ==> tr.time.at_or_before(s)))
            &&& forall|b: int|
                0 <= b < parents.len() && #[trigger] parents[b] == Some(primary) && b != primary
                    && found[b] is Some ==> !found[b].unwrap().precedes(tr.time)
            &&& forall|b: int|
                0 <= b < parents.len() && #[trigger] parents[b] == Some(primary) && b != primary
                    && found[b] is Some && found[b].unwrap().position() is Some
                    ==> tr.time.at_or_before(found[b].unwrap())
        }),
{
    earliest_among_facts(parents, primary, outbound, found, found.len());
    let r = earliest_transition(parents, primary, outbound, found);
    if r is Some && r.unwrap().time.position() is Some {
        assert forall|b: int|
            0 <= b < parents.len() && #[trigger] parents[b] == Some(primary) && b != primary
                && found[b] is Some implies !found[b].unwrap().precedes(r.unwrap().time) by {
            assert(is_child(parents, b, primary));
        }
    }
}

} // verus!
