use rocket_sim::patching::{Transition, TransitionSource};
use rocket_sim::planner::{PatchPlanner, PatchStep};
use rocket_sim::time_key::TimeKey;

// Sun (0) with planet 1; planet 1 has moon 2.
fn parents() -> Vec<Option<usize>> {
    vec![None, Some(0), Some(1)]
}

#[test]
fn unfinite_start_state_records_nothing() {
    let mut p: PatchPlanner<&str> = PatchPlanner::new(parents(), 0, TimeKey::Finite(0), 3);
    let step = p.record_patch("bad", false, Some(TimeKey::Finite(5)), &vec![None; 3]);
    assert_eq!(step, PatchStep::Stop);
    assert!(p.is_finished());
    assert!(p.into_trajectory().segments.is_empty());
}

#[test]
fn no_transition_gives_a_single_open_segment() {
    let mut p: PatchPlanner<&str> = PatchPlanner::new(parents(), 0, TimeKey::Finite(10), 3);
    assert_eq!(p.bodies_to_search(), vec![1]);
    let step = p.record_patch("sun orbit", true, None, &vec![None; 3]);
    assert_eq!(step, PatchStep::Stop);
    assert!(p.is_finished());
    let t = p.into_trajectory();
    assert!(t.is_single_segment());
    assert_eq!(t.segments[0].orbit, "sun orbit");
    assert_eq!(t.segments[0].primary_index, 0);
    assert_eq!(t.segments[0].start_time, TimeKey::Finite(10));
    assert_eq!(t.segments[0].end_time, TimeKey::PlusInfinity);
}

#[test]
fn transitions_chain_the_segments() {
    let mut p: PatchPlanner<&str> = PatchPlanner::new(parents(), 0, TimeKey::Finite(10), 5);
    assert_eq!(p.body_count(), 3);
    let step = p.record_patch("sun", true, None, &vec![None, Some(TimeKey::Finite(20)), None]);
    assert_eq!(
        step,
        PatchStep::Continue(Transition { time: TimeKey::Finite(20), next_primary: 1, source: TransitionSource::EnteringChild })
    );
    assert_eq!(p.current_primary(), 1);
    assert_eq!(p.current_time(), TimeKey::Finite(20));
    assert!(!p.is_finished());
    assert_eq!(p.bodies_to_search(), vec![2]);

    let step = p.record_patch("planet", true, Some(TimeKey::Finite(35)), &vec![None, None, Some(TimeKey::Finite(30))]);
    assert_eq!(
        step,
        PatchStep::Continue(Transition { time: TimeKey::Finite(30), next_primary: 2, source: TransitionSource::EnteringChild })
    );

    let step = p.record_patch("moon", true, Some(TimeKey::Finite(40)), &vec![None; 3]);
    assert_eq!(
        step,
        PatchStep::Continue(Transition { time: TimeKey::Finite(40), next_primary: 1, source: TransitionSource::LeavingPrimary })
    );
    assert_eq!(p.current_primary(), 1);

    let step = p.record_patch("planet again", true, None, &vec![None; 3]);
    assert_eq!(step, PatchStep::Stop);

    let t = p.trajectory();
    assert_eq!(t.segments.len(), 4);
    let primaries: Vec<usize> = t.segments.iter().map(|s| s.primary_index).collect();
    assert_eq!(primaries, vec![0, 1, 2, 1]);
    for k in 0..3 {
        assert_eq!(t.segments[k + 1].start_time, t.segments[k].end_time);
    }
    assert_eq!(t.segments[3].end_time, TimeKey::PlusInfinity);
}

#[test]
fn patch_limit_bounds_the_segments() {
    let mut p: PatchPlanner<u32> = PatchPlanner::new(parents(), 1, TimeKey::Finite(0), 1);
    let step = p.record_patch(1, true, Some(TimeKey::Finite(5)), &vec![None; 3]);
    assert!(matches!(step, PatchStep::Continue(_)));
    assert_eq!(p.current_primary(), 0);
    // The one allowed transition is used: the next conic is the last, though it ends.
    let step = p.record_patch(2, true, None, &vec![None, Some(TimeKey::Finite(9)), None]);
    assert_eq!(step, PatchStep::Stop);
    assert!(p.is_finished());
    let t = p.into_trajectory();
    assert_eq!(t.segments.len(), 2);
    assert_eq!(t.segments[1].end_time, TimeKey::Finite(9));
}

#[test]
fn zero_patches_allows_one_segment() {
    let mut p: PatchPlanner<u32> = PatchPlanner::new(parents(), 0, TimeKey::Finite(0), 0);
    let step = p.record_patch(7, true, None, &vec![None, Some(TimeKey::Finite(3)), None]);
    assert_eq!(step, PatchStep::Stop);
    assert_eq!(p.trajectory().segments.len(), 1);
    assert_eq!(p.trajectory().segments[0].end_time, TimeKey::Finite(3));
}

#[test]
fn escape_without_parent_stays_around_the_same_body() {
    let mut p: PatchPlanner<u32> = PatchPlanner::new(parents(), 0, TimeKey::Finite(0), 2);
    let step = p.record_patch(1, true, Some(TimeKey::Finite(4)), &vec![None; 3]);
    assert_eq!(
        step,
        PatchStep::Continue(Transition { time: TimeKey::Finite(4), next_primary: 0, source: TransitionSource::LeavingPrimary })
    );
    assert_eq!(p.current_primary(), 0);
    assert_eq!(p.current_time(), TimeKey::Finite(4));
}

#[test]
fn infinite_transition_time_ends_the_trajectory() {
    let mut p: PatchPlanner<u32> = PatchPlanner::new(parents(), 0, TimeKey::Finite(0), 4);
    let step = p.record_patch(1, true, Some(TimeKey::PlusInfinity), &vec![None; 3]);
    assert_eq!(step, PatchStep::Stop);
    assert!(p.is_finished());
}

#[test]
fn primaries_form_a_chain_from_the_start_body() {
    // Sun 0 with planets 1 and 3, moon 2 around planet 1.
    let parents = vec![None, Some(0), Some(1), Some(0)];
    let mut p: PatchPlanner<u8> = PatchPlanner::new(parents.clone(), 2, TimeKey::Finite(0), 6);
    // Moon -> escape to planet 1 -> escape to sun 0 -> enter planet 3 -> stop.
    p.record_patch(0, true, Some(TimeKey::Finite(10)), &vec![None; 4]);
    p.record_patch(1, true, Some(TimeKey::Finite(20)), &vec![None; 4]);
    p.record_patch(2, true, None, &vec![None, None, None, Some(TimeKey::Finite(30))]);
    let step = p.record_patch(3, true, None, &vec![None; 4]);
    assert_eq!(step, PatchStep::Stop);
    let t = p.into_trajectory();
    let primaries: Vec<usize> = t.segments.iter().map(|s| s.primary_index).collect();
    assert_eq!(primaries, vec![2, 1, 0, 3]);
    for k in 0..primaries.len() - 1 {
        let (from, to) = (primaries[k], primaries[k + 1]);
        assert!(to == parents[from].unwrap_or(from) || (parents[to] == Some(from) && to != from));
    }
}
