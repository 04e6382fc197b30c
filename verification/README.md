# rocket_sim

The core of a rocket simulation built on Bevy: the decisions of patched-conic
trajectory building, with their contracts and laws.

- `src/time_key.rs` — `TimeKey`, a simulation time reduced to its place in the
  order of times (finite ranks, the two infinities, an undefined time), and the
  key of a time given by its IEEE 754 bit pattern.
- `src/trajectory.rs` — `OrbitSegment` and `PatchedTrajectory`, generic over the
  orbit they carry; lookup of the segment active at a time.
- `src/patching.rs` — the children of a body in the body hierarchy, and the
  choice of the earliest sphere-of-influence transition, with its laws, and
  whether to search for the escape crossing.
- `src/planner.rs` — `PatchPlanner`, the state machine that records one conic at
  a time and decides whether another follows, with the invariants of the
  trajectory it builds.
- `src/logs.rs` — the name of an archived session log.
- `app/` — the game itself: Bevy systems, logging set-up, and all orbital
  mechanics (floating point), which drive the planner.
