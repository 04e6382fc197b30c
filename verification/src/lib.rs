//! Patched-conic trajectory planning for the rocket simulation: the ordering of
//! transition times, the segments of a trajectory and the decisions that join
//! one sphere of influence to the next.
pub mod time_key;
pub mod trajectory;
pub mod patching;
pub mod planner;
pub mod logs;
