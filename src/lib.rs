//! A discrete-time simulation core: a simulated clock with a bucketed wakeup
//! registry for suspended flows, per-component write epochs for staleness
//! checks, and the grid movement and direction-choice behaviours driven by it.

pub mod camera;
pub mod components;
pub mod control;
pub mod epoch;
pub mod flow_timer;
pub mod geometry;
pub mod map;
pub mod terminal_constants;
