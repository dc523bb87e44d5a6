//! The verified core of a fixed-rate real-time application shell: input
//! actions and their key routing, a sliding window of frame times, and the
//! pacing decisions of the frame loop, all on integer ticks of a monotonic
//! counter.
use vstd::prelude::*;

pub mod config;
pub mod controls;
pub mod engine;
pub mod frame_history;
pub mod input_action;
pub mod input_manager;
pub mod key_map;
pub mod scheduler;

verus! {

} // verus!
