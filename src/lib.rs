//! The logic of a TCP proxy that injects network faults ("toxics") between a
//! client and an upstream service: proxy configuration, the ordered toxic
//! chains of each direction and their reconfiguration, the per-stage
//! decisions of the reference toxics, and the registry of live connections.

use vstd::prelude::*;

pub mod config;
pub mod signal;
pub mod stage;
pub mod state;
pub mod toxic;

verus! {

} // verus!
