//! Fleet usage monitoring: data model, sampling policy, orchestration and
//! view-model computations for a cluster of shared machines.
//!
//! CPU percentages and load averages are carried as integers in hundredths
//! (a per-core reading of `42.17%` is stored as `4217`), so that every
//! derived quantity is computed exactly.

use vstd::prelude::*;

pub mod active;
pub mod codec;
pub mod config;
pub mod model;
pub mod orchestrate;
pub mod roster;
pub mod sampler;
pub mod text;
pub mod view;
pub mod viewconf;

verus! {

/// Per-process CPU usage below this threshold (in hundredths of a percent)
/// is dropped by the sampler.
pub const PROCESS_USAGE_THRESHOLD_CENTI: u32 = 1000;

} // verus!
