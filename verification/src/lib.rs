//! Core of a real-time vision-analytics system: multi-model detection with
//! duplicate suppression, staged pipeline orchestration, engine lifecycle,
//! and bounded state/error history tracking.

pub mod engine;
pub mod errors;
pub mod analyzer;
pub mod clock;
pub mod geometry;
pub mod pipeline;
pub mod detector;
pub mod processor;
pub mod queue;
pub mod state;
pub mod suppression;

use vstd::prelude::*;

verus! {

/// Scale in which confidences, thresholds and other unit-interval quantities
/// are expressed: a value `v` stands for the fraction `v / 1000`.
pub const UNIT_SCALE: u32 = 1000;

} // verus!
