//! Error taxonomy of the core: construction-time failures are fatal,
//! per-item failures are recoverable and only update counters.

use vstd::prelude::*;

verus! {

/// One error of the core, by kind.
///
/// `Config` and `ModelLoad` are fatal at construction; `Inference`,
/// `ClassResolution` and `Stage` are per-item and recoverable;
/// `QueueClosed` is surfaced to callers of a stopped component;
/// `Persistence` and `ResourceSampling` are absorbed into diagnostics.
#[derive(Debug)]
pub enum CoreError {
    Config(String),
    ModelLoad(String),
    Inference(String),
    ClassResolution { class_id: usize },
    Stage(String),
    QueueClosed,
    Persistence(String),
    ResourceSampling(String),
}

impl CoreError {
    /// A short label naming the error kind, for diagnostics.
    pub fn kind_label(&self) -> (r: &'static str)
        ensures
            r@ == self.spec_kind_label(),
    {
        match self {
            CoreError::Config(_) => "config",
            CoreError::ModelLoad(_) => "model_load",
            CoreError::Inference(_) => "inference",
            CoreError::ClassResolution { .. } => "class_resolution",
            CoreError::Stage(_) => "stage",
            CoreError::QueueClosed => "queue_closed",
            CoreError::Persistence(_) => "persistence",
            CoreError::ResourceSampling(_) => "resource_sampling",
        }
    }

    pub open spec fn spec_kind_label(&self) -> Seq<char> {
        match self {
            CoreError::Config(_) => "config"@,
            CoreError::ModelLoad(_) => "model_load"@,
            CoreError::Inference(_) => "inference"@,
            CoreError::ClassResolution { .. } => "class_resolution"@,
            CoreError::Stage(_) => "stage"@,
            CoreError::QueueClosed => "queue_closed"@,
            CoreError::Persistence(_) => "persistence"@,
            CoreError::ResourceSampling(_) => "resource_sampling"@,
        }
    }
}

} // verus!
