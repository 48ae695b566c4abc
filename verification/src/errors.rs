//! The error taxonomy of the core.
//!
//! Boundary validation failures (temporal range, model construction, case
//! lookup) are ordinary failure values.  A physical step that fails mid
//! run aborts the run but hands back the work already logged.  Malformed
//! result data aborts a transcription outright: no row is ever guessed at
//! or silently dropped.

use vstd::prelude::*;
use crate::instant::Instant;
use crate::record::SimulationResults;

verus! {

/// Everything that can go wrong in the core.
#[derive(Debug)]
pub enum SimError {
    /// The simulation period is empty or inverted: `start` is not earlier
    /// than `end`.
    TemporalRange { start: Instant, end: Instant },
    /// The physical model could not be prepared on the given building,
    /// state and resolution; no tick was run.
    ModelConstruction { detail: String },
    /// The physical model's per-tick advance failed; `completed` holds
    /// the log of every tick finished before the failure.
    PhysicsStep { detail: String, completed: SimulationResults },
    /// The serialized result log misses a field or holds one of the wrong
    /// type; no partial report is produced.
    MalformedResultData { detail: String },
    /// The scenario case identifier is not one of the fixed set.
    UnknownCaseIdentifier { given: String },
}

impl SimError {
    /// A short machine-readable name for the error kind.
    pub fn kind(&self) -> (r: &'static str)
        ensures
            r@ == match self {
                SimError::TemporalRange { .. } => "temporal range"@,
                SimError::ModelConstruction { .. } => "model construction"@,
                SimError::PhysicsStep { .. } => "physics step"@,
                SimError::MalformedResultData { .. } => "malformed result data"@,
                SimError::UnknownCaseIdentifier { .. } => "unknown case identifier"@,
            },
    {
        match self {
            SimError::TemporalRange { .. } => "temporal range",
            SimError::ModelConstruction { .. } => "model construction",
            SimError::PhysicsStep { .. } => "physics step",
            SimError::MalformedResultData { .. } => "malformed result data",
            SimError::UnknownCaseIdentifier { .. } => "unknown case identifier",
        }
    }
}

} // verus!
