//! Verified core of a discrete-time building co-simulation: the tick
//! sequencer, the co-simulation driver with its append-only result log,
//! the scenario case policy, and the report transcriber.

pub mod case;
pub mod doc;
pub mod driver;
pub mod errors;
pub mod instant;
pub mod laws;
pub mod models;
pub mod numerals;
pub mod record;
pub mod serialize;
pub mod state;
pub mod text;
pub mod transcribe;
