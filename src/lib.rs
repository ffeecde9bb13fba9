//! Collector supervision core of a macOS telemetry agent: stream framing,
//! record translation, restart back-off, adaptive sampling and the
//! supervisor's lifecycle decisions.
use vstd::prelude::*;

pub mod text;
pub mod events;
pub mod framing;
pub mod xmlframe;
pub mod fields;
pub mod disk;
pub mod fsusage;
pub mod logline;
pub mod config;
pub mod cli;
pub mod rules;
pub mod restart;
pub mod sampling;
pub mod error;
pub mod supervisor;

verus! {

} // verus!
