//! Verified core of a fleet controller for 3D printers.
//!
//! The library models machine geometry and motion in fixed-point integer
//! units, parses and indexes G-code programs, executes commands through a
//! pure machine-state transition function, simulates programs into timed
//! snapshots, frames serial byte streams into lines, folds firmware lines
//! into printer state, and manages jobs, devices and discovery lifecycle.
//! Effectful edges (serial I/O, the network, clocks) stay outside; the
//! library speaks to them through narrow trusted declarations.

pub mod agent;
pub mod code;
pub mod config;
pub mod devices;
pub mod discovery;
pub mod error;
pub mod framing;
pub mod jobs;
pub mod layout;
pub mod machine;
pub mod metric;
pub mod motion;
pub mod parser;
pub mod printer_state;
pub mod program;
pub mod rpc;
pub mod simulator;
pub mod snapshot;
pub mod thermal;
pub mod worker;
