//! Test-support harness for code that spawns external processes and searches
//! a PATH-like list of directories for executables.
//!
//! The crate has three parts: a thread-safe sequencer of programmed spawn
//! outcomes, consumed strictly in insertion order; a planner for disposable
//! multi-directory fixtures with platform-correct executable permissions; and
//! map-assertion helpers for test code.

pub mod fixture;
pub mod map_check;
pub mod outcome;
pub mod pathlist;
pub mod sequencer;
