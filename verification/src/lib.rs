//! Profiling of named time intervals, verified with Verus.
//!
//! The library encodes interval marks and measurement names for a
//! performance-timeline backend, decodes the entries that the backend records
//! back into measurements, drives the start / end protocol of an interval as a
//! state machine, and builds the reports and the welcome screen's project list
//! from plain values.
pub mod text;

pub mod performance_logger;

pub mod order;

pub mod profiling;

mod outside;

pub mod welcome_screen;
