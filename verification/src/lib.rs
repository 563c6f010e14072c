//! A verified core for a concurrent download throughput measurement tool.
//!
//! The library models the measurement engine: dividing a virtual byte budget
//! across endpoints, tracking received bytes, stopping each transfer at its
//! fair share, sampling instantaneous speed, and reducing the samples into a
//! final figure. Network transport, task scheduling and progress rendering
//! live outside the library and drive these verified state machines.

pub mod api;
pub mod arith;
pub mod error;
pub mod fetcher;
pub mod reporter;
