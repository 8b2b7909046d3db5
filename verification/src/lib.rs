//! Verified core of a per-port / per-process network bandwidth monitor.
//!
//! The library parses raw link-layer frames through a layered protocol
//! dispatcher, classifies traffic direction against the capture interface's
//! addresses, accounts bytes per port and per process, and reconciles kernel
//! socket tables with process file-descriptor tables to attribute ports to
//! the processes that own them. Frame capture, the terminal UI and all other
//! I/O live outside the library.
//!
//! The shared accounting structures are plain values: the embedding program
//! serialises access to each — one mutual-exclusion primitive per structure,
//! held only for a single increment or drain — so a drain-and-reset is atomic
//! with respect to concurrent increments, and every accounted byte shows up
//! in exactly one snapshot.

pub mod addr;
pub mod app;
pub mod attribution;
pub mod list;
pub mod packet;
pub mod packet_monitor;
pub mod pidmap;
pub mod reporter;
pub mod table;
pub mod transfer;

use vstd::prelude::*;

verus! {

/// Interval, in milliseconds, at which the reporter drains the accumulators.
pub const DEFAULT_INTERVAL_MILLIS: u64 = 1_000;

} // verus!
