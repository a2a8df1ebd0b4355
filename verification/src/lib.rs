//! The verified core of a terminal-resident process monitor: it turns raw
//! OS-reported process records into normalized metrics, rebuilds the
//! parent/child process hierarchy each refresh cycle, orders the table by
//! interchangeable criteria, filters the kernel log for fault lines, and
//! drives the interactive view state — mode, sort, selection, scroll and
//! tree focus — one keyboard event at a time.
//!
//! Sampling the OS, rendering, key decoding and signal delivery live in
//! the surrounding binary; this crate works on plain values and proves
//! what each step yields.

pub mod crashfeed;
pub mod metrics;
pub mod numfmt;
pub mod rows;
pub mod snapshot;
pub mod sorter;
pub mod stats;
pub mod tree;
pub mod types;
pub mod userlookup;
pub mod view;

pub use metrics::uptime;
