//! Runtime core of a two-unit split keyboard controller.
//!
//! The library holds the event pipeline shared by both halves: matrix
//! snapshot assembly, per-cell debouncing, unification of the two local
//! coordinate spaces into one global space, the 3-byte inter-unit link
//! protocol, report diffing, and the tick scheduling discipline.  All
//! hardware access (pins, UART, USB, the timer and the watchdog) lives
//! outside the library and hands it plain values.

use vstd::prelude::*;

pub mod coord;
pub mod debounce;
pub mod event;
pub mod frame;
pub mod grid;
pub mod pipeline;
pub mod report;
pub mod sched;

verus! {

/// Nominal tick period of the scan timer, in microseconds.
pub const SCAN_TIME: u32 = 1000;

/// Number of consecutive ticks a raw reading must disagree with the
/// confirmed state before a key transition is trusted.
pub const DEBOUNCE_TIME: u16 = 5;

} // verus!
