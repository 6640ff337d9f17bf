//! Receiver core for the DCF77 longwave time signal.
//!
//! The signal carries one amplitude-reduced pulse per second; the width of the
//! pulse is one bit, and the pulse of the last second of each minute is left
//! out to mark the minute boundary. This crate turns a noisy level line into a
//! validated calendar date and time:
//!
//! * [`cycle_clock`] converts a free-running cycle counter to milliseconds,
//! * [`signal_smoother`] debounces the raw level,
//! * [`timestamp_ring`] keeps the bounded histories of edge timestamps,
//! * [`second_sync`] finds and keeps the phase of the second boundary,
//! * [`dcf77_decoder`] measures pulses and assembles the 59-bit frame,
//! * [`frame`] decodes a completed frame into a date and time,
//! * [`calendar`] tells which dates exist.
//!
//! All buffers are of fixed size; nothing here allocates, blocks or panics.

pub mod calendar;
pub mod cycle_clock;
pub mod dcf77_decoder;
pub mod frame;
pub mod second_sync;
pub mod signal_smoother;
pub mod timestamp_ring;
