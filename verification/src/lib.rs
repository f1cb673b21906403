//! Verified drivers for a 4x4 matrix keypad and a serial-in/parallel-out
//! shift register.
//!
//! The crate models the electrical side of both devices explicitly, so that
//! every driver decision is stated and proved:
//!
//! - [`key`] is the fixed, injective mapping from a grid position to the key
//!   printed on it.
//! - [`scanner`] scans a row/column grid one row at a time and reports the
//!   key that is currently pressed, with a deterministic lowest-row,
//!   lowest-column tie-break.
//! - [`shift_register`] serialises an eight-bit pattern into the line
//!   transitions of a data/clock/latch protocol, proved against a reference
//!   model of the attached register chip: the parallel outputs change exactly
//!   once per load, at the latch pulse.
//! - [`oneshot`] is the caller-side edge latch that turns the scanner's raw
//!   per-poll readings into one action per physical press.

pub mod key;

pub mod oneshot;

pub mod scanner;

pub mod shift_register;
