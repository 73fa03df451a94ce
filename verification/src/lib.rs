//! Core of a terminal time-series dashboard: bounded, time-ordered sample
//! buffers, a sliding x-axis window with watermark y-bounds, and the per-tick
//! update algorithm that keeps every tracked entity's buffer synchronized.
//!
//! Timestamps and values are plain integers in units chosen by the caller
//! (e.g. milliseconds and hertz); sensor reads and pixel rendering live
//! outside this crate and hand plain values in and out.

pub mod axis;
pub mod monitor;
pub mod series;
