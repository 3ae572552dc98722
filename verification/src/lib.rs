//! Verified core of a dynamic-range (DR) meter: batch statistics, command-line
//! value validation, channel de-interleaving, edge-silence trimming, window
//! buffering, report text assembly and the safety checks that guard the analysis.
//!
//! Everything here works on integers, strings and generic sample types; the
//! floating-point measurement itself is carried by the caller.

pub mod error;
pub mod text;
pub mod slices;
pub mod tools;
pub mod processing;
pub mod utils;
pub mod frontend;
