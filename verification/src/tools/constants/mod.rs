//! Constants and default settings, kept in one place so that the command line,
//! the decoder settings and the reports cannot drift apart.

pub mod app_info;
pub mod buffers;
pub mod decoder_performance;
pub mod defaults;
pub mod format_constraints;
pub mod formatting;
pub mod parallel_limits;
