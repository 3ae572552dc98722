//! Sample-level processing: trimming, channel separation and the decisions
//! that select a processing path.

pub mod channel_separator;
pub mod edge_trimmer;
pub mod performance_metrics;
pub mod processing_coordinator;
pub mod sample_conversion;
pub mod simd_core;
