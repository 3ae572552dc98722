//! Resource planning and defensive checks.

pub mod dynamic_memory;
pub mod memory_analysis;
pub mod memory_strategy;
pub mod safety;
