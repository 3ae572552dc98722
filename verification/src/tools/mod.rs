//! Batch bookkeeping, command-line values, report text and the other pieces
//! of the command-line tool that decide rather than perform I/O.

pub mod batch_state;
pub mod cli;
pub mod constants;
pub mod formatter;
pub mod md_table;
pub mod parallel_processor;
pub mod processor;
pub mod scanner;
pub mod table;
pub mod utils;
