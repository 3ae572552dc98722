//! Command-line values: the defaults shown in help text and the range checks
//! applied to the integer options.

use crate::text::{decimal, is_usize_text, parse_usize, push_decimal, push_str, usize_text_value};
use crate::tools::constants::parallel_limits::{
    MAX_PARALLEL_BATCH_SIZE, MAX_PARALLEL_DEGREE, MIN_PARALLEL_BATCH_SIZE, MIN_PARALLEL_DEGREE,
};
use vstd::prelude::*;

verus! {

/// Default parallel decoding batch size, as shown in help text.
pub const DEFAULT_PARALLEL_BATCH: &'static str = "64";

/// Default number of decoding threads, as shown in help text.
pub const DEFAULT_PARALLEL_THREADS: &'static str = "4";

/// Default number of files analysed at once, as shown in help text.
pub const DEFAULT_PARALLEL_FILES: &'static str = "4";

/// Default silence-filter threshold in dBFS, as shown in help text.
pub const DEFAULT_SILENCE_THRESHOLD_DB_STR: &'static str = "-70";

/// Default edge-trim threshold in dBFS, as shown in help text.
pub const DEFAULT_TRIM_THRESHOLD_DB_STR: &'static str = "-60";

/// Default minimum edge-silence duration in milliseconds, as shown in help text.
pub const DEFAULT_TRIM_MIN_RUN_MS_STR: &'static str = "60";

/// Message for text that is not an unsigned number.
pub open spec fn not_a_number_message(s: Seq<char>) -> Seq<char> {
    "'"@ + s + "' is not a valid number / 不是有效的数字"@
}

/// Message for a parallelism degree below the minimum.
pub open spec fn degree_too_small_message() -> Seq<char> {
    "value must be at least "@ + decimal(MIN_PARALLEL_DEGREE as nat) + " / 值必须至少为 "@ + decimal(
        MIN_PARALLEL_DEGREE as nat,
    )
}

/// Message for a parallelism degree above the maximum.
pub open spec fn degree_too_large_message() -> Seq<char> {
    "value cannot exceed "@ + decimal(MAX_PARALLEL_DEGREE as nat) + " / 值不能超过 "@ + decimal(
        MAX_PARALLEL_DEGREE as nat,
    )
}

/// Message for a batch size below the minimum.
pub open spec fn batch_too_small_message() -> Seq<char> {
    "batch size must be at least "@ + decimal(MIN_PARALLEL_BATCH_SIZE as nat) + " / 批大小必须至少为 "@
        + decimal(MIN_PARALLEL_BATCH_SIZE as nat)
}

/// Message for a batch size above the maximum.
pub open spec fn batch_too_large_message() -> Seq<char> {
    "batch size cannot exceed "@ + decimal(MAX_PARALLEL_BATCH_SIZE as nat) + " / 批大小不能超过 "@
        + decimal(MAX_PARALLEL_BATCH_SIZE as nat)
}

/// Outcome of reading `s` as an unsigned number that must lie in `min..=max`.
pub open spec fn ranged_outcome(
    s: Seq<char>,
    min: nat,
    max: nat,
    too_small: Seq<char>,
    too_large: Seq<char>,
) -> Result<nat, Seq<char>> {
    if !is_usize_text(s) {
        Err(not_a_number_message(s))
    } else if usize_text_value(s) < min {
        Err(too_small)
    } else if usize_text_value(s) > max {
        Err(too_large)
    } else {
        Ok(usize_text_value(s))
    }
}

/// Whether a `Result` of the library equals an outcome over mathematical values.
pub open spec fn matches_outcome(r: Result<usize, String>, o: Result<nat, Seq<char>>) -> bool {
    match r {
        Ok(v) => o == Ok::<nat, Seq<char>>(v as nat),
        Err(e) => o == Err::<nat, Seq<char>>(e@),
    }
}

/// Reads the number of files to analyse at once: an unsigned number from 1 to 16.
pub fn parse_parallel_degree(s: &str) -> (r: Result<usize, String>)
    ensures
        matches_outcome(
            r,
            ranged_outcome(
                s@,
                MIN_PARALLEL_DEGREE as nat,
                MAX_PARALLEL_DEGREE as nat,
                degree_too_small_message(),
                degree_too_large_message(),
            ),
        ),
{
    match parse_usize(s) {
        None => Err(not_a_number(s)),
        Some(value) => {
            if value < MIN_PARALLEL_DEGREE {
                let mut m = String::new();
                push_str(&mut m, "value must be at least ");
                push_decimal(&mut m, MIN_PARALLEL_DEGREE as u64);
                push_str(&mut m, " / 值必须至少为 ");
                push_decimal(&mut m, MIN_PARALLEL_DEGREE as u64);
                Err(m)
            } else if value > MAX_PARALLEL_DEGREE {
                let mut m = String::new();
                push_str(&mut m, "value cannot exceed ");
                push_decimal(&mut m, MAX_PARALLEL_DEGREE as u64);
                push_str(&mut m, " / 值不能超过 ");
                push_decimal(&mut m, MAX_PARALLEL_DEGREE as u64);
                Err(m)
            } else {
                Ok(value)
            }
        },
    }
}

/// Reads the parallel decoding batch size: an unsigned number from 1 to 256.
pub fn parse_batch_size(s: &str) -> (r: Result<usize, String>)
    ensures
        matches_outcome(
            r,
            ranged_outcome(
                s@,
                MIN_PARALLEL_BATCH_SIZE as nat,
                MAX_PARALLEL_BATCH_SIZE as nat,
                batch_too_small_message(),
                batch_too_large_message(),
            ),
        ),
{
    match parse_usize(s) {
        None => Err(not_a_number(s)),
        Some(value) => {
            if value < MIN_PARALLEL_BATCH_SIZE {
                let mut m = String::new();
                push_str(&mut m, "batch size must be at least ");
                push_decimal(&mut m, MIN_PARALLEL_BATCH_SIZE as u64);
                push_str(&mut m, " / 批大小必须至少为 ");
                push_decimal(&mut m, MIN_PARALLEL_BATCH_SIZE as u64);
                Err(m)
            } else if value > MAX_PARALLEL_BATCH_SIZE {
                let mut m = String::new();
                push_str(&mut m, "batch size cannot exceed ");
                push_decimal(&mut m, MAX_PARALLEL_BATCH_SIZE as u64);
                push_str(&mut m, " / 批大小不能超过 ");
                push_decimal(&mut m, MAX_PARALLEL_BATCH_SIZE as u64);
                Err(m)
            } else {
                Ok(value)
            }
        },
    }
}

fn not_a_number(s: &str) -> (m: String)
    ensures
        m@ == not_a_number_message(s@),
{
    let mut m = String::new();
    push_str(&mut m, "'");
    push_str(&mut m, s);
    push_str(&mut m, "' is not a valid number / 不是有效的数字");
    m
}

/// Whether `r` is a DSD conversion rate the tool offers.
pub open spec fn dsd_rate_allowed(r: nat) -> bool {
    r == 88200 || r == 176400 || r == 352800 || r == 384000
}

/// Outcome of reading a DSD conversion rate.
pub open spec fn dsd_rate_outcome(s: Seq<char>) -> Result<nat, Seq<char>> {
    if !is_usize_text(s) || usize_text_value(s) > u32::MAX {
        Err("invalid rate '"@ + s + "' / 无效采样率"@)
    } else if !dsd_rate_allowed(usize_text_value(s)) {
        Err("must be 88200|176400|352800|384000 / 仅支持 88200/176400/352800/384000"@)
    } else {
        Ok(usize_text_value(s))
    }
}

/// Reads the target PCM rate for DSD conversion: 88200, 176400, 352800 or 384000.
pub fn parse_dsd_pcm_rate(s: &str) -> (r: Result<u32, String>)
    ensures
        match r {
            Ok(v) => dsd_rate_outcome(s@) == Ok::<nat, Seq<char>>(v as nat),
            Err(e) => dsd_rate_outcome(s@) == Err::<nat, Seq<char>>(e@),
        },
{
    match parse_usize(s) {
        Some(v) => {
            if v > 0xffff_ffff {
                Err(invalid_rate(s))
            } else if v == 88200 || v == 176400 || v == 352800 || v == 384000 {
                Ok(v as u32)
            } else {
                let mut m = String::new();
                push_str(&mut m, "must be 88200|176400|352800|384000 / 仅支持 88200/176400/352800/384000");
                Err(m)
            }
        },
        None => Err(invalid_rate(s)),
    }
}

fn invalid_rate(s: &str) -> (m: String)
    ensures
        m@ == "invalid rate '"@ + s@ + "' / 无效采样率"@,
{
    let mut m = String::new();
    push_str(&mut m, "invalid rate '");
    push_str(&mut m, s);
    push_str(&mut m, "' / 无效采样率");
    m
}

} // verus!
