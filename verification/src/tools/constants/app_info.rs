//! Application names and the report header line.

use crate::text::{owned, push_str};
use vstd::prelude::*;

verus! {

/// Branch description shown in verbose mode.
pub const BRANCH_INFO: &'static str = "main (默认批处理模式)";

/// Short description of the measurement.
pub const BASE_DESCRIPTION: &'static str = "基于foobar2000 DR Meter逆向分析 (Measuring_DR_ENv3规范) / Based on foobar2000 DR Meter Reverse Analysis (Measuring_DR_ENv3 Specification)";

/// Description of the calculation mode.
pub const CALCULATION_MODE: &'static str = "使用批处理DR计算模式 / Using Batch DR Calculation Mode";

/// Full application name.
pub const APP_NAME: &'static str = "MacinMeter DR Tool";

/// Version suffix.
pub const VERSION_SUFFIX: &'static str = "(foobar2000兼容版)";

/// Compatibility label written into report headers.
pub const OUTPUT_COMPATIBILITY: &'static str = "Dynamic Range Meter (foobar2000 compatible)";

/// The report header line for `version`.
pub open spec fn output_header(version: Seq<char>) -> Seq<char> {
    APP_NAME@ + " v"@ + version + " / "@ + OUTPUT_COMPATIBILITY@
}

/// The report header line: `MacinMeter DR Tool v{version} / Dynamic Range Meter (foobar2000 compatible)`.
pub fn format_output_header(version: &str) -> (s: String)
    ensures
        s@ == output_header(version@),
{
    let mut s = owned(APP_NAME);
    push_str(&mut s, " v");
    push_str(&mut s, version);
    push_str(&mut s, " / ");
    push_str(&mut s, OUTPUT_COMPATIBILITY);
    s
}

} // verus!
