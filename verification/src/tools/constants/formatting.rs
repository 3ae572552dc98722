//! Spacing used around report titles.

use vstd::prelude::*;

verus! {

/// Spaces left of the warnings title.
pub const WARNINGS_TITLE_LEFT_PAD: usize = 3;

/// Spaces right of the warnings title.
pub const WARNINGS_TITLE_RIGHT_PAD: usize = 3;

/// Spaces left of the main title.
pub const HEADER_TITLE_LEFT_PAD: usize = 3;

/// Spaces right of the main title.
pub const HEADER_TITLE_RIGHT_PAD: usize = 3;

/// Spaces left of the subtitle.
pub const SUBTITLE_LEFT_PAD: usize = 3;

/// Spaces right of the subtitle.
pub const SUBTITLE_RIGHT_PAD: usize = 3;

} // verus!
