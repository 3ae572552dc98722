//! Error values shared by the whole library.

use vstd::prelude::*;

verus! {

/// Errors reported by the analysis pipeline.
#[derive(Debug, Clone, PartialEq, Eq)]
pub enum AudioError {
    /// An argument or input value is outside what the operation accepts.
    InvalidInput(String),
    /// The audio format (rate, channel count, bit depth) is not supported.
    FormatError(String),
    /// Decoding the stream failed.
    DecodingError(String),
    /// A file-system operation failed: the kind of failure and a description.
    IoError(IoErrorKind, String),
    /// A numeric result left the representable range.
    NumericOverflow(String),
    /// A derived measurement was inconsistent.
    CalculationError(String),
    /// A resource could not be accounted for.
    ResourceError(String),
    /// The estimated memory use exceeds the hard limit.
    OutOfMemory,
}

/// The kind of a failed file-system operation.
#[derive(Debug, Clone, Copy, PartialEq, Eq, Structural)]
pub enum IoErrorKind {
    /// The file or directory does not exist.
    NotFound,
    /// The path or the requested operation is not acceptable.
    InvalidInput,
    /// The file's contents or size are not acceptable.
    InvalidData,
    /// Any other failure reported by the system.
    Other,
}

/// Result type of the analysis pipeline.
pub type AudioResult<T> = Result<T, AudioError>;

/// Coarse classification of failures, used to group failed files in batch reports.
#[derive(Debug, Clone, Copy, PartialEq, Eq, Hash)]
pub enum ErrorCategory {
    Format,
    Decoding,
    Io,
    Memory,
    Calculation,
    Input,
    Other,
}

/// The category an error is filed under.
pub open spec fn category_of(err: AudioError) -> ErrorCategory {
    match err {
        AudioError::InvalidInput(_) => ErrorCategory::Input,
        AudioError::FormatError(_) => ErrorCategory::Format,
        AudioError::DecodingError(_) => ErrorCategory::Decoding,
        AudioError::IoError(..) => ErrorCategory::Io,
        AudioError::NumericOverflow(_) => ErrorCategory::Calculation,
        AudioError::CalculationError(_) => ErrorCategory::Calculation,
        AudioError::ResourceError(_) => ErrorCategory::Other,
        AudioError::OutOfMemory => ErrorCategory::Memory,
    }
}

/// Position of a category in the fixed category order.
pub open spec fn category_index(c: ErrorCategory) -> nat {
    match c {
        ErrorCategory::Format => 0,
        ErrorCategory::Decoding => 1,
        ErrorCategory::Io => 2,
        ErrorCategory::Memory => 3,
        ErrorCategory::Calculation => 4,
        ErrorCategory::Input => 5,
        ErrorCategory::Other => 6,
    }
}

/// Number of error categories.
pub const CATEGORY_COUNT: usize = 7;

impl ErrorCategory {
    /// Files an error under its category.
    pub fn from_audio_error(err: &AudioError) -> (c: ErrorCategory)
        ensures
            c == category_of(*err),
    {
        match err {
            AudioError::InvalidInput(_) => ErrorCategory::Input,
            AudioError::FormatError(_) => ErrorCategory::Format,
            AudioError::DecodingError(_) => ErrorCategory::Decoding,
            AudioError::IoError(..) => ErrorCategory::Io,
            AudioError::NumericOverflow(_) => ErrorCategory::Calculation,
            AudioError::CalculationError(_) => ErrorCategory::Calculation,
            AudioError::ResourceError(_) => ErrorCategory::Other,
            AudioError::OutOfMemory => ErrorCategory::Memory,
        }
    }

    /// Position of the category in the fixed category order.
    pub fn index(&self) -> (i: usize)
        ensures
            i == category_index(*self),
            i < CATEGORY_COUNT,
    {
        match self {
            ErrorCategory::Format => 0,
            ErrorCategory::Decoding => 1,
            ErrorCategory::Io => 2,
            ErrorCategory::Memory => 3,
            ErrorCategory::Calculation => 4,
            ErrorCategory::Input => 5,
            ErrorCategory::Other => 6,
        }
    }

    /// The category at a position of the fixed category order.
    pub fn from_index(i: usize) -> (c: ErrorCategory)
        requires
            i < CATEGORY_COUNT,
        ensures
            category_index(c) == i,
    {
        if i == 0 {
            ErrorCategory::Format
        } else if i == 1 {
            ErrorCategory::Decoding
        } else if i == 2 {
            ErrorCategory::Io
        } else if i == 3 {
            ErrorCategory::Memory
        } else if i == 4 {
            ErrorCategory::Calculation
        } else if i == 5 {
            ErrorCategory::Input
        } else {
            ErrorCategory::Other
        }
    }

    /// Name shown for the category in batch reports.
    pub fn display_name(&self) -> (s: &'static str)
        ensures
            s@ == category_name(*self),
    {
        match self {
            ErrorCategory::Format => "Unsupported or invalid format",
            ErrorCategory::Decoding => "Decoding error",
            ErrorCategory::Io => "File access error",
            ErrorCategory::Memory => "Out of memory",
            ErrorCategory::Calculation => "Calculation error",
            ErrorCategory::Input => "Invalid input",
            ErrorCategory::Other => "Other error",
        }
    }
}

/// Name shown for a category in batch reports.
pub open spec fn category_name(c: ErrorCategory) -> Seq<char> {
    match c {
        ErrorCategory::Format => "Unsupported or invalid format"@,
        ErrorCategory::Decoding => "Decoding error"@,
        ErrorCategory::Io => "File access error"@,
        ErrorCategory::Memory => "Out of memory"@,
        ErrorCategory::Calculation => "Calculation error"@,
        ErrorCategory::Input => "Invalid input"@,
        ErrorCategory::Other => "Other error"@,
    }
}

} // verus!
