//! Error kinds and error-correction levels shared by the whole pipeline.

use vstd::prelude::*;

verus! {

/// Everything that can go wrong while encoding or rendering a symbol.
#[derive(Clone, Copy, Debug, PartialEq, Eq, Structural)]
pub enum QrError {
    /// The payload does not fit any version up to 40 at the requested level.
    CapacityExceeded,
    /// A code point cannot be represented in the chosen mode.
    InvalidCharacter,
    /// A render option is out of range.
    InvalidOption,
    /// A color failed validation.
    InvalidColor,
    /// The module size is zero.
    InvalidDimensions,
    /// An internal consistency check failed; indicates a bug, not user error.
    InternalInvariantViolation,
}

/// Error-correction level: the fraction of codewords that may be recovered.
#[derive(Clone, Copy, Debug, PartialEq, Eq, Structural)]
pub enum EcLevel {
    Low,
    Medium,
    Quartile,
    High,
}

impl QrError {
    /// A short human-readable description of the error.
    pub fn message(&self) -> (r: String)
        ensures
            r@ == match self {
                QrError::CapacityExceeded => "payload exceeds version 40 capacity"@,
                QrError::InvalidCharacter => "unsupported character for mode"@,
                QrError::InvalidOption => "render option out of range"@,
                QrError::InvalidColor => "color failed validation"@,
                QrError::InvalidDimensions => "module size must be at least 1"@,
                QrError::InternalInvariantViolation => "internal invariant violated"@,
            },
    {
        match self {
            QrError::CapacityExceeded => "payload exceeds version 40 capacity".to_owned(),
            QrError::InvalidCharacter => "unsupported character for mode".to_owned(),
            QrError::InvalidOption => "render option out of range".to_owned(),
            QrError::InvalidColor => "color failed validation".to_owned(),
            QrError::InvalidDimensions => "module size must be at least 1".to_owned(),
            QrError::InternalInvariantViolation => "internal invariant violated".to_owned(),
        }
    }
}

} // verus!
