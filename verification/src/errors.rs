//! The ways in which building an encoder or encoding a solution fails.

use vstd::prelude::*;

verus! {

/// Why an encoder could not be built or a solution could not be encoded.
#[derive(Debug)]
pub enum EncodingError {
    /// The configuration is missing or malformed; nothing can be built from it.
    FatalError(String),
    /// A swap names a venue family that the registry does not hold.
    UnsupportedProtocol(String),
    /// The solution's swaps, splits or amounts are not well formed.
    InvalidSolution,
    /// The key or the signature of a signed approval is malformed.
    SigningError,
    /// A venue encoder could not pack its swap.
    EncodingFailed,
}

/// What an [`EncodingError`] says, as contracts read it.
pub enum ErrorView {
    FatalError(Seq<char>),
    UnsupportedProtocol(Seq<char>),
    InvalidSolution,
    SigningError,
    EncodingFailed,
}

impl View for EncodingError {
    type V = ErrorView;

    open spec fn view(&self) -> ErrorView {
        match self {
            EncodingError::FatalError(m) => ErrorView::FatalError(m@),
            EncodingError::UnsupportedProtocol(p) => ErrorView::UnsupportedProtocol(p@),
            EncodingError::InvalidSolution => ErrorView::InvalidSolution,
            EncodingError::SigningError => ErrorView::SigningError,
            EncodingError::EncodingFailed => ErrorView::EncodingFailed,
        }
    }
}

impl EncodingError {
    /// A line of text for a person to read.
    pub fn message(&self) -> (text: String)
        ensures
            text@ == match self@ {
                ErrorView::FatalError(m) => m,
                ErrorView::UnsupportedProtocol(p) => p,
                ErrorView::InvalidSolution => "invalid solution"@,
                ErrorView::SigningError => "signing failed"@,
                ErrorView::EncodingFailed => "swap could not be encoded"@,
            },
    {
        match self {
            EncodingError::FatalError(m) => m.clone(),
            EncodingError::UnsupportedProtocol(p) => p.clone(),
            EncodingError::InvalidSolution => "invalid solution".to_string(),
            EncodingError::SigningError => "signing failed".to_string(),
            EncodingError::EncodingFailed => "swap could not be encoded".to_string(),
        }
    }
}

} // verus!
