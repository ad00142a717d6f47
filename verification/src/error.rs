//! Errors of the library.
use vstd::prelude::*;

verus! {

/// Why an operation failed.
#[derive(Debug, Clone, PartialEq, Eq)]
pub enum ZeckError {
    /// The recovery phrase was rejected. The message never quotes the phrase.
    InvalidMnemonic(String),
    /// A requested setting cannot be honoured.
    InvalidConfig(String),
    /// A key could not be derived or decoded.
    Internal(String),
}

/// The result of a fallible operation.
pub type ZeckResult<T> = Result<T, ZeckError>;

/// A [`ZeckError`] with its message as a sequence of characters.
#[verifier::ext_equal]
pub enum ErrorView {
    InvalidMnemonic(Seq<char>),
    InvalidConfig(Seq<char>),
    Internal(Seq<char>),
}

impl ErrorView {
    /// The message alone.
    pub open spec fn message(self) -> Seq<char> {
        match self {
            ErrorView::InvalidMnemonic(message) => message,
            ErrorView::InvalidConfig(message) => message,
            ErrorView::Internal(message) => message,
        }
    }
}

impl View for ZeckError {
    type V = ErrorView;

    open spec fn view(&self) -> ErrorView {
        match *self {
            ZeckError::InvalidMnemonic(message) => ErrorView::InvalidMnemonic(message@),
            ZeckError::InvalidConfig(message) => ErrorView::InvalidConfig(message@),
            ZeckError::Internal(message) => ErrorView::Internal(message@),
        }
    }
}

impl ZeckError {
    /// The message, as shown to a user.
    pub fn message(&self) -> (text: &str)
        ensures
            text@ == self@.message(),
    {
        match self {
            ZeckError::InvalidMnemonic(message) => message.as_str(),
            ZeckError::InvalidConfig(message) => message.as_str(),
            ZeckError::Internal(message) => message.as_str(),
        }
    }
}

} // verus!
