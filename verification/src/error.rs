//! Errors that are reported to a caller.
use vstd::prelude::*;

verus! {

/// An error with the text that is reported.
#[derive(Debug, PartialEq, Eq)]
pub enum AppError {
    /// The caller asked for something that is not allowed or not there.
    Validation(String),
    /// A part of the program is not available.
    Config(String),
    /// The caller asked too often.
    RateLimited(String),
}

/// [`AppError`] as values.
pub enum ErrorView {
    Validation(Seq<char>),
    Config(Seq<char>),
    RateLimited(Seq<char>),
}

impl View for AppError {
    type V = ErrorView;

    open spec fn view(&self) -> ErrorView {
        match self {
            AppError::Validation(m) => ErrorView::Validation(m@),
            AppError::Config(m) => ErrorView::Config(m@),
            AppError::RateLimited(m) => ErrorView::RateLimited(m@),
        }
    }
}

impl ErrorView {
    /// The text that is reported.
    pub open spec fn message(self) -> Seq<char> {
        match self {
            ErrorView::Validation(m) => m,
            ErrorView::Config(m) => m,
            ErrorView::RateLimited(m) => m,
        }
    }
}

impl AppError {
    /// The text that is reported.
    pub fn to_string(&self) -> (r: String)
        ensures
            r@ == self@.message(),
    {
        match self {
            AppError::Validation(m) => m.clone(),
            AppError::Config(m) => m.clone(),
            AppError::RateLimited(m) => m.clone(),
        }
    }
}

} // verus!
