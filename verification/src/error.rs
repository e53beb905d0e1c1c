//! The errors of the library.

use vstd::prelude::*;

verus! {

#[verifier::external_type_specification]
#[verifier::external_body]
pub struct ExRegexError(regex::Error);

#[verifier::external_type_specification]
#[verifier::external_body]
pub struct ExSelectorErrorKind<'a>(scraper::error::SelectorErrorKind<'a>);

/// What can go wrong inside the library.
///
/// `ScrapeError` and `ParseError` say that one of the library's own selectors
/// or patterns was refused by the crate that compiles it: a defect of the
/// configuration, fatal to the run. `GenericError` says that one item could
/// not be read: the caller goes on with the next.
#[derive(Debug)]
pub enum AppError {
    GenericError(String),
    ScrapeError(scraper::error::SelectorErrorKind<'static>),
    ParseError(regex::Error),
}

impl AppError {
    /// The error is a `GenericError` with the message `text`.
    pub open spec fn says(&self, text: Seq<char>) -> bool {
        self matches AppError::GenericError(m) && m@ == text
    }
}

} // verus!
