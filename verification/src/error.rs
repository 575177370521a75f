//! What can go wrong: a pattern that does not compile, and input that no rule
//! matches.
use crate::position::{Place, Position};
use vstd::prelude::*;

verus! {

/// The two ways in which lexing fails.
#[derive(Clone, Copy, Debug, PartialEq, Eq, Structural)]
pub enum LexErrorKind {
    /// No rule matches the input that is left behind the whitespace.
    UnrecognizedInput,
    /// A registered pattern does not compile. Only building an engine gives
    /// this error.
    InvalidPattern,
}

/// An error, with the position of the input that caused it. An invalid
/// pattern has no position: it is found before any text is read.
#[derive(Clone, Copy, Debug, PartialEq, Eq)]
pub struct LexError {
    pub kind: LexErrorKind,
    pub position: Option<Position>,
}

/// A [`LexError`] in a text of any length.
pub struct LexErrorView {
    pub kind: LexErrorKind,
    pub position: Option<Place>,
}

impl View for LexError {
    type V = LexErrorView;

    open spec fn view(&self) -> LexErrorView {
        LexErrorView {
            kind: self.kind,
            position: match self.position {
                Some(p) => Some(p@),
                None => None,
            },
        }
    }
}

impl LexErrorView {
    /// The error for input that no rule matches at `at`.
    pub open spec fn unrecognized(at: Place) -> LexErrorView {
        LexErrorView { kind: LexErrorKind::UnrecognizedInput, position: Some(at) }
    }

    /// The error for a pattern that does not compile.
    pub open spec fn invalid_pattern() -> LexErrorView {
        LexErrorView { kind: LexErrorKind::InvalidPattern, position: None }
    }
}

impl LexError {
    /// The error for input that no rule matches at `at`.
    pub fn unrecognized(at: Position) -> (e: LexError)
        ensures
            e@ == LexErrorView::unrecognized(at@),
    {
        LexError { kind: LexErrorKind::UnrecognizedInput, position: Some(at) }
    }

    /// The error for a pattern that does not compile.
    pub fn invalid_pattern() -> (e: LexError)
        ensures
            e@ == LexErrorView::invalid_pattern(),
    {
        LexError { kind: LexErrorKind::InvalidPattern, position: None }
    }
}

} // verus!
