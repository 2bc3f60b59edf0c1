//! The errors of the syntax phase.

use vstd::prelude::*;
use crate::token::{Token, TokenView};

verus! {

/// What the parser can object to.
#[derive(Debug, PartialEq)]
pub enum SyntaxErrorType {
    /// The first token was expected, the second was found.
    ExpectedToken(Token, Token),
    /// No production of the non-terminal on the stack begins with the
    /// token.
    UnexpectedToken(Token),
    /// The tokens ended before the program did, or went on after it.
    UnexpectedEndOfFile,
    /// The parser gave up after more steps than any program of this length
    /// takes.
    TooManySteps,
    /// The grammar has no parsing table.
    InvalidGrammar,
}

/// What the parser objects to, as a mathematical value: an expected token
/// by its kind.
pub enum SyntaxErrorKind {
    ExpectedToken(nat, TokenView),
    UnexpectedToken(TokenView),
    UnexpectedEndOfFile,
    TooManySteps,
    InvalidGrammar,
}

/// A syntax error as a mathematical value.
pub struct SyntaxErrorView {
    pub kind: SyntaxErrorKind,
    pub line: usize,
}

/// A syntax error with the line it was found on.
#[derive(Debug, PartialEq)]
pub struct SyntaxError {
    pub error_type: SyntaxErrorType,
    pub line: usize,
}

impl View for SyntaxError {
    type V = SyntaxErrorView;

    open spec fn view(&self) -> SyntaxErrorView {
        SyntaxErrorView {
            kind: match self.error_type {
                SyntaxErrorType::ExpectedToken(expected, found) => SyntaxErrorKind::ExpectedToken(
                    expected.kind(),
                    found@,
                ),
                SyntaxErrorType::UnexpectedToken(token) => SyntaxErrorKind::UnexpectedToken(token@),
                SyntaxErrorType::UnexpectedEndOfFile => SyntaxErrorKind::UnexpectedEndOfFile,
                SyntaxErrorType::TooManySteps => SyntaxErrorKind::TooManySteps,
                SyntaxErrorType::InvalidGrammar => SyntaxErrorKind::InvalidGrammar,
            },
            line: self.line,
        }
    }
}

/// Syntax errors as mathematical values.
pub open spec fn errors_view(errors: Seq<SyntaxError>) -> Seq<SyntaxErrorView> {
    Seq::new(errors.len(), |i: int| errors[i]@)
}

impl SyntaxError {
    /// The error `error_type` on line `line`.
    pub fn new(error_type: SyntaxErrorType, line: usize) -> (e: Self)
        ensures
            e.error_type == error_type,
            e.line == line,
    {
        SyntaxError { error_type, line }
    }
}

} // verus!
