use vstd::prelude::*;

use crate::lexer::Token;

verus! {

/// A fatal lexing or parsing error. Every malformed input surfaces as one
/// of these; no partial tree is ever returned alongside one.
#[derive(Debug, Clone, PartialEq, Eq)]
pub enum ParseError {
    /// The lexer met a character outside the supported classes.
    UnsupportedCharacter { ch: char },
    /// A backslash command name is not in the fixed command table.
    UnsupportedCommand { name: String },
    /// The parser met a token that can neither start nor continue an
    /// expression at this point.
    UnexpectedToken { token: Token },
    /// A required closing `)` or `}` was missing or mismatched.
    UnbalancedGrouping { token: Token },
    /// A digit run did not form a valid 64-bit integer.
    MalformedNumericLiteral { token: Token },
}

/// The mathematical value of a `ParseError`: the command name is read
/// as its character sequence.
pub enum ErrorView {
    UnsupportedCharacter { ch: char },
    UnsupportedCommand { name: Seq<char> },
    UnexpectedToken { token: Token },
    UnbalancedGrouping { token: Token },
    MalformedNumericLiteral { token: Token },
}

impl View for ParseError {
    type V = ErrorView;

    open spec fn view(&self) -> ErrorView {
        match self {
            ParseError::UnsupportedCharacter { ch } => ErrorView::UnsupportedCharacter { ch: *ch },
            ParseError::UnsupportedCommand { name } => ErrorView::UnsupportedCommand {
                name: name@,
            },
            ParseError::UnexpectedToken { token } => ErrorView::UnexpectedToken { token: *token },
            ParseError::UnbalancedGrouping { token } => ErrorView::UnbalancedGrouping {
                token: *token,
            },
            ParseError::MalformedNumericLiteral { token } => ErrorView::MalformedNumericLiteral {
                token: *token,
            },
        }
    }
}

} // verus!
