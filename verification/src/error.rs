//! The diagnostics of the parser.

use vstd::prelude::*;
use vstd::string::StringExecFns;
use crate::text::{decimal, push_decimal};
use crate::token::TokenType;

verus! {

/// What a diagnostic is, in specifications.
pub enum ParseErrorView {
    ExpectedToken { line: nat, expected: TokenType, found: Seq<char> },
    NoPrefixParseFunction { line: nat, token_type: TokenType },
    FailedToParseExpression { line: nat },
}

impl ParseErrorView {
    /// The line that the diagnostic points at.
    pub open spec fn line(self) -> nat {
        match self {
            ParseErrorView::ExpectedToken { line, .. } => line,
            ParseErrorView::NoPrefixParseFunction { line, .. } => line,
            ParseErrorView::FailedToParseExpression { line } => line,
        }
    }

    /// What went wrong, in words.
    pub open spec fn reason(self) -> Seq<char> {
        match self {
            ParseErrorView::ExpectedToken { expected, found, .. } => "expected token "@
                + expected.spelling() + ", found "@ + found,
            ParseErrorView::NoPrefixParseFunction { token_type, .. } =>
                "no prefix parse function for token "@ + token_type.spelling(),
            ParseErrorView::FailedToParseExpression { .. } => "failed to parse expression"@,
        }
    }

    /// The diagnostic as it is shown: `Line <line>: <reason>`.
    pub open spec fn message(self) -> Seq<char> {
        "Line "@ + decimal(self.line()) + ": "@ + self.reason()
    }
}

/// A diagnostic of the parser. None of them stops the parse.
#[derive(Debug)]
pub enum ParseError {
    /// The token behind the current one is not of the kind that the grammar
    /// asks for there; `found` is its text.
    ExpectedToken { line: usize, expected: TokenType, found: String },
    /// No expression starts with a token of this kind.
    NoPrefixParseFunction { line: usize, token_type: TokenType },
    /// An expression was due and none could be parsed.
    FailedToParseExpression { line: usize },
}

impl View for ParseError {
    type V = ParseErrorView;

    /// The value as contracts speak of it.
    open spec fn view(&self) -> ParseErrorView {
        match self {
            ParseError::ExpectedToken { line, expected, found } => ParseErrorView::ExpectedToken {
                line: *line as nat,
                expected: *expected,
                found: found@,
            },
            ParseError::NoPrefixParseFunction { line, token_type } =>
                ParseErrorView::NoPrefixParseFunction {
                    line: *line as nat,
                    token_type: *token_type,
                },
            ParseError::FailedToParseExpression { line } =>
                ParseErrorView::FailedToParseExpression { line: *line as nat },
        }
    }
}

impl ParseError {
    /// The line that the diagnostic points at.
    pub fn line(&self) -> (line: usize)
        ensures
            line == self@.line(),
    {
        match self {
            ParseError::ExpectedToken { line, .. } => *line,
            ParseError::NoPrefixParseFunction { line, .. } => *line,
            ParseError::FailedToParseExpression { line } => *line,
        }
    }

    /// The diagnostic as it is shown: `Line <line>: <reason>`.
    pub fn message(&self) -> (text: String)
        ensures
            text@ == self@.message(),
    {
        let mut text = "Line ".to_owned();
        push_decimal(&mut text, self.line());
        text.append(": ");
        let ghost head = text@;
        match self {
            ParseError::ExpectedToken { expected, found, .. } => {
                let mut reason = "expected token ".to_owned();
                reason.append(expected.describe().as_str());
                reason.append(", found ");
                reason.append(found.as_str());
                text.append(reason.as_str());
            },
            ParseError::NoPrefixParseFunction { token_type, .. } => {
                let mut reason = "no prefix parse function for token ".to_owned();
                reason.append(token_type.describe().as_str());
                text.append(reason.as_str());
            },
            ParseError::FailedToParseExpression { .. } => {
                text.append("failed to parse expression");
            },
        }
        text
    }
}

/// The views of `errors`, in order.
pub open spec fn errors_view(errors: Seq<ParseError>) -> Seq<ParseErrorView> {
    Seq::new(errors.len(), |i: int| errors[i]@)
}

/// The messages of `errors`, in order.
pub open spec fn error_messages(errors: Seq<ParseErrorView>) -> Seq<Seq<char>> {
    Seq::new(errors.len(), |i: int| errors[i].message())
}

} // verus!
