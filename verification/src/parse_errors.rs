//! The syntactic error taxonomy: parse errors are accumulated during the
//! parse pass and never abort it past a statement boundary.

use vstd::prelude::*;

use crate::token::{Token, TokenV};

verus! {

/// Why an integer literal's text did not yield a 32-bit value.
#[derive(Debug, Clone, Copy, PartialEq, Eq, Structural)]
pub enum IntegerParseFault {
    /// The text holds a character outside `0..=9`.
    InvalidDigit,
    /// The value does not fit in a 32-bit signed integer.
    Overflow,
}

/// What the parser demanded of the next token.
#[derive(Debug, Clone, PartialEq)]
pub enum TokenExpectation {
    /// Exactly this token.
    SingleExpectation(Token),
    /// Any one of these tokens.
    MultipleExpectation(Vec<Token>),
}

/// A syntax error, recoverable at the next statement boundary.
#[derive(Debug, Clone, PartialEq)]
pub enum ParseError {
    /// The stream was exhausted where a token was mandatory.
    ExpectedToken,
    /// A specific token (or one of a set) was required but another was found;
    /// `found_token` is `None` when the stream was exhausted instead.
    UnexpectedToken { expected_token: TokenExpectation, found_token: Option<Token> },
    /// The leading token of an expression has no prefix meaning.
    NoPrefixExpression(Token),
    /// An infix continuation was attempted on a token with no infix meaning.
    NoInfixExpression(Token),
    /// An integer literal's text failed numeric parsing.
    ParseIntegerError(Token, IntegerParseFault),
    /// A prefix operator token appeared with no following token to bind to.
    NoPrefixPartner,
}

/// Mathematical view of a token expectation.
pub enum TokenExpectationV {
    Single(TokenV),
    Multiple(Seq<TokenV>),
}

/// Mathematical view of a parse error.
pub enum ParseErrorV {
    ExpectedToken,
    UnexpectedToken { expected_token: TokenExpectationV, found_token: Option<TokenV> },
    NoPrefixExpression(TokenV),
    NoInfixExpression(TokenV),
    ParseIntegerError(TokenV, IntegerParseFault),
    NoPrefixPartner,
}

impl DeepView for TokenExpectation {
    type V = TokenExpectationV;

    open spec fn deep_view(&self) -> TokenExpectationV {
        match self {
            TokenExpectation::SingleExpectation(t) => TokenExpectationV::Single(t@),
            TokenExpectation::MultipleExpectation(ts) => TokenExpectationV::Multiple(ts.deep_view()),
        }
    }
}

impl DeepView for ParseError {
    type V = ParseErrorV;

    open spec fn deep_view(&self) -> ParseErrorV {
        match self {
            ParseError::ExpectedToken => ParseErrorV::ExpectedToken,
            ParseError::UnexpectedToken { expected_token, found_token } => {
                ParseErrorV::UnexpectedToken {
                    expected_token: expected_token.deep_view(),
                    found_token: match found_token {
                        Some(t) => Some(t@),
                        None => None,
                    },
                }
            },
            ParseError::NoPrefixExpression(t) => ParseErrorV::NoPrefixExpression(t@),
            ParseError::NoInfixExpression(t) => ParseErrorV::NoInfixExpression(t@),
            ParseError::ParseIntegerError(t, f) => ParseErrorV::ParseIntegerError(t@, *f),
            ParseError::NoPrefixPartner => ParseErrorV::NoPrefixPartner,
        }
    }
}

} // verus!
