//! The token stream the parser consumes: an ordered token sequence with a
//! cursor, lookahead-1 peek, consume, expect, and resynchronization to the
//! next statement boundary.

use vstd::prelude::*;

use crate::lexer::{spec_tokenize_from, tokenize};
use crate::parse_errors::{ParseError, ParseErrorV, TokenExpectation, TokenExpectationV};
use crate::token::{
    spec_infix_operator, spec_token_precedence, Precedence, Token, TokenV,
};

verus! {

/// An ordered token sequence with a cursor. Tokens are produced once by the
/// lexer, consumed once, never mutated.
pub struct LexedTokens {
    pub tokens: Vec<Token>,
    pub pos: usize,
}

/// The token at the cursor, if any remains.
pub open spec fn spec_peek(toks: Seq<TokenV>, pos: int) -> Option<TokenV> {
    if 0 <= pos < toks.len() {
        Some(toks[pos])
    } else {
        None
    }
}

/// Consuming where a token is mandatory: the token and the cursor after it,
/// or the error for an exhausted stream.
pub open spec fn spec_expect(toks: Seq<TokenV>, pos: int) -> (Result<TokenV, ParseErrorV>, int) {
    if 0 <= pos < toks.len() {
        (Ok(toks[pos]), pos + 1)
    } else {
        (Err(ParseErrorV::ExpectedToken), pos)
    }
}

/// Demanding one specific token: consumed on sight; any other token is
/// consumed and reported, and an exhausted stream is reported without one.
pub open spec fn spec_expect_peek(toks: Seq<TokenV>, pos: int, expected: TokenV) -> (Result<
    (),
    ParseErrorV,
>, int) {
    if 0 <= pos < toks.len() {
        if toks[pos] == expected {
            (Ok(()), pos + 1)
        } else {
            (
                Err(
                    ParseErrorV::UnexpectedToken {
                        expected_token: TokenExpectationV::Single(expected),
                        found_token: Some(toks[pos]),
                    },
                ),
                pos + 1,
            )
        }
    } else {
        (
            Err(
                ParseErrorV::UnexpectedToken {
                    expected_token: TokenExpectationV::Single(expected),
                    found_token: None,
                },
            ),
            pos,
        )
    }
}

/// The cursor after optionally consuming one specific token.
pub open spec fn spec_optional_expect_peek(toks: Seq<TokenV>, pos: int, expected: TokenV) -> int {
    if spec_peek(toks, pos) == Some(expected) {
        pos + 1
    } else {
        pos
    }
}

/// Whether the token at the cursor carries an infix meaning.
pub open spec fn spec_next_has_infix(toks: Seq<TokenV>, pos: int) -> bool {
    match spec_peek(toks, pos) {
        Some(t) => spec_infix_operator(t) is Some,
        None => false,
    }
}

/// Binding power of the token at the cursor; lowest when none remains.
pub open spec fn spec_next_precedence(toks: Seq<TokenV>, pos: int) -> Precedence {
    match spec_peek(toks, pos) {
        Some(t) => spec_token_precedence(t),
        None => Precedence::Lowest,
    }
}

/// The cursor after discarding tokens up to and including the next statement
/// terminator (or the end of the stream).
pub open spec fn spec_resync(toks: Seq<TokenV>, pos: int) -> int
    decreases toks.len() - pos,
{
    if pos < 0 || pos >= toks.len() {
        pos
    } else if toks[pos] == TokenV::Period {
        pos + 1
    } else {
        spec_resync(toks, pos + 1)
    }
}

/// Whether two tokens are the same token with the same literal text.
pub fn token_matches(a: &Token, b: &Token) -> (r: bool)
    ensures
        r == (a@ == b@),
{
    match (a, b) {
        (Token::Ident(x), Token::Ident(y)) => x.eq(y),
        (Token::Int(x), Token::Int(y)) => x.eq(y),
        (Token::Assign, Token::Assign) => true,
        (Token::Period, Token::Period) => true,
        (Token::Comma, Token::Comma) => true,
        (Token::LParen, Token::LParen) => true,
        (Token::RParen, Token::RParen) => true,
        (Token::Lasagna, Token::Lasagna) => true,
        (Token::Else, Token::Else) => true,
        (Token::If, Token::If) => true,
        (Token::Func, Token::Func) => true,
        (Token::Return, Token::Return) => true,
        (Token::True, Token::True) => true,
        (Token::False, Token::False) => true,
        (Token::Bang, Token::Bang) => true,
        (Token::Minus, Token::Minus) => true,
        (Token::Plus, Token::Plus) => true,
        (Token::Asterisk, Token::Asterisk) => true,
        (Token::Slash, Token::Slash) => true,
        (Token::LessThan, Token::LessThan) => true,
        (Token::GreaterThan, Token::GreaterThan) => true,
        (Token::Equal, Token::Equal) => true,
        (Token::NotEqual, Token::NotEqual) => true,
        (Token::Illegal(x), Token::Illegal(y)) => x == y,
        _ => false,
    }
}

impl LexedTokens {
    /// The whole token sequence, as its mathematical view.
    pub open spec fn toks(&self) -> Seq<TokenV> {
        self.tokens.deep_view()
    }

    /// The cursor.
    pub open spec fn cursor(&self) -> int {
        self.pos as int
    }

    /// The cursor never leaves the token sequence.
    pub open spec fn wf(&self) -> bool {
        self.pos <= self.tokens@.len()
    }

    /// Lexes source text into a fresh stream with the cursor at the start.
    pub fn from(source_code: &str) -> (r: LexedTokens)
        ensures
            r.wf(),
            r.toks() == spec_tokenize_from(source_code@, 0),
            r.cursor() == 0,
    {
        let tokens = tokenize(source_code);
        proof {
            assert(tokens.deep_view().len() == tokens@.len());
        }
        LexedTokens { tokens, pos: 0 }
    }

    /// Looks at the token under the cursor without consuming it.
    pub fn peek(&self) -> (r: Option<&Token>)
        requires
            self.wf(),
        ensures
            match r {
                Some(t) => spec_peek(self.toks(), self.cursor()) == Some(t@),
                None => spec_peek(self.toks(), self.cursor()) is None,
            },
    {
        if self.pos < self.tokens.len() {
            Some(&self.tokens[self.pos])
        } else {
            None
        }
    }

    /// Consumes and returns the token under the cursor, if any remains.
    pub fn consume(&mut self) -> (r: Option<Token>)
        requires
            old(self).wf(),
        ensures
            final(self).wf(),
            final(self).toks() == old(self).toks(),
            match r {
                Some(t) => {
                    &&& spec_peek(old(self).toks(), old(self).cursor()) == Some(t@)
                    &&& final(self).cursor() == old(self).cursor() + 1
                },
                None => {
                    &&& spec_peek(old(self).toks(), old(self).cursor()) is None
                    &&& final(self).cursor() == old(self).cursor()
                },
            },
    {
        if self.pos < self.tokens.len() {
            let t = self.tokens[self.pos].clone();
            self.pos = self.pos + 1;
            Some(t)
        } else {
            None
        }
    }

    /// Consumes the token under the cursor, which must exist.
    pub fn expect(&mut self) -> (r: Result<Token, ParseError>)
        requires
            old(self).wf(),
        ensures
            final(self).wf(),
            final(self).toks() == old(self).toks(),
            ({
                let (r0, p0) = spec_expect(old(self).toks(), old(self).cursor());
                &&& final(self).cursor() == p0
                &&& match r {
                    Ok(t) => r0 == Ok::<TokenV, ParseErrorV>(t@),
                    Err(e) => r0 == Err::<TokenV, ParseErrorV>(e.deep_view()),
                }
            }),
    {
        match self.consume() {
            Some(t) => Ok(t),
            None => Err(ParseError::ExpectedToken),
        }
    }

    /// Demands one specific token and consumes it; any other token is
    /// consumed and reported.
    pub fn expect_peek(&mut self, expected: Token) -> (r: Result<(), ParseError>)
        requires
            old(self).wf(),
        ensures
            final(self).wf(),
            final(self).toks() == old(self).toks(),
            ({
                let (r0, p0) = spec_expect_peek(old(self).toks(), old(self).cursor(), expected@);
                &&& final(self).cursor() == p0
                &&& match r {
                    Ok(u) => r0 == Ok::<(), ParseErrorV>(()),
                    Err(e) => r0 == Err::<(), ParseErrorV>(e.deep_view()),
                }
            }),
    {
        match self.consume() {
            Some(t) => {
                if token_matches(&t, &expected) {
                    Ok(())
                } else {
                    Err(
                        ParseError::UnexpectedToken {
                            expected_token: TokenExpectation::SingleExpectation(expected),
                            found_token: Some(t),
                        },
                    )
                }
            },
            None => Err(
                ParseError::UnexpectedToken {
                    expected_token: TokenExpectation::SingleExpectation(expected),
                    found_token: None,
                },
            ),
        }
    }

    /// Consumes one specific token if it is next; otherwise does nothing.
    pub fn optional_expect_peek(&mut self, expected: &Token)
        requires
            old(self).wf(),
        ensures
            final(self).wf(),
            final(self).toks() == old(self).toks(),
            final(self).cursor() == spec_optional_expect_peek(
                old(self).toks(),
                old(self).cursor(),
                expected@,
            ),
    {
        if self.pos < self.tokens.len() {
            if token_matches(&self.tokens[self.pos], expected) {
                self.pos = self.pos + 1;
            }
        }
    }

    /// Whether one specific token is next.
    pub fn next_token_is(&self, t: &Token) -> (r: bool)
        requires
            self.wf(),
        ensures
            r == (spec_peek(self.toks(), self.cursor()) == Some(t@)),
    {
        if self.pos < self.tokens.len() {
            token_matches(&self.tokens[self.pos], t)
        } else {
            false
        }
    }

    /// Whether the next token carries an infix meaning.
    pub fn next_token_has_infix(&self) -> (r: bool)
        requires
            self.wf(),
        ensures
            r == spec_next_has_infix(self.toks(), self.cursor()),
    {
        if self.pos < self.tokens.len() {
            self.tokens[self.pos].infix_operator().is_some()
        } else {
            false
        }
    }

    /// Binding power of the next token; lowest when the stream is exhausted.
    pub fn next_token_precedence(&self) -> (r: Precedence)
        requires
            self.wf(),
        ensures
            r == spec_next_precedence(self.toks(), self.cursor()),
    {
        if self.pos < self.tokens.len() {
            self.tokens[self.pos].get_precedence()
        } else {
            Precedence::Lowest
        }
    }

    /// Discards tokens up to and including the next statement terminator, so
    /// that parsing can resume at the next statement.
    pub fn iterate_to_next_statement(&mut self)
        requires
            old(self).wf(),
        ensures
            final(self).wf(),
            final(self).toks() == old(self).toks(),
            final(self).cursor() == spec_resync(old(self).toks(), old(self).cursor()),
    {
        loop
            invariant
                self.wf(),
                self.toks() == old(self).toks(),
                spec_resync(old(self).toks(), old(self).cursor()) == spec_resync(
                    self.toks(),
                    self.cursor(),
                ),
            decreases self.tokens@.len() - self.pos,
        {
            if self.pos < self.tokens.len() {
                let is_period = token_matches(&self.tokens[self.pos], &Token::Period);
                self.pos = self.pos + 1;
                if is_period {
                    return ;
                }
            } else {
                return ;
            }
        }
    }
}

/// Resynchronization never moves backward and stays within the stream.
pub proof fn lemma_resync_bounds(toks: Seq<TokenV>, pos: int)
    requires
        0 <= pos <= toks.len(),
    ensures
        pos <= spec_resync(toks, pos) <= toks.len(),
    decreases toks.len() - pos,
{
    if pos < toks.len() && !(toks[pos] == TokenV::Period) {
        lemma_resync_bounds(toks, pos + 1);
    }
}

} // verus!
