//! The parser: precedence-climbing (Pratt) expression parsing with
//! statement-boundary error recovery. The spec functions below are the
//! mathematical parser the executable one is proved against: each takes the
//! token sequence and a cursor and yields a result and the cursor after it.

use vstd::prelude::*;

use crate::ast::{
    view_expr, view_program, view_stmt, view_stmts, BlockStatement, BlockV, Expression,
    ExpressionV, Identifier, Operator, Program, ProgramV, Statement, StatementV,
};
use crate::lexedtokens::{
    spec_expect, spec_expect_peek, spec_next_has_infix, spec_next_precedence,
    spec_optional_expect_peek, spec_peek, spec_resync, LexedTokens,
};
use crate::numbers::spec_parse_i32;
use crate::parse_errors::{ParseError, ParseErrorV, TokenExpectation, TokenExpectationV};
use crate::token::{
    precedence_lt, spec_infix_operator, spec_token_precedence, Precedence, Token, TokenV,
};

verus! {

/// Clamps a cursor coming out of a sub-parse into `lo..=len`, so that the
/// recursion below it is visibly bounded. Every sub-parse in fact stays in
/// that range, so the clamp never alters a value that a parse produced.
pub open spec fn bounded_advance(len: int, lo: int, p: int) -> int {
    if p < lo {
        if lo <= len {
            lo
        } else {
            len
        }
    } else if p > len {
        len
    } else {
        p
    }
}

/// Statement dispatch on the leading token: `return` starts a return
/// statement, an identifier followed by `:` starts an assignment, anything
/// else is an expression statement.
pub open spec fn spec_parse_statement(toks: Seq<TokenV>, pos: int) -> (Result<
    StatementV,
    ParseErrorV,
>, int)
    decreases toks.len() - pos, 8int,
{
    if !(0 <= pos < toks.len()) {
        (Err(ParseErrorV::ExpectedToken), pos)
    } else {
        let cur = toks[pos];
        match cur {
            TokenV::Return => spec_parse_return_statement(toks, pos + 1),
            TokenV::Ident(name) => match spec_peek(toks, pos + 1) {
                Some(TokenV::Assign) => spec_parse_assign_statement(toks, pos + 1, name),
                Some(_) => spec_parse_expression_statement(toks, pos + 1, cur),
                None => (Err(ParseErrorV::ExpectedToken), pos + 1),
            },
            _ => spec_parse_expression_statement(toks, pos + 1, cur),
        }
    }
}

/// An assignment statement after its identifier: `: expression .`.
pub open spec fn spec_parse_assign_statement(toks: Seq<TokenV>, pos: int, name: Seq<char>) -> (Result<
    StatementV,
    ParseErrorV,
>, int)
    decreases toks.len() - pos, 7int,
{
    let (r1, p1) = spec_expect_peek(toks, pos, TokenV::Assign);
    match r1 {
        Err(e) => (Err(e), p1),
        Ok(_) => {
            let (r2, p2) = spec_expect(toks, p1);
            match r2 {
                Err(e) => (Err(e), p2),
                Ok(cur) => {
                    let (r3, p3) = spec_parse_expression(toks, p2, cur, Precedence::Lowest);
                    match r3 {
                        Err(e) => (Err(e), p3),
                        Ok(expr) => {
                            let (r4, p4) = spec_expect_peek(toks, p3, TokenV::Period);
                            match r4 {
                                Err(e) => (Err(e), p4),
                                Ok(_) => (Ok(StatementV::Assign(name, expr)), p4),
                            }
                        },
                    }
                },
            }
        },
    }
}

/// A return statement after its keyword: `expression .`.
pub open spec fn spec_parse_return_statement(toks: Seq<TokenV>, pos: int) -> (Result<
    StatementV,
    ParseErrorV,
>, int)
    decreases toks.len() - pos, 7int,
{
    let (r1, p1) = spec_expect(toks, pos);
    match r1 {
        Err(e) => (Err(e), p1),
        Ok(cur) => {
            let (r2, p2) = spec_parse_expression(toks, p1, cur, Precedence::Lowest);
            match r2 {
                Err(e) => (Err(e), p2),
                Ok(expr) => {
                    let (r3, p3) = spec_expect_peek(toks, p2, TokenV::Period);
                    match r3 {
                        Err(e) => (Err(e), p3),
                        Ok(_) => (Ok(StatementV::Return(expr)), p3),
                    }
                },
            }
        },
    }
}

/// An expression statement: the expression, then an optional terminator.
pub open spec fn spec_parse_expression_statement(toks: Seq<TokenV>, pos: int, cur: TokenV) -> (Result<
    StatementV,
    ParseErrorV,
>, int)
    decreases toks.len() - pos, 7int,
{
    let (r, p) = spec_parse_expression(toks, pos, cur, Precedence::Lowest);
    match r {
        Err(e) => (Err(e), p),
        Ok(expr) => (
            Ok(StatementV::Expr(expr)),
            spec_optional_expect_peek(toks, p, TokenV::Period),
        ),
    }
}

/// Precedence climbing: a prefix production for the current token, then as
/// many infix continuations as bind tighter than `precedence`.
pub open spec fn spec_parse_expression(
    toks: Seq<TokenV>,
    pos: int,
    cur: TokenV,
    precedence: Precedence,
) -> (Result<ExpressionV, ParseErrorV>, int)
    decreases toks.len() - pos, 6int,
{
    if !(0 <= pos <= toks.len()) {
        (Err(ParseErrorV::ExpectedToken), pos)
    } else {
        spec_parse_expression_guarded(toks, pos, cur, precedence)
    }
}

/// The body of `spec_parse_expression`, once the cursor is known to lie in
/// the token sequence.
pub open spec fn spec_parse_expression_guarded(
    toks: Seq<TokenV>,
    pos: int,
    cur: TokenV,
    precedence: Precedence,
) -> (Result<ExpressionV, ParseErrorV>, int)
    decreases toks.len() - pos, 5int,
    when 0 <= pos <= toks.len()
{
    let (r, p) = spec_parse_prefix_expression(toks, pos, cur);
    match r {
        Err(e) => (Err(e), p),
        Ok(left) => spec_parse_infix_loop(
            toks,
            bounded_advance(toks.len() as int, pos, p),
            precedence,
            left,
        ),
    }
}

/// The infix loop: while the next token has an infix meaning whose binding
/// power strictly exceeds `precedence`, consume it and fold its right-hand
/// side into `left`. The strict comparison makes equal precedences
/// left-associative.
pub open spec fn spec_parse_infix_loop(
    toks: Seq<TokenV>,
    pos: int,
    precedence: Precedence,
    left: ExpressionV,
) -> (Result<ExpressionV, ParseErrorV>, int)
    decreases toks.len() - pos, 4int,
{
    if 0 <= pos < toks.len() && spec_next_has_infix(toks, pos) && precedence_lt(
        precedence,
        spec_next_precedence(toks, pos),
    ) {
        let cur = toks[pos];
        let (r, p) = spec_parse_infix_expression(toks, pos + 1, left, cur);
        match r {
            Err(e) => (Err(e), p),
            Ok(folded) => spec_parse_infix_loop(
                toks,
                bounded_advance(toks.len() as int, pos + 1, p),
                precedence,
                folded,
            ),
        }
    } else {
        (Ok(left), pos)
    }
}

/// One infix continuation: the operator token, then its right-hand side at
/// the operator's own binding power.
pub open spec fn spec_parse_infix_expression(
    toks: Seq<TokenV>,
    pos: int,
    left: ExpressionV,
    token: TokenV,
) -> (Result<ExpressionV, ParseErrorV>, int)
    decreases toks.len() - pos, 0int,
{
    match spec_infix_operator(token) {
        Some(operator) => {
            let (r1, p1) = spec_expect(toks, pos);
            match r1 {
                Err(e) => (Err(e), p1),
                Ok(next) => {
                    let (r2, p2) = spec_parse_expression(
                        toks,
                        p1,
                        next,
                        spec_token_precedence(token),
                    );
                    match r2 {
                        Err(e) => (Err(e), p2),
                        Ok(right) => (
                            Ok(
                                ExpressionV::Infix {
                                    left: Box::new(left),
                                    right: Box::new(right),
                                    operator,
                                },
                            ),
                            p2,
                        ),
                    }
                },
            }
        },
        None => (Err(ParseErrorV::NoInfixExpression(token)), pos),
    }
}

/// The prefix production of the current token: literals map to literal
/// expressions, `!` and `-` wrap their operand, `(` groups, `if` and `fn`
/// open their forms; any other token has no prefix meaning.
pub open spec fn spec_parse_prefix_expression(toks: Seq<TokenV>, pos: int, cur: TokenV) -> (Result<
    ExpressionV,
    ParseErrorV,
>, int)
    decreases toks.len() - pos, 4int,
{
    match cur {
        TokenV::Ident(name) => (Ok(ExpressionV::IdentifierLiteral(name)), pos),
        TokenV::Int(text) => match spec_parse_i32(text) {
            Ok(n) => (Ok(ExpressionV::IntegerLiteral(n)), pos),
            Err(fault) => (Err(ParseErrorV::ParseIntegerError(cur, fault)), pos),
        },
        TokenV::Bang => spec_create_prefix_expression(toks, pos, Operator::Bang),
        TokenV::Minus => spec_create_prefix_expression(toks, pos, Operator::Minus),
        TokenV::LParen => spec_create_grouped_expression(toks, pos),
        TokenV::If => spec_parse_if_expression(toks, pos),
        TokenV::Func => spec_parse_function_literal(toks, pos),
        TokenV::True => (Ok(ExpressionV::BooleanLiteral(true)), pos),
        TokenV::False => (Ok(ExpressionV::BooleanLiteral(false)), pos),
        _ => (Err(ParseErrorV::NoPrefixExpression(cur)), pos),
    }
}

/// A prefix operator's operand, parsed at prefix binding power.
pub open spec fn spec_create_prefix_expression(toks: Seq<TokenV>, pos: int, operator: Operator) -> (Result<
    ExpressionV,
    ParseErrorV,
>, int)
    decreases toks.len() - pos, 2int,
{
    if !(0 <= pos < toks.len()) {
        (Err(ParseErrorV::NoPrefixPartner), pos)
    } else {
        let cur = toks[pos];
        let (r, p) = spec_parse_expression(toks, pos + 1, cur, Precedence::Prefix);
        match r {
            Err(e) => (Err(e), p),
            Ok(right) => (
                Ok(ExpressionV::Prefix { right: Box::new(right), operator }),
                p,
            ),
        }
    }
}

/// A parenthesized group: the inner expression restarts at lowest binding
/// power and the closing parenthesis is demanded even after an inner error.
pub open spec fn spec_create_grouped_expression(toks: Seq<TokenV>, pos: int) -> (Result<
    ExpressionV,
    ParseErrorV,
>, int)
    decreases toks.len() - pos, 2int,
{
    let (r1, p1) = spec_expect(toks, pos);
    match r1 {
        Err(e) => (Err(e), p1),
        Ok(cur) => {
            let (r2, p2) = spec_parse_expression(toks, p1, cur, Precedence::Lowest);
            let (r3, p3) = spec_expect_peek(
                toks,
                bounded_advance(toks.len() as int, p1, p2),
                TokenV::RParen,
            );
            match r3 {
                Err(e) => (Err(e), p3),
                Ok(_) => (r2, p3),
            }
        },
    }
}

/// A conditional: condition, `:`, consequence block, then either the block
/// terminator or `else: alternative ~`.
pub open spec fn spec_parse_if_expression(toks: Seq<TokenV>, pos: int) -> (Result<
    ExpressionV,
    ParseErrorV,
>, int)
    decreases toks.len() - pos, 3int,
{
    let (r1, p1) = spec_expect(toks, pos);
    match r1 {
        Err(e) => (Err(e), p1),
        Ok(cur) => {
            let (r2, p2) = spec_parse_expression(toks, p1, cur, Precedence::Lowest);
            match r2 {
                Err(e) => (Err(e), p2),
                Ok(condition) => {
                    let (r3, p3) = spec_expect_peek(
                        toks,
                        bounded_advance(toks.len() as int, p1, p2),
                        TokenV::Assign,
                    );
                    match r3 {
                        Err(e) => (Err(e), p3),
                        Ok(_) => {
                            let (r4, p4) = spec_parse_blockstatement(
                                toks,
                                bounded_advance(toks.len() as int, pos + 1, p3),
                            );
                            match r4 {
                                Err(e) => (Err(e), p4),
                                Ok(consequence) => spec_parse_if_alternative(
                                    toks,
                                    bounded_advance(toks.len() as int, pos + 1, p4),
                                    condition,
                                    consequence,
                                ),
                            }
                        },
                    }
                },
            }
        },
    }
}

/// After a consequence block: `~` closes the conditional, `else` opens the
/// alternative block, anything else is reported against those two.
pub open spec fn spec_parse_if_alternative(
    toks: Seq<TokenV>,
    pos: int,
    condition: ExpressionV,
    consequence: BlockV,
) -> (Result<ExpressionV, ParseErrorV>, int)
    decreases toks.len() - pos, 2int,
{
    if !(0 <= pos < toks.len()) {
        (Err(ParseErrorV::ExpectedToken), pos)
    } else {
        match toks[pos] {
            TokenV::Lasagna => (
                Ok(
                    ExpressionV::Cond {
                        condition: Box::new(condition),
                        consequence,
                        alternative: None,
                    },
                ),
                pos + 1,
            ),
            TokenV::Else => {
                let (r1, p1) = spec_expect_peek(toks, pos + 1, TokenV::Assign);
                match r1 {
                    Err(e) => (Err(e), p1),
                    Ok(_) => {
                        let (r2, p2) = spec_parse_blockstatement(
                            toks,
                            bounded_advance(toks.len() as int, pos + 1, p1),
                        );
                        match r2 {
                            Err(e) => (Err(e), p2),
                            Ok(alternative) => {
                                let (r3, p3) = spec_expect_peek(toks, p2, TokenV::Lasagna);
                                match r3 {
                                    Err(e) => (Err(e), p3),
                                    Ok(_) => (
                                        Ok(
                                            ExpressionV::Cond {
                                                condition: Box::new(condition),
                                                consequence,
                                                alternative: Some(alternative),
                                            },
                                        ),
                                        p3,
                                    ),
                                }
                            },
                        }
                    },
                }
            },
            other => (
                Err(
                    ParseErrorV::UnexpectedToken {
                        expected_token: TokenExpectationV::Multiple(
                            seq![TokenV::Lasagna, TokenV::Else],
                        ),
                        found_token: Some(other),
                    },
                ),
                pos + 1,
            ),
        }
    }
}

/// A function literal after its keyword: parameter list, `:`, body block,
/// `~`.
pub open spec fn spec_parse_function_literal(toks: Seq<TokenV>, pos: int) -> (Result<
    ExpressionV,
    ParseErrorV,
>, int)
    decreases toks.len() - pos, 3int,
{
    if !(0 <= pos < toks.len()) {
        (
            Err(
                ParseErrorV::UnexpectedToken {
                    expected_token: TokenExpectationV::Single(TokenV::Assign),
                    found_token: None,
                },
            ),
            pos,
        )
    } else {
        let (r1, p1) = spec_parse_function_parameters(toks, pos);
        match r1 {
            Err(e) => (Err(e), p1),
            Ok(parameters) => {
                let (r2, p2) = spec_expect_peek(
                    toks,
                    bounded_advance(toks.len() as int, pos, p1),
                    TokenV::Assign,
                );
                match r2 {
                    Err(e) => (Err(e), p2),
                    Ok(_) => {
                        let (r3, p3) = spec_parse_blockstatement(
                            toks,
                            bounded_advance(toks.len() as int, pos + 1, p2),
                        );
                        match r3 {
                            Err(e) => (Err(e), p3),
                            Ok(body) => {
                                let (r4, p4) = spec_expect_peek(toks, p3, TokenV::Lasagna);
                                match r4 {
                                    Err(e) => (Err(e), p4),
                                    Ok(_) => (
                                        Ok(ExpressionV::Function { parameters, body }),
                                        p4,
                                    ),
                                }
                            },
                        }
                    },
                }
            },
        }
    }
}

/// What one parameter must be: an identifier.
pub open spec fn spec_parse_literal(toks: Seq<TokenV>, pos: int) -> (Result<
    Seq<char>,
    ParseErrorV,
>, int) {
    if !(0 <= pos < toks.len()) {
        (Err(ParseErrorV::ExpectedToken), pos)
    } else {
        match toks[pos] {
            TokenV::Ident(name) => (Ok(name), pos + 1),
            other => (
                Err(
                    ParseErrorV::UnexpectedToken {
                        expected_token: TokenExpectationV::Single(TokenV::Ident(Seq::empty())),
                        found_token: Some(other),
                    },
                ),
                pos + 1,
            ),
        }
    }
}

/// The comma-separated parameter list of a function literal, accumulated
/// into `acc` until the closing parenthesis (or the end of the stream).
pub open spec fn spec_parse_function_parameters_rec(
    toks: Seq<TokenV>,
    pos: int,
    acc: Seq<Seq<char>>,
) -> (Result<Seq<Seq<char>>, ParseErrorV>, int)
    decreases toks.len() - pos, 1int,
{
    if !(0 <= pos < toks.len()) {
        (Ok(acc), pos)
    } else {
        match toks[pos] {
            TokenV::LParen | TokenV::Comma => match spec_peek(toks, pos + 1) {
                Some(TokenV::RParen) => (Ok(acc), pos + 2),
                Some(_) => {
                    let (r, p) = spec_parse_literal(toks, pos + 1);
                    match r {
                        Err(e) => (Err(e), p),
                        Ok(name) => spec_parse_function_parameters_rec(
                            toks,
                            pos + 2,
                            acc.push(name),
                        ),
                    }
                },
                None => (Err(ParseErrorV::ExpectedToken), pos + 1),
            },
            TokenV::RParen => (Ok(acc), pos + 1),
            other => (
                Err(
                    ParseErrorV::UnexpectedToken {
                        expected_token: TokenExpectationV::Multiple(
                            seq![TokenV::Comma, TokenV::RParen],
                        ),
                        found_token: Some(other),
                    },
                ),
                pos + 1,
            ),
        }
    }
}

/// The whole parameter list, from an empty accumulator.
pub open spec fn spec_parse_function_parameters(toks: Seq<TokenV>, pos: int) -> (Result<
    Seq<Seq<char>>,
    ParseErrorV,
>, int)
    decreases toks.len() - pos, 2int,
{
    spec_parse_function_parameters_rec(toks, pos, Seq::empty())
}

/// A block: statements until the next token is the block terminator or
/// `else`; the first statement error aborts the block.
pub open spec fn spec_parse_blockstatement_rec(
    toks: Seq<TokenV>,
    pos: int,
    acc: Seq<StatementV>,
) -> (Result<BlockV, ParseErrorV>, int)
    decreases toks.len() - pos, 9int,
{
    if !(0 <= pos < toks.len()) {
        (Err(ParseErrorV::ExpectedToken), pos)
    } else if spec_peek(toks, pos) == Some(TokenV::Lasagna) || spec_peek(toks, pos) == Some(
        TokenV::Else,
    ) {
        (Ok(BlockV { statements: acc }), pos)
    } else {
        let (r, p) = spec_parse_statement(toks, pos);
        match r {
            Err(e) => (Err(e), p),
            Ok(st) => spec_parse_blockstatement_rec(
                toks,
                bounded_advance(toks.len() as int, pos + 1, p),
                acc.push(st),
            ),
        }
    }
}

/// A block from an empty accumulator.
pub open spec fn spec_parse_blockstatement(toks: Seq<TokenV>, pos: int) -> (Result<
    BlockV,
    ParseErrorV,
>, int)
    decreases toks.len() - pos, 10int,
{
    spec_parse_blockstatement_rec(toks, pos, Seq::empty())
}

/// The statement loop with error recovery: on a statement error the cursor
/// resynchronizes past the next statement terminator and parsing goes on, so
/// one malformed statement never blocks the statements after it.
pub open spec fn spec_parse_program_rec(
    toks: Seq<TokenV>,
    pos: int,
    stmts: Seq<StatementV>,
    errs: Seq<ParseErrorV>,
) -> ProgramV
    decreases toks.len() - pos, 11int,
{
    if !(0 <= pos < toks.len()) {
        ProgramV { statements: stmts, parse_errors: errs }
    } else {
        let (r, p) = spec_parse_statement(toks, pos);
        match r {
            Ok(st) => spec_parse_program_rec(
                toks,
                bounded_advance(toks.len() as int, pos + 1, p),
                stmts.push(st),
                errs,
            ),
            Err(e) => spec_parse_program_rec(
                toks,
                bounded_advance(toks.len() as int, pos + 1, spec_resync(toks, p)),
                stmts,
                errs.push(e),
            ),
        }
    }
}

/// The program a token sequence parses to: its statements and its errors, in
/// order.
pub open spec fn spec_parse_program(toks: Seq<TokenV>, pos: int) -> ProgramV {
    spec_parse_program_rec(toks, pos, Seq::empty(), Seq::empty())
}


/// View of an expression parse result.
pub open spec fn view_expr_result(r: Result<Expression, ParseError>) -> Result<
    ExpressionV,
    ParseErrorV,
> {
    match r {
        Ok(e) => Ok(view_expr(e)),
        Err(e) => Err(e.deep_view()),
    }
}

/// View of a statement parse result.
pub open spec fn view_stmt_result(r: Result<Statement, ParseError>) -> Result<
    StatementV,
    ParseErrorV,
> {
    match r {
        Ok(st) => Ok(view_stmt(st)),
        Err(e) => Err(e.deep_view()),
    }
}

/// View of a block parse result.
pub open spec fn view_block_result(r: Result<BlockStatement, ParseError>) -> Result<
    BlockV,
    ParseErrorV,
> {
    match r {
        Ok(b) => Ok(crate::ast::view_block(b)),
        Err(e) => Err(e.deep_view()),
    }
}

/// Views of a sequence of identifiers.
pub open spec fn view_idents(v: Seq<Identifier>) -> Seq<Seq<char>> {
    v.map_values(|p: Identifier| p.0@)
}

/// View of a parameter-list parse result.
pub open spec fn view_params_result(r: Result<Vec<Identifier>, ParseError>) -> Result<
    Seq<Seq<char>>,
    ParseErrorV,
> {
    match r {
        Ok(v) => Ok(view_idents(v@)),
        Err(e) => Err(e.deep_view()),
    }
}

/// View of a single-identifier parse result.
pub open spec fn view_ident_result(r: Result<Identifier, ParseError>) -> Result<
    Seq<char>,
    ParseErrorV,
> {
    match r {
        Ok(id) => Ok(id.0@),
        Err(e) => Err(e.deep_view()),
    }
}

/// The parser: consumes its token stream and produces an abstract syntax
/// tree plus the list of accumulated syntax errors; it never aborts on the
/// first error.
pub struct Parser {
    pub token_iter: LexedTokens,
}

impl Parser {
    /// The whole token sequence the parser was given.
    pub open spec fn toks(&self) -> Seq<TokenV> {
        self.token_iter.toks()
    }

    /// The cursor into the token sequence.
    pub open spec fn cursor(&self) -> int {
        self.token_iter.cursor()
    }

    /// The cursor lies within the token sequence.
    pub open spec fn wf(&self) -> bool {
        self.token_iter.wf()
    }

    /// Wraps a token stream into a parser at its start.
    pub fn new(tokens: LexedTokens) -> (r: Parser)
        requires
            tokens.wf(),
        ensures
            r.wf(),
            r.toks() == tokens.toks(),
            r.cursor() == tokens.cursor(),
    {
        Parser { token_iter: tokens }
    }

    /// Parses the whole stream into a program: every statement that parses
    /// is kept, every statement error is recorded and parsing resumes past
    /// the next statement boundary.
    pub fn parse_program(&mut self) -> (r: Program)
        requires
            old(self).wf(),
        ensures
            final(self).wf(),
            final(self).toks() == old(self).toks(),
            view_program(r) == spec_parse_program(old(self).toks(), old(self).cursor()),
    {
        let ghost toks = old(self).toks();
        let ghost pos0 = old(self).cursor();
        let mut statements: Vec<Statement> = Vec::new();
        let mut parse_errors: Vec<ParseError> = Vec::new();
        proof {
            assert(view_stmts(statements@) =~= Seq::<StatementV>::empty());
            assert(parse_errors.deep_view() =~= Seq::<ParseErrorV>::empty());
        }
        loop
            invariant
                toks == old(self).toks(),
                pos0 == old(self).cursor(),
                self.wf(),
                self.toks() == toks,
                pos0 <= self.cursor(),
                spec_parse_program_rec(
                    toks,
                    self.cursor(),
                    view_stmts(statements@),
                    parse_errors.deep_view(),
                ) == spec_parse_program(toks, pos0),
            decreases toks.len() - self.cursor(),
        {
            let more = match self.token_iter.peek() {
                Some(_) => true,
                None => false,
            };
            if !more {
                proof {
                    assert(spec_parse_program_rec(
                        toks,
                        self.cursor(),
                        view_stmts(statements@),
                        parse_errors.deep_view(),
                    ) == ProgramV {
                        statements: view_stmts(statements@),
                        parse_errors: parse_errors.deep_view(),
                    });
                }
                return Program { statements, parse_errors };
            }
            let ghost pos = self.cursor();
            let ghost stv = view_stmts(statements@);
            let ghost erv = parse_errors.deep_view();
            match self.parse_statement() {
                Ok(parsed_statement) => {
                    proof {
                        crate::ast::lemma_view_stmts_push(statements@, parsed_statement);
                    }
                    statements.push(parsed_statement);
                    proof {
                        assert(view_stmts(statements@) =~= stv.push(view_stmt(statements@.last())));
                    }
                },
                Err(parse_error) => {
                    let ghost p = self.cursor();
                    self.token_iter.iterate_to_next_statement();
                    proof {
                        crate::lexedtokens::lemma_resync_bounds(toks, p);
                    }
                    let ghost ev = parse_error.deep_view();
                    parse_errors.push(parse_error);
                    proof {
                        assert(parse_errors.deep_view() =~= erv.push(ev));
                    }
                },
            }
        }
    }

    /// One statement, dispatched on its leading token.
    fn parse_statement(&mut self) -> (r: Result<Statement, ParseError>)
        requires
            old(self).wf(),
        ensures
            final(self).wf(),
            final(self).toks() == old(self).toks(),
            view_stmt_result(r) == spec_parse_statement(old(self).toks(), old(self).cursor()).0,
            final(self).cursor() == spec_parse_statement(old(self).toks(), old(self).cursor()).1,
            old(self).cursor() <= final(self).cursor(),
            old(self).cursor() < old(self).toks().len() ==> old(self).cursor() + 1 <= final(self).cursor(),
        decreases self.toks().len() - self.cursor(), 8int,
    {
        match self.token_iter.consume() {
            Some(Token::Return) => self.parse_return_statement(),
            Some(Token::Ident(identifier)) => {
                let has_next = match self.token_iter.peek() {
                    Some(Token::Assign) => 1u8,
                    Some(_) => 2u8,
                    None => 0u8,
                };
                if has_next == 1 {
                    self.parse_assign_statement(identifier)
                } else if has_next == 2 {
                    self.parse_expression_statement(Token::Ident(identifier))
                } else {
                    Err(ParseError::ExpectedToken)
                }
            },
            Some(token) => self.parse_expression_statement(token),
            None => Err(ParseError::ExpectedToken),
        }
    }

    /// An assignment statement after its identifier.
    fn parse_assign_statement(&mut self, identifier: String) -> (r: Result<Statement, ParseError>)
        requires
            old(self).wf(),
        ensures
            final(self).wf(),
            final(self).toks() == old(self).toks(),
            view_stmt_result(r) == spec_parse_assign_statement(
                old(self).toks(),
                old(self).cursor(),
                identifier@,
            ).0,
            final(self).cursor() == spec_parse_assign_statement(
                old(self).toks(),
                old(self).cursor(),
                identifier@,
            ).1,
            old(self).cursor() <= final(self).cursor(),
        decreases self.toks().len() - self.cursor(), 7int,
    {
        match self.token_iter.expect_peek(Token::Assign) {
            Ok(u) => u,
            Err(e) => {
                return Err(e);
            },
        };
        let next_token = match self.token_iter.expect() {
            Ok(t) => t,
            Err(e) => {
                return Err(e);
            },
        };
        let expression = match self.parse_expression(next_token, Precedence::Lowest) {
            Ok(e) => e,
            Err(e) => {
                return Err(e);
            },
        };
        match self.token_iter.expect_peek(Token::Period) {
            Ok(u) => u,
            Err(e) => {
                return Err(e);
            },
        };
        Ok(Statement::AssignStatement(Identifier(identifier), expression))
    }

    /// A return statement after its keyword.
    fn parse_return_statement(&mut self) -> (r: Result<Statement, ParseError>)
        requires
            old(self).wf(),
        ensures
            final(self).wf(),
            final(self).toks() == old(self).toks(),
            view_stmt_result(r) == spec_parse_return_statement(
                old(self).toks(),
                old(self).cursor(),
            ).0,
            final(self).cursor() == spec_parse_return_statement(
                old(self).toks(),
                old(self).cursor(),
            ).1,
            old(self).cursor() <= final(self).cursor(),
        decreases self.toks().len() - self.cursor(), 7int,
    {
        let next_token = match self.token_iter.expect() {
            Ok(t) => t,
            Err(e) => {
                return Err(e);
            },
        };
        let expression = match self.parse_expression(next_token, Precedence::Lowest) {
            Ok(e) => e,
            Err(e) => {
                return Err(e);
            },
        };
        match self.token_iter.expect_peek(Token::Period) {
            Ok(u) => u,
            Err(e) => {
                return Err(e);
            },
        };
        Ok(Statement::ReturnStatement(expression))
    }

    /// An expression statement: its expression, then an optional terminator.
    fn parse_expression_statement(&mut self, current_token: Token) -> (r: Result<
        Statement,
        ParseError,
    >)
        requires
            old(self).wf(),
        ensures
            final(self).wf(),
            final(self).toks() == old(self).toks(),
            view_stmt_result(r) == spec_parse_expression_statement(
                old(self).toks(),
                old(self).cursor(),
                current_token@,
            ).0,
            final(self).cursor() == spec_parse_expression_statement(
                old(self).toks(),
                old(self).cursor(),
                current_token@,
            ).1,
            old(self).cursor() <= final(self).cursor(),
        decreases self.toks().len() - self.cursor(), 7int,
    {
        let expression = match self.parse_expression(current_token, Precedence::Lowest) {
            Ok(e) => e,
            Err(e) => {
                return Err(e);
            },
        };
        self.token_iter.optional_expect_peek(&Token::Period);
        Ok(Statement::ExpressionStatement(expression))
    }

    /// Precedence climbing: the prefix production of the current token, then
    /// every infix continuation binding tighter than `precedence`.
    fn parse_expression(&mut self, current_token: Token, precedence: Precedence) -> (r: Result<
        Expression,
        ParseError,
    >)
        requires
            old(self).wf(),
        ensures
            final(self).wf(),
            final(self).toks() == old(self).toks(),
            view_expr_result(r) == spec_parse_expression(
                old(self).toks(),
                old(self).cursor(),
                current_token@,
                precedence,
            ).0,
            final(self).cursor() == spec_parse_expression(
                old(self).toks(),
                old(self).cursor(),
                current_token@,
                precedence,
            ).1,
            old(self).cursor() <= final(self).cursor(),
        decreases self.toks().len() - self.cursor(), 6int,
    {
        let ghost toks = old(self).toks();
        let ghost pos0 = old(self).cursor();
        let mut left = match self.parse_prefix_expression(current_token) {
            Ok(e) => e,
            Err(e) => {
                return Err(e);
            },
        };
        loop
            invariant
                toks == old(self).toks(),
                pos0 == old(self).cursor(),
                self.wf(),
                self.toks() == toks,
                pos0 <= self.cursor(),
                spec_parse_infix_loop(toks, self.cursor(), precedence, view_expr(left))
                    == spec_parse_expression(toks, pos0, current_token@, precedence),
            decreases toks.len() - self.cursor(),
        {
            let go = self.token_iter.next_token_has_infix() && crate::token::precedence_is_lt(
                precedence,
                self.token_iter.next_token_precedence(),
            );
            if !go {
                return Ok(left);
            }
            let next_token = match self.token_iter.expect() {
                Ok(t) => t,
                Err(e) => {
                    // a token with infix meaning is under the cursor, so the
                    // stream cannot be exhausted here
                    proof {
                        assert(false);
                    }
                    return Err(e);
                },
            };
            left = match self.parse_infix_expression(left, next_token) {
                Ok(e) => e,
                Err(e) => {
                    return Err(e);
                },
            };
        }
    }

    /// One infix continuation folding `left` with the operator's right-hand
    /// side.
    fn parse_infix_expression(&mut self, left: Expression, token: Token) -> (r: Result<
        Expression,
        ParseError,
    >)
        requires
            old(self).wf(),
        ensures
            final(self).wf(),
            final(self).toks() == old(self).toks(),
            view_expr_result(r) == spec_parse_infix_expression(
                old(self).toks(),
                old(self).cursor(),
                view_expr(left),
                token@,
            ).0,
            final(self).cursor() == spec_parse_infix_expression(
                old(self).toks(),
                old(self).cursor(),
                view_expr(left),
                token@,
            ).1,
            old(self).cursor() <= final(self).cursor(),
        decreases self.toks().len() - self.cursor(), 0int,
    {
        match token.infix_operator() {
            Some(operator) => {
                let precedence = token.get_precedence();
                let next_token = match self.token_iter.expect() {
                    Ok(t) => t,
                    Err(e) => {
                        return Err(e);
                    },
                };
                let right = match self.parse_expression(next_token, precedence) {
                    Ok(e) => e,
                    Err(e) => {
                        return Err(e);
                    },
                };
                Ok(
                    Expression::InfixExpression {
                        left: Box::new(left),
                        right: Box::new(right),
                        operator,
                    },
                )
            },
            None => Err(ParseError::NoInfixExpression(token)),
        }
    }

    /// The prefix production of the current token.
    fn parse_prefix_expression(&mut self, token: Token) -> (r: Result<Expression, ParseError>)
        requires
            old(self).wf(),
        ensures
            final(self).wf(),
            final(self).toks() == old(self).toks(),
            view_expr_result(r) == spec_parse_prefix_expression(
                old(self).toks(),
                old(self).cursor(),
                token@,
            ).0,
            final(self).cursor() == spec_parse_prefix_expression(
                old(self).toks(),
                old(self).cursor(),
                token@,
            ).1,
            old(self).cursor() <= final(self).cursor(),
        decreases self.toks().len() - self.cursor(), 4int,
    {
        match token {
            Token::Ident(literal) => Ok(Expression::IdentifierLiteral(Identifier(literal))),
            Token::Int(literal) => {
                match crate::numbers::parse_i32_digits(literal.as_str()) {
                    Ok(parsed_number) => Ok(Expression::IntegerLiteral(parsed_number)),
                    Err(fault) => Err(ParseError::ParseIntegerError(Token::Int(literal), fault)),
                }
            },
            Token::Bang => self.create_prefix_expression(Operator::Bang),
            Token::Minus => self.create_prefix_expression(Operator::Minus),
            Token::LParen => self.create_grouped_expression(),
            Token::If => self.parse_if_expression(),
            Token::Func => self.parse_function_literal(),
            Token::True => Ok(Expression::BooleanLiteral(true)),
            Token::False => Ok(Expression::BooleanLiteral(false)),
            unexpected_token => Err(ParseError::NoPrefixExpression(unexpected_token)),
        }
    }

    /// A prefix operator's operand at prefix binding power.
    fn create_prefix_expression(&mut self, operator: Operator) -> (r: Result<
        Expression,
        ParseError,
    >)
        requires
            old(self).wf(),
        ensures
            final(self).wf(),
            final(self).toks() == old(self).toks(),
            view_expr_result(r) == spec_create_prefix_expression(
                old(self).toks(),
                old(self).cursor(),
                operator,
            ).0,
            final(self).cursor() == spec_create_prefix_expression(
                old(self).toks(),
                old(self).cursor(),
                operator,
            ).1,
            old(self).cursor() <= final(self).cursor(),
        decreases self.toks().len() - self.cursor(), 2int,
    {
        let token = match self.token_iter.consume() {
            Some(token) => token,
            None => {
                return Err(ParseError::NoPrefixPartner);
            },
        };
        let right = match self.parse_expression(token, Precedence::Prefix) {
            Ok(e) => e,
            Err(e) => {
                return Err(e);
            },
        };
        Ok(Expression::PrefixExpression { right: Box::new(right), operator })
    }

    /// A parenthesized group: the inner expression restarts at lowest
    /// binding power; the closing parenthesis is demanded even after an
    /// inner error, whose report then wins.
    fn create_grouped_expression(&mut self) -> (r: Result<Expression, ParseError>)
        requires
            old(self).wf(),
        ensures
            final(self).wf(),
            final(self).toks() == old(self).toks(),
            view_expr_result(r) == spec_create_grouped_expression(
                old(self).toks(),
                old(self).cursor(),
            ).0,
            final(self).cursor() == spec_create_grouped_expression(
                old(self).toks(),
                old(self).cursor(),
            ).1,
            old(self).cursor() <= final(self).cursor(),
        decreases self.toks().len() - self.cursor(), 2int,
    {
        let next_token = match self.token_iter.expect() {
            Ok(t) => t,
            Err(e) => {
                return Err(e);
            },
        };
        let grouped_expression = self.parse_expression(next_token, Precedence::Lowest);
        match self.token_iter.expect_peek(Token::RParen) {
            Ok(u) => u,
            Err(e) => {
                return Err(e);
            },
        };
        grouped_expression
    }

    /// A conditional expression after its keyword.
    #[verifier::rlimit(100)]
    fn parse_if_expression(&mut self) -> (r: Result<Expression, ParseError>)
        requires
            old(self).wf(),
        ensures
            final(self).wf(),
            final(self).toks() == old(self).toks(),
            view_expr_result(r) == spec_parse_if_expression(
                old(self).toks(),
                old(self).cursor(),
            ).0,
            final(self).cursor() == spec_parse_if_expression(
                old(self).toks(),
                old(self).cursor(),
            ).1,
            old(self).cursor() <= final(self).cursor(),
        decreases self.toks().len() - self.cursor(), 3int,
    {
        let next_token = match self.token_iter.expect() {
            Ok(t) => t,
            Err(e) => {
                return Err(e);
            },
        };
        let condition = match self.parse_expression(next_token, Precedence::Lowest) {
            Ok(e) => e,
            Err(e) => {
                return Err(e);
            },
        };
        match self.token_iter.expect_peek(Token::Assign) {
            Ok(u) => u,
            Err(e) => {
                return Err(e);
            },
        };
        let consequence = match self.parse_blockstatement() {
            Ok(b) => b,
            Err(e) => {
                return Err(e);
            },
        };
        match self.token_iter.consume() {
            Some(Token::Lasagna) => Ok(
                Expression::IfExpression {
                    condition: Box::new(condition),
                    consequence,
                    alternative: None,
                },
            ),
            Some(Token::Else) => {
                match self.token_iter.expect_peek(Token::Assign) {
                    Ok(u) => u,
                    Err(e) => {
                        return Err(e);
                    },
                };
                let else_block = match self.parse_blockstatement() {
                    Ok(b) => b,
                    Err(e) => {
                        return Err(e);
                    },
                };
                match self.token_iter.expect_peek(Token::Lasagna) {
                    Ok(u) => u,
                    Err(e) => {
                        return Err(e);
                    },
                };
                Ok(
                    Expression::IfExpression {
                        condition: Box::new(condition),
                        consequence,
                        alternative: Some(else_block),
                    },
                )
            },
            Some(unexpected_token) => {
                let expected = vec![Token::Lasagna, Token::Else];
                proof {
                    assert(expected.deep_view() =~= seq![TokenV::Lasagna, TokenV::Else]);
                }
                Err(
                    ParseError::UnexpectedToken {
                        expected_token: TokenExpectation::MultipleExpectation(expected),
                        found_token: Some(unexpected_token),
                    },
                )
            },
            None => Err(ParseError::ExpectedToken),
        }
    }

    /// A function literal after its keyword.
    fn parse_function_literal(&mut self) -> (r: Result<Expression, ParseError>)
        requires
            old(self).wf(),
        ensures
            final(self).wf(),
            final(self).toks() == old(self).toks(),
            view_expr_result(r) == spec_parse_function_literal(
                old(self).toks(),
                old(self).cursor(),
            ).0,
            final(self).cursor() == spec_parse_function_literal(
                old(self).toks(),
                old(self).cursor(),
            ).1,
            old(self).cursor() <= final(self).cursor(),
        decreases self.toks().len() - self.cursor(), 3int,
    {
        let parameters: Vec<Identifier> = match self.parse_function_parameters() {
            Ok(ps) => ps,
            Err(e) => {
                return Err(e);
            },
        };
        match self.token_iter.expect_peek(Token::Assign) {
            Ok(u) => u,
            Err(e) => {
                return Err(e);
            },
        };
        let body: BlockStatement = match self.parse_blockstatement() {
            Ok(b) => b,
            Err(e) => {
                return Err(e);
            },
        };
        match self.token_iter.expect_peek(Token::Lasagna) {
            Ok(u) => u,
            Err(e) => {
                return Err(e);
            },
        };
        Ok(Expression::FunctionLiteral { parameters, body })
    }

    /// The comma-separated parameter list of a function literal.
    fn parse_function_parameters(&mut self) -> (r: Result<Vec<Identifier>, ParseError>)
        requires
            old(self).wf(),
        ensures
            final(self).wf(),
            final(self).toks() == old(self).toks(),
            view_params_result(r) == spec_parse_function_parameters(
                old(self).toks(),
                old(self).cursor(),
            ).0,
            final(self).cursor() == spec_parse_function_parameters(
                old(self).toks(),
                old(self).cursor(),
            ).1,
            old(self).cursor() <= final(self).cursor(),
        decreases self.toks().len() - self.cursor(), 2int,
    {
        let ghost toks = old(self).toks();
        let ghost pos0 = old(self).cursor();
        let mut parameters: Vec<Identifier> = Vec::new();
        proof {
            assert(view_idents(parameters@) =~= Seq::<Seq<char>>::empty());
        }
        loop
            invariant
                toks == old(self).toks(),
                pos0 == old(self).cursor(),
                self.wf(),
                self.toks() == toks,
                pos0 <= self.cursor(),
                spec_parse_function_parameters_rec(toks, self.cursor(), view_idents(parameters@))
                    == spec_parse_function_parameters(toks, pos0),
            decreases toks.len() - self.cursor(),
        {
            let token = match self.token_iter.consume() {
                Some(t) => t,
                None => {
                    return Ok(parameters);
                },
            };
            match token {
                Token::LParen | Token::Comma => {
                    let next_kind = match self.token_iter.peek() {
                        Some(Token::RParen) => 1u8,
                        Some(_) => 2u8,
                        None => 0u8,
                    };
                    if next_kind == 1 {
                        let _ = self.token_iter.consume();
                        return Ok(parameters);
                    } else if next_kind == 2 {
                        let name = match self.parse_literal() {
                            Ok(id) => id,
                            Err(e) => {
                                return Err(e);
                            },
                        };
                        let ghost pv = view_idents(parameters@);
                        let ghost nv = name.0@;
                        parameters.push(name);
                        proof {
                            assert(view_idents(parameters@) =~= pv.push(nv));
                        }
                    } else {
                        return Err(ParseError::ExpectedToken);
                    }
                },
                Token::RParen => {
                    return Ok(parameters);
                },
                unexpected_token => {
                    let expected = vec![Token::Comma, Token::RParen];
                    proof {
                        assert(expected.deep_view() =~= seq![TokenV::Comma, TokenV::RParen]);
                    }
                    return Err(
                        ParseError::UnexpectedToken {
                            expected_token: TokenExpectation::MultipleExpectation(expected),
                            found_token: Some(unexpected_token),
                        },
                    );
                },
            }
        }
    }

    /// A block: statements until the block terminator or `else`.
    fn parse_blockstatement(&mut self) -> (r: Result<BlockStatement, ParseError>)
        requires
            old(self).wf(),
        ensures
            final(self).wf(),
            final(self).toks() == old(self).toks(),
            view_block_result(r) == spec_parse_blockstatement(
                old(self).toks(),
                old(self).cursor(),
            ).0,
            final(self).cursor() == spec_parse_blockstatement(
                old(self).toks(),
                old(self).cursor(),
            ).1,
            old(self).cursor() <= final(self).cursor(),
        decreases self.toks().len() - self.cursor(), 10int,
    {
        let ghost toks = old(self).toks();
        let ghost pos0 = old(self).cursor();
        let mut statements: Vec<Statement> = Vec::new();
        proof {
            assert(view_stmts(statements@) =~= Seq::<StatementV>::empty());
        }
        loop
            invariant
                toks == old(self).toks(),
                pos0 == old(self).cursor(),
                self.wf(),
                self.toks() == toks,
                pos0 <= self.cursor(),
                spec_parse_blockstatement_rec(toks, self.cursor(), view_stmts(statements@))
                    == spec_parse_blockstatement(toks, pos0),
            decreases toks.len() - self.cursor(),
        {
            let stop = self.token_iter.next_token_is(&Token::Lasagna)
                || self.token_iter.next_token_is(&Token::Else);
            if stop {
                return Ok(BlockStatement { statements });
            }
            let ghost stv = view_stmts(statements@);
            match self.parse_statement() {
                Ok(st) => {
                    proof {
                        crate::ast::lemma_view_stmts_push(statements@, st);
                    }
                    let ghost sv = view_stmt(st);
                    statements.push(st);
                    proof {
                        assert(view_stmts(statements@) =~= stv.push(sv));
                    }
                },
                Err(e) => {
                    return Err(e);
                },
            }
        }
    }

    /// One parameter: an identifier token.
    fn parse_literal(&mut self) -> (r: Result<Identifier, ParseError>)
        requires
            old(self).wf(),
        ensures
            final(self).wf(),
            final(self).toks() == old(self).toks(),
            view_ident_result(r) == spec_parse_literal(old(self).toks(), old(self).cursor()).0,
            final(self).cursor() == spec_parse_literal(old(self).toks(), old(self).cursor()).1,
            old(self).cursor() <= final(self).cursor(),
    {
        match self.token_iter.consume() {
            Some(Token::Ident(literal)) => Ok(Identifier(literal)),
            Some(unexpected_token) => Err(
                ParseError::UnexpectedToken {
                    expected_token: TokenExpectation::SingleExpectation(
                        Token::Ident(String::new()),
                    ),
                    found_token: Some(unexpected_token),
                },
            ),
            None => Err(ParseError::ExpectedToken),
        }
    }
}

} // verus!
