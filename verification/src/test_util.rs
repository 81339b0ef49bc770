//! Conveniences for exercising the library: running source text through the
//! parser or the whole pipeline, and building expected syntax trees.

use vstd::prelude::*;

use crate::ast::{
    view_block, view_expr, view_program, view_stmt, view_stmts, BlockStatement, Expression,
    ExpressionV, Identifier, Operator, Program, Statement, StatementV,
};
use crate::environment::Environment;
use crate::eval_error::EvaledProgram;
use crate::evaluator::{eval, spec_eval_stmts};
use crate::lexedtokens::LexedTokens;
use crate::lexer::spec_tokenize_from;
use crate::object::Object;
use crate::parser::{spec_parse_program, Parser};

verus! {

/// Calls `asserter` on every expected/input pair, in order.
pub fn assert_list<T, K, F: Fn(&K, &T)>(test_cases: Vec<(T, K)>, asserter: F)
    requires
        forall|k: &K, t: &T| call_requires(asserter, (k, t)),
{
    let n = test_cases.len();
    let mut i: usize = 0;
    while i < n
        invariant
            n == test_cases@.len(),
            forall|k: &K, t: &T| call_requires(asserter, (k, t)),
        decreases n - i,
    {
        let pair = &test_cases[i];
        asserter(&pair.1, &pair.0);
        i = i + 1;
    }
}

/// Whether the parse pass recorded any syntax error.
pub fn has_parser_errors(program: &Program) -> (r: bool)
    ensures
        r == (view_program(*program).parse_errors.len() != 0),
{
    proof {
        assert(program.parse_errors.deep_view().len() == program.parse_errors@.len());
    }
    program.parse_errors.len() > 0
}

/// Lexes and parses source text into a program.
pub fn parse_program(source_code: &str) -> (program: Program)
    ensures
        view_program(program) == spec_parse_program(spec_tokenize_from(source_code@, 0), 0),
{
    let tokens = LexedTokens::from(source_code);
    let mut parser = Parser::new(tokens);
    parser.parse_program()
}

/// The statements of source text that parses cleanly.
pub fn expect_parsed_program(source_code: &str) -> (statements: Vec<Statement>)
    requires
        spec_parse_program(spec_tokenize_from(source_code@, 0), 0).parse_errors.len() == 0,
    ensures
        view_stmts(statements@) == spec_parse_program(
            spec_tokenize_from(source_code@, 0),
            0,
        ).statements,
{
    let program = parse_program(source_code);
    proof {
        assert(program.parse_errors.deep_view().len() == program.parse_errors@.len());
    }
    if program.parse_errors.len() == 0 {
        program.statements
    } else {
        // ruled out: the caller vouched that this source parses cleanly
        proof {
            assert(false);
        }
        program.statements
    }
}

/// The value of source text that parses cleanly and evaluates without fault.
pub fn expect_evaled_program(source_code: &str) -> (object: Object)
    requires
        spec_parse_program(spec_tokenize_from(source_code@, 0), 0).parse_errors.len() == 0,
        spec_eval_stmts(spec_parse_program(spec_tokenize_from(source_code@, 0), 0).statements)
            is Ok,
    ensures
        spec_eval_stmts(spec_parse_program(spec_tokenize_from(source_code@, 0), 0).statements)
            == Ok::<Object, crate::eval_error::EvalError>(object),
{
    let mut env = Environment::new();
    match eval(source_code, &mut env) {
        EvaledProgram::Valid(object) => object,
        // both ruled out: the caller vouched that this source parses
        // cleanly and evaluates without fault
        EvaledProgram::ParseError(_) => {
            proof {
                assert(false);
            }
            Object::Integer(0)
        },
        EvaledProgram::EvalError(_) => {
            proof {
                assert(false);
            }
            Object::Integer(0)
        },
    }
}

/// An expression statement wrapping a prefix application.
pub fn create_prefix_test_case(right_expression: Expression, operator: Operator) -> (r: Statement)
    ensures
        view_stmt(r) == StatementV::Expr(
            ExpressionV::Prefix {
                right: Box::new(view_expr(right_expression)),
                operator,
            },
        ),
{
    Statement::ExpressionStatement(
        Expression::PrefixExpression { right: Box::new(right_expression), operator },
    )
}

/// An expression statement wrapping an infix application.
pub fn create_infix_test_case(
    left_expression: Expression,
    right_expression: Expression,
    operator: Operator,
) -> (r: Statement)
    ensures
        view_stmt(r) == StatementV::Expr(
            ExpressionV::Infix {
                left: Box::new(view_expr(left_expression)),
                right: Box::new(view_expr(right_expression)),
                operator,
            },
        ),
{
    Statement::ExpressionStatement(
        Expression::InfixExpression {
            left: Box::new(left_expression),
            right: Box::new(right_expression),
            operator,
        },
    )
}

/// An expression statement wrapping a function literal over the given
/// parameter names.
pub fn create_function_expression(parameters: Vec<&str>, body: BlockStatement) -> (r: Statement)
    ensures
        view_stmt(r) == StatementV::Expr(
            ExpressionV::Function {
                parameters: parameters.deep_view(),
                body: view_block(body),
            },
        ),
{
    let ghost pv = parameters.deep_view();
    let ghost bv = view_block(body);
    let n = parameters.len();
    let mut idents: Vec<Identifier> = Vec::new();
    let mut i: usize = 0;
    proof {
        assert(crate::parser::view_idents(idents@) =~= pv.take(0));
    }
    while i < n
        invariant
            n == parameters@.len(),
            pv == parameters.deep_view(),
            0 <= i <= n,
            crate::parser::view_idents(idents@) == pv.take(i as int),
        decreases n - i,
    {
        let ghost iv = crate::parser::view_idents(idents@);
        idents.push(Identifier(String::from_str(parameters[i])));
        proof {
            assert(crate::parser::view_idents(idents@) =~= iv.push(parameters@[i as int]@));
            assert(iv.push(parameters@[i as int]@) =~= pv.take(i + 1));
        }
        i = i + 1;
    }
    proof {
        assert(pv.take(n as int) =~= pv);
    }
    Statement::ExpressionStatement(Expression::FunctionLiteral { parameters: idents, body })
}

/// An expression statement wrapping a conditional.
pub fn create_if_condition(
    condition: Expression,
    consequence: BlockStatement,
    alternative: Option<BlockStatement>,
) -> (r: Statement)
    ensures
        view_stmt(r) == StatementV::Expr(
            ExpressionV::Cond {
                condition: Box::new(view_expr(condition)),
                consequence: view_block(consequence),
                alternative: match alternative {
                    Some(b) => Some(view_block(b)),
                    None => None,
                },
            },
        ),
{
    Statement::ExpressionStatement(
        Expression::IfExpression { condition: Box::new(condition), consequence, alternative },
    )
}

/// An infix application.
pub fn create_infix_expression(
    left: Expression,
    right_expression: Expression,
    operator: Operator,
) -> (r: Expression)
    ensures
        view_expr(r) == (ExpressionV::Infix {
            left: Box::new(view_expr(left)),
            right: Box::new(view_expr(right_expression)),
            operator,
        }),
{
    Expression::InfixExpression {
        left: Box::new(left),
        right: Box::new(right_expression),
        operator,
    }
}

/// An identifier expression over the given name.
pub fn create_identifierliteral(literal: &str) -> (r: Expression)
    ensures
        view_expr(r) == ExpressionV::IdentifierLiteral(literal@),
{
    Expression::IdentifierLiteral(Identifier(String::from_str(literal)))
}

} // verus!
