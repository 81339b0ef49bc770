//! The tree-walking evaluator: reduces a parsed program to a single runtime
//! value, or fails with the first semantic fault. Arithmetic that leaves the
//! 32-bit range and division by zero are defined runtime faults, not panics.

use vstd::prelude::*;

use crate::ast::{
    view_expr, view_program, view_stmt, Expression, ExpressionV, Operator, Program,
    Statement, StatementV,
};
use crate::environment::Environment;
use crate::eval_error::{EvalError, EvaledProgram};
use crate::lexedtokens::LexedTokens;
use crate::lexer::spec_tokenize_from;
use crate::object::Object;
use crate::parser::{spec_parse_program, Parser};

verus! {

/// Value of an integer-by-integer infix application.
pub open spec fn spec_eval_integer_infix(
    left: i32,
    right: i32,
    operator: Operator,
) -> Result<Object, EvalError> {
    match operator {
        Operator::Minus => match left.checked_sub(right) {
            Some(v) => Ok(Object::Integer(v)),
            None => Err(EvalError::IntegerOverflow),
        },
        Operator::Plus => match left.checked_add(right) {
            Some(v) => Ok(Object::Integer(v)),
            None => Err(EvalError::IntegerOverflow),
        },
        Operator::Multiply => match left.checked_mul(right) {
            Some(v) => Ok(Object::Integer(v)),
            None => Err(EvalError::IntegerOverflow),
        },
        Operator::DividedBy => if right == 0 {
            Err(EvalError::DivisionByZero)
        } else {
            match left.checked_div(right) {
                Some(v) => Ok(Object::Integer(v)),
                None => Err(EvalError::IntegerOverflow),
            }
        },
        Operator::LessThan => Ok(Object::Boolean(left < right)),
        Operator::GreaterThan => Ok(Object::Boolean(left > right)),
        Operator::Equals => Ok(Object::Boolean(left == right)),
        Operator::NotEquals => Ok(Object::Boolean(left != right)),
        Operator::Bang => Err(EvalError::IntegerInfixOperatorError(Operator::Bang)),
    }
}

/// Value of a boolean-by-boolean infix application: only equality and
/// inequality pair two booleans.
pub open spec fn spec_eval_boolean_infix(
    left: bool,
    right: bool,
    operator: Operator,
) -> Result<Object, EvalError> {
    match operator {
        Operator::Equals => Ok(Object::Boolean(left == right)),
        Operator::NotEquals => Ok(Object::Boolean(left != right)),
        _ => Err(EvalError::BooleanInfixOperator(operator)),
    }
}

/// Dispatch of an infix application on the pair of operand types. A mixed
/// pair never coerces: it fails carrying both operand values.
pub open spec fn spec_eval_infix(
    operator: Operator,
    left: Object,
    right: Object,
) -> Result<Object, EvalError> {
    match (left, right) {
        (Object::Integer(l), Object::Integer(r)) => spec_eval_integer_infix(l, r, operator),
        (Object::Boolean(l), Object::Boolean(r)) => spec_eval_boolean_infix(l, r, operator),
        _ => Err(EvalError::InfixRightLeft(left, right)),
    }
}

/// Value of a prefix application to an already evaluated operand: `!` negates
/// a boolean, `-` negates an integer; anything else is the wrong type.
pub open spec fn spec_eval_prefix_value(operator: Operator, value: Object) -> Result<
    Object,
    EvalError,
> {
    match operator {
        Operator::Bang => match value {
            Object::Boolean(b) => Ok(Object::Boolean(!b)),
            _ => Err(EvalError::IncorrectBangSuffix(value)),
        },
        Operator::Minus => match value {
            Object::Integer(n) => match (0i32).checked_sub(n) {
                Some(v) => Ok(Object::Integer(v)),
                None => Err(EvalError::IntegerOverflow),
            },
            _ => Err(EvalError::IncorrectBangSuffix(value)),
        },
        _ => Err(EvalError::Unsupported),
    }
}

/// Value of an expression. Operands of an infix node are evaluated left to
/// right, both eagerly; constructs without semantics fail as unsupported.
pub open spec fn spec_eval_expr(e: ExpressionV) -> Result<Object, EvalError>
    decreases e,
{
    match e {
        ExpressionV::IntegerLiteral(n) => Ok(Object::Integer(n)),
        ExpressionV::BooleanLiteral(b) => Ok(Object::Boolean(b)),
        ExpressionV::IdentifierLiteral(_) => Err(EvalError::Unsupported),
        ExpressionV::Prefix { right, operator } => match spec_eval_expr(*right) {
            Ok(value) => spec_eval_prefix_value(operator, value),
            Err(err) => Err(err),
        },
        ExpressionV::Infix { left, right, operator } => match spec_eval_expr(*left) {
            Ok(l) => match spec_eval_expr(*right) {
                Ok(r) => spec_eval_infix(operator, l, r),
                Err(err) => Err(err),
            },
            Err(err) => Err(err),
        },
        ExpressionV::Cond { .. } => Err(EvalError::Unsupported),
        ExpressionV::Function { .. } => Err(EvalError::Unsupported),
    }
}

/// Value of a statement: only expression statements have semantics.
pub open spec fn spec_eval_stmt(s: StatementV) -> Result<Object, EvalError> {
    match s {
        StatementV::Expr(e) => spec_eval_expr(e),
        StatementV::Assign(_, _) => Err(EvalError::Unsupported),
        StatementV::Return(_) => Err(EvalError::Unsupported),
    }
}

/// Value of a sequence of statements: each is evaluated in order, the last
/// one's value is the result, and the first fault aborts the rest. An empty
/// sequence has no value.
pub open spec fn spec_eval_stmts(ss: Seq<StatementV>) -> Result<Object, EvalError>
    decreases ss.len(),
{
    if ss.len() == 0 {
        Err(EvalError::EmptyProgram)
    } else {
        match spec_eval_stmt(ss[0]) {
            Ok(value) => if ss.len() == 1 {
                Ok(value)
            } else {
                spec_eval_stmts(ss.drop_first())
            },
            Err(err) => Err(err),
        }
    }
}

fn eval_integer_infix_expression(left: i32, right: i32, operator: Operator) -> (r: Result<
    Object,
    EvalError,
>)
    ensures
        r == spec_eval_integer_infix(left, right, operator),
{
    match operator {
        Operator::Minus => match left.checked_sub(right) {
            Some(v) => Ok(Object::Integer(v)),
            None => Err(EvalError::IntegerOverflow),
        },
        Operator::Plus => match left.checked_add(right) {
            Some(v) => Ok(Object::Integer(v)),
            None => Err(EvalError::IntegerOverflow),
        },
        Operator::Multiply => match left.checked_mul(right) {
            Some(v) => Ok(Object::Integer(v)),
            None => Err(EvalError::IntegerOverflow),
        },
        Operator::DividedBy => if right == 0 {
            Err(EvalError::DivisionByZero)
        } else {
            match left.checked_div(right) {
                Some(v) => Ok(Object::Integer(v)),
                None => Err(EvalError::IntegerOverflow),
            }
        },
        Operator::LessThan => Ok(Object::Boolean(left < right)),
        Operator::GreaterThan => Ok(Object::Boolean(left > right)),
        Operator::Equals => Ok(Object::Boolean(left == right)),
        Operator::NotEquals => Ok(Object::Boolean(left != right)),
        Operator::Bang => Err(EvalError::IntegerInfixOperatorError(Operator::Bang)),
    }
}

fn eval_boolean_infix_expression(left: bool, right: bool, operator: Operator) -> (r: Result<
    Object,
    EvalError,
>)
    ensures
        r == spec_eval_boolean_infix(left, right, operator),
{
    match operator {
        Operator::Equals => Ok(Object::Boolean(left == right)),
        Operator::NotEquals => Ok(Object::Boolean(left != right)),
        _ => Err(EvalError::BooleanInfixOperator(operator)),
    }
}

fn eval_infix_expression(operator: Operator, left: Object, right: Object) -> (r: Result<
    Object,
    EvalError,
>)
    ensures
        r == spec_eval_infix(operator, left, right),
{
    match (left, right) {
        (Object::Integer(l), Object::Integer(r)) => eval_integer_infix_expression(l, r, operator),
        (Object::Boolean(l), Object::Boolean(r)) => eval_boolean_infix_expression(l, r, operator),
        _ => Err(EvalError::InfixRightLeft(left, right)),
    }
}

fn eval_bang_operator_expression(right: Object) -> (r: Result<Object, EvalError>)
    ensures
        r == spec_eval_prefix_value(Operator::Bang, right),
{
    match right {
        Object::Boolean(b) => Ok(Object::Boolean(!b)),
        _ => Err(EvalError::IncorrectBangSuffix(right)),
    }
}

fn eval_minus_operator_expression(right: Object) -> (r: Result<Object, EvalError>)
    ensures
        r == spec_eval_prefix_value(Operator::Minus, right),
{
    match right {
        Object::Integer(n) => match (0i32).checked_sub(n) {
            Some(v) => Ok(Object::Integer(v)),
            None => Err(EvalError::IntegerOverflow),
        },
        _ => Err(EvalError::IncorrectBangSuffix(right)),
    }
}

fn eval_prefix_expression(operator: Operator, value: Object) -> (r: Result<Object, EvalError>)
    ensures
        r == spec_eval_prefix_value(operator, value),
{
    match operator {
        Operator::Bang => eval_bang_operator_expression(value),
        Operator::Minus => eval_minus_operator_expression(value),
        _ => Err(EvalError::Unsupported),
    }
}

impl Expression {
    /// Evaluates this expression to a runtime value, or to the first
    /// semantic fault found in it.
    pub fn eval(&self) -> (r: Result<Object, EvalError>)
        ensures
            r == spec_eval_expr(view_expr(*self)),
        decreases *self,
    {
        match self {
            Expression::IntegerLiteral(n) => Ok(Object::Integer(*n)),
            Expression::BooleanLiteral(b) => Ok(Object::Boolean(*b)),
            Expression::IdentifierLiteral(_) => Err(EvalError::Unsupported),
            Expression::PrefixExpression { right, operator } => match right.eval() {
                Ok(value) => eval_prefix_expression(*operator, value),
                Err(err) => Err(err),
            },
            Expression::InfixExpression { left, right, operator } => match left.eval() {
                Ok(l) => match right.eval() {
                    Ok(r) => eval_infix_expression(*operator, l, r),
                    Err(err) => Err(err),
                },
                Err(err) => Err(err),
            },
            Expression::IfExpression { .. } => Err(EvalError::Unsupported),
            Expression::FunctionLiteral { .. } => Err(EvalError::Unsupported),
        }
    }
}

impl Statement {
    /// Evaluates this statement: only expression statements have semantics.
    pub fn eval(&self) -> (r: Result<Object, EvalError>)
        ensures
            r == spec_eval_stmt(view_stmt(*self)),
    {
        match self {
            Statement::ExpressionStatement(e) => e.eval(),
            Statement::AssignStatement(_, _) => Err(EvalError::Unsupported),
            Statement::ReturnStatement(_) => Err(EvalError::Unsupported),
        }
    }
}

impl Program {
    /// Evaluates the program: each statement in order, the last statement's
    /// value is the program's value, and the first fault aborts the rest.
    /// An empty program has no value.
    pub fn eval(&self) -> (r: Result<Object, EvalError>)
        ensures
            r == spec_eval_stmts(view_program(*self).statements),
    {
        let n = self.statements.len();
        if n == 0 {
            proof {
                assert(view_program(*self).statements =~= Seq::<StatementV>::empty());
            }
            return Err(EvalError::EmptyProgram);
        }
        let mut i: usize = 0;
        proof {
            assert(self.statements@.skip(0) =~= self.statements@);
        }
        loop
            invariant
                0 < n <= self.statements@.len(),
                n == self.statements@.len(),
                i < n,
                spec_eval_stmts(view_program(*self).statements) == spec_eval_stmts(
                    view_stmts_from(self.statements@, i as int),
                ),
            decreases n - i,
        {
            let r = self.statements[i].eval();
            proof {
                lemma_view_stmts_from_unfold(self.statements@, i as int);
            }
            match r {
                Ok(value) => {
                    if i == n - 1 {
                        return Ok(value);
                    }
                    i = i + 1;
                },
                Err(err) => {
                    return Err(err);
                },
            }
        }
    }
}

/// The view of the statement suffix starting at `i`.
pub open spec fn view_stmts_from(ss: Seq<Statement>, i: int) -> Seq<StatementV> {
    crate::ast::view_stmts(ss.skip(i))
}

proof fn lemma_view_stmts_from_unfold(ss: Seq<Statement>, i: int)
    requires
        0 <= i < ss.len(),
    ensures
        view_stmts_from(ss, i).len() == ss.len() - i,
        view_stmts_from(ss, i)[0] == view_stmt(ss[i]),
        view_stmts_from(ss, i).drop_first() == view_stmts_from(ss, i + 1),
    decreases ss.len() - i,
{
    assert(ss.skip(i).len() == ss.len() - i);
    assert(ss.skip(i)[0] == ss[i]);
    crate::ast::lemma_view_stmts_len(ss.skip(i));
    assert(ss.skip(i).drop_first() =~= ss.skip(i + 1));
}

/// Runs source text end to end: lex, parse, evaluate. The outcome is
/// three-way — the program's parse errors if there are any, otherwise the
/// first runtime fault or the program's value. The environment is handed in
/// for lexical scope; identifier evaluation does not consume it yet, so it
/// comes back unchanged.
pub fn eval(source_code: &str, env: &mut Environment) -> (r: EvaledProgram)
    ensures
        *final(env) == *old(env),
        ({
            let prog = spec_parse_program(spec_tokenize_from(source_code@, 0), 0);
            match r {
                EvaledProgram::ParseError(errs) => prog.parse_errors.len() > 0
                    && errs.deep_view() == prog.parse_errors,
                EvaledProgram::EvalError(e) => prog.parse_errors.len() == 0 && spec_eval_stmts(
                    prog.statements,
                ) == Err::<Object, EvalError>(e),
                EvaledProgram::Valid(v) => prog.parse_errors.len() == 0 && spec_eval_stmts(
                    prog.statements,
                ) == Ok::<Object, EvalError>(v),
            }
        }),
{
    let tokens = LexedTokens::from(source_code);
    let mut parser = Parser::new(tokens);
    let program = parser.parse_program();
    proof {
        assert(program.parse_errors.deep_view().len() == program.parse_errors@.len());
    }
    if program.parse_errors.len() > 0 {
        EvaledProgram::ParseError(program.parse_errors)
    } else {
        match program.eval() {
            Ok(object) => EvaledProgram::Valid(object),
            Err(err) => EvaledProgram::EvalError(err),
        }
    }
}

} // verus!
