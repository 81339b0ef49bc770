use interpreter::ast::{Expression, Operator, Statement};
use interpreter::environment::Environment;
use interpreter::eval_error::{EvalError, EvaledProgram};
use interpreter::evaluator::eval;
use interpreter::object::Object;
use interpreter::parse_errors::{IntegerParseFault, ParseError};
use interpreter::test_util::{expect_evaled_program, expect_parsed_program, parse_program};

fn eval_error_of(input: &str) -> EvalError {
    let mut env = Environment::new();
    match eval(input, &mut env) {
        EvaledProgram::EvalError(error) => error,
        other => panic!("Expected a runtime fault, got {other:?}"),
    }
}

#[test]
fn error_recovery_keeps_valid_statements() {
    // two invalid statements interleaved with three valid ones, each closed
    // by the statement terminator: exactly two errors and exactly three
    // statements, in their original relative order
    let program = parse_program("5 + 5. * 9. true. + 2. 10.");

    assert_eq!(program.parse_errors.len(), 2);
    assert_eq!(program.statements.len(), 3);
    assert!(matches!(
        &program.statements[0],
        Statement::ExpressionStatement(Expression::InfixExpression { .. })
    ));
    assert!(matches!(
        &program.statements[1],
        Statement::ExpressionStatement(Expression::BooleanLiteral(true))
    ));
    assert!(matches!(
        &program.statements[2],
        Statement::ExpressionStatement(Expression::IntegerLiteral(10))
    ));
    assert!(matches!(
        &program.parse_errors[0],
        ParseError::NoPrefixExpression(_)
    ));
    assert!(matches!(
        &program.parse_errors[1],
        ParseError::NoPrefixExpression(_)
    ));
}

#[test]
fn error_recovery_interleaved_counts() {
    let program = parse_program("* 1. 1 + 2. * 3. 4 < 5. * 6. true.");

    assert_eq!(program.parse_errors.len(), 3);
    assert_eq!(program.statements.len(), 3);
}

#[test]
fn type_mismatch_fails_with_both_operands() {
    // an integer infixed with a boolean never coerces: the fault carries
    // both evaluated operand values
    assert_eq!(
        eval_error_of("5 == true"),
        EvalError::InfixRightLeft(Object::Integer(5), Object::Boolean(true))
    );
    assert_eq!(
        eval_error_of("true + 1"),
        EvalError::InfixRightLeft(Object::Boolean(true), Object::Integer(1))
    );
}

#[test]
fn render_reparse_reproduces_ast() {
    // round trip: rendering a parsed program and parsing the rendered text
    // reproduces a structurally equal syntax tree
    let sources = [
        "a + b * c + d / e - f.",
        "-a * b.",
        "(5 + 10 * 2 + 15 / 3) * 2 + -10.",
        "!(true == true).",
        "x: 5 + 5. return x.",
    ];
    for source in sources {
        let first = parse_program(source);
        assert!(first.parse_errors.is_empty(), "{source} should parse");
        let rendered = first.render();
        let second = parse_program(&rendered);
        assert!(second.parse_errors.is_empty(), "{rendered} should reparse");
        assert_eq!(first.statements, second.statements, "{source}");
    }
}

#[test]
fn rendering_is_stable() {
    let program = parse_program("5 + 2 * 10.");
    assert_eq!(program.render(), "(5 + (2 * 10))\n");
    assert_eq!(program.render(), parse_program(&program.render()).render());
}

#[test]
fn integer_literal_roundtrip_render() {
    let program = parse_program("54456.");
    assert_eq!(program.render(), "54456\n");
    let negative = parse_program("-17.");
    assert_eq!(negative.render(), "(-17)\n");
}

#[test]
fn parse_error_expected_token() {
    // an identifier at the very end of the stream leaves the parser without
    // the token it must inspect next
    let program = parse_program("x");
    assert_eq!(program.parse_errors, vec![ParseError::ExpectedToken]);
    assert_eq!(program.statements.len(), 0);
}

#[test]
fn parse_error_unexpected_token() {
    let program = parse_program("x: 5 y.");
    assert_eq!(program.parse_errors.len(), 1);
    assert!(matches!(
        &program.parse_errors[0],
        ParseError::UnexpectedToken { found_token: Some(_), .. }
    ));
}

#[test]
fn parse_error_no_prefix_expression() {
    let program = parse_program("*.");
    assert_eq!(program.parse_errors.len(), 1);
    assert!(matches!(
        &program.parse_errors[0],
        ParseError::NoPrefixExpression(_)
    ));
}

#[test]
fn parse_error_integer_overflow() {
    // one past the largest 32-bit signed value
    let program = parse_program("2147483648.");
    assert_eq!(program.parse_errors.len(), 1);
    assert!(matches!(
        &program.parse_errors[0],
        ParseError::ParseIntegerError(_, IntegerParseFault::Overflow)
    ));
    let fits = parse_program("2147483647.");
    assert!(fits.parse_errors.is_empty());
}

#[test]
fn parse_error_no_prefix_partner() {
    let program = parse_program("!");
    assert_eq!(program.parse_errors, vec![ParseError::NoPrefixPartner]);
}

#[test]
fn eval_error_empty_program() {
    assert_eq!(eval_error_of(""), EvalError::EmptyProgram);
}

#[test]
fn eval_error_bang_on_integer() {
    assert_eq!(
        eval_error_of("!5"),
        EvalError::IncorrectBangSuffix(Object::Integer(5))
    );
    assert_eq!(
        eval_error_of("-true"),
        EvalError::IncorrectBangSuffix(Object::Boolean(true))
    );
}

#[test]
fn eval_error_boolean_infix_operator() {
    assert_eq!(
        eval_error_of("true + false"),
        EvalError::BooleanInfixOperator(Operator::Plus)
    );
}

#[test]
fn eval_error_division_by_zero() {
    assert_eq!(eval_error_of("5 / 0"), EvalError::DivisionByZero);
}

#[test]
fn eval_error_integer_overflow() {
    assert_eq!(eval_error_of("2147483647 + 1"), EvalError::IntegerOverflow);
    assert_eq!(eval_error_of("-2147483647 - 2"), EvalError::IntegerOverflow);
    assert_eq!(eval_error_of("65536 * 65536"), EvalError::IntegerOverflow);
}

#[test]
fn eval_error_unsupported_constructs() {
    assert_eq!(eval_error_of("foobar."), EvalError::Unsupported);
    assert_eq!(eval_error_of("x: 5."), EvalError::Unsupported);
    assert_eq!(eval_error_of("return 5."), EvalError::Unsupported);
    assert_eq!(eval_error_of("if x < y: x.~"), EvalError::Unsupported);
}

#[test]
fn eval_error_integer_infix_bang() {
    // the parser never builds an infix bang, but the evaluator still
    // rejects one built by hand
    let expr = Expression::InfixExpression {
        left: Box::new(Expression::IntegerLiteral(1)),
        right: Box::new(Expression::IntegerLiteral(2)),
        operator: Operator::Bang,
    };
    assert_eq!(
        expr.eval(),
        Err(EvalError::IntegerInfixOperatorError(Operator::Bang))
    );
}

#[test]
fn eval_stops_at_first_fault() {
    // the first semantic fault aborts the remaining statements
    assert_eq!(eval_error_of("5 / 0. 1 + 1."), EvalError::DivisionByZero);
    // and the last statement's value is the program's value
    let mut env = Environment::new();
    match eval("1 + 1. 2 + 2.", &mut env) {
        EvaledProgram::Valid(Object::Integer(4)) => {}
        other => panic!("Expected 4, got {other:?}"),
    }
}

#[test]
fn expect_helpers_return_plain_values() {
    let statements = expect_parsed_program("1 + 2.");
    assert_eq!(statements.len(), 1);
    let object = expect_evaled_program("1 + 2.");
    assert_eq!(object, Object::Integer(3));
}

#[test]
fn environment_set_get_and_shadowing() {
    let mut env = Environment::new();
    assert_eq!(env.get(0, "x"), None);
    env.set(0, String::from("x"), Object::Integer(1));
    assert_eq!(env.get(0, "x"), Some(Object::Integer(1)));
    env.set(0, String::from("x"), Object::Integer(2));
    assert_eq!(env.get(0, "x"), Some(Object::Integer(2)));
}

#[test]
fn environment_parent_lookup() {
    let mut env = Environment::new();
    env.set(0, String::from("outer"), Object::Boolean(true));
    let child = env.new_scope(0);
    assert_eq!(env.get(child, "outer"), Some(Object::Boolean(true)));
    env.set(child, String::from("outer"), Object::Boolean(false));
    assert_eq!(env.get(child, "outer"), Some(Object::Boolean(false)));
    assert_eq!(env.get(0, "outer"), Some(Object::Boolean(true)));
    assert_eq!(env.get(child, "missing"), None);
}

#[test]
fn lexer_illegal_character_is_reported() {
    let program = parse_program("=.");
    assert_eq!(program.parse_errors.len(), 1);
    assert!(matches!(
        &program.parse_errors[0],
        ParseError::NoPrefixExpression(_)
    ));
}
