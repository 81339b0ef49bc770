use interpreter::environment::Environment;
use interpreter::eval_error::EvaledProgram;
use interpreter::evaluator::eval;
use interpreter::object::Object;
use interpreter::test_util::assert_list;

fn eval_source(input: &str) -> Object {
    let mut env = Environment::new();
    match eval(input, &mut env) {
        EvaledProgram::Valid(object) => object,
        EvaledProgram::ParseError(errors) => panic!("Eval failed with parse errors: {errors:?}"),
        EvaledProgram::EvalError(error) => panic!("Eval failed: {error:?}"),
    }
}

#[test]
fn eval_integer_expression_test() {
    let input_expected: Vec<(&str, i32)> = vec![
        ("5", 5),
        ("10", 10),
        ("-5", -5),
        ("-10", -10),
        ("5 + 5 + 5 + 5 - 10", 10),
        ("2 * 2 * 2 * 2 * 2", 32),
        ("-50 + 100 + -50", 0),
        ("5 * 2 + 10", 20),
        ("5 + 2 * 10", 25),
        ("20 + 2 * -10", 0),
        ("50 / 2 * 2 + 10", 60),
        ("2 * (5 + 10)", 30),
        ("3 * 3 * 3 + 10", 37),
        ("3 * (3 * 3) + 10", 37),
        ("(5 + 10 * 2 + 15 / 3) * 2 + -10", 50),
    ];

    let asserter = |expected: &i32, input: &&str| {
        let object = eval_source(input);

        match object {
            Object::Integer(number) => assert_eq!(&number, expected),
            Object::Boolean(boolean) => {
                panic!("Should have returned a number, instead got {boolean}")
            }
        }
    };

    assert_list(input_expected, asserter);
}

#[test]
fn eval_boolean_expression_test() {
    let input_expected: Vec<(&str, bool)> = vec![
        ("true", true),
        ("false", false),
        ("1 < 2", true),
        ("1 > 2", false),
        ("1 < 1", false),
        ("1 > 1", false),
        ("1 == 1", true),
        ("1 != 1", false),
        ("1 == 2", false),
        ("1 != 2", true),
        ("true == true", true),
        ("false == false", true),
        ("true == false", false),
        ("true != false", true),
        ("false != true", true),
        ("(1 < 2) == true", true),
        ("(1 < 2) == false", false),
        ("(1 > 2) == true", false),
        ("(1 > 2) == false", true),
    ];

    let asserter = |expected: &bool, input: &&str| {
        let object = eval_source(input);

        match object {
            Object::Boolean(boolean) => assert_eq!(expected, &boolean),
            something_else => panic!("Expected boolean, got {something_else:?}"),
        }
    };

    assert_list(input_expected, asserter);
}

#[test]
fn eval_bang_operator_test() {
    let input_expected: Vec<(&str, bool)> = vec![
        ("!true", false),
        ("!false", true),
        ("!!true", true),
        ("!!false", false),
    ];

    assert_list(input_expected, |expected: &bool, input: &&str| {
        let object = eval_source(input);

        match object {
            Object::Boolean(boolean) => assert_eq!(expected, &boolean),
            something_else => panic!("Expected boolean, got {something_else:?}"),
        }
    });
}
