use interpreter::ast::{BlockStatement, Expression, Identifier, Operator, Program, Statement};
use interpreter::test_util::{
    create_function_expression, create_identifierliteral, create_if_condition,
    create_infix_expression, create_infix_test_case, create_prefix_test_case, has_parser_errors,
    parse_program,
};

fn test_let_statement(found: &Statement, expected_identifier: &Identifier) {
    match found {
        Statement::AssignStatement(found_identfier, _) => {
            assert_eq!(found_identfier, expected_identifier)
        }
        incorrect => panic!("Expected let-statement, but got {incorrect:?}"),
    };
}

fn report_errors(program: &Program) -> bool {
    let has = has_parser_errors(program);
    if has {
        println!("Found parser errors:");
        for parse_error in &program.parse_errors {
            println!("parser error: {parse_error:?}");
        }
    }
    has
}

#[test]
fn parse_assign_statement() {
    let source_code = "
            x: 5.
            y: 10.
            foobar: 54456.
        ";

    let program: Program = parse_program(source_code);

    report_errors(&program);
    assert_eq!(
        program.statements.len(),
        3,
        "Program should be parsed to 3 statements"
    );

    let expected_identifiers: [Identifier; 3] = [
        Identifier(String::from("x")),
        Identifier(String::from("y")),
        Identifier(String::from("foobar")),
    ];

    expected_identifiers
        .iter()
        .enumerate()
        .for_each(|(idx, ident)| test_let_statement(&program.statements[idx], ident));
}

#[test]
fn parse_return_statement() {
    let source_code = "
            return 5.
            return foobar.
        ";

    let program: Program = parse_program(source_code);

    report_errors(&program);
    assert_eq!(
        program.statements.len(),
        2,
        "Program should be parsed to 3 statements"
    );

    program
        .statements
        .iter()
        .for_each(|ident| assert!(matches!(ident, Statement::ReturnStatement(_))));
}

#[test]
fn test_return_statement() {
    let return_statement = "return foo.";

    let program: Program = parse_program(return_statement);

    assert_eq!(
        1,
        program.statements.len(),
        "Should only parse to 1 statement"
    );
    assert_eq!(
        Statement::ReturnStatement(Expression::IdentifierLiteral(Identifier(
            "foo".to_string()
        ))),
        *program
            .statements
            .first()
            .expect("Should retrieve first and only statement")
    );
}

#[test]
fn test_integer_expression() {
    let input: &str = "5.";

    let program: Program = parse_program(input);
    report_errors(&program);

    let parsed_statement = program
        .statements
        .first()
        .expect("Should only have one statement");

    assert!(matches!(
        parsed_statement,
        Statement::ExpressionStatement(Expression::IntegerLiteral(5))
    ));
}

#[test]
fn test_identifier_expression() {
    let input: &str = "foobar.";

    let program: Program = parse_program(input);
    report_errors(&program);

    assert_eq!(
        1,
        program.statements.len(),
        "Should only have parsed one expression statement"
    );

    let parsed_statement = program.statements.first().expect("Already checked length");

    assert!(matches!(
        parsed_statement,
        Statement::ExpressionStatement(Expression::IdentifierLiteral(
            Identifier(ident)
        )) if ident == "foobar"
    ));
}

#[test]
fn test_boolean_expression() {
    let input: &str = "true.false.";

    let program: Program = parse_program(input);
    report_errors(&program);

    assert_eq!(
        2,
        program.statements.len(),
        "Should only have parsed one expression statement"
    );

    let parsed_statement = program.statements.first().expect("Already checked length");

    assert!(matches!(
        parsed_statement,
        Statement::ExpressionStatement(Expression::BooleanLiteral(true))
    ));
    assert!(matches!(
        program.statements.get(1).unwrap(),
        Statement::ExpressionStatement(Expression::BooleanLiteral(false))
    ));
}

#[test]
fn test_parse_prefix() {
    let test_cases: [(String, Statement); 2] = [
        (
            "!5.".to_string(),
            create_prefix_test_case(Expression::IntegerLiteral(5), Operator::Bang),
        ),
        (
            "-15.".to_string(),
            create_prefix_test_case(Expression::IntegerLiteral(15), Operator::Minus),
        ),
    ];

    for (input, expected_statement) in test_cases {
        let program: Program = parse_program(&input);
        report_errors(&program);

        assert_eq!(program.statements.len(), 1, "Should only parse 1 statement");
        let statement = program.statements.first().expect("Should be one statement");

        assert_eq!(
            statement, &expected_statement,
            "Parsed statement should match testcase"
        );
    }
}

#[test]
fn test_parse_infix() {
    let test_cases: [(String, Statement); 11] = [
        (
            "5 + 5".to_string(),
            create_infix_test_case(Expression::IntegerLiteral(5), Expression::IntegerLiteral(5), Operator::Plus),
        ),
        (
            "5 - 5".to_string(),
            create_infix_test_case(Expression::IntegerLiteral(5), Expression::IntegerLiteral(5), Operator::Minus),
        ),
        (
            "5 * 5".to_string(),
            create_infix_test_case(Expression::IntegerLiteral(5), Expression::IntegerLiteral(5), Operator::Multiply),
        ),
        (
            "5 / 5".to_string(),
            create_infix_test_case(Expression::IntegerLiteral(5), Expression::IntegerLiteral(5), Operator::DividedBy),
        ),
        (
            "5 > 5".to_string(),
            create_infix_test_case(Expression::IntegerLiteral(5), Expression::IntegerLiteral(5), Operator::GreaterThan),
        ),
        (
            "5 < 5".to_string(),
            create_infix_test_case(Expression::IntegerLiteral(5), Expression::IntegerLiteral(5), Operator::LessThan),
        ),
        (
            "5 == 5".to_string(),
            create_infix_test_case(Expression::IntegerLiteral(5), Expression::IntegerLiteral(5), Operator::Equals),
        ),
        (
            "5 != 5".to_string(),
            create_infix_test_case(Expression::IntegerLiteral(5), Expression::IntegerLiteral(5), Operator::NotEquals),
        ),
        (
            "true == true".to_string(),
            create_infix_test_case(Expression::BooleanLiteral(true), Expression::BooleanLiteral(true), Operator::Equals),
        ),
        (
            "true != false".to_string(),
            create_infix_test_case(Expression::BooleanLiteral(true), Expression::BooleanLiteral(false), Operator::NotEquals),
        ),
        (
            "false == false".to_string(),
            create_infix_test_case(Expression::BooleanLiteral(false), Expression::BooleanLiteral(false), Operator::Equals),
        ),
    ];

    for (input, expected_statement) in test_cases {
        let program: Program = parse_program(&input);
        report_errors(&program);

        let statement = program.statements.first().expect("Should be one statement");

        assert_eq!(
            statement, &expected_statement,
            "Parsed statement should match testcase"
        );
        assert_eq!(program.statements.len(), 1, "Should only parse 1 statement");
    }
}

#[test]
fn test_if_expression() {
    let test_cases: [(String, Statement); 2] = [
        (
            "if x < y: x.~".to_string(),
            create_if_condition(
                create_infix_expression(
                    create_identifierliteral("x"),
                    create_identifierliteral("y"),
                    Operator::LessThan,
                ),
                BlockStatement {
                    statements: Vec::from([Statement::ExpressionStatement(
                        create_identifierliteral("x"),
                    )]),
                },
                None,
            ),
        ),
        (
            "if x > y: x. else: y.~".to_string(),
            create_if_condition(
                create_infix_expression(
                    create_identifierliteral("x"),
                    create_identifierliteral("y"),
                    Operator::GreaterThan,
                ),
                BlockStatement {
                    statements: Vec::from([Statement::ExpressionStatement(
                        create_identifierliteral("x"),
                    )]),
                },
                Some(BlockStatement {
                    statements: Vec::from([Statement::ExpressionStatement(
                        create_identifierliteral("y"),
                    )]),
                }),
            ),
        ),
    ];

    for (input, expected) in test_cases {
        let program: Program = parse_program(&input);

        if report_errors(&program) {
            println!("Program: {input}");
            panic!("Failed due to parse errors");
        }

        let statement = program.statements.first().expect("Should be one statement");

        assert_eq!(
            statement, &expected,
            "Parsed statement should match testcase"
        );
        assert_eq!(program.statements.len(), 1, "Should only parse 1 statement");
    }
}

#[test]
fn test_function_expression() {
    let test_cases: [(String, Statement); 2] = [
        (
            "fn(x, y): x + y~".to_string(),
            create_function_expression(
                Vec::from(["x", "y"]),
                BlockStatement {
                    statements: Vec::from([Statement::ExpressionStatement(
                        create_infix_expression(
                            create_identifierliteral("x"),
                            create_identifierliteral("y"),
                            Operator::Plus,
                        ),
                    )]),
                },
            ),
        ),
        (
            "fn(): x.y.~".to_string(),
            create_function_expression(
                Vec::from([]),
                BlockStatement {
                    statements: Vec::from([
                        Statement::ExpressionStatement(create_identifierliteral("x")),
                        Statement::ExpressionStatement(create_identifierliteral("y")),
                    ]),
                },
            ),
        ),
    ];

    for (input, expected) in test_cases {
        let program: Program = parse_program(&input);

        if report_errors(&program) {
            println!("Program: {input}");
            panic!("Failed due to parse errors");
        }

        let statement = program.statements.first().expect("Should be one statement");

        assert_eq!(
            statement, &expected,
            "Parsed statement should match testcase"
        );
        assert_eq!(program.statements.len(), 1, "Should only parse 1 statement");
    }
}

#[test]
fn test_operator_precedence() {
    let test_cases: [(String, String); 21] = [
        ("-a * b", "((-a) * b)"),
        ("!-a", "(!(-a))"),
        ("a + b + c", "((a + b) + c)"),
        ("a + b - c", "((a + b) - c)"),
        ("a * b * c", "((a * b) * c)"),
        ("a * b / c", "((a * b) / c)"),
        ("a + b / c", "(a + (b / c))"),
        ("a + b * c + d / e - f", "(((a + (b * c)) + (d / e)) - f)"),
        ("3 + 4. -5 * 5.", "(3 + 4)((-5) * 5)"),
        ("5 > 4 == -3 < 4", "((5 > 4) == ((-3) < 4))"),
        ("5 < 4 != 3 > 4", "((5 < 4) != (3 > 4))"),
        (
            "3 + 4 * 5 == 3 * 1 + 4 * 5",
            "((3 + (4 * 5)) == ((3 * 1) + (4 * 5)))",
        ),
        ("true", "true"),
        ("false", "false"),
        ("3 > 5 == false", "((3 > 5) == false)"),
        ("3 < 5 == true", "((3 < 5) == true)"),
        ("1 + (2 + 3) + 4", "((1 + (2 + 3)) + 4)"),
        ("(5 + 5) * 2", "((5 + 5) * 2)"),
        ("2 / (5 + 5)", "(2 / (5 + 5))"),
        ("-(5 + 5)", "(-(5 + 5))"),
        ("!(true == true)", "(!(true == true))"),
    ]
    .map(|(input, expected)| (input.to_string(), expected.to_string()));

    for (input, expected) in test_cases {
        let actual = parse_program(&input);

        if report_errors(&actual) {
            println!("{expected}");
            panic!("Found parser errors");
        }

        assert_eq!(actual.render().replace('\n', ""), expected);
    }
}
