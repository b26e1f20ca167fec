use pyvm::ast;
use pyvm::parser::{parse_program, parse_statement, parse_expression};

#[test]
fn test_parse_print_hello() {
    let source = String::from("print('Hello world')\n");
    let parse_ast = parse_program(&source).unwrap();
    assert_eq!(
        parse_ast,
        ast::Program {
            statements: vec![ast::Statement::Expression {
                expression: ast::Expression::Call {
                    function: Box::new(ast::Expression::Identifier {
                        name: String::from("print"),
                    }),
                    args: vec![ast::Expression::Str {
                        value: String::from("Hello world"),
                    }],
                },
            }],
        }
    );
}

#[test]
fn test_parse_print_2() {
    let source = String::from("print('Hello world', 2)\n");
    let parse_ast = parse_program(&source).unwrap();
    assert_eq!(
        parse_ast,
        ast::Program {
            statements: vec![ast::Statement::Expression {
                expression: ast::Expression::Call {
                    function: Box::new(ast::Expression::Identifier {
                        name: String::from("print"),
                    }),
                    args: vec![
                        ast::Expression::Str {
                            value: String::from("Hello world"),
                        },
                        ast::Expression::Number { value: 2 },
                    ],
                },
            }],
        }
    );
}

#[test]
fn test_parse_if_elif_else() {
    let source = String::from("if 1: 10\nelif 2: 20\nelse: 30\n");
    let parse_ast = parse_statement(&source).unwrap();
    assert_eq!(
        parse_ast,
        ast::Statement::If {
            test: ast::Expression::Number { value: 1 },
            body: vec![ast::Statement::Expression {
                expression: ast::Expression::Number { value: 10 },
            }],
            orelse: Some(vec![ast::Statement::If {
                test: ast::Expression::Number { value: 2 },
                body: vec![ast::Statement::Expression {
                    expression: ast::Expression::Number { value: 20 },
                }],
                orelse: Some(vec![ast::Statement::Expression {
                    expression: ast::Expression::Number { value: 30 },
                }]),
            }]),
        }
    );
}

#[test]
fn test_parse_expression_call() {
    let source = String::from("f(1)");
    let e = parse_expression(&source).unwrap();
    assert_eq!(
        e,
        ast::Expression::Call {
            function: Box::new(ast::Expression::Identifier {
                name: String::from("f"),
            }),
            args: vec![ast::Expression::Number { value: 1 }],
        }
    );
}

#[test]
fn test_parse_unterminated_string_fails() {
    let source = String::from("print('oops\n");
    assert!(parse_program(&source).is_err());
}

#[test]
fn test_parse_overlong_number_fails() {
    let source = String::from("1234567890123456789\n");
    assert!(parse_program(&source).is_err());
}

#[test]
fn test_parse_stray_character_fails() {
    let source = String::from("print(@)\n");
    assert!(parse_program(&source).is_err());
}

#[test]
fn test_parse_empty_program() {
    let source = String::from("");
    let p = parse_program(&source).unwrap();
    assert_eq!(p, ast::Program { statements: vec![] });
}

#[test]
fn test_parse_largest_number_literal() {
    let source = String::from("999999999999999999\n");
    let p = parse_program(&source).unwrap();
    assert_eq!(
        p,
        ast::Program {
            statements: vec![ast::Statement::Expression {
                expression: ast::Expression::Number {
                    value: 999999999999999999,
                },
            }],
        }
    );
}

#[test]
fn test_parse_call_without_arguments() {
    let source = String::from("f()\n");
    let p = parse_program(&source).unwrap();
    assert_eq!(
        p,
        ast::Program {
            statements: vec![ast::Statement::Expression {
                expression: ast::Expression::Call {
                    function: Box::new(ast::Expression::Identifier {
                        name: String::from("f"),
                    }),
                    args: vec![],
                },
            }],
        }
    );
}
