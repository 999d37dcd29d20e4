use monkey_lang::ast::{Expression, RootNode, Statement};
use monkey_lang::lexer::Lexer;
use monkey_lang::parser::Parser;
use monkey_lang::token::TokenType;

fn parse(input: &str) -> (RootNode, Vec<String>) {
    let mut parser = Parser::new(Lexer::new(input.to_string()));
    let program = parser.parse_program();
    let errors = parser.errors().iter().map(|e| e.message()).collect();
    (program, errors)
}

fn string_of(input: &str) -> String {
    let (program, errors) = parse(input);
    assert_eq!(errors, Vec::<String>::new());
    program.string()
}

#[test]
fn blank_input_is_the_empty_program() {
    for input in ["", "   ", "\n\t\r\n", "// only a comment", "/* a */ // b\n /* c", "/* open"] {
        let (program, errors) = parse(input);
        assert_eq!(program.statements.len(), 0);
        assert_eq!(errors, Vec::<String>::new());
        assert_eq!(program.string(), "");
        assert_eq!(program.token_literal(), "");
    }
}

#[test]
fn prefix_binds_tighter_than_product() {
    assert_eq!(string_of("-a * b"), "((-a) * b)");
}

#[test]
fn sum_groups_to_the_left() {
    assert_eq!(string_of("a + b + c"), "((a + b) + c)");
}

#[test]
fn product_binds_tighter_than_sum() {
    assert_eq!(string_of("a + b * c"), "(a + (b * c))");
}

#[test]
fn grouping_overrides_precedence() {
    assert_eq!(string_of("(a + b) * c"), "((a + b) * c)");
}

#[test]
fn let_statement() {
    let (program, errors) = parse("let x = 5;");
    assert_eq!(errors, Vec::<String>::new());
    assert_eq!(program.statements.len(), 1);
    match &program.statements[0] {
        Statement::Let(statement) => {
            assert_eq!(statement.token.token_type, TokenType::LET);
            assert_eq!(statement.name.value, "x");
            assert_eq!(statement.name.token.token_type, TokenType::IDENTIFIER);
            match &*statement.value {
                Expression::IntegerLiteral(literal) => {
                    assert_eq!(literal.value, 5);
                    assert_eq!(literal.token.literal, "5");
                },
                other => panic!("not an integer literal: {:?}", other),
            }
        },
        other => panic!("not a let statement: {:?}", other),
    }
    assert_eq!(program.string(), "let x = 5;");
    assert_eq!(program.token_literal(), "let");
}

#[test]
fn let_without_equal_sign() {
    let (program, errors) = parse("let x 5;");
    assert_eq!(errors, vec!["Line 0: expected token =, found 5".to_string()]);
    assert_eq!(program.statements.len(), 2);
    assert!(matches!(&program.statements[0], Statement::ZeroValue(_)));
    match &program.statements[1] {
        Statement::Expression(statement) => match &*statement.expression {
            Expression::IntegerLiteral(literal) => assert_eq!(literal.value, 5),
            other => panic!("not an integer literal: {:?}", other),
        },
        other => panic!("not an expression statement: {:?}", other),
    }
}

#[test]
fn if_else_expression() {
    let (program, errors) = parse("if (x) { y } else { z }");
    assert_eq!(errors, Vec::<String>::new());
    assert_eq!(program.statements.len(), 1);
    let expression = match &program.statements[0] {
        Statement::Expression(statement) => &*statement.expression,
        other => panic!("not an expression statement: {:?}", other),
    };
    let node = match expression {
        Expression::If(node) => node,
        other => panic!("not an if expression: {:?}", other),
    };
    match &*node.condition {
        Expression::Identifier(identifier) => assert_eq!(identifier.value, "x"),
        other => panic!("not an identifier: {:?}", other),
    }
    assert_eq!(node.consequence.statements.len(), 1);
    match &node.consequence.statements[0] {
        Statement::Expression(statement) => match &*statement.expression {
            Expression::Identifier(identifier) => assert_eq!(identifier.value, "y"),
            other => panic!("not an identifier: {:?}", other),
        },
        other => panic!("not an expression statement: {:?}", other),
    }
    let alternative = node.alternative.as_ref().expect("an alternative");
    assert_eq!(alternative.statements.len(), 1);
    match &alternative.statements[0] {
        Statement::Expression(statement) => match &*statement.expression {
            Expression::Identifier(identifier) => assert_eq!(identifier.value, "z"),
            other => panic!("not an identifier: {:?}", other),
        },
        other => panic!("not an expression statement: {:?}", other),
    }
    assert_eq!(program.string(), "if (x) { y } else { z }");
}

fn errors_of(input: &str) -> Vec<String> {
    parse(input).1
}

#[test]
fn parse_in_one_call() {
    let (program, errors) = monkey_lang::parser::parse("let x 5;".to_string());
    assert_eq!(program.statements.len(), 2);
    assert_eq!(errors.len(), 1);
    assert_eq!(errors[0].message(), "Line 0: expected token =, found 5");
    assert_eq!(errors[0].line(), 0);
}

#[test]
fn error_messages_of_the_parser() {
    let mut parser = Parser::new(Lexer::new("let x 5;\nlet = 1".to_string()));
    parser.parse_program();
    assert_eq!(
        parser.error_messages(),
        vec![
            "Line 0: expected token =, found 5".to_string(),
            "Line 1: expected token IDENTIFIER, found =".to_string(),
            "Line 1: no prefix parse function for token =".to_string(),
            "Line 1: failed to parse expression".to_string(),
        ]
    );
}

#[test]
fn operators_of_one_binding_power_group_to_the_left() {
    assert_eq!(string_of("a + b - c"), "((a + b) - c)");
    assert_eq!(string_of("a * b / c"), "((a * b) / c)");
    assert_eq!(string_of("a && b || c"), "((a && b) || c)");
    assert_eq!(string_of("a == b != c"), "((a == b) != c)");
    assert_eq!(string_of("a < b >= c"), "((a < b) >= c)");
    assert_eq!(string_of("a % b % c"), "((a % b) % c)");
}

#[test]
fn tighter_operator_takes_the_operand() {
    assert_eq!(string_of("a + b % c"), "(a + (b % c))");
    assert_eq!(string_of("a * b % c"), "(a * (b % c))");
    assert_eq!(string_of("a % b * c"), "((a % b) * c)");
    assert_eq!(string_of("a == b && c"), "(a == (b && c))");
    assert_eq!(string_of("a && b == c"), "((a && b) == c)");
    assert_eq!(string_of("a && b < c"), "(a && (b < c))");
    assert_eq!(string_of("a < b + c"), "(a < (b + c))");
    assert_eq!(string_of("5 > 4 == 3 < 4"), "((5 > 4) == (3 < 4))");
    assert_eq!(string_of("a + b * c + d / e - f"), "(((a + (b * c)) + (d / e)) - f)");
}

#[test]
fn prefix_operators() {
    assert_eq!(string_of("!true"), "(!true)");
    assert_eq!(string_of("-5"), "(-5)");
    assert_eq!(string_of("!-a"), "(!(-a))");
    assert_eq!(string_of("-a + b"), "((-a) + b)");
    assert_eq!(string_of("a + -b"), "(a + (-b))");
    assert_eq!(string_of("-(5 + 5)"), "(-(5 + 5))");
    assert_eq!(string_of("!(true == true)"), "(!(true == true))");
}

#[test]
fn grouping_inside_an_expression() {
    assert_eq!(string_of("1 + (2 + 3) + 4"), "((1 + (2 + 3)) + 4)");
    assert_eq!(string_of("(5 + 5) * 2"), "((5 + 5) * 2)");
    assert_eq!(string_of("2 / (5 + 5)"), "(2 / (5 + 5))");
    assert_eq!(string_of("(a)"), "a");
}

#[test]
fn call_expressions() {
    assert_eq!(string_of("add()"), "add()");
    assert_eq!(string_of("add(1, 2 * 3)"), "add(1, (2 * 3))");
    assert_eq!(string_of("a + add(b * c) + d"), "((a + add((b * c))) + d)");
    assert_eq!(string_of("-a(b)"), "(-a(b))");
    let (program, _) = parse("add(1, x)");
    match &program.statements[0] {
        Statement::Expression(statement) => match &*statement.expression {
            Expression::Call(call) => {
                assert_eq!(call.token.token_type, TokenType::LEFT_PAREN);
                assert_eq!(call.arguments.len(), 2);
                assert!(matches!(&*call.function, Expression::Identifier(f) if f.value == "add"));
            },
            other => panic!("not a call: {:?}", other),
        },
        other => panic!("not an expression statement: {:?}", other),
    }
}

#[test]
fn index_expressions() {
    assert_eq!(string_of("a[1]"), "(a[1])");
    assert_eq!(string_of("a * b[2]"), "(a * (b[2]))");
    assert_eq!(string_of("a[1 + 2]"), "(a[(1 + 2)])");
    assert_eq!(string_of("!a[0]"), "(!(a[0]))");
    assert_eq!(string_of("a[0](1)[2]"), "((a[0])(1)[2])");
}

#[test]
fn array_literals() {
    assert_eq!(string_of("[]"), "[]");
    assert_eq!(string_of("[1, 2 * 2, x]"), "[1, (2 * 2), x]");
    assert_eq!(string_of("[1, [2, 3]][0]"), "([1, [2, 3]][0])");
}

#[test]
fn string_and_boolean_literals() {
    assert_eq!(string_of("\"hello\" + \"x\""), "(hello + x)");
    assert_eq!(string_of("true == false"), "(true == false)");
    let (program, _) = parse("\"hello world\"; false");
    assert_eq!(program.statements.len(), 2);
    match &program.statements[0] {
        Statement::Expression(statement) => match &*statement.expression {
            Expression::StringLiteral(literal) => assert_eq!(literal.value, "hello world"),
            other => panic!("not a string literal: {:?}", other),
        },
        other => panic!("not an expression statement: {:?}", other),
    }
    match &program.statements[1] {
        Statement::Expression(statement) => match &*statement.expression {
            Expression::Boolean(literal) => assert!(!literal.value),
            other => panic!("not a boolean: {:?}", other),
        },
        other => panic!("not an expression statement: {:?}", other),
    }
}

#[test]
fn postfix_expressions() {
    assert_eq!(string_of("x++"), "(x++)");
    assert_eq!(string_of("x-- + 1"), "((x--) + 1)");
    let (program, _) = parse("count++;");
    match &program.statements[0] {
        Statement::Expression(statement) => match &*statement.expression {
            Expression::Postfix(postfix) => {
                assert_eq!(postfix.token.token_type, TokenType::IDENTIFIER);
                assert_eq!(postfix.token.literal, "count");
                assert_eq!(postfix.operator, "++");
            },
            other => panic!("not a postfix expression: {:?}", other),
        },
        other => panic!("not an expression statement: {:?}", other),
    }
}

#[test]
fn function_literals() {
    assert_eq!(string_of("func(x, y) { x + y; }"), "func(x, y) { (x + y) }");
    assert_eq!(string_of("func() { }"), "func() { }");
    assert_eq!(string_of("func(a) { return a; }(1)"), "func(a) { return a; }(1)");
    let (program, _) = parse("func(x, y, z) { }");
    match &program.statements[0] {
        Statement::Expression(statement) => match &*statement.expression {
            Expression::Function(function) => {
                let names: Vec<&str> =
                    function.parameters.iter().map(|p| p.value.as_str()).collect();
                assert_eq!(names, vec!["x", "y", "z"]);
                assert_eq!(function.body.statements.len(), 0);
                assert_eq!(function.body.token.token_type, TokenType::LEFT_BRACE);
                assert_eq!(function.name, "");
            },
            other => panic!("not a function literal: {:?}", other),
        },
        other => panic!("not an expression statement: {:?}", other),
    }
}

#[test]
fn if_without_else() {
    let (program, errors) = parse("if (x < y) { x }");
    assert_eq!(errors, Vec::<String>::new());
    match &program.statements[0] {
        Statement::Expression(statement) => match &*statement.expression {
            Expression::If(node) => {
                assert!(node.alternative.is_none());
                assert_eq!(node.consequence.statements.len(), 1);
            },
            other => panic!("not an if expression: {:?}", other),
        },
        other => panic!("not an expression statement: {:?}", other),
    }
    assert_eq!(program.string(), "if ((x < y)) { x }");
}

#[test]
fn statements_with_and_without_semicolon() {
    assert_eq!(string_of("return 5; return x"), "return 5;return x;");
    assert_eq!(string_of("const y = true;"), "const y = true;");
    assert_eq!(string_of("let a = 1 let b = a + 2"), "let a = 1;let b = (a + 2);");
    assert_eq!(string_of("a + b; c"), "(a + b)c");
    assert_eq!(string_of("foo bar"), "foobar");
    let (program, _) = parse("const y = true; return y; y");
    assert_eq!(program.statements.len(), 3);
    assert!(matches!(&program.statements[0], Statement::Const(s) if s.name.value == "y"));
    assert!(matches!(&program.statements[1], Statement::Return(_)));
    assert!(matches!(&program.statements[2], Statement::Expression(_)));
    assert_eq!(program.statements[1].token_literal(), "return");
}

#[test]
fn expression_is_missing() {
    let (program, errors) = parse("let x = ;");
    assert_eq!(
        errors,
        vec![
            "Line 0: no prefix parse function for token ;".to_string(),
            "Line 0: failed to parse expression".to_string(),
        ]
    );
    assert_eq!(program.statements.len(), 1);
    match &program.statements[0] {
        Statement::Let(statement) => {
            assert!(matches!(&*statement.value, Expression::ZeroValue(_)))
        },
        other => panic!("not a let statement: {:?}", other),
    }
    assert_eq!(program.string(), "let x = zero value;");
}

#[test]
fn token_starts_no_expression() {
    let (program, errors) = parse(")");
    assert_eq!(
        errors,
        vec![
            "Line 0: no prefix parse function for token )".to_string(),
            "Line 0: failed to parse expression".to_string(),
        ]
    );
    assert_eq!(program.statements.len(), 1);
    assert_eq!(program.string(), "zero value");
    assert_eq!(
        errors_of("@"),
        vec![
            "Line 0: no prefix parse function for token ILLEGAL".to_string(),
            "Line 0: failed to parse expression".to_string(),
        ]
    );
}

#[test]
fn operand_is_missing() {
    assert_eq!(
        errors_of("a +"),
        vec![
            "Line 0: no prefix parse function for token EOF".to_string(),
            "Line 0: failed to parse expression".to_string(),
        ]
    );
    let (program, _) = parse("a +");
    assert_eq!(program.string(), "(a + zero value)");
    let (program, errors) = parse("-");
    assert_eq!(errors.len(), 2);
    assert_eq!(program.string(), "(-zero value)");
}

#[test]
fn integer_too_large() {
    let (program, errors) = parse("99999999999999999999999999999999999999999999");
    assert_eq!(errors, vec!["Line 0: failed to parse expression".to_string()]);
    assert_eq!(program.statements.len(), 1);
    assert_eq!(program.string(), "zero value");
}

#[test]
fn largest_integer() {
    let (program, errors) = parse(&format!("{}", usize::MAX));
    assert_eq!(errors, Vec::<String>::new());
    match &program.statements[0] {
        Statement::Expression(statement) => match &*statement.expression {
            Expression::IntegerLiteral(literal) => assert_eq!(literal.value, usize::MAX),
            other => panic!("not an integer literal: {:?}", other),
        },
        other => panic!("not an expression statement: {:?}", other),
    }
}

#[test]
fn bracket_is_not_closed() {
    let (program, errors) = parse("(a + b");
    assert_eq!(errors, vec!["Line 0: expected token ), found ".to_string()]);
    assert_eq!(program.string(), "zero value");
    let (program, errors) = parse("a[1");
    assert_eq!(errors, vec!["Line 0: expected token ], found ".to_string()]);
    assert_eq!(program.string(), "zero value");
    let (program, errors) = parse("f(1, 2");
    assert_eq!(errors, vec!["Line 0: expected token ), found ".to_string()]);
    assert_eq!(program.string(), "f()");
    let (program, errors) = parse("[1, 2;");
    assert_eq!(errors, vec!["Line 0: expected token ], found ;".to_string()]);
    assert_eq!(program.string(), "[]");
}

#[test]
fn block_is_not_closed() {
    let (program, errors) = parse("if (x) { y");
    assert_eq!(errors, vec!["Line 0: expected token }, found ".to_string()]);
    assert_eq!(program.statements.len(), 1);
    assert_eq!(program.string(), "if (x) { y }");
    let (program, errors) = parse("func() {\n let a = 1;\n a");
    assert_eq!(errors, vec!["Line 2: expected token }, found ".to_string()]);
    assert_eq!(program.string(), "func() { let a = 1; a }");
}

#[test]
fn if_is_given_up() {
    let (program, errors) = parse("if x");
    assert_eq!(errors, vec!["Line 0: expected token (, found x".to_string()]);
    assert_eq!(program.string(), "zero valuex");
    let (program, errors) = parse("if (x { y }");
    assert_eq!(errors[0], "Line 0: expected token ), found {");
    assert!(matches!(&program.statements[0], Statement::Expression(_)));
    let (_, errors) = parse("if (x) y");
    assert_eq!(errors[0], "Line 0: expected token {, found y");
    let (program, errors) = parse("if (x) { y } else z");
    assert_eq!(errors, vec!["Line 0: expected token {, found z".to_string()]);
    assert_eq!(program.string(), "zero valuez");
}

#[test]
fn function_is_given_up() {
    let (_, errors) = parse("func x");
    assert_eq!(errors[0], "Line 0: expected token (, found x");
    let (_, errors) = parse("func(x y) { }");
    assert_eq!(errors[0], "Line 0: expected token ), found y");
    assert_eq!(errors[1], "Line 0: expected token {, found y");
    let (_, errors) = parse("func(x) x");
    assert_eq!(errors[0], "Line 0: expected token {, found x");
}

#[test]
fn name_is_missing() {
    let (program, errors) = parse("let = 3;");
    assert_eq!(errors[0], "Line 0: expected token IDENTIFIER, found =");
    assert!(matches!(&program.statements[0], Statement::ZeroValue(_)));
    let (_, errors) = parse("const 5");
    assert_eq!(errors, vec!["Line 0: expected token IDENTIFIER, found 5".to_string()]);
}

#[test]
fn errors_carry_their_line() {
    let (program, errors) = parse("let a = 1;\nlet b 2;\nlet = 3;");
    assert_eq!(
        errors,
        vec![
            "Line 1: expected token =, found 2".to_string(),
            "Line 2: expected token IDENTIFIER, found =".to_string(),
            "Line 2: no prefix parse function for token =".to_string(),
            "Line 2: failed to parse expression".to_string(),
        ]
    );
    assert_eq!(program.statements.len(), 6);
    assert!(matches!(&program.statements[0], Statement::Let(_)));
    assert!(matches!(&program.statements[1], Statement::ZeroValue(_)));
    assert!(matches!(&program.statements[2], Statement::Expression(_)));
    assert!(matches!(&program.statements[3], Statement::ZeroValue(_)));
    assert!(matches!(&program.statements[4], Statement::Expression(_)));
    assert!(matches!(&program.statements[5], Statement::Expression(_)));
}

#[test]
fn semicolon_ends_an_expression() {
    let (program, errors) = parse("a; + b");
    assert_eq!(program.statements.len(), 3);
    assert_eq!(errors.len(), 2);
    assert_eq!(errors[0], "Line 0: no prefix parse function for token +");
}

#[test]
fn parser_on_a_lexer_that_has_moved() {
    let mut lexer = Lexer::new("let x = 5; y".to_string());
    for _ in 0..5 {
        lexer.next_token();
    }
    let mut parser = Parser::new(lexer);
    let program = parser.parse_program();
    assert_eq!(program.string(), "y");
    assert_eq!(parser.errors().len(), 0);
}

#[test]
fn parsing_again_at_the_end_gives_the_empty_program() {
    let mut parser = Parser::new(Lexer::new("x".to_string()));
    assert_eq!(parser.parse_program().statements.len(), 1);
    assert_eq!(parser.parse_program().statements.len(), 0);
    assert_eq!(parser.errors().len(), 0);
}

#[test]
fn second_let_after_a_failed_one() {
    let (program, errors) = parse("let x 5; let y = 7;");
    assert_eq!(errors, vec!["Line 0: expected token =, found 5".to_string()]);
    assert_eq!(program.statements.len(), 3);
    assert!(matches!(&program.statements[0], Statement::ZeroValue(_)));
    assert!(matches!(&program.statements[1], Statement::Expression(_)));
    match &program.statements[2] {
        Statement::Let(statement) => {
            assert_eq!(statement.name.value, "y");
            match &*statement.value {
                Expression::IntegerLiteral(literal) => assert_eq!(literal.value, 7),
                other => panic!("not an integer literal: {:?}", other),
            }
        },
        other => panic!("not a let statement: {:?}", other),
    }
    assert_eq!(program.string(), "zero value5let y = 7;");
}
