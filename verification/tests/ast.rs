use monkey_lang::ast::{
    ArrayLiteral, BlockStatement, Boolean, CallExpression, ConstStatement, Expression,
    ExpressionStatement, FunctionLiteral, Identifier, IfExpression, IndexExpression,
    InfixExpression, IntegerLiteral, LetStatement, PostfixExpression, PrefixExpression,
    ReturnStatement, RootNode, Statement, StringLiteral, ZeroValueExpression, ZeroValueStatement,
};
use monkey_lang::token::{Token, TokenType};

fn token(kind: TokenType, literal: &str) -> Token {
    Token { token_type: kind, literal: literal.to_string(), line: 0 }
}

fn identifier(name: &str) -> Identifier {
    Identifier { token: token(TokenType::IDENTIFIER, name), value: name.to_string() }
}

fn name(name: &str) -> Expression {
    Expression::Identifier(identifier(name))
}

fn integer(value: usize) -> Expression {
    Expression::IntegerLiteral(IntegerLiteral {
        token: token(TokenType::INTEGER, &format!("{}", value)),
        value,
    })
}

fn infix(left: Expression, operator: &str, kind: TokenType, right: Expression) -> Expression {
    Expression::Infix(InfixExpression {
        token: token(kind, operator),
        operator: operator.to_string(),
        left: Box::new(left),
        right: Box::new(right),
    })
}

fn statement(expression: Expression) -> Statement {
    Statement::Expression(ExpressionStatement {
        token: token(TokenType::IDENTIFIER, &expression.token_literal()),
        expression: Box::new(expression),
    })
}

fn block(statements: Vec<Statement>) -> BlockStatement {
    BlockStatement { token: token(TokenType::LEFT_BRACE, "{"), statements }
}

#[test]
fn placeholders() {
    assert_eq!(ZeroValueExpression {}.string(), "zero value");
    assert_eq!(ZeroValueExpression {}.token_literal(), "zero value");
    assert_eq!(ZeroValueStatement {}.string(), "zero value");
    assert_eq!(ZeroValueStatement {}.token_literal(), "zero value");
    assert_eq!(Expression::ZeroValue(ZeroValueExpression {}).string(), "zero value");
    assert_eq!(Statement::ZeroValue(ZeroValueStatement {}).token_literal(), "zero value");
}

#[test]
fn leaves() {
    let node = Identifier { token: token(TokenType::IDENTIFIER, "foo"), value: "bar".to_string() };
    assert_eq!(node.string(), "bar");
    assert_eq!(node.token_literal(), "foo");
    let node = IntegerLiteral { token: token(TokenType::INTEGER, "007"), value: 7 };
    assert_eq!(node.string(), "007");
    assert_eq!(node.token_literal(), "007");
    let node = StringLiteral { token: token(TokenType::STRING, "hi"), value: "hi".to_string() };
    assert_eq!(node.string(), "hi");
    assert_eq!(node.token_literal(), "hi");
    let node = Boolean { token: token(TokenType::TRUE, "true"), value: true };
    assert_eq!(node.string(), "true");
    assert_eq!(node.token_literal(), "true");
    let node = PostfixExpression {
        token: token(TokenType::IDENTIFIER, "i"),
        operator: "--".to_string(),
    };
    assert_eq!(node.string(), "(i--)");
    assert_eq!(node.token_literal(), "i");
}

#[test]
fn prefix_and_infix() {
    let node = PrefixExpression {
        token: token(TokenType::BANG, "!"),
        operator: "!".to_string(),
        right: Box::new(name("a")),
    };
    assert_eq!(node.string(), "(!a)");
    assert_eq!(node.token_literal(), "!");
    let sum = infix(name("a"), "+", TokenType::PLUS, integer(2));
    let node = infix(sum, "*", TokenType::STAR, name("c"));
    assert_eq!(node.string(), "((a + 2) * c)");
    assert_eq!(node.token_literal(), "*");
}

#[test]
fn lists() {
    let empty = ArrayLiteral { token: token(TokenType::LEFT_BRACKET, "["), elements: vec![] };
    assert_eq!(empty.string(), "[]");
    let one =
        ArrayLiteral { token: token(TokenType::LEFT_BRACKET, "["), elements: vec![name("a")] };
    assert_eq!(one.string(), "[a]");
    let three = ArrayLiteral {
        token: token(TokenType::LEFT_BRACKET, "["),
        elements: vec![name("a"), integer(2), name("c")],
    };
    assert_eq!(three.string(), "[a, 2, c]");
    assert_eq!(three.token_literal(), "[");
    let call = CallExpression {
        token: token(TokenType::LEFT_PAREN, "("),
        function: Box::new(name("f")),
        arguments: vec![integer(1), integer(2)],
    };
    assert_eq!(call.string(), "f(1, 2)");
    assert_eq!(call.token_literal(), "(");
    let index = IndexExpression {
        token: token(TokenType::LEFT_BRACKET, "["),
        left: Box::new(name("a")),
        index: Box::new(integer(0)),
    };
    assert_eq!(index.string(), "(a[0])");
    assert_eq!(index.token_literal(), "[");
}

#[test]
fn blocks() {
    assert_eq!(block(vec![]).string(), "{ }");
    assert_eq!(block(vec![statement(name("a"))]).string(), "{ a }");
    assert_eq!(block(vec![statement(name("a")), statement(name("b"))]).string(), "{ a b }");
    assert_eq!(block(vec![]).token_literal(), "{");
    assert_eq!(Statement::Block(block(vec![statement(name("a"))])).string(), "{ a }");
    assert_eq!(Statement::Block(block(vec![])).token_literal(), "{");
}

#[test]
fn function_and_if() {
    let function = FunctionLiteral {
        token: token(TokenType::FUNCTION, "func"),
        parameters: vec![identifier("x"), identifier("y")],
        body: block(vec![statement(infix(name("x"), "+", TokenType::PLUS, name("y")))]),
        name: String::new(),
    };
    assert_eq!(function.string(), "func(x, y) { (x + y) }");
    assert_eq!(function.token_literal(), "func");
    let without = IfExpression {
        token: token(TokenType::IF, "if"),
        condition: Box::new(name("x")),
        consequence: block(vec![statement(name("y"))]),
        alternative: None,
    };
    assert_eq!(without.string(), "if (x) { y }");
    let with = IfExpression {
        token: token(TokenType::IF, "if"),
        condition: Box::new(name("x")),
        consequence: block(vec![statement(name("y"))]),
        alternative: Some(block(vec![])),
    };
    assert_eq!(with.string(), "if (x) { y } else { }");
    assert_eq!(with.token_literal(), "if");
}

#[test]
fn statements() {
    let node = LetStatement {
        token: token(TokenType::LET, "let"),
        name: identifier("x"),
        value: Box::new(integer(5)),
    };
    assert_eq!(node.string(), "let x = 5;");
    assert_eq!(node.token_literal(), "let");
    let node = ConstStatement {
        token: token(TokenType::CONST, "const"),
        name: identifier("y"),
        value: Box::new(name("x")),
    };
    assert_eq!(node.string(), "const y = x;");
    assert_eq!(node.token_literal(), "const");
    let node = ReturnStatement {
        token: token(TokenType::RETURN, "return"),
        return_value: Box::new(name("x")),
    };
    assert_eq!(node.string(), "return x;");
    assert_eq!(node.token_literal(), "return");
    let node = ExpressionStatement {
        token: token(TokenType::IDENTIFIER, "x"),
        expression: Box::new(name("x")),
    };
    assert_eq!(node.string(), "x");
    assert_eq!(node.token_literal(), "x");
}

#[test]
fn program() {
    let empty = RootNode { statements: vec![] };
    assert_eq!(empty.string(), "");
    assert_eq!(empty.token_literal(), "");
    let program = RootNode {
        statements: vec![
            Statement::Let(LetStatement {
                token: token(TokenType::LET, "let"),
                name: identifier("x"),
                value: Box::new(integer(5)),
            }),
            statement(name("x")),
        ],
    };
    assert_eq!(program.string(), "let x = 5;x");
    assert_eq!(program.token_literal(), "let");
}
