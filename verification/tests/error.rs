use monkey_lang::error::ParseError;
use monkey_lang::token::TokenType;

#[test]
fn expected_token_message() {
    let error = ParseError::ExpectedToken {
        line: 12,
        expected: TokenType::RIGHT_PAREN,
        found: "x".to_string(),
    };
    assert_eq!(error.message(), "Line 12: expected token ), found x");
    assert_eq!(error.line(), 12);
}

#[test]
fn no_prefix_message() {
    let error = ParseError::NoPrefixParseFunction { line: 0, token_type: TokenType::ELSE };
    assert_eq!(error.message(), "Line 0: no prefix parse function for token else");
    assert_eq!(error.line(), 0);
}

#[test]
fn failed_expression_message() {
    let error = ParseError::FailedToParseExpression { line: 100 };
    assert_eq!(error.message(), "Line 100: failed to parse expression");
    assert_eq!(error.line(), 100);
}
