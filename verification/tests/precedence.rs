use monkey_lang::precedence::{
    Precedences, CALL, EQUALS, INDEX, LESS_GREATER, LOGICAL, LOWEST, MODULO, PREFIX, PRODUCT, SUM,
};
use monkey_lang::token::TokenType;

#[test]
fn binding_powers_rise_in_order() {
    let order = [LOWEST, EQUALS, LOGICAL, LESS_GREATER, SUM, PRODUCT, MODULO, PREFIX, CALL, INDEX];
    assert_eq!(order, [1, 2, 3, 4, 5, 6, 7, 8, 9, 10]);
}

#[test]
fn precedence_table() {
    assert_eq!(
        Precedences::all(),
        vec![
            (TokenType::EQUAL_EQUAL, 2),
            (TokenType::BANG_EQUAL, 2),
            (TokenType::LESS, 4),
            (TokenType::GREATER, 4),
            (TokenType::LESS_EQUAL, 4),
            (TokenType::GREATER_EQUAL, 4),
            (TokenType::PLUS, 5),
            (TokenType::MINUS, 5),
            (TokenType::SLASH, 6),
            (TokenType::STAR, 6),
            (TokenType::MOD, 7),
            (TokenType::AND, 3),
            (TokenType::OR, 3),
            (TokenType::LEFT_PAREN, 9),
            (TokenType::LEFT_BRACKET, 10),
        ]
    );
}

#[test]
fn precedence_of_each_kind() {
    for (kind, precedence) in Precedences::all() {
        assert_eq!(Precedences::get(kind), precedence);
    }
    for kind in [
        TokenType::ILLEGAL,
        TokenType::EOF,
        TokenType::IDENTIFIER,
        TokenType::INTEGER,
        TokenType::STRING,
        TokenType::EQUAL,
        TokenType::PLUS_PLUS,
        TokenType::MINUS_MINUS,
        TokenType::BANG,
        TokenType::COMMA,
        TokenType::COLON,
        TokenType::SEMICOLON,
        TokenType::RIGHT_PAREN,
        TokenType::LEFT_BRACE,
        TokenType::RIGHT_BRACE,
        TokenType::RIGHT_BRACKET,
        TokenType::FUNCTION,
        TokenType::LET,
        TokenType::IF,
        TokenType::NONE,
    ] {
        assert_eq!(Precedences::get(kind), LOWEST);
    }
}
