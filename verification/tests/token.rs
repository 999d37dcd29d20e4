use monkey_lang::token::{look_up_identifier, Keywords, Token, TokenType};

#[test]
fn keywords_are_looked_up() {
    assert_eq!(look_up_identifier(&"func".to_string()), TokenType::FUNCTION);
    assert_eq!(look_up_identifier(&"let".to_string()), TokenType::LET);
    assert_eq!(look_up_identifier(&"const".to_string()), TokenType::CONST);
    assert_eq!(look_up_identifier(&"true".to_string()), TokenType::TRUE);
    assert_eq!(look_up_identifier(&"false".to_string()), TokenType::FALSE);
    assert_eq!(look_up_identifier(&"if".to_string()), TokenType::IF);
    assert_eq!(look_up_identifier(&"else".to_string()), TokenType::ELSE);
    assert_eq!(look_up_identifier(&"return".to_string()), TokenType::RETURN);
}

#[test]
fn other_words_are_identifiers() {
    for word in ["", "x", "Let", "LET", "lets", "le", "function", "fn", "returns", "_"] {
        assert_eq!(look_up_identifier(&word.to_string()), TokenType::IDENTIFIER);
    }
}

#[test]
fn keyword_table_holds_the_eight_keywords() {
    let table = Keywords::all();
    let expected = vec![
        ("func".to_string(), TokenType::FUNCTION),
        ("let".to_string(), TokenType::LET),
        ("const".to_string(), TokenType::CONST),
        ("true".to_string(), TokenType::TRUE),
        ("false".to_string(), TokenType::FALSE),
        ("if".to_string(), TokenType::IF),
        ("else".to_string(), TokenType::ELSE),
        ("return".to_string(), TokenType::RETURN),
    ];
    assert_eq!(table, expected);
    for (word, kind) in table {
        assert_eq!(look_up_identifier(&word), kind);
    }
}

#[test]
fn kind_names() {
    assert_eq!(TokenType::ILLEGAL.to_string(), "ILLEGAL");
    assert_eq!(TokenType::EOF.to_string(), "EOF");
    assert_eq!(TokenType::IDENTIFIER.to_string(), "IDENTIFIER");
    assert_eq!(TokenType::EQUAL.to_string(), "EQUAL");
    assert_eq!(TokenType::EQUAL_EQUAL.to_string(), "EQUAL_EQUAL");
    assert_eq!(TokenType::PLUS_PLUS.to_string(), "PLUS_PLUS");
    assert_eq!(TokenType::LEFT_BRACKET.to_string(), "LEFT_BRACKET");
    assert_eq!(TokenType::FUNCTION.to_string(), "FUNCTION");
    assert_eq!(TokenType::RETURN.to_string(), "RETURN");
    assert_eq!(TokenType::NONE.to_string(), "NONE");
}

#[test]
fn kind_spellings() {
    assert_eq!(TokenType::EQUAL.describe(), "=");
    assert_eq!(TokenType::EQUAL_EQUAL.describe(), "==");
    assert_eq!(TokenType::BANG_EQUAL.describe(), "!=");
    assert_eq!(TokenType::AND.describe(), "&&");
    assert_eq!(TokenType::OR.describe(), "||");
    assert_eq!(TokenType::MOD.describe(), "%");
    assert_eq!(TokenType::LEFT_BRACE.describe(), "{");
    assert_eq!(TokenType::RIGHT_BRACKET.describe(), "]");
    assert_eq!(TokenType::FUNCTION.describe(), "func");
    assert_eq!(TokenType::ELSE.describe(), "else");
    assert_eq!(TokenType::IDENTIFIER.describe(), "IDENTIFIER");
    assert_eq!(TokenType::INTEGER.describe(), "INTEGER");
    assert_eq!(TokenType::EOF.describe(), "EOF");
}

#[test]
fn token_clone_keeps_every_field() {
    let token = Token { token_type: TokenType::STRING, literal: "abc".to_string(), line: 7 };
    let copy = token.clone();
    assert_eq!(copy.token_type, TokenType::STRING);
    assert_eq!(copy.literal, "abc");
    assert_eq!(copy.line, 7);
}

#[test]
fn none_token() {
    let token = Token::none();
    assert_eq!(token.token_type, TokenType::NONE);
    assert_eq!(token.literal, "");
    assert_eq!(token.line, 0);
}
