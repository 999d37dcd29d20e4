use monkey_lang::lexer::Lexer;
use monkey_lang::token::TokenType;

fn tokens(input: &str) -> Vec<(TokenType, String, usize)> {
    let mut lexer = Lexer::new(input.to_string());
    let mut out = Vec::new();
    loop {
        let token = lexer.next_token();
        let done = token.token_type == TokenType::EOF;
        out.push((token.token_type, token.literal, token.line));
        if done {
            return out;
        }
    }
}

fn kinds(input: &str) -> Vec<TokenType> {
    tokens(input).into_iter().map(|t| t.0).collect()
}

fn tok(kind: TokenType, literal: &str, line: usize) -> (TokenType, String, usize) {
    (kind, literal.to_string(), line)
}

#[test]
fn empty_input_is_eof() {
    assert_eq!(tokens(""), vec![tok(TokenType::EOF, "", 0)]);
}

#[test]
fn blank_input_is_eof_on_the_last_line() {
    assert_eq!(tokens(" \t\r\n \n"), vec![tok(TokenType::EOF, "", 2)]);
}

#[test]
fn comments_only_is_eof() {
    assert_eq!(tokens("// a comment"), vec![tok(TokenType::EOF, "", 0)]);
    assert_eq!(tokens("// one\n/* two */\n  // three\n"), vec![tok(TokenType::EOF, "", 3)]);
}

#[test]
fn eof_comes_again_forever() {
    let mut lexer = Lexer::new("x".to_string());
    assert_eq!(lexer.next_token().token_type, TokenType::IDENTIFIER);
    for _ in 0..5 {
        let token = lexer.next_token();
        assert_eq!(token.token_type, TokenType::EOF);
        assert_eq!(token.literal, "");
        assert_eq!(token.line, 0);
    }
}

#[test]
fn every_single_character_operator_alone() {
    let cases = [
        ("=", TokenType::EQUAL),
        ("+", TokenType::PLUS),
        ("-", TokenType::MINUS),
        ("*", TokenType::STAR),
        ("/", TokenType::SLASH),
        ("%", TokenType::MOD),
        ("!", TokenType::BANG),
        ("<", TokenType::LESS),
        (">", TokenType::GREATER),
        (",", TokenType::COMMA),
        (":", TokenType::COLON),
        (";", TokenType::SEMICOLON),
        ("(", TokenType::LEFT_PAREN),
        (")", TokenType::RIGHT_PAREN),
        ("{", TokenType::LEFT_BRACE),
        ("}", TokenType::RIGHT_BRACE),
        ("[", TokenType::LEFT_BRACKET),
        ("]", TokenType::RIGHT_BRACKET),
    ];
    for (text, kind) in cases {
        assert_eq!(tokens(text), vec![tok(kind, text, 0), tok(TokenType::EOF, "", 0)]);
    }
}

#[test]
fn double_equal_is_one_token() {
    assert_eq!(
        tokens("=="),
        vec![tok(TokenType::EQUAL_EQUAL, "==", 0), tok(TokenType::EOF, "", 0)]
    );
}

#[test]
fn every_two_character_operator() {
    let cases = [
        ("==", TokenType::EQUAL_EQUAL),
        ("!=", TokenType::BANG_EQUAL),
        ("<=", TokenType::LESS_EQUAL),
        (">=", TokenType::GREATER_EQUAL),
        ("&&", TokenType::AND),
        ("||", TokenType::OR),
        ("++", TokenType::PLUS_PLUS),
        ("--", TokenType::MINUS_MINUS),
    ];
    for (text, kind) in cases {
        assert_eq!(tokens(text), vec![tok(kind, text, 0), tok(TokenType::EOF, "", 0)]);
    }
}

#[test]
fn three_equals_are_two_tokens() {
    assert_eq!(kinds("==="), vec![TokenType::EQUAL_EQUAL, TokenType::EQUAL, TokenType::EOF]);
}

#[test]
fn lone_ampersand_and_bar_are_illegal() {
    assert_eq!(tokens("&"), vec![tok(TokenType::ILLEGAL, "&", 0), tok(TokenType::EOF, "", 0)]);
    assert_eq!(tokens("|"), vec![tok(TokenType::ILLEGAL, "|", 0), tok(TokenType::EOF, "", 0)]);
    assert_eq!(
        tokens("a & b"),
        vec![
            tok(TokenType::IDENTIFIER, "a", 0),
            tok(TokenType::ILLEGAL, "&", 0),
            tok(TokenType::IDENTIFIER, "b", 0),
            tok(TokenType::EOF, "", 0),
        ]
    );
}

#[test]
fn unknown_character_is_illegal() {
    assert_eq!(tokens("@"), vec![tok(TokenType::ILLEGAL, "@", 0), tok(TokenType::EOF, "", 0)]);
    assert_eq!(
        tokens("\u{e9}"),
        vec![tok(TokenType::ILLEGAL, "\u{e9}", 0), tok(TokenType::EOF, "", 0)]
    );
    assert_eq!(tokens("\0"), vec![tok(TokenType::ILLEGAL, "\0", 0), tok(TokenType::EOF, "", 0)]);
}

#[test]
fn keywords_and_identifiers() {
    assert_eq!(
        kinds("func let const true false if else return"),
        vec![
            TokenType::FUNCTION,
            TokenType::LET,
            TokenType::CONST,
            TokenType::TRUE,
            TokenType::FALSE,
            TokenType::IF,
            TokenType::ELSE,
            TokenType::RETURN,
            TokenType::EOF,
        ]
    );
    assert_eq!(
        tokens("lets _x Return"),
        vec![
            tok(TokenType::IDENTIFIER, "lets", 0),
            tok(TokenType::IDENTIFIER, "_x", 0),
            tok(TokenType::IDENTIFIER, "Return", 0),
            tok(TokenType::EOF, "", 0),
        ]
    );
}

#[test]
fn identifier_holds_no_digit() {
    assert_eq!(
        tokens("ab12cd"),
        vec![
            tok(TokenType::IDENTIFIER, "ab", 0),
            tok(TokenType::INTEGER, "12", 0),
            tok(TokenType::IDENTIFIER, "cd", 0),
            tok(TokenType::EOF, "", 0),
        ]
    );
}

#[test]
fn integer_is_a_maximal_run_of_digits() {
    assert_eq!(
        tokens("007 42;"),
        vec![
            tok(TokenType::INTEGER, "007", 0),
            tok(TokenType::INTEGER, "42", 0),
            tok(TokenType::SEMICOLON, ";", 0),
            tok(TokenType::EOF, "", 0),
        ]
    );
}

#[test]
fn tokens_need_no_space_between_them() {
    assert_eq!(
        tokens("(a+b)*c"),
        vec![
            tok(TokenType::LEFT_PAREN, "(", 0),
            tok(TokenType::IDENTIFIER, "a", 0),
            tok(TokenType::PLUS, "+", 0),
            tok(TokenType::IDENTIFIER, "b", 0),
            tok(TokenType::RIGHT_PAREN, ")", 0),
            tok(TokenType::STAR, "*", 0),
            tok(TokenType::IDENTIFIER, "c", 0),
            tok(TokenType::EOF, "", 0),
        ]
    );
}

#[test]
fn string_literal_gives_its_content() {
    assert_eq!(
        tokens("\"hello world\" x"),
        vec![
            tok(TokenType::STRING, "hello world", 0),
            tok(TokenType::IDENTIFIER, "x", 0),
            tok(TokenType::EOF, "", 0),
        ]
    );
    assert_eq!(tokens("\"\""), vec![tok(TokenType::STRING, "", 0), tok(TokenType::EOF, "", 0)]);
}

#[test]
fn unterminated_string_runs_to_end_of_input() {
    assert_eq!(tokens("\"abc"), vec![tok(TokenType::STRING, "abc", 0), tok(TokenType::EOF, "", 0)]);
    assert_eq!(tokens("\""), vec![tok(TokenType::STRING, "", 0), tok(TokenType::EOF, "", 0)]);
}

#[test]
fn newline_inside_a_string_is_no_line() {
    assert_eq!(
        tokens("\"a\nb\" x\ny"),
        vec![
            tok(TokenType::STRING, "a\nb", 0),
            tok(TokenType::IDENTIFIER, "x", 0),
            tok(TokenType::IDENTIFIER, "y", 1),
            tok(TokenType::EOF, "", 1),
        ]
    );
}

#[test]
fn line_counts_newlines_between_tokens() {
    assert_eq!(
        tokens("a\nb\r\n\nc"),
        vec![
            tok(TokenType::IDENTIFIER, "a", 0),
            tok(TokenType::IDENTIFIER, "b", 1),
            tok(TokenType::IDENTIFIER, "c", 3),
            tok(TokenType::EOF, "", 3),
        ]
    );
}

#[test]
fn line_comment_runs_to_the_newline() {
    assert_eq!(
        tokens("a // b c\nd"),
        vec![
            tok(TokenType::IDENTIFIER, "a", 0),
            tok(TokenType::IDENTIFIER, "d", 1),
            tok(TokenType::EOF, "", 1),
        ]
    );
}

#[test]
fn block_comment_runs_to_its_end() {
    assert_eq!(
        tokens("a /* b * / c */ d"),
        vec![
            tok(TokenType::IDENTIFIER, "a", 0),
            tok(TokenType::IDENTIFIER, "d", 0),
            tok(TokenType::EOF, "", 0),
        ]
    );
    assert_eq!(
        tokens("/**/x"),
        vec![tok(TokenType::IDENTIFIER, "x", 0), tok(TokenType::EOF, "", 0)]
    );
}

#[test]
fn newline_inside_a_block_comment_is_no_line() {
    assert_eq!(
        tokens("/* a\nb */ x\ny"),
        vec![
            tok(TokenType::IDENTIFIER, "x", 0),
            tok(TokenType::IDENTIFIER, "y", 1),
            tok(TokenType::EOF, "", 1),
        ]
    );
}

#[test]
fn unterminated_block_comment_runs_to_end_of_input() {
    assert_eq!(
        tokens("a /* b c"),
        vec![tok(TokenType::IDENTIFIER, "a", 0), tok(TokenType::EOF, "", 0)]
    );
    assert_eq!(tokens("/*/ x"), vec![tok(TokenType::EOF, "", 0)]);
    assert_eq!(tokens("/*"), vec![tok(TokenType::EOF, "", 0)]);
}

#[test]
fn slash_alone_is_an_operator() {
    assert_eq!(
        kinds("a / b"),
        vec![TokenType::IDENTIFIER, TokenType::SLASH, TokenType::IDENTIFIER, TokenType::EOF]
    );
}

#[test]
fn let_statement_tokens() {
    assert_eq!(
        tokens("let x = 5;"),
        vec![
            tok(TokenType::LET, "let", 0),
            tok(TokenType::IDENTIFIER, "x", 0),
            tok(TokenType::EQUAL, "=", 0),
            tok(TokenType::INTEGER, "5", 0),
            tok(TokenType::SEMICOLON, ";", 0),
            tok(TokenType::EOF, "", 0),
        ]
    );
}

#[test]
fn lexer_and_parser_from_the_crate_root() {
    let mut lexer = monkey_lang::Lexer::new("x y".to_string());
    assert_eq!(lexer.next_token().literal, "x");
    let mut parser = monkey_lang::Parser::new(lexer);
    assert_eq!(parser.parse_program().string(), "y");
}

#[test]
fn many_comments_in_a_row() {
    let mut input = String::new();
    for _ in 0..200_000 {
        input.push_str("// comment\n/* another */ ");
    }
    input.push('x');
    assert_eq!(
        tokens(&input),
        vec![tok(TokenType::IDENTIFIER, "x", 200_000), tok(TokenType::EOF, "", 200_000)]
    );
}
