//! Tokens: the kinds of token, the token itself, and the keyword table.

use vstd::prelude::*;

verus! {

/// The kinds of token of the Monkey language.
#[allow(non_camel_case_types)]
#[derive(Debug, PartialEq, Eq, Hash, Copy, Clone, Structural)]
pub enum TokenType {
    /// A character the lexer does not know.
    ILLEGAL,
    /// End of input.
    EOF,
    /// A name: `add`, `foobar`, `x`.
    IDENTIFIER,
    /// A run of decimal digits.
    INTEGER,
    /// The content of a double-quoted literal.
    STRING,
    /// `=`
    EQUAL,
    /// `+`
    PLUS,
    /// `++`
    PLUS_PLUS,
    /// `-`
    MINUS,
    /// `--`
    MINUS_MINUS,
    /// `*`
    STAR,
    /// `/`
    SLASH,
    /// `%`
    MOD,
    /// `!`
    BANG,
    /// `==`
    EQUAL_EQUAL,
    /// `<`
    LESS,
    /// `<=`
    LESS_EQUAL,
    /// `>`
    GREATER,
    /// `>=`
    GREATER_EQUAL,
    /// `!=`
    BANG_EQUAL,
    /// `&&`
    AND,
    /// `||`
    OR,
    /// `,`
    COMMA,
    /// `:`
    COLON,
    /// `;`
    SEMICOLON,
    /// `(`
    LEFT_PAREN,
    /// `)`
    RIGHT_PAREN,
    /// `{`
    LEFT_BRACE,
    /// `}`
    RIGHT_BRACE,
    /// `[`
    LEFT_BRACKET,
    /// `]`
    RIGHT_BRACKET,
    /// `func`
    FUNCTION,
    /// `let`
    LET,
    /// `const`
    CONST,
    /// `true`
    TRUE,
    /// `false`
    FALSE,
    /// `if`
    IF,
    /// `else`
    ELSE,
    /// `return`
    RETURN,
    /// No token: the content of a window slot that was never filled.
    NONE,
}

impl TokenType {
    /// The name of the kind, as it is written in this enumeration.
    pub open spec fn name(self) -> Seq<char> {
        match self {
            TokenType::ILLEGAL => "ILLEGAL"@,
            TokenType::EOF => "EOF"@,
            TokenType::IDENTIFIER => "IDENTIFIER"@,
            TokenType::INTEGER => "INTEGER"@,
            TokenType::STRING => "STRING"@,
            TokenType::EQUAL => "EQUAL"@,
            TokenType::PLUS => "PLUS"@,
            TokenType::PLUS_PLUS => "PLUS_PLUS"@,
            TokenType::MINUS => "MINUS"@,
            TokenType::MINUS_MINUS => "MINUS_MINUS"@,
            TokenType::STAR => "STAR"@,
            TokenType::SLASH => "SLASH"@,
            TokenType::MOD => "MOD"@,
            TokenType::BANG => "BANG"@,
            TokenType::EQUAL_EQUAL => "EQUAL_EQUAL"@,
            TokenType::LESS => "LESS"@,
            TokenType::LESS_EQUAL => "LESS_EQUAL"@,
            TokenType::GREATER => "GREATER"@,
            TokenType::GREATER_EQUAL => "GREATER_EQUAL"@,
            TokenType::BANG_EQUAL => "BANG_EQUAL"@,
            TokenType::AND => "AND"@,
            TokenType::OR => "OR"@,
            TokenType::COMMA => "COMMA"@,
            TokenType::COLON => "COLON"@,
            TokenType::SEMICOLON => "SEMICOLON"@,
            TokenType::LEFT_PAREN => "LEFT_PAREN"@,
            TokenType::RIGHT_PAREN => "RIGHT_PAREN"@,
            TokenType::LEFT_BRACE => "LEFT_BRACE"@,
            TokenType::RIGHT_BRACE => "RIGHT_BRACE"@,
            TokenType::LEFT_BRACKET => "LEFT_BRACKET"@,
            TokenType::RIGHT_BRACKET => "RIGHT_BRACKET"@,
            TokenType::FUNCTION => "FUNCTION"@,
            TokenType::LET => "LET"@,
            TokenType::CONST => "CONST"@,
            TokenType::TRUE => "TRUE"@,
            TokenType::FALSE => "FALSE"@,
            TokenType::IF => "IF"@,
            TokenType::ELSE => "ELSE"@,
            TokenType::RETURN => "RETURN"@,
            TokenType::NONE => "NONE"@,
        }
    }

    /// How a diagnostic writes the kind: the spelling of an operator, a
    /// delimiter or a keyword, which is fixed, and the name of every other kind.
    pub open spec fn spelling(self) -> Seq<char> {
        match self {
            TokenType::ILLEGAL => "ILLEGAL"@,
            TokenType::EOF => "EOF"@,
            TokenType::IDENTIFIER => "IDENTIFIER"@,
            TokenType::INTEGER => "INTEGER"@,
            TokenType::STRING => "STRING"@,
            TokenType::EQUAL => "="@,
            TokenType::PLUS => "+"@,
            TokenType::PLUS_PLUS => "++"@,
            TokenType::MINUS => "-"@,
            TokenType::MINUS_MINUS => "--"@,
            TokenType::STAR => "*"@,
            TokenType::SLASH => "/"@,
            TokenType::MOD => "%"@,
            TokenType::BANG => "!"@,
            TokenType::EQUAL_EQUAL => "=="@,
            TokenType::LESS => "<"@,
            TokenType::LESS_EQUAL => "<="@,
            TokenType::GREATER => ">"@,
            TokenType::GREATER_EQUAL => ">="@,
            TokenType::BANG_EQUAL => "!="@,
            TokenType::AND => "&&"@,
            TokenType::OR => "||"@,
            TokenType::COMMA => ","@,
            TokenType::COLON => ":"@,
            TokenType::SEMICOLON => ";"@,
            TokenType::LEFT_PAREN => "("@,
            TokenType::RIGHT_PAREN => ")"@,
            TokenType::LEFT_BRACE => "{"@,
            TokenType::RIGHT_BRACE => "}"@,
            TokenType::LEFT_BRACKET => "["@,
            TokenType::RIGHT_BRACKET => "]"@,
            TokenType::FUNCTION => "func"@,
            TokenType::LET => "let"@,
            TokenType::CONST => "const"@,
            TokenType::TRUE => "true"@,
            TokenType::FALSE => "false"@,
            TokenType::IF => "if"@,
            TokenType::ELSE => "else"@,
            TokenType::RETURN => "return"@,
            TokenType::NONE => "NONE"@,
        }
    }

    /// Whether every token of the kind has the same text.
    pub open spec fn has_fixed_text(self) -> bool {
        !(self == TokenType::ILLEGAL || self == TokenType::EOF || self == TokenType::IDENTIFIER
            || self == TokenType::INTEGER || self == TokenType::STRING || self == TokenType::NONE)
    }

    /// The name of the kind.
    pub fn to_string(&self) -> (text: String)
        ensures
            text@ == self.name(),
    {
        match self {
            TokenType::ILLEGAL => "ILLEGAL".to_owned(),
            TokenType::EOF => "EOF".to_owned(),
            TokenType::IDENTIFIER => "IDENTIFIER".to_owned(),
            TokenType::INTEGER => "INTEGER".to_owned(),
            TokenType::STRING => "STRING".to_owned(),
            TokenType::EQUAL => "EQUAL".to_owned(),
            TokenType::PLUS => "PLUS".to_owned(),
            TokenType::PLUS_PLUS => "PLUS_PLUS".to_owned(),
            TokenType::MINUS => "MINUS".to_owned(),
            TokenType::MINUS_MINUS => "MINUS_MINUS".to_owned(),
            TokenType::STAR => "STAR".to_owned(),
            TokenType::SLASH => "SLASH".to_owned(),
            TokenType::MOD => "MOD".to_owned(),
            TokenType::BANG => "BANG".to_owned(),
            TokenType::EQUAL_EQUAL => "EQUAL_EQUAL".to_owned(),
            TokenType::LESS => "LESS".to_owned(),
            TokenType::LESS_EQUAL => "LESS_EQUAL".to_owned(),
            TokenType::GREATER => "GREATER".to_owned(),
            TokenType::GREATER_EQUAL => "GREATER_EQUAL".to_owned(),
            TokenType::BANG_EQUAL => "BANG_EQUAL".to_owned(),
            TokenType::AND => "AND".to_owned(),
            TokenType::OR => "OR".to_owned(),
            TokenType::COMMA => "COMMA".to_owned(),
            TokenType::COLON => "COLON".to_owned(),
            TokenType::SEMICOLON => "SEMICOLON".to_owned(),
            TokenType::LEFT_PAREN => "LEFT_PAREN".to_owned(),
            TokenType::RIGHT_PAREN => "RIGHT_PAREN".to_owned(),
            TokenType::LEFT_BRACE => "LEFT_BRACE".to_owned(),
            TokenType::RIGHT_BRACE => "RIGHT_BRACE".to_owned(),
            TokenType::LEFT_BRACKET => "LEFT_BRACKET".to_owned(),
            TokenType::RIGHT_BRACKET => "RIGHT_BRACKET".to_owned(),
            TokenType::FUNCTION => "FUNCTION".to_owned(),
            TokenType::LET => "LET".to_owned(),
            TokenType::CONST => "CONST".to_owned(),
            TokenType::TRUE => "TRUE".to_owned(),
            TokenType::FALSE => "FALSE".to_owned(),
            TokenType::IF => "IF".to_owned(),
            TokenType::ELSE => "ELSE".to_owned(),
            TokenType::RETURN => "RETURN".to_owned(),
            TokenType::NONE => "NONE".to_owned(),
        }
    }

    /// The kind as a diagnostic writes it.
    pub fn describe(&self) -> (text: String)
        ensures
            text@ == self.spelling(),
    {
        match self {
            TokenType::ILLEGAL => "ILLEGAL".to_owned(),
            TokenType::EOF => "EOF".to_owned(),
            TokenType::IDENTIFIER => "IDENTIFIER".to_owned(),
            TokenType::INTEGER => "INTEGER".to_owned(),
            TokenType::STRING => "STRING".to_owned(),
            TokenType::EQUAL => "=".to_owned(),
            TokenType::PLUS => "+".to_owned(),
            TokenType::PLUS_PLUS => "++".to_owned(),
            TokenType::MINUS => "-".to_owned(),
            TokenType::MINUS_MINUS => "--".to_owned(),
            TokenType::STAR => "*".to_owned(),
            TokenType::SLASH => "/".to_owned(),
            TokenType::MOD => "%".to_owned(),
            TokenType::BANG => "!".to_owned(),
            TokenType::EQUAL_EQUAL => "==".to_owned(),
            TokenType::LESS => "<".to_owned(),
            TokenType::LESS_EQUAL => "<=".to_owned(),
            TokenType::GREATER => ">".to_owned(),
            TokenType::GREATER_EQUAL => ">=".to_owned(),
            TokenType::BANG_EQUAL => "!=".to_owned(),
            TokenType::AND => "&&".to_owned(),
            TokenType::OR => "||".to_owned(),
            TokenType::COMMA => ",".to_owned(),
            TokenType::COLON => ":".to_owned(),
            TokenType::SEMICOLON => ";".to_owned(),
            TokenType::LEFT_PAREN => "(".to_owned(),
            TokenType::RIGHT_PAREN => ")".to_owned(),
            TokenType::LEFT_BRACE => "{".to_owned(),
            TokenType::RIGHT_BRACE => "}".to_owned(),
            TokenType::LEFT_BRACKET => "[".to_owned(),
            TokenType::RIGHT_BRACKET => "]".to_owned(),
            TokenType::FUNCTION => "func".to_owned(),
            TokenType::LET => "let".to_owned(),
            TokenType::CONST => "const".to_owned(),
            TokenType::TRUE => "true".to_owned(),
            TokenType::FALSE => "false".to_owned(),
            TokenType::IF => "if".to_owned(),
            TokenType::ELSE => "else".to_owned(),
            TokenType::RETURN => "return".to_owned(),
            TokenType::NONE => "NONE".to_owned(),
        }
    }
}

/// What a token is, in specifications.
pub struct TokenView {
    pub token_type: TokenType,
    pub literal: Seq<char>,
    pub line: nat,
}

impl TokenView {
    /// The token that fills a window slot before the first real token reaches it.
    pub open spec fn none() -> TokenView {
        TokenView { token_type: TokenType::NONE, literal: Seq::empty(), line: 0 }
    }
}

/// A token: its kind, the text it was read from, and the line it stands on
/// (the first line is line 0).
#[derive(Debug)]
pub struct Token {
    pub token_type: TokenType,
    pub literal: String,
    pub line: usize,
}

impl View for Token {
    type V = TokenView;

    /// The value as contracts speak of it.
    open spec fn view(&self) -> TokenView {
        TokenView { token_type: self.token_type, literal: self.literal@, line: self.line as nat }
    }
}

impl Clone for Token {
    /// A copy of the token.
    fn clone(&self) -> (copy: Self)
        ensures
            copy@ == self@,
    {
        Token { token_type: self.token_type, literal: self.literal.clone(), line: self.line }
    }
}

impl Token {
    /// The token that fills a window slot before the first real token reaches it.
    pub fn none() -> (token: Token)
        ensures
            token@ == TokenView::none(),
    {
        Token { token_type: TokenType::NONE, literal: String::new(), line: 0 }
    }
}

/// The spellings of the keywords, each with its kind.
pub open spec fn keyword_table() -> Seq<(Seq<char>, TokenType)> {
    seq![
        ("func"@, TokenType::FUNCTION),
        ("let"@, TokenType::LET),
        ("const"@, TokenType::CONST),
        ("true"@, TokenType::TRUE),
        ("false"@, TokenType::FALSE),
        ("if"@, TokenType::IF),
        ("else"@, TokenType::ELSE),
        ("return"@, TokenType::RETURN),
    ]
}

/// The kind of a scanned word: that of the keyword it spells, and
/// `IDENTIFIER` where it spells none.
pub open spec fn keyword_kind(word: Seq<char>) -> TokenType {
    if word == "func"@ {
        TokenType::FUNCTION
    } else if word == "let"@ {
        TokenType::LET
    } else if word == "const"@ {
        TokenType::CONST
    } else if word == "true"@ {
        TokenType::TRUE
    } else if word == "false"@ {
        TokenType::FALSE
    } else if word == "if"@ {
        TokenType::IF
    } else if word == "else"@ {
        TokenType::ELSE
    } else if word == "return"@ {
        TokenType::RETURN
    } else {
        TokenType::IDENTIFIER
    }
}

/// Spells out the keywords, so that two of them can be told apart.
pub proof fn lemma_keyword_spellings()
    ensures
        "func"@ == seq!['f', 'u', 'n', 'c'],
        "let"@ == seq!['l', 'e', 't'],
        "const"@ == seq!['c', 'o', 'n', 's', 't'],
        "true"@ == seq!['t', 'r', 'u', 'e'],
        "false"@ == seq!['f', 'a', 'l', 's', 'e'],
        "if"@ == seq!['i', 'f'],
        "else"@ == seq!['e', 'l', 's', 'e'],
        "return"@ == seq!['r', 'e', 't', 'u', 'r', 'n'],
{
    reveal_strlit("func");
    reveal_strlit("let");
    reveal_strlit("const");
    reveal_strlit("true");
    reveal_strlit("false");
    reveal_strlit("if");
    reveal_strlit("else");
    reveal_strlit("return");
    assert("func"@ =~= seq!['f', 'u', 'n', 'c']);
    assert("let"@ =~= seq!['l', 'e', 't']);
    assert("const"@ =~= seq!['c', 'o', 'n', 's', 't']);
    assert("true"@ =~= seq!['t', 'r', 'u', 'e']);
    assert("false"@ =~= seq!['f', 'a', 'l', 's', 'e']);
    assert("if"@ =~= seq!['i', 'f']);
    assert("else"@ =~= seq!['e', 'l', 's', 'e']);
    assert("return"@ =~= seq!['r', 'e', 't', 'u', 'r', 'n']);
}

/// The keyword table and `keyword_kind` agree: a word has the kind that the
/// table gives its spelling, and `IDENTIFIER` exactly where the table does not
/// hold it.
pub proof fn lemma_keyword_table_agrees(word: Seq<char>)
    ensures
        forall|i: int|
            0 <= i < keyword_table().len() && #[trigger] keyword_table()[i].0 == word
                ==> keyword_kind(word) == keyword_table()[i].1,
        keyword_kind(word) == TokenType::IDENTIFIER <==> forall|i: int|
            0 <= i < keyword_table().len() ==> #[trigger] keyword_table()[i].0 != word,
{
    lemma_keyword_spellings();
    let table = keyword_table();

    assert(table[0].0 == "func"@ && table[0].1 == TokenType::FUNCTION);
    assert(table[1].0 == "let"@ && table[1].1 == TokenType::LET);
    assert(table[2].0 == "const"@ && table[2].1 == TokenType::CONST);
    assert(table[3].0 == "true"@ && table[3].1 == TokenType::TRUE);
    assert(table[4].0 == "false"@ && table[4].1 == TokenType::FALSE);
    assert(table[5].0 == "if"@ && table[5].1 == TokenType::IF);
    assert(table[6].0 == "else"@ && table[6].1 == TokenType::ELSE);
    assert(table[7].0 == "return"@ && table[7].1 == TokenType::RETURN);
    if keyword_kind(word) != TokenType::IDENTIFIER {
        if word == "func"@ {
            assert(table[0].0 == word);
        } else if word == "let"@ {
            assert(table[1].0 == word);
        } else if word == "const"@ {
            assert(table[2].0 == word);
        } else if word == "true"@ {
            assert(table[3].0 == word);
        } else if word == "false"@ {
            assert(table[4].0 == word);
        } else if word == "if"@ {
            assert(table[5].0 == word);
        } else if word == "else"@ {
            assert(table[6].0 == word);
        } else if word == "return"@ {
            assert(table[7].0 == word);
        }
    }
}

/// The static keyword table.
pub struct Keywords;

impl Keywords {
    /// The keywords, each with its kind, in the order of `keyword_table`.
    pub fn all() -> (table: Vec<(String, TokenType)>)
        ensures
            table@.len() == keyword_table().len(),
            forall|i: int|
                0 <= i < table@.len() ==> (#[trigger] table@[i]).0@ == keyword_table()[i].0
                    && table@[i].1 == keyword_table()[i].1,
    {
        let mut table: Vec<(String, TokenType)> = Vec::new();
        table.push(("func".to_owned(), TokenType::FUNCTION));
        table.push(("let".to_owned(), TokenType::LET));
        table.push(("const".to_owned(), TokenType::CONST));
        table.push(("true".to_owned(), TokenType::TRUE));
        table.push(("false".to_owned(), TokenType::FALSE));
        table.push(("if".to_owned(), TokenType::IF));
        table.push(("else".to_owned(), TokenType::ELSE));
        table.push(("return".to_owned(), TokenType::RETURN));
        table
    }
}

/// Classifies a scanned word: the kind of the keyword that it spells, or
/// `IDENTIFIER`.
pub fn look_up_identifier(identifier: &String) -> (kind: TokenType)
    ensures
        kind == keyword_kind(identifier@),
{
    let table = Keywords::all();
    let mut i: usize = 0;
    while i < table.len()
        invariant
            i <= table@.len(),
            table@.len() == keyword_table().len(),
            forall|k: int|
                0 <= k < table@.len() ==> (#[trigger] table@[k]).0@ == keyword_table()[k].0
                    && table@[k].1 == keyword_table()[k].1,
            forall|k: int| 0 <= k < i ==> #[trigger] keyword_table()[k].0 != identifier@,
        decreases table@.len() - i,
    {
        if table[i].0 == *identifier {
            proof {
                lemma_keyword_table_agrees(identifier@);
                assert(keyword_table()[i as int].0 == identifier@);
            }
            return table[i].1;
        }
        i = i + 1;
    }
    proof {
        lemma_keyword_table_agrees(identifier@);
    }
    TokenType::IDENTIFIER
}

} // verus!
