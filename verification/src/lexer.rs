//! The lexer. `scan_token` says what the next token of a text is, and
//! `tokens_from` what all its tokens are; `Lexer::next_token` hands them
//! out one at a time.

use vstd::prelude::*;
use crate::text::{chars_of, string_of};
use crate::token::{keyword_kind, look_up_identifier, Token, TokenType, TokenView};

verus! {

/// A space, a tab, a newline or a carriage return.
pub open spec fn blank(c: char) -> bool {
    c == ' ' || c == '\t' || c == '\n' || c == '\r'
}

/// A character of a word: an ASCII letter or an underscore.
pub open spec fn letter(c: char) -> bool {
    'a' <= c <= 'z' || 'A' <= c <= 'Z' || c == '_'
}

/// A decimal digit.
pub open spec fn digit(c: char) -> bool {
    '0' <= c <= '9'
}

/// The runs of characters that the lexer passes over in one go.
#[derive(Clone, Copy)]
pub enum Scan {
    /// Blank characters.
    Whitespace,
    /// The characters of a word.
    Word,
    /// Decimal digits.
    Number,
    /// The rest of a line.
    LineComment,
    /// A block comment, up to the `*` of the `*/` that closes it.
    BlockComment,
    /// The content of a string literal, up to the quote that closes it.
    StringBody,
}

/// Whether the run `scan` ends before the character of `text` at `at`.
pub open spec fn stops(scan: Scan, text: Seq<char>, at: int) -> bool {
    match scan {
        Scan::Whitespace => !blank(text[at]),
        Scan::Word => !letter(text[at]),
        Scan::Number => !digit(text[at]),
        Scan::LineComment => text[at] == '\n',
        Scan::BlockComment => text[at] == '*' && at + 1 < text.len() && text[at + 1] == '/',
        Scan::StringBody => text[at] == '"',
    }
}

/// Where the run `scan` that starts at `from` ends: the first position at or
/// after `from` before which it stops, and the end of `text` where it stops
/// nowhere.
pub open spec fn first_stop(scan: Scan, text: Seq<char>, from: int) -> int
    decreases text.len() - from,
{
    if from >= text.len() || stops(scan, text, from) {
        from
    } else {
        first_stop(scan, text, from + 1)
    }
}

/// What `first_stop` finds: the run does not stop inside, and stops at its
/// end unless that is the end of the text.
pub proof fn lemma_first_stop(scan: Scan, text: Seq<char>, from: int)
    requires
        0 <= from <= text.len(),
    ensures
        from <= first_stop(scan, text, from) <= text.len(),
        forall|at: int| from <= at < first_stop(scan, text, from) ==> !stops(scan, text, at),
        first_stop(scan, text, from) < text.len() ==> stops(
            scan,
            text,
            first_stop(scan, text, from),
        ),
    decreases text.len() - from,
{
    if from < text.len() && !stops(scan, text, from) {
        lemma_first_stop(scan, text, from + 1);
    }
}

/// The number of newlines in `text` from `from` up to, not including, `to`.
pub open spec fn newlines(text: Seq<char>, from: int, to: int) -> nat
    decreases to - from,
{
    if to <= from {
        0
    } else {
        newlines(text, from, to - 1) + if text[to - 1] == '\n' {
            1nat
        } else {
            0nat
        }
    }
}

/// The kind of the operator that two characters spell together.
pub open spec fn two_char_operator(first: char, second: char) -> Option<TokenType> {
    if first == '=' && second == '=' {
        Some(TokenType::EQUAL_EQUAL)
    } else if first == '!' && second == '=' {
        Some(TokenType::BANG_EQUAL)
    } else if first == '<' && second == '=' {
        Some(TokenType::LESS_EQUAL)
    } else if first == '>' && second == '=' {
        Some(TokenType::GREATER_EQUAL)
    } else if first == '&' && second == '&' {
        Some(TokenType::AND)
    } else if first == '|' && second == '|' {
        Some(TokenType::OR)
    } else if first == '+' && second == '+' {
        Some(TokenType::PLUS_PLUS)
    } else if first == '-' && second == '-' {
        Some(TokenType::MINUS_MINUS)
    } else {
        None
    }
}

/// The kind of the operator or delimiter that one character spells.
pub open spec fn one_char_operator(c: char) -> Option<TokenType> {
    if c == '=' {
        Some(TokenType::EQUAL)
    } else if c == '+' {
        Some(TokenType::PLUS)
    } else if c == '-' {
        Some(TokenType::MINUS)
    } else if c == '*' {
        Some(TokenType::STAR)
    } else if c == '/' {
        Some(TokenType::SLASH)
    } else if c == '%' {
        Some(TokenType::MOD)
    } else if c == '!' {
        Some(TokenType::BANG)
    } else if c == '<' {
        Some(TokenType::LESS)
    } else if c == '>' {
        Some(TokenType::GREATER)
    } else if c == ',' {
        Some(TokenType::COMMA)
    } else if c == ':' {
        Some(TokenType::COLON)
    } else if c == ';' {
        Some(TokenType::SEMICOLON)
    } else if c == '(' {
        Some(TokenType::LEFT_PAREN)
    } else if c == ')' {
        Some(TokenType::RIGHT_PAREN)
    } else if c == '{' {
        Some(TokenType::LEFT_BRACE)
    } else if c == '}' {
        Some(TokenType::RIGHT_BRACE)
    } else if c == '[' {
        Some(TokenType::LEFT_BRACKET)
    } else if c == ']' {
        Some(TokenType::RIGHT_BRACKET)
    } else {
        None
    }
}

/// A token, and where the lexer stands after it.
pub struct Scanned {
    pub token: TokenView,
    pub position: int,
    pub line: nat,
}

/// The token that starts at `start`, where a token does start: `start` is
/// inside `text`, on a character that is not blank and opens no comment. The
/// token stands on line `line`.
///
/// Two characters that spell an operator together are one token. A string
/// literal gives its content, without the quotes; one that is not closed runs
/// to the end of the text. A word is a keyword or an identifier, a run of
/// digits an integer, and any other character is `ILLEGAL`.
pub open spec fn token_at(text: Seq<char>, start: int, line: nat) -> Scanned {
    let c = text[start];
    let pair = if start + 1 < text.len() {
        two_char_operator(c, text[start + 1])
    } else {
        None
    };
    if pair is Some {
        Scanned {
            token: TokenView {
                token_type: pair->0,
                literal: text.subrange(start, start + 2),
                line,
            },
            position: start + 2,
            line,
        }
    } else if one_char_operator(c) is Some {
        Scanned {
            token: TokenView { token_type: one_char_operator(c)->0, literal: seq![c], line },
            position: start + 1,
            line,
        }
    } else if c == '"' {
        let close = first_stop(Scan::StringBody, text, start + 1);
        Scanned {
            token: TokenView {
                token_type: TokenType::STRING,
                literal: text.subrange(start + 1, close),
                line,
            },
            position: if close < text.len() {
                close + 1
            } else {
                close
            },
            line,
        }
    } else if letter(c) {
        let end = first_stop(Scan::Word, text, start);
        let word = text.subrange(start, end);
        Scanned {
            token: TokenView { token_type: keyword_kind(word), literal: word, line },
            position: end,
            line,
        }
    } else if digit(c) {
        let end = first_stop(Scan::Number, text, start);
        Scanned {
            token: TokenView {
                token_type: TokenType::INTEGER,
                literal: text.subrange(start, end),
                line,
            },
            position: end,
            line,
        }
    } else {
        Scanned {
            token: TokenView { token_type: TokenType::ILLEGAL, literal: seq![c], line },
            position: start + 1,
            line,
        }
    }
}

/// Where the lexer resumes after the block comment that opens at `start`:
/// behind the first `*/` that follows the opening `/*`, and at the end of
/// the text where none follows.
pub open spec fn block_comment_end(text: Seq<char>, start: int) -> int {
    let close = first_stop(Scan::BlockComment, text, start + 2);
    if close < text.len() {
        close + 2
    } else {
        close
    }
}

/// The next token of `text` for a lexer that stands at `position` on line
/// `line`, and where the lexer stands after it.
///
/// Blank characters before the token are passed over, and each newline
/// among them adds one to the line. A `//` comment runs to the end of its
/// line, a `/* */` comment to its `*/`; one that is not closed runs to the
/// end of the text. A newline inside a block comment or a string literal
/// does not count as a line. At the end of the text the token is `EOF`.
pub open spec fn scan_token(text: Seq<char>, position: int, line: nat) -> Scanned
    decreases text.len() - position,
{
    let start = first_stop(Scan::Whitespace, text, position);
    let line = line + newlines(text, position, start);
    if !(0 <= position <= start < text.len()) {
        Scanned {
            token: TokenView { token_type: TokenType::EOF, literal: Seq::empty(), line },
            position: start,
            line,
        }
    } else if text[start] == '/' && start + 1 < text.len() && text[start + 1] == '/' {
        let end = first_stop(Scan::LineComment, text, start + 2);
        proof {
            lemma_first_stop(Scan::LineComment, text, start + 2);
        }
        scan_token(text, end, line)
    } else if text[start] == '/' && start + 1 < text.len() && text[start + 1] == '*' {
        let end = block_comment_end(text, start);
        proof {
            lemma_first_stop(Scan::BlockComment, text, start + 2);
        }
        scan_token(text, end, line)
    } else {
        token_at(text, start, line)
    }
}

/// The `EOF` token of line `line`.
pub open spec fn eof_token(line: nat) -> TokenView {
    TokenView { token_type: TokenType::EOF, literal: Seq::empty(), line }
}

/// Every token ends inside the text, at or behind the place where the lexer
/// stood. Each token but `EOF` takes at least one character, and `EOF` comes
/// at the end of the text only; no token has the kind `NONE`.
pub proof fn lemma_scan_token(text: Seq<char>, position: int, line: nat)
    requires
        0 <= position <= text.len(),
    ensures
        position <= scan_token(text, position, line).position <= text.len(),
        scan_token(text, position, line).token.line == scan_token(text, position, line).line,
        scan_token(text, position, line).token.token_type != TokenType::NONE,
        scan_token(text, position, line).token.token_type != TokenType::EOF ==> position
            < scan_token(text, position, line).position,
        scan_token(text, position, line).token.token_type == TokenType::EOF ==> scan_token(
            text,
            position,
            line,
        ) == (Scanned {
            token: eof_token(scan_token(text, position, line).line),
            position: text.len() as int,
            line: scan_token(text, position, line).line,
        }),
    decreases text.len() - position,
{
    let start = first_stop(Scan::Whitespace, text, position);
    let here = line + newlines(text, position, start);
    lemma_first_stop(Scan::Whitespace, text, position);
    if start < text.len() {
        if text[start] == '/' && start + 1 < text.len() && text[start + 1] == '/' {
            lemma_first_stop(Scan::LineComment, text, start + 2);
            lemma_scan_token(text, first_stop(Scan::LineComment, text, start + 2), here);
        } else if text[start] == '/' && start + 1 < text.len() && text[start + 1] == '*' {
            lemma_first_stop(Scan::BlockComment, text, start + 2);
            lemma_scan_token(text, block_comment_end(text, start), here);
        } else {
            lemma_first_stop(Scan::StringBody, text, start + 1);
            lemma_first_stop(Scan::Word, text, start);
            lemma_first_stop(Scan::Number, text, start);
        }
    }
}

/// Blank characters before a token do not change it: the next token, seen
/// from behind the blank characters at `position`, on the line that they end
/// on, is the next token seen from `position`. The place behind a run of
/// blank characters starts no further run.
pub proof fn lemma_scan_after_whitespace(text: Seq<char>, position: int, line: nat)
    requires
        0 <= position <= text.len(),
    ensures
        first_stop(Scan::Whitespace, text, first_stop(Scan::Whitespace, text, position))
            == first_stop(Scan::Whitespace, text, position),
        scan_token(
            text,
            first_stop(Scan::Whitespace, text, position),
            line + newlines(text, position, first_stop(Scan::Whitespace, text, position)),
        ) == scan_token(text, position, line),
{
    let start = first_stop(Scan::Whitespace, text, position);
    lemma_first_stop(Scan::Whitespace, text, position);
    assert(first_stop(Scan::Whitespace, text, start) == start);
    assert(newlines(text, start, start) == 0);
}

/// The tokens that a lexer at `position`, on line `line`, has still to hand
/// out: those of the rest of the text, up to and including the first `EOF`.
pub open spec fn tokens_from(text: Seq<char>, position: int, line: nat) -> Seq<TokenView>
    decreases text.len() - position,
{
    let step = scan_token(text, position, line);
    if step.token.token_type == TokenType::EOF || !(0 <= position <= text.len()) {
        seq![step.token]
    } else {
        proof {
            lemma_scan_token(text, position, line);
        }
        seq![step.token] + tokens_from(text, step.position, step.line)
    }
}

/// What the tokens of a text look like: there is at least one, the last is
/// an `EOF` without text, and no other is `EOF`.
pub open spec fn is_token_stream(tokens: Seq<TokenView>) -> bool {
    &&& tokens.len() >= 1
    &&& tokens.last() == eof_token(tokens.last().line)
    &&& forall|i: int|
        0 <= i < tokens.len() - 1 ==> (#[trigger] tokens[i]).token_type != TokenType::EOF
}

/// The tokens of a text are a token stream.
pub proof fn lemma_tokens_are_stream(text: Seq<char>, position: int, line: nat)
    requires
        0 <= position <= text.len(),
    ensures
        is_token_stream(tokens_from(text, position, line)),
    decreases text.len() - position,
{
    let step = scan_token(text, position, line);
    lemma_scan_token(text, position, line);
    if step.token.token_type != TokenType::EOF {
        lemma_tokens_are_stream(text, step.position, step.line);
    }
}

/// Taking one token off the stream: the first of the tokens still to come is
/// the next token, and the rest are the tokens to come after it. Behind `EOF`
/// the stream stays as it is, so that `EOF` comes again forever.
pub proof fn lemma_tokens_step(text: Seq<char>, position: int, line: nat)
    requires
        0 <= position <= text.len(),
    ensures
        tokens_from(text, position, line)[0] == scan_token(text, position, line).token,
        tokens_from(
            text,
            scan_token(text, position, line).position,
            scan_token(text, position, line).line,
        ) == if scan_token(text, position, line).token.token_type == TokenType::EOF {
            tokens_from(text, position, line)
        } else {
            tokens_from(text, position, line).skip(1)
        },
{
    let step = scan_token(text, position, line);
    lemma_scan_token(text, position, line);
    if step.token.token_type == TokenType::EOF {
        lemma_first_stop(Scan::Whitespace, text, step.position);
        assert(first_stop(Scan::Whitespace, text, step.position) == step.position);
        assert(newlines(text, step.position, step.position) == 0);
        assert(scan_token(text, step.position, step.line).token == step.token);
    } else {
        assert(tokens_from(text, position, line).skip(1) =~= tokens_from(
            text,
            step.position,
            step.line,
        ));
    }
}

/// An operator or delimiter of one character, alone in a text, gives one
/// token of its kind, and `EOF` behind it.
pub proof fn lemma_single_operator(c: char)
    requires
        one_char_operator(c) is Some,
    ensures
        tokens_from(seq![c], 0, 0) == seq![
            TokenView { token_type: one_char_operator(c)->0, literal: seq![c], line: 0 },
            eof_token(0),
        ],
{
    let text = seq![c];
    assert(first_stop(Scan::Whitespace, text, 0) == 0);
    assert(newlines(text, 0, 0) == 0);
    let step = scan_token(text, 0, 0);
    assert(step.token == TokenView {
        token_type: one_char_operator(c)->0,
        literal: seq![c],
        line: 0,
    });
    assert(step.position == 1);
    assert(first_stop(Scan::Whitespace, text, 1) == 1);
    assert(newlines(text, 1, 1) == 0);
    assert(scan_token(text, 1, 0).token == eof_token(0));
    assert(tokens_from(text, 1, 0) =~= seq![eof_token(0)]);
    assert(tokens_from(text, 0, 0) =~= seq![step.token] + tokens_from(text, 1, 0));
}

/// Two characters that spell an operator together are read as that one
/// operator, never as two tokens.
pub proof fn lemma_two_char_operator(text: Seq<char>, position: int, line: nat)
    requires
        0 <= position,
        position + 1 < text.len(),
        two_char_operator(text[position], text[position + 1]) is Some,
    ensures
        scan_token(text, position, line) == (Scanned {
            token: TokenView {
                token_type: two_char_operator(text[position], text[position + 1])->0,
                literal: text.subrange(position, position + 2),
                line,
            },
            position: position + 2,
            line,
        }),
{
    assert(first_stop(Scan::Whitespace, text, position) == position);
    assert(newlines(text, position, position) == 0);
}

/// A string literal that is not closed runs to the end of the text: the
/// token is a `STRING` that holds everything behind the opening quote.
pub proof fn lemma_unterminated_string(text: Seq<char>, position: int, line: nat)
    requires
        0 <= position < text.len(),
        text[position] == '"',
        forall|at: int| position < at < text.len() ==> text[at] != '"',
    ensures
        scan_token(text, position, line) == (Scanned {
            token: TokenView {
                token_type: TokenType::STRING,
                literal: text.subrange(position + 1, text.len() as int),
                line,
            },
            position: text.len() as int,
            line,
        }),
{
    assert(first_stop(Scan::Whitespace, text, position) == position);
    assert(newlines(text, position, position) == 0);
    lemma_first_stop(Scan::StringBody, text, position + 1);
}

/// What the text of a token is. A token of an operator, a delimiter or a
/// keyword holds its spelling. An integer holds digits, and at least one;
/// an identifier holds letters, at least one, and spells no keyword. A
/// string holds no quote, an `ILLEGAL` token one character, and `EOF`
/// nothing.
pub proof fn lemma_token_text(text: Seq<char>, position: int, line: nat)
    requires
        0 <= position <= text.len(),
    ensures
        ({
            let found = scan_token(text, position, line).token;
            &&& found.token_type.has_fixed_text() ==> found.literal == found.token_type.spelling()
            &&& found.token_type == TokenType::INTEGER ==> found.literal.len() > 0 && forall|
                i: int,
            | 0 <= i < found.literal.len() ==> digit(#[trigger] found.literal[i])
            &&& found.token_type == TokenType::IDENTIFIER ==> found.literal.len() > 0
                && keyword_kind(found.literal) == TokenType::IDENTIFIER && forall|i: int|
                0 <= i < found.literal.len() ==> letter(#[trigger] found.literal[i])
            &&& found.token_type == TokenType::STRING ==> forall|i: int|
                0 <= i < found.literal.len() ==> #[trigger] found.literal[i] != '"'
            &&& found.token_type == TokenType::ILLEGAL ==> found.literal.len() == 1
            &&& found.token_type == TokenType::EOF ==> found.literal.len() == 0
        }),
    decreases text.len() - position,
{
    let start = first_stop(Scan::Whitespace, text, position);
    let here = line + newlines(text, position, start);
    lemma_first_stop(Scan::Whitespace, text, position);
    if start < text.len() {
        if text[start] == '/' && start + 1 < text.len() && text[start + 1] == '/' {
            lemma_first_stop(Scan::LineComment, text, start + 2);
            lemma_token_text(text, first_stop(Scan::LineComment, text, start + 2), here);
        } else if text[start] == '/' && start + 1 < text.len() && text[start + 1] == '*' {
            lemma_first_stop(Scan::BlockComment, text, start + 2);
            lemma_token_text(text, block_comment_end(text, start), here);
        } else {
            lemma_first_stop(Scan::StringBody, text, start + 1);
            lemma_first_stop(Scan::Word, text, start);
            lemma_first_stop(Scan::Number, text, start);
            lemma_operator_spellings();
            let found = token_at(text, start, here).token;
            let c = text[start];
            if start + 1 < text.len() && two_char_operator(c, text[start + 1]) is Some {
                assert(found.literal =~= seq![c, text[start + 1]]);
            } else if one_char_operator(c) is Some {
            } else if c == '"' {
                assert forall|i: int| 0 <= i < found.literal.len() implies (
                #[trigger] found.literal[i]) != '"' by {
                    assert(!stops(Scan::StringBody, text, start + 1 + i));
                }
            } else if letter(c) {
                assert(!stops(Scan::Word, text, start));
                assert forall|i: int| 0 <= i < found.literal.len() implies letter(
                    #[trigger] found.literal[i],
                ) by {
                    assert(!stops(Scan::Word, text, start + i));
                }
            } else if digit(c) {
                assert(!stops(Scan::Number, text, start));
                assert forall|i: int| 0 <= i < found.literal.len() implies digit(
                    #[trigger] found.literal[i],
                ) by {
                    assert(!stops(Scan::Number, text, start + i));
                }
            }
        }
    }
}

/// Spells out the operators and delimiters.
pub proof fn lemma_operator_spellings()
    ensures
        "="@ == seq!['='],
        "+"@ == seq!['+'],
        "-"@ == seq!['-'],
        "*"@ == seq!['*'],
        "/"@ == seq!['/'],
        "%"@ == seq!['%'],
        "!"@ == seq!['!'],
        "<"@ == seq!['<'],
        ">"@ == seq!['>'],
        ","@ == seq![','],
        ":"@ == seq![':'],
        ";"@ == seq![';'],
        "("@ == seq!['('],
        ")"@ == seq![')'],
        "{"@ == seq!['{'],
        "}"@ == seq!['}'],
        "["@ == seq!['['],
        "]"@ == seq![']'],
        "=="@ == seq!['=', '='],
        "!="@ == seq!['!', '='],
        "<="@ == seq!['<', '='],
        ">="@ == seq!['>', '='],
        "&&"@ == seq!['&', '&'],
        "||"@ == seq!['|', '|'],
        "++"@ == seq!['+', '+'],
        "--"@ == seq!['-', '-'],
{
    reveal_strlit("=");
    reveal_strlit("+");
    reveal_strlit("-");
    reveal_strlit("*");
    reveal_strlit("/");
    reveal_strlit("%");
    reveal_strlit("!");
    reveal_strlit("<");
    reveal_strlit(">");
    reveal_strlit(",");
    reveal_strlit(":");
    reveal_strlit(";");
    reveal_strlit("(");
    reveal_strlit(")");
    reveal_strlit("{");
    reveal_strlit("}");
    reveal_strlit("[");
    reveal_strlit("]");
    reveal_strlit("==");
    reveal_strlit("!=");
    reveal_strlit("<=");
    reveal_strlit(">=");
    reveal_strlit("&&");
    reveal_strlit("||");
    reveal_strlit("++");
    reveal_strlit("--");
    assert("="@ =~= seq!['=']);
    assert("+"@ =~= seq!['+']);
    assert("-"@ =~= seq!['-']);
    assert("*"@ =~= seq!['*']);
    assert("/"@ =~= seq!['/']);
    assert("%"@ =~= seq!['%']);
    assert("!"@ =~= seq!['!']);
    assert("<"@ =~= seq!['<']);
    assert(">"@ =~= seq!['>']);
    assert(","@ =~= seq![',']);
    assert(":"@ =~= seq![':']);
    assert(";"@ =~= seq![';']);
    assert("("@ =~= seq!['(']);
    assert(")"@ =~= seq![')']);
    assert("{"@ =~= seq!['{']);
    assert("}"@ =~= seq!['}']);
    assert("["@ =~= seq!['[']);
    assert("]"@ =~= seq![']']);
    assert("=="@ =~= seq!['=', '=']);
    assert("!="@ =~= seq!['!', '=']);
    assert("<="@ =~= seq!['<', '=']);
    assert(">="@ =~= seq!['>', '=']);
    assert("&&"@ =~= seq!['&', '&']);
    assert("||"@ =~= seq!['|', '|']);
    assert("++"@ =~= seq!['+', '+']);
    assert("--"@ =~= seq!['-', '-']);
}

/// Whether `text`, from `position` on, holds nothing but blank characters
/// and comments.
pub open spec fn layout_only(text: Seq<char>, position: int) -> bool
    decreases text.len() - position,
{
    let start = first_stop(Scan::Whitespace, text, position);
    if !(0 <= position <= start < text.len()) {
        true
    } else if text[start] == '/' && start + 1 < text.len() && text[start + 1] == '/' {
        proof {
            lemma_first_stop(Scan::LineComment, text, start + 2);
        }
        layout_only(text, first_stop(Scan::LineComment, text, start + 2))
    } else if text[start] == '/' && start + 1 < text.len() && text[start + 1] == '*' {
        proof {
            lemma_first_stop(Scan::BlockComment, text, start + 2);
        }
        layout_only(text, block_comment_end(text, start))
    } else {
        false
    }
}

/// A text holds no token but `EOF` exactly if it holds nothing but blank
/// characters and comments.
pub proof fn lemma_layout_only(text: Seq<char>, position: int, line: nat)
    requires
        0 <= position <= text.len(),
    ensures
        layout_only(text, position) <==> scan_token(text, position, line).token.token_type
            == TokenType::EOF,
        layout_only(text, position) <==> tokens_from(text, position, line).len() == 1,
    decreases text.len() - position,
{
    let start = first_stop(Scan::Whitespace, text, position);
    let here = line + newlines(text, position, start);
    lemma_first_stop(Scan::Whitespace, text, position);
    lemma_scan_token(text, position, line);
    let step = scan_token(text, position, line);
    if step.token.token_type != TokenType::EOF {
        lemma_tokens_are_stream(text, step.position, step.line);
    }
    if start < text.len() {
        if text[start] == '/' && start + 1 < text.len() && text[start + 1] == '/' {
            lemma_first_stop(Scan::LineComment, text, start + 2);
            lemma_layout_only(text, first_stop(Scan::LineComment, text, start + 2), here);
        } else if text[start] == '/' && start + 1 < text.len() && text[start + 1] == '*' {
            lemma_first_stop(Scan::BlockComment, text, start + 2);
            lemma_layout_only(text, block_comment_end(text, start), here);
        }
    }
}

/// A text of blank characters only holds no token but `EOF`, which stands
/// on the line that follows the last newline.
pub proof fn lemma_blank_text(text: Seq<char>)
    requires
        forall|at: int| 0 <= at < text.len() ==> blank(#[trigger] text[at]),
    ensures
        tokens_from(text, 0, 0) == seq![eof_token(newlines(text, 0, text.len() as int))],
{
    lemma_first_stop(Scan::Whitespace, text, 0);
    assert(tokens_from(text, 0, 0) =~= seq![scan_token(text, 0, 0).token]);
}

/// The lexer: it reads a source text from front to back and hands out its
/// tokens one at a time.
pub struct Lexer {
    input: Vec<char>,
    position: usize,
    line: usize,
}

impl Lexer {
    /// The source text.
    pub closed spec fn text(&self) -> Seq<char> {
        self.input@
    }

    /// How many characters of the text have been read.
    pub closed spec fn position(&self) -> int {
        self.position as int
    }

    /// How many newlines have been passed over between tokens.
    pub closed spec fn line(&self) -> nat {
        self.line as nat
    }

    /// The cursor is inside the text or at its end, and no more lines were
    /// counted than characters read.
    pub closed spec fn wf(&self) -> bool {
        self.line <= self.position <= self.input@.len()
    }

    /// The tokens still to come, up to and including the first `EOF`.
    pub open spec fn pending(&self) -> Seq<TokenView> {
        tokens_from(self.text(), self.position(), self.line())
    }

    /// The tokens still to come are a token stream.
    pub proof fn lemma_pending(&self)
        requires
            self.wf(),
        ensures
            is_token_stream(self.pending()),
    {
        lemma_tokens_are_stream(self.text(), self.position(), self.line());
    }

    /// A lexer at the start of `input`, on line 0.
    pub fn new(input: String) -> (lexer: Lexer)
        ensures
            lexer.wf(),
            lexer.text() == input@,
            lexer.position() == 0,
            lexer.line() == 0,
    {
        Lexer { input: chars_of(input.as_str()), position: 0, line: 0 }
    }

    /// Moves the cursor over one character; at the end of the text it stays.
    fn read_char(&mut self)
        requires
            old(self).wf(),
        ensures
            final(self).input == old(self).input,
            final(self).line == old(self).line,
            final(self).position == if old(self).position < old(self).input@.len() {
                old(self).position + 1
            } else {
                old(self).position as int
            },
            final(self).wf(),
    {
        if self.position < self.input.len() {
            self.position = self.position + 1;
        }
    }

    /// The character behind the one under the cursor, and the NUL character
    /// where the text ends before it.
    fn peek(&self) -> (next: char)
        requires
            self.wf(),
        ensures
            next == if self.position + 1 < self.input@.len() {
                self.input@[self.position + 1]
            } else {
                '\0'
            },
    {
        if self.position < self.input.len() && self.position + 1 < self.input.len() {
            self.input[self.position + 1]
        } else {
            '\0'
        }
    }

    /// Whether the run `scan` ends before the character at `at`.
    fn stops_at(&self, scan: Scan, at: usize) -> (stop: bool)
        requires
            at < self.input@.len(),
        ensures
            stop == stops(scan, self.input@, at as int),
    {
        let len = self.input.len();
        let c = self.input[at];
        match scan {
            Scan::Whitespace => !is_blank(c),
            Scan::Word => !is_letter(c),
            Scan::Number => !is_integer(c),
            Scan::LineComment => c == '\n',
            Scan::BlockComment => c == '*' && at + 1 < len && self.input[at + 1] == '/',
            Scan::StringBody => c == '"',
        }
    }

    /// Where the run `scan` that starts at `from` ends.
    fn run_end(&self, scan: Scan, from: usize) -> (end: usize)
        requires
            from <= self.input@.len(),
        ensures
            end == first_stop(scan, self.input@, from as int),
            from <= end <= self.input@.len(),
    {
        let mut end: usize = from;
        while end < self.input.len() && !self.stops_at(scan, end)
            invariant
                from <= end <= self.input@.len(),
                first_stop(scan, self.input@, end as int) == first_stop(
                    scan,
                    self.input@,
                    from as int,
                ),
            decreases self.input@.len() - end,
        {
            end = end + 1;
        }
        end
    }

    /// Reads the string literal whose opening quote is under the cursor, and
    /// leaves the cursor on the closing quote, or at the end of the text
    /// where there is none. Gives the content between the quotes.
    fn read_string(&mut self) -> (content: String)
        requires
            old(self).wf(),
            old(self).position < old(self).input@.len(),
        ensures
            final(self).wf(),
            final(self).input == old(self).input,
            final(self).line == old(self).line,
            final(self).position == first_stop(
                Scan::StringBody,
                old(self).input@,
                old(self).position + 1,
            ),
            content@ == old(self).input@.subrange(
                old(self).position + 1,
                final(self).position as int,
            ),
    {
        assert(self.input.len() <= usize::MAX);
        let open = self.position + 1;
        let close = self.run_end(Scan::StringBody, open);
        self.position = close;
        string_of(&self.input, open, close)
    }

    /// Reads the word that starts under the cursor, and leaves the cursor
    /// behind it.
    fn read_identifier(&mut self) -> (word: String)
        requires
            old(self).wf(),
        ensures
            final(self).wf(),
            final(self).input == old(self).input,
            final(self).line == old(self).line,
            final(self).position == first_stop(
                Scan::Word,
                old(self).input@,
                old(self).position as int,
            ),
            word@ == old(self).input@.subrange(
                old(self).position as int,
                final(self).position as int,
            ),
    {
        let start = self.position;
        let end = self.run_end(Scan::Word, start);
        self.position = end;
        string_of(&self.input, start, end)
    }

    /// Reads the run of digits that starts under the cursor, and leaves the
    /// cursor behind it.
    fn read_integer(&mut self) -> (digits: String)
        requires
            old(self).wf(),
        ensures
            final(self).wf(),
            final(self).input == old(self).input,
            final(self).line == old(self).line,
            final(self).position == first_stop(
                Scan::Number,
                old(self).input@,
                old(self).position as int,
            ),
            digits@ == old(self).input@.subrange(
                old(self).position as int,
                final(self).position as int,
            ),
    {
        let start = self.position;
        let end = self.run_end(Scan::Number, start);
        self.position = end;
        string_of(&self.input, start, end)
    }

    /// Passes over blank characters, and counts the newlines among them.
    fn skip_whitespace(&mut self)
        requires
            old(self).wf(),
        ensures
            final(self).wf(),
            final(self).input == old(self).input,
            final(self).position == first_stop(
                Scan::Whitespace,
                old(self).input@,
                old(self).position as int,
            ),
            final(self).line == old(self).line + newlines(
                old(self).input@,
                old(self).position as int,
                final(self).position as int,
            ),
            final(self).position >= old(self).position,
    {
        let ghost start = self.position as int;
        while self.position < self.input.len() && is_blank(self.input[self.position])
            invariant
                self.wf(),
                self.input == old(self).input,
                start == old(self).position,
                start <= self.position,
                first_stop(Scan::Whitespace, self.input@, self.position as int) == first_stop(
                    Scan::Whitespace,
                    self.input@,
                    start,
                ),
                self.line == old(self).line + newlines(self.input@, start, self.position as int),
                self.line - old(self).line <= self.position - start,
            decreases self.input@.len() - self.position,
        {
            if self.input[self.position] == '\n' {
                self.line = self.line + 1;
            }
            self.position = self.position + 1;
        }
    }

    /// Passes over the line comment that starts under the cursor, up to the
    /// newline that ends it, and over the blank characters behind it.
    fn skip_single_line_comment(&mut self)
        requires
            old(self).wf(),
        ensures
            final(self).wf(),
            final(self).input == old(self).input,
            final(self).position == first_stop(
                Scan::Whitespace,
                old(self).input@,
                first_stop(Scan::LineComment, old(self).input@, old(self).position as int),
            ),
            final(self).line == old(self).line + newlines(
                old(self).input@,
                first_stop(Scan::LineComment, old(self).input@, old(self).position as int),
                final(self).position as int,
            ),
            final(self).position >= old(self).position,
    {
        let end = self.run_end(Scan::LineComment, self.position);
        self.position = end;
        self.skip_whitespace();
    }

    /// Passes over the block comment whose `/*` starts under the cursor, up
    /// to and including the `*/` that closes it, and over the blank
    /// characters behind it.
    fn skip_multi_line_comment(&mut self)
        requires
            old(self).wf(),
            old(self).position + 1 < old(self).input@.len(),
        ensures
            final(self).wf(),
            final(self).input == old(self).input,
            final(self).position == first_stop(
                Scan::Whitespace,
                old(self).input@,
                block_comment_end(old(self).input@, old(self).position as int),
            ),
            final(self).line == old(self).line + newlines(
                old(self).input@,
                block_comment_end(old(self).input@, old(self).position as int),
                final(self).position as int,
            ),
            final(self).position > old(self).position,
    {
        assert(self.input.len() <= usize::MAX);
        let close = self.run_end(Scan::BlockComment, self.position + 2);
        proof {
            lemma_first_stop(Scan::BlockComment, self.input@, self.position + 2);
        }
        self.position = close;
        self.read_char();
        self.read_char();
        self.skip_whitespace();
    }

    /// Passes over the blank characters and the comments before the next
    /// token, and leaves the cursor on the first character of that token, or
    /// at the end of the text.
    fn skip_layout(&mut self)
        requires
            old(self).wf(),
        ensures
            final(self).wf(),
            final(self).input == old(self).input,
            scan_token(final(self).input@, final(self).position as int, final(self).line as nat)
                == scan_token(old(self).input@, old(self).position as int, old(self).line as nat),
            final(self).position < final(self).input@.len() ==> scan_token(
                final(self).input@,
                final(self).position as int,
                final(self).line as nat,
            ) == token_at(final(self).input@, final(self).position as int, final(self).line as nat),
    {
        proof {
            lemma_scan_after_whitespace(self.input@, self.position as int, self.line as nat);
        }
        self.skip_whitespace();
        loop
            invariant
                self.wf(),
                self.input == old(self).input,
                first_stop(Scan::Whitespace, self.input@, self.position as int) == self.position,
                scan_token(self.input@, self.position as int, self.line as nat) == scan_token(
                    old(self).input@,
                    old(self).position as int,
                    old(self).line as nat,
                ),
            decreases self.input@.len() - self.position,
        {
            assert(newlines(self.input@, self.position as int, self.position as int) == 0);
            if self.position >= self.input.len() || self.input[self.position] != '/' {
                return;
            }
            let ghost start = self.position as int;
            let ghost line = self.line as nat;
            let next = self.peek();
            if next == '/' {
                proof {
                    let end = first_stop(Scan::LineComment, self.input@, start + 2);
                    assert(first_stop(Scan::LineComment, self.input@, start + 1) == end);
                    assert(first_stop(Scan::LineComment, self.input@, start) == end);
                    lemma_first_stop(Scan::LineComment, self.input@, start + 2);
                    lemma_first_stop(Scan::Whitespace, self.input@, end);
                    lemma_scan_after_whitespace(self.input@, end, line);
                }
                self.skip_single_line_comment();
            } else if next == '*' {
                proof {
                    lemma_first_stop(Scan::BlockComment, self.input@, start + 2);
                    lemma_scan_after_whitespace(
                        self.input@,
                        block_comment_end(self.input@, start),
                        line,
                    );
                }
                self.skip_multi_line_comment();
            } else {
                return;
            }
        }
    }

    /// The next token of the text; the cursor moves behind it. Blank
    /// characters and comments before the token are passed over. At the end
    /// of the text every call gives `EOF`.
    pub fn next_token(&mut self) -> (token: Token)
        requires
            old(self).wf(),
        ensures
            final(self).wf(),
            final(self).text() == old(self).text(),
            token@ == scan_token(old(self).text(), old(self).position(), old(self).line()).token,
            final(self).position() == scan_token(
                old(self).text(),
                old(self).position(),
                old(self).line(),
            ).position,
            final(self).line() == scan_token(
                old(self).text(),
                old(self).position(),
                old(self).line(),
            ).line,
            token@ == old(self).pending()[0],
            final(self).pending() == if token.token_type == TokenType::EOF {
                old(self).pending()
            } else {
                old(self).pending().skip(1)
            },
    {
        proof {
            lemma_tokens_step(self.input@, self.position as int, self.line as nat);
        }
        self.skip_layout();
        if self.position >= self.input.len() {
            return new_token(TokenType::EOF, self.line, String::new());
        }
        let start = self.position;
        let c = self.input[start];
        let next = self.peek();
        if let Some(kind) = two_char_kind(c, next) {
            let literal = string_of(&self.input, start, start + 2);
            self.read_char();
            self.read_char();
            return new_token(kind, self.line, literal);
        }
        if let Some(kind) = one_char_kind(c) {
            let literal = string_of(&self.input, start, start + 1);
            self.read_char();
            assert(literal@ =~= seq![c]);
            return new_token(kind, self.line, literal);
        }
        if c == '"' {
            let literal = self.read_string();
            self.read_char();
            new_token(TokenType::STRING, self.line, literal)
        } else if is_letter(c) {
            let literal = self.read_identifier();
            let kind = look_up_identifier(&literal);
            new_token(kind, self.line, literal)
        } else if is_integer(c) {
            let literal = self.read_integer();
            new_token(TokenType::INTEGER, self.line, literal)
        } else {
            let literal = string_of(&self.input, start, start + 1);
            self.read_char();
            assert(literal@ =~= seq![c]);
            new_token(TokenType::ILLEGAL, self.line, literal)
        }
    }
}

/// A token of the kind `token_type` with the text `literal`, on line `line`.
fn new_token(token_type: TokenType, line: usize, literal: String) -> (token: Token)
    ensures
        token@ == (TokenView { token_type, literal: literal@, line: line as nat }),
{
    Token { token_type, literal, line }
}

/// Whether `character` is a space, a tab, a newline or a carriage return.
fn is_blank(character: char) -> (r: bool)
    ensures
        r == blank(character),
{
    character == ' ' || character == '\t' || character == '\n' || character == '\r'
}

/// Whether `character` is an ASCII letter or an underscore.
fn is_letter(character: char) -> (r: bool)
    ensures
        r == letter(character),
{
    'a' <= character && character <= 'z' || 'A' <= character && character <= 'Z' || character
        == '_'
}

/// Whether `character` is a decimal digit.
fn is_integer(character: char) -> (r: bool)
    ensures
        r == digit(character),
{
    '0' <= character && character <= '9'
}

/// The kind of the operator that `first` and `second` spell together.
fn two_char_kind(first: char, second: char) -> (kind: Option<TokenType>)
    ensures
        kind == two_char_operator(first, second),
{
    if first == '=' && second == '=' {
        Some(TokenType::EQUAL_EQUAL)
    } else if first == '!' && second == '=' {
        Some(TokenType::BANG_EQUAL)
    } else if first == '<' && second == '=' {
        Some(TokenType::LESS_EQUAL)
    } else if first == '>' && second == '=' {
        Some(TokenType::GREATER_EQUAL)
    } else if first == '&' && second == '&' {
        Some(TokenType::AND)
    } else if first == '|' && second == '|' {
        Some(TokenType::OR)
    } else if first == '+' && second == '+' {
        Some(TokenType::PLUS_PLUS)
    } else if first == '-' && second == '-' {
        Some(TokenType::MINUS_MINUS)
    } else {
        None
    }
}

/// The kind of the operator or delimiter that `c` spells.
fn one_char_kind(c: char) -> (kind: Option<TokenType>)
    ensures
        kind == one_char_operator(c),
{
    if c == '=' {
        Some(TokenType::EQUAL)
    } else if c == '+' {
        Some(TokenType::PLUS)
    } else if c == '-' {
        Some(TokenType::MINUS)
    } else if c == '*' {
        Some(TokenType::STAR)
    } else if c == '/' {
        Some(TokenType::SLASH)
    } else if c == '%' {
        Some(TokenType::MOD)
    } else if c == '!' {
        Some(TokenType::BANG)
    } else if c == '<' {
        Some(TokenType::LESS)
    } else if c == '>' {
        Some(TokenType::GREATER)
    } else if c == ',' {
        Some(TokenType::COMMA)
    } else if c == ':' {
        Some(TokenType::COLON)
    } else if c == ';' {
        Some(TokenType::SEMICOLON)
    } else if c == '(' {
        Some(TokenType::LEFT_PAREN)
    } else if c == ')' {
        Some(TokenType::RIGHT_PAREN)
    } else if c == '{' {
        Some(TokenType::LEFT_BRACE)
    } else if c == '}' {
        Some(TokenType::RIGHT_BRACE)
    } else if c == '[' {
        Some(TokenType::LEFT_BRACKET)
    } else if c == ']' {
        Some(TokenType::RIGHT_BRACKET)
    } else {
        None
    }
}

} // verus!
