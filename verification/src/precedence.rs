//! The binding powers of the operators, and which kinds of token can start,
//! continue or follow an expression.

use vstd::prelude::*;
use crate::token::TokenType;

verus! {

/// The binding power of a token that continues no expression.
pub const LOWEST: usize = 1;

/// `==` and `!=`
pub const EQUALS: usize = 2;

/// `&&` and `||`
pub const LOGICAL: usize = 3;

/// `<`, `>`, `<=` and `>=`
pub const LESS_GREATER: usize = 4;

/// `+` and `-`
pub const SUM: usize = 5;

/// `*` and `/`
pub const PRODUCT: usize = 6;

/// `%`
pub const MODULO: usize = 7;

/// `-x` and `!x`
pub const PREFIX: usize = 8;

/// `function(x)`
pub const CALL: usize = 9;

/// `array[index]`
pub const INDEX: usize = 10;

/// The binding power of a token that stands behind an expression: the higher,
/// the tighter the token binds what stands to its left.
pub open spec fn precedence_of(kind: TokenType) -> nat {
    match kind {
        TokenType::EQUAL_EQUAL | TokenType::BANG_EQUAL => 2,
        TokenType::AND | TokenType::OR => 3,
        TokenType::LESS | TokenType::GREATER | TokenType::LESS_EQUAL
        | TokenType::GREATER_EQUAL => 4,
        TokenType::PLUS | TokenType::MINUS => 5,
        TokenType::SLASH | TokenType::STAR => 6,
        TokenType::MOD => 7,
        TokenType::LEFT_PAREN => 9,
        TokenType::LEFT_BRACKET => 10,
        _ => 1,
    }
}

/// Whether an expression can start with a token of this kind.
pub open spec fn has_prefix(kind: TokenType) -> bool {
    kind == TokenType::IDENTIFIER || kind == TokenType::INTEGER || kind == TokenType::STRING
        || kind == TokenType::TRUE || kind == TokenType::FALSE || kind == TokenType::BANG || kind
        == TokenType::MINUS || kind == TokenType::LEFT_PAREN || kind == TokenType::IF || kind
        == TokenType::FUNCTION || kind == TokenType::LEFT_BRACKET
}

/// Whether the kind is that of a binary operator.
pub open spec fn is_binary_operator(kind: TokenType) -> bool {
    kind == TokenType::PLUS || kind == TokenType::MINUS || kind == TokenType::STAR || kind
        == TokenType::SLASH || kind == TokenType::MOD || kind == TokenType::EQUAL_EQUAL || kind
        == TokenType::BANG_EQUAL || kind == TokenType::LESS || kind == TokenType::GREATER || kind
        == TokenType::LESS_EQUAL || kind == TokenType::GREATER_EQUAL || kind == TokenType::AND
        || kind == TokenType::OR
}

/// Whether a token of this kind can continue an expression that stands to
/// its left: a binary operator, the `(` of a call, or the `[` of an index.
pub open spec fn has_infix(kind: TokenType) -> bool {
    is_binary_operator(kind) || kind == TokenType::LEFT_PAREN || kind == TokenType::LEFT_BRACKET
}

/// Whether a token of this kind can follow an identifier as an operator.
pub open spec fn has_postfix(kind: TokenType) -> bool {
    kind == TokenType::PLUS_PLUS || kind == TokenType::MINUS_MINUS
}

/// The precedence table: each kind that binds tighter than `LOWEST`, with its
/// binding power.
pub open spec fn precedence_table() -> Seq<(TokenType, usize)> {
    seq![
        (TokenType::EQUAL_EQUAL, EQUALS),
        (TokenType::BANG_EQUAL, EQUALS),
        (TokenType::LESS, LESS_GREATER),
        (TokenType::GREATER, LESS_GREATER),
        (TokenType::LESS_EQUAL, LESS_GREATER),
        (TokenType::GREATER_EQUAL, LESS_GREATER),
        (TokenType::PLUS, SUM),
        (TokenType::MINUS, SUM),
        (TokenType::SLASH, PRODUCT),
        (TokenType::STAR, PRODUCT),
        (TokenType::MOD, MODULO),
        (TokenType::AND, LOGICAL),
        (TokenType::OR, LOGICAL),
        (TokenType::LEFT_PAREN, CALL),
        (TokenType::LEFT_BRACKET, INDEX),
    ]
}

/// The table and `precedence_of` agree: a kind has the binding power that
/// the table gives it, and `LOWEST` exactly where the table does not hold it.
/// The kinds of the table are those that continue an expression.
pub proof fn lemma_precedence_table(kind: TokenType)
    ensures
        forall|i: int|
            0 <= i < precedence_table().len() && (#[trigger] precedence_table()[i]).0 == kind
                ==> precedence_of(kind) == precedence_table()[i].1,
        precedence_of(kind) == LOWEST <==> forall|i: int|
            0 <= i < precedence_table().len() ==> (#[trigger] precedence_table()[i]).0 != kind,
        has_infix(kind) <==> precedence_of(kind) > LOWEST,
        LOWEST <= precedence_of(kind) <= INDEX,
        precedence_of(kind) != PREFIX,
{
    let table = precedence_table();
    assert(table[0] == (TokenType::EQUAL_EQUAL, EQUALS));
    assert(table[1] == (TokenType::BANG_EQUAL, EQUALS));
    assert(table[2] == (TokenType::LESS, LESS_GREATER));
    assert(table[3] == (TokenType::GREATER, LESS_GREATER));
    assert(table[4] == (TokenType::LESS_EQUAL, LESS_GREATER));
    assert(table[5] == (TokenType::GREATER_EQUAL, LESS_GREATER));
    assert(table[6] == (TokenType::PLUS, SUM));
    assert(table[7] == (TokenType::MINUS, SUM));
    assert(table[8] == (TokenType::SLASH, PRODUCT));
    assert(table[9] == (TokenType::STAR, PRODUCT));
    assert(table[10] == (TokenType::MOD, MODULO));
    assert(table[11] == (TokenType::AND, LOGICAL));
    assert(table[12] == (TokenType::OR, LOGICAL));
    assert(table[13] == (TokenType::LEFT_PAREN, CALL));
    assert(table[14] == (TokenType::LEFT_BRACKET, INDEX));
}

/// The operator precedence table.
pub struct Precedences;

impl Precedences {
    /// The kinds that bind tighter than `LOWEST`, each with its binding power.
    pub fn all() -> (table: Vec<(TokenType, usize)>)
        ensures
            table@ == precedence_table(),
    {
        let mut table: Vec<(TokenType, usize)> = Vec::new();
        table.push((TokenType::EQUAL_EQUAL, EQUALS));
        table.push((TokenType::BANG_EQUAL, EQUALS));
        table.push((TokenType::LESS, LESS_GREATER));
        table.push((TokenType::GREATER, LESS_GREATER));
        table.push((TokenType::LESS_EQUAL, LESS_GREATER));
        table.push((TokenType::GREATER_EQUAL, LESS_GREATER));
        table.push((TokenType::PLUS, SUM));
        table.push((TokenType::MINUS, SUM));
        table.push((TokenType::SLASH, PRODUCT));
        table.push((TokenType::STAR, PRODUCT));
        table.push((TokenType::MOD, MODULO));
        table.push((TokenType::AND, LOGICAL));
        table.push((TokenType::OR, LOGICAL));
        table.push((TokenType::LEFT_PAREN, CALL));
        table.push((TokenType::LEFT_BRACKET, INDEX));
        assert(table@ =~= precedence_table());
        table
    }

    /// The binding power of `kind`: what the table gives it, and `LOWEST`
    /// where the table does not hold it.
    pub fn get(kind: TokenType) -> (precedence: usize)
        ensures
            precedence == precedence_of(kind),
    {
        let table = Precedences::all();
        let mut i: usize = 0;
        while i < table.len()
            invariant
                i <= table@.len(),
                table@ == precedence_table(),
                forall|k: int| 0 <= k < i ==> (#[trigger] precedence_table()[k]).0 != kind,
            decreases table@.len() - i,
        {
            if table[i].0 == kind {
                proof {
                    lemma_precedence_table(kind);
                }
                return table[i].1;
            }
            i = i + 1;
        }
        proof {
            lemma_precedence_table(kind);
        }
        LOWEST
    }
}

} // verus!
