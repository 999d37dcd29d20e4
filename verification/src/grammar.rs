//! What the parser builds from a sequence of tokens.
//!
//! Each function here takes the tokens and the place of the current token,
//! and gives the node that the parser builds there, how many tokens further
//! it ends, and the diagnostics it records. The functions call one another
//! as the grammar nests. They end because the tokens do: the first measure
//! of each is the number of tokens still to come, and the second one orders
//! the functions that call one another on the same token.

use vstd::prelude::*;
use crate::ast::{BlockView, ExpressionView, IdentifierView, StatementView};
use crate::error::ParseErrorView;
use crate::lexer::eof_token;
use crate::precedence::{
    has_infix, has_postfix, has_prefix, is_binary_operator, precedence_of, LOWEST, PREFIX,
};
use crate::text::decimal_value;
use crate::token::{TokenType, TokenView};

verus! {

/// What a parse gives: the node, how many times the parser moved on to the
/// next token, and the diagnostics it recorded, in order.
pub struct Parsed<T> {
    pub value: T,
    pub consumed: nat,
    pub errors: Seq<ParseErrorView>,
}

/// The token at `index` of a token sequence. Behind the end of the sequence
/// every token is `EOF`, on the line of the last token.
pub open spec fn token(tokens: Seq<TokenView>, index: nat) -> TokenView {
    if index < tokens.len() {
        tokens[index as int]
    } else if tokens.len() > 0 {
        eof_token(tokens.last().line)
    } else {
        eof_token(0)
    }
}

/// The kind of the token at `index`.
pub open spec fn kind(tokens: Seq<TokenView>, index: nat) -> TokenType {
    token(tokens, index).token_type
}

/// How many tokens stand at or behind `index`.
pub open spec fn remaining(tokens: Seq<TokenView>, index: nat) -> nat {
    if index < tokens.len() {
        (tokens.len() - index) as nat
    } else {
        0
    }
}

/// The diagnostic for a parser that stands at `index` and finds that the
/// next token is not of the kind `expected`.
pub open spec fn unexpected(tokens: Seq<TokenView>, index: nat, expected: TokenType)
    -> ParseErrorView {
    ParseErrorView::ExpectedToken {
        line: token(tokens, index).line,
        expected,
        found: token(tokens, index + 1).literal,
    }
}

/// The token at `index` as an identifier: its text is the name.
pub open spec fn identifier_at(tokens: Seq<TokenView>, index: nat) -> IdentifierView {
    IdentifierView { token: token(tokens, index), value: token(tokens, index).literal }
}

/// One if the token behind `index` is a `;`, which a statement that ends at
/// `index` takes with it, and zero if not.
pub open spec fn semicolon_after(tokens: Seq<TokenView>, index: nat) -> nat {
    if kind(tokens, index + 1) == TokenType::SEMICOLON {
        1
    } else {
        0
    }
}

/// The program that starts at `index`: statements up to `EOF`. The parser
/// ends on the `EOF`.
pub open spec fn program_spec(tokens: Seq<TokenView>, index: nat) -> Parsed<Seq<StatementView>>
    decreases remaining(tokens, index), 9nat,
{
    if kind(tokens, index) == TokenType::EOF {
        Parsed { value: Seq::empty(), consumed: 0, errors: Seq::empty() }
    } else {
        let first = statement_spec(tokens, index);
        let rest = program_spec(tokens, index + first.consumed + 1);
        Parsed {
            value: seq![first.value] + rest.value,
            consumed: first.consumed + 1 + rest.consumed,
            errors: first.errors + rest.errors,
        }
    }
}

/// The statement that starts at `index`. The parser ends on its last token.
pub open spec fn statement_spec(tokens: Seq<TokenView>, index: nat) -> Parsed<StatementView>
    decreases remaining(tokens, index), 8nat,
{
    if kind(tokens, index) == TokenType::LET || kind(tokens, index) == TokenType::CONST {
        binding_spec(tokens, index)
    } else if kind(tokens, index) == TokenType::RETURN {
        return_spec(tokens, index)
    } else {
        expression_statement_spec(tokens, index)
    }
}

/// `let` name `=` value, or `const` name `=` value, with or without a `;`
/// behind it. Where the name or the `=` is missing, the statement is given
/// up with a diagnostic, and the parser stays where it found that out.
pub open spec fn binding_spec(tokens: Seq<TokenView>, index: nat) -> Parsed<StatementView>
    decreases remaining(tokens, index), 7nat,
    when kind(tokens, index) == TokenType::LET || kind(tokens, index) == TokenType::CONST
{
    if kind(tokens, index + 1) != TokenType::IDENTIFIER {
        Parsed {
            value: StatementView::ZeroValue,
            consumed: 0,
            errors: seq![unexpected(tokens, index, TokenType::IDENTIFIER)],
        }
    } else if kind(tokens, index + 2) != TokenType::EQUAL {
        Parsed {
            value: StatementView::ZeroValue,
            consumed: 1,
            errors: seq![unexpected(tokens, index + 1, TokenType::EQUAL)],
        }
    } else {
        let value = operand_spec(tokens, index + 3, LOWEST as nat);
        let end = index + 3 + value.consumed;
        Parsed {
            value: if kind(tokens, index) == TokenType::LET {
                StatementView::Let {
                    token: token(tokens, index),
                    name: identifier_at(tokens, index + 1),
                    value: value.value,
                }
            } else {
                StatementView::Const {
                    token: token(tokens, index),
                    name: identifier_at(tokens, index + 1),
                    value: value.value,
                }
            },
            consumed: 3 + value.consumed + semicolon_after(tokens, end),
            errors: value.errors,
        }
    }
}

/// `return` value, with or without a `;` behind it.
pub open spec fn return_spec(tokens: Seq<TokenView>, index: nat) -> Parsed<StatementView>
    decreases remaining(tokens, index), 7nat,
    when kind(tokens, index) == TokenType::RETURN
{
    let value = operand_spec(tokens, index + 1, LOWEST as nat);
    let end = index + 1 + value.consumed;
    Parsed {
        value: StatementView::Return { token: token(tokens, index), return_value: value.value },
        consumed: 1 + value.consumed + semicolon_after(tokens, end),
        errors: value.errors,
    }
}

/// An expression as a statement, with or without a `;` behind it.
pub open spec fn expression_statement_spec(tokens: Seq<TokenView>, index: nat) -> Parsed<
    StatementView,
>
    decreases remaining(tokens, index), 7nat,
{
    let value = operand_spec(tokens, index, LOWEST as nat);
    let end = index + value.consumed;
    Parsed {
        value: StatementView::Expression {
            token: token(tokens, index),
            expression: value.value,
        },
        consumed: value.consumed + semicolon_after(tokens, end),
        errors: value.errors,
    }
}

/// The expression that is due at `index`: what `expression_spec` gives, and
/// where it gives none, the placeholder and one more diagnostic.
pub open spec fn operand_spec(tokens: Seq<TokenView>, index: nat, precedence: nat) -> Parsed<
    ExpressionView,
>
    decreases remaining(tokens, index), 6nat,
{
    let parsed = expression_spec(tokens, index, precedence);
    match parsed.value {
        Some(expression) => Parsed {
            value: expression,
            consumed: parsed.consumed,
            errors: parsed.errors,
        },
        None => Parsed {
            value: ExpressionView::ZeroValue,
            consumed: parsed.consumed,
            errors: parsed.errors.push(
                ParseErrorView::FailedToParseExpression {
                    line: token(tokens, index + parsed.consumed).line,
                },
            ),
        },
    }
}

/// The expression that starts at `index` and takes in, to its right, every
/// operator that binds tighter than `precedence`. Where no expression can
/// start with the token at `index`, there is none, and a diagnostic instead.
/// The parser ends on the last token of the expression.
pub open spec fn expression_spec(tokens: Seq<TokenView>, index: nat, precedence: nat) -> Parsed<
    Option<ExpressionView>,
>
    decreases remaining(tokens, index), 5nat,
{
    if !has_prefix(kind(tokens, index)) {
        Parsed {
            value: None,
            consumed: 0,
            errors: seq![
                ParseErrorView::NoPrefixParseFunction {
                    line: token(tokens, index).line,
                    token_type: kind(tokens, index),
                },
            ],
        }
    } else {
        let left = prefix_spec(tokens, index);
        let whole = infix_loop_spec(tokens, index + left.consumed, precedence, left.value);
        Parsed {
            value: Some(whole.value),
            consumed: left.consumed + whole.consumed,
            errors: left.errors + whole.errors,
        }
    }
}

/// `left`, which ends at `index`, with every operator to its right that
/// binds tighter than `precedence`: while the next token is no `;`, binds
/// tighter than `precedence` and can continue an expression, it does so, and
/// what comes of it is the new left operand. Operators of one binding power
/// therefore group to the left.
pub open spec fn infix_loop_spec(
    tokens: Seq<TokenView>,
    index: nat,
    precedence: nat,
    left: ExpressionView,
) -> Parsed<ExpressionView>
    decreases remaining(tokens, index), 4nat,
{
    let next = kind(tokens, index + 1);
    if next != TokenType::SEMICOLON && precedence < precedence_of(next) && has_infix(next) {
        let step = infix_spec(tokens, index + 1, left);
        let whole = infix_loop_spec(tokens, index + 1 + step.consumed, precedence, step.value);
        Parsed {
            value: whole.value,
            consumed: 1 + step.consumed + whole.consumed,
            errors: step.errors + whole.errors,
        }
    } else {
        Parsed { value: left, consumed: 0, errors: Seq::empty() }
    }
}

/// The expression that the token at `index` starts, without what may
/// continue it.
pub open spec fn prefix_spec(tokens: Seq<TokenView>, index: nat) -> Parsed<ExpressionView>
    decreases remaining(tokens, index), 4nat,
{
    let kind = kind(tokens, index);
    if kind == TokenType::IDENTIFIER {
        identifier_spec(tokens, index)
    } else if kind == TokenType::INTEGER {
        integer_spec(tokens, index)
    } else if kind == TokenType::STRING {
        Parsed {
            value: ExpressionView::StringLiteral {
                token: token(tokens, index),
                value: token(tokens, index).literal,
            },
            consumed: 0,
            errors: Seq::empty(),
        }
    } else if kind == TokenType::TRUE || kind == TokenType::FALSE {
        Parsed {
            value: ExpressionView::Boolean {
                token: token(tokens, index),
                value: kind == TokenType::TRUE,
            },
            consumed: 0,
            errors: Seq::empty(),
        }
    } else if kind == TokenType::BANG || kind == TokenType::MINUS {
        prefix_operator_spec(tokens, index)
    } else if kind == TokenType::LEFT_PAREN {
        grouped_spec(tokens, index)
    } else if kind == TokenType::IF {
        if_spec(tokens, index)
    } else if kind == TokenType::FUNCTION {
        function_spec(tokens, index)
    } else if kind == TokenType::LEFT_BRACKET {
        array_spec(tokens, index)
    } else {
        Parsed { value: ExpressionView::ZeroValue, consumed: 0, errors: Seq::empty() }
    }
}

/// An identifier, or an identifier with `++` or `--` behind it.
pub open spec fn identifier_spec(tokens: Seq<TokenView>, index: nat) -> Parsed<ExpressionView> {
    if has_postfix(kind(tokens, index + 1)) {
        Parsed {
            value: ExpressionView::Postfix {
                token: token(tokens, index),
                operator: token(tokens, index + 1).literal,
            },
            consumed: 1,
            errors: Seq::empty(),
        }
    } else {
        Parsed {
            value: ExpressionView::Identifier(identifier_at(tokens, index)),
            consumed: 0,
            errors: Seq::empty(),
        }
    }
}

/// An integer literal. One that writes a number too large for `usize` gives
/// the placeholder and a diagnostic.
pub open spec fn integer_spec(tokens: Seq<TokenView>, index: nat) -> Parsed<ExpressionView> {
    match decimal_value(token(tokens, index).literal) {
        Some(value) if value <= usize::MAX => Parsed {
            value: ExpressionView::IntegerLiteral { token: token(tokens, index), value },
            consumed: 0,
            errors: Seq::empty(),
        },
        _ => Parsed {
            value: ExpressionView::ZeroValue,
            consumed: 0,
            errors: seq![
                ParseErrorView::FailedToParseExpression { line: token(tokens, index).line },
            ],
        },
    }
}

/// `!` or `-` before an operand, which takes in what binds tighter than a
/// prefix operator.
pub open spec fn prefix_operator_spec(tokens: Seq<TokenView>, index: nat) -> Parsed<
    ExpressionView,
>
    decreases remaining(tokens, index), 3nat,
    when kind(tokens, index) == TokenType::BANG || kind(tokens, index) == TokenType::MINUS
{
    let right = operand_spec(tokens, index + 1, PREFIX as nat);
    Parsed {
        value: ExpressionView::Prefix {
            token: token(tokens, index),
            operator: token(tokens, index).literal,
            right: Box::new(right.value),
        },
        consumed: 1 + right.consumed,
        errors: right.errors,
    }
}

/// `(` expression `)`: the expression itself, with no node for the brackets.
/// Where the `)` is missing, the placeholder and a diagnostic.
pub open spec fn grouped_spec(tokens: Seq<TokenView>, index: nat) -> Parsed<ExpressionView>
    decreases remaining(tokens, index), 3nat,
    when kind(tokens, index) == TokenType::LEFT_PAREN
{
    let inner = operand_spec(tokens, index + 1, LOWEST as nat);
    let end = index + 1 + inner.consumed;
    if kind(tokens, end + 1) == TokenType::RIGHT_PAREN {
        Parsed { value: inner.value, consumed: 2 + inner.consumed, errors: inner.errors }
    } else {
        Parsed {
            value: ExpressionView::ZeroValue,
            consumed: 1 + inner.consumed,
            errors: inner.errors.push(unexpected(tokens, end, TokenType::RIGHT_PAREN)),
        }
    }
}

/// `if (` condition `)` block, with or without `else` block. Where a token
/// that the form asks for is missing, the placeholder and a diagnostic, and
/// the parser stays where it found that out.
pub open spec fn if_spec(tokens: Seq<TokenView>, index: nat) -> Parsed<ExpressionView>
    decreases remaining(tokens, index), 3nat,
    when kind(tokens, index) == TokenType::IF
{
    if kind(tokens, index + 1) != TokenType::LEFT_PAREN {
        Parsed {
            value: ExpressionView::ZeroValue,
            consumed: 0,
            errors: seq![unexpected(tokens, index, TokenType::LEFT_PAREN)],
        }
    } else {
        let condition = operand_spec(tokens, index + 2, LOWEST as nat);
        let rest = branches_spec(
            tokens,
            index + 2 + condition.consumed,
            token(tokens, index),
            condition.value,
        );
        Parsed {
            value: rest.value,
            consumed: 2 + condition.consumed + rest.consumed,
            errors: condition.errors + rest.errors,
        }
    }
}

/// The `if` expression of the token `token` and the condition `condition`,
/// for a parser that stands on the last token of the condition: `)`, a
/// block, and what follows it.
pub open spec fn branches_spec(
    tokens: Seq<TokenView>,
    index: nat,
    token: TokenView,
    condition: ExpressionView,
) -> Parsed<ExpressionView>
    decreases remaining(tokens, index), 12nat,
{
    if kind(tokens, index + 1) != TokenType::RIGHT_PAREN {
        Parsed {
            value: ExpressionView::ZeroValue,
            consumed: 0,
            errors: seq![unexpected(tokens, index, TokenType::RIGHT_PAREN)],
        }
    } else if kind(tokens, index + 2) != TokenType::LEFT_BRACE {
        Parsed {
            value: ExpressionView::ZeroValue,
            consumed: 1,
            errors: seq![unexpected(tokens, index + 1, TokenType::LEFT_BRACE)],
        }
    } else {
        let consequence = block_spec(tokens, index + 2);
        let alternative = alternative_spec(tokens, index + 2 + consequence.consumed);
        Parsed {
            value: match alternative.value {
                Some(alternative) => ExpressionView::If {
                    token,
                    condition: Box::new(condition),
                    consequence: consequence.value,
                    alternative,
                },
                None => ExpressionView::ZeroValue,
            },
            consumed: 2 + consequence.consumed + alternative.consumed,
            errors: consequence.errors + alternative.errors,
        }
    }
}

/// What follows the first branch of an `if`, for a parser that stands on the
/// `}` of that branch: behind an `else` a second branch, and else none.
/// Where the `{` behind the `else` is missing, a diagnostic, and the `if` is
/// given up.
pub open spec fn alternative_spec(tokens: Seq<TokenView>, index: nat) -> Parsed<
    Option<Option<BlockView>>,
>
    decreases remaining(tokens, index), 11nat,
{
    if kind(tokens, index + 1) != TokenType::ELSE {
        Parsed { value: Some(None), consumed: 0, errors: Seq::empty() }
    } else if kind(tokens, index + 2) != TokenType::LEFT_BRACE {
        Parsed {
            value: None,
            consumed: 1,
            errors: seq![unexpected(tokens, index + 1, TokenType::LEFT_BRACE)],
        }
    } else {
        let alternative = block_spec(tokens, index + 2);
        Parsed {
            value: Some(Some(alternative.value)),
            consumed: 2 + alternative.consumed,
            errors: alternative.errors,
        }
    }
}

/// `{` statements `}`. The parser ends on the `}`. A block that the end of
/// the input cuts short is given as far as it goes, with a diagnostic that
/// asks for the `}`.
pub open spec fn block_spec(tokens: Seq<TokenView>, index: nat) -> Parsed<BlockView>
    decreases remaining(tokens, index), 10nat,
{
    let body = block_body_spec(tokens, index + 1);
    Parsed {
        value: BlockView { token: token(tokens, index), statements: body.value },
        consumed: 1 + body.consumed,
        errors: body.errors,
    }
}

/// The statements of a block from `index` on, up to the `}` or the `EOF`
/// that ends it.
pub open spec fn block_body_spec(tokens: Seq<TokenView>, index: nat) -> Parsed<
    Seq<StatementView>,
>
    decreases remaining(tokens, index), 9nat,
{
    if kind(tokens, index) == TokenType::RIGHT_BRACE {
        Parsed { value: Seq::empty(), consumed: 0, errors: Seq::empty() }
    } else if kind(tokens, index) == TokenType::EOF {
        Parsed {
            value: Seq::empty(),
            consumed: 0,
            errors: seq![
                ParseErrorView::ExpectedToken {
                    line: token(tokens, index).line,
                    expected: TokenType::RIGHT_BRACE,
                    found: token(tokens, index).literal,
                },
            ],
        }
    } else {
        let first = statement_spec(tokens, index);
        let rest = block_body_spec(tokens, index + first.consumed + 1);
        Parsed {
            value: seq![first.value] + rest.value,
            consumed: first.consumed + 1 + rest.consumed,
            errors: first.errors + rest.errors,
        }
    }
}

/// `func (` parameters `)` block. Where the `(` or the `{` is missing, the
/// placeholder and a diagnostic.
pub open spec fn function_spec(tokens: Seq<TokenView>, index: nat) -> Parsed<ExpressionView>
    decreases remaining(tokens, index), 3nat,
    when kind(tokens, index) == TokenType::FUNCTION
{
    if kind(tokens, index + 1) != TokenType::LEFT_PAREN {
        Parsed {
            value: ExpressionView::ZeroValue,
            consumed: 0,
            errors: seq![unexpected(tokens, index, TokenType::LEFT_PAREN)],
        }
    } else {
        let parameters = parameters_spec(tokens, index + 1);
        let end = index + 1 + parameters.consumed;
        if kind(tokens, end + 1) != TokenType::LEFT_BRACE {
            Parsed {
                value: ExpressionView::ZeroValue,
                consumed: 1 + parameters.consumed,
                errors: parameters.errors.push(unexpected(tokens, end, TokenType::LEFT_BRACE)),
            }
        } else {
            let body = block_spec(tokens, end + 1);
            Parsed {
                value: ExpressionView::Function {
                    token: token(tokens, index),
                    parameters: parameters.value,
                    body: body.value,
                    name: Seq::empty(),
                },
                consumed: 2 + parameters.consumed + body.consumed,
                errors: parameters.errors + body.errors,
            }
        }
    }
}

/// The parameters of a function literal, for a parser that stands on the
/// `(`: none if `)` follows at once; else the next token, and after each `,`
/// the token behind it, each taken as a name. Where no `)` follows them, no
/// parameters and a diagnostic.
pub open spec fn parameters_spec(tokens: Seq<TokenView>, index: nat) -> Parsed<
    Seq<IdentifierView>,
> {
    if kind(tokens, index + 1) == TokenType::RIGHT_PAREN {
        Parsed { value: Seq::empty(), consumed: 1, errors: Seq::empty() }
    } else {
        let more = parameters_tail_spec(tokens, index + 1);
        let end = index + 1 + more.consumed;
        if kind(tokens, end + 1) == TokenType::RIGHT_PAREN {
            Parsed {
                value: seq![identifier_at(tokens, index + 1)] + more.value,
                consumed: 2 + more.consumed,
                errors: Seq::empty(),
            }
        } else {
            Parsed {
                value: Seq::empty(),
                consumed: 1 + more.consumed,
                errors: seq![unexpected(tokens, end, TokenType::RIGHT_PAREN)],
            }
        }
    }
}

/// The parameters that follow the one at `index`, each behind a `,`.
pub open spec fn parameters_tail_spec(tokens: Seq<TokenView>, index: nat) -> Parsed<
    Seq<IdentifierView>,
>
    decreases remaining(tokens, index),
{
    if kind(tokens, index + 1) == TokenType::COMMA {
        let more = parameters_tail_spec(tokens, index + 2);
        Parsed {
            value: seq![identifier_at(tokens, index + 2)] + more.value,
            consumed: 2 + more.consumed,
            errors: Seq::empty(),
        }
    } else {
        Parsed { value: Seq::empty(), consumed: 0, errors: Seq::empty() }
    }
}

/// `[` elements `]`
pub open spec fn array_spec(tokens: Seq<TokenView>, index: nat) -> Parsed<ExpressionView>
    decreases remaining(tokens, index), 3nat,
    when kind(tokens, index) == TokenType::LEFT_BRACKET
{
    let elements = expression_list_spec(tokens, index, TokenType::RIGHT_BRACKET);
    Parsed {
        value: ExpressionView::Array { token: token(tokens, index), elements: elements.value },
        consumed: elements.consumed,
        errors: elements.errors,
    }
}

/// Expressions with a `,` between each two, up to the token of the kind
/// `end` that closes the list, for a parser that stands on the token that
/// opens it. Where the closing token is missing, no expressions and a
/// diagnostic.
pub open spec fn expression_list_spec(tokens: Seq<TokenView>, index: nat, end: TokenType)
    -> Parsed<Seq<ExpressionView>>
    decreases remaining(tokens, index), 1nat,
    when kind(tokens, index) == TokenType::LEFT_PAREN || kind(tokens, index)
        == TokenType::LEFT_BRACKET
{
    if kind(tokens, index + 1) == end {
        Parsed { value: Seq::empty(), consumed: 1, errors: Seq::empty() }
    } else {
        let first = operand_spec(tokens, index + 1, LOWEST as nat);
        let more = list_tail_spec(tokens, index + 1 + first.consumed);
        let last = index + 1 + first.consumed + more.consumed;
        if kind(tokens, last + 1) == end {
            Parsed {
                value: seq![first.value] + more.value,
                consumed: 2 + first.consumed + more.consumed,
                errors: first.errors + more.errors,
            }
        } else {
            Parsed {
                value: Seq::empty(),
                consumed: 1 + first.consumed + more.consumed,
                errors: (first.errors + more.errors).push(unexpected(tokens, last, end)),
            }
        }
    }
}

/// The expressions that follow the one that ends at `index`, each behind a
/// `,`.
pub open spec fn list_tail_spec(tokens: Seq<TokenView>, index: nat) -> Parsed<
    Seq<ExpressionView>,
>
    decreases remaining(tokens, index), 0nat,
{
    if kind(tokens, index + 1) == TokenType::COMMA {
        let item = operand_spec(tokens, index + 2, LOWEST as nat);
        let more = list_tail_spec(tokens, index + 2 + item.consumed);
        Parsed {
            value: seq![item.value] + more.value,
            consumed: 2 + item.consumed + more.consumed,
            errors: item.errors + more.errors,
        }
    } else {
        Parsed { value: Seq::empty(), consumed: 0, errors: Seq::empty() }
    }
}

/// What the token at `index` makes of `left`, the expression to its left.
pub open spec fn infix_spec(tokens: Seq<TokenView>, index: nat, left: ExpressionView) -> Parsed<
    ExpressionView,
>
    decreases remaining(tokens, index), 3nat,
{
    if kind(tokens, index) == TokenType::LEFT_PAREN {
        call_spec(tokens, index, left)
    } else if kind(tokens, index) == TokenType::LEFT_BRACKET {
        index_spec(tokens, index, left)
    } else if is_binary_operator(kind(tokens, index)) {
        binary_spec(tokens, index, left)
    } else {
        Parsed { value: left, consumed: 0, errors: Seq::empty() }
    }
}

/// left operator right: the right operand takes in what binds tighter than
/// the operator.
pub open spec fn binary_spec(tokens: Seq<TokenView>, index: nat, left: ExpressionView) -> Parsed<
    ExpressionView,
>
    decreases remaining(tokens, index), 2nat,
    when is_binary_operator(kind(tokens, index))
{
    let right = operand_spec(tokens, index + 1, precedence_of(kind(tokens, index)));
    Parsed {
        value: ExpressionView::Infix {
            token: token(tokens, index),
            operator: token(tokens, index).literal,
            left: Box::new(left),
            right: Box::new(right.value),
        },
        consumed: 1 + right.consumed,
        errors: right.errors,
    }
}

/// function `(` arguments `)`
pub open spec fn call_spec(tokens: Seq<TokenView>, index: nat, function: ExpressionView)
    -> Parsed<ExpressionView>
    decreases remaining(tokens, index), 2nat,
    when kind(tokens, index) == TokenType::LEFT_PAREN
{
    let arguments = expression_list_spec(tokens, index, TokenType::RIGHT_PAREN);
    Parsed {
        value: ExpressionView::Call {
            token: token(tokens, index),
            function: Box::new(function),
            arguments: arguments.value,
        },
        consumed: arguments.consumed,
        errors: arguments.errors,
    }
}

/// left `[` index `]`. Where the `]` is missing, the placeholder and a
/// diagnostic.
pub open spec fn index_spec(tokens: Seq<TokenView>, index: nat, left: ExpressionView) -> Parsed<
    ExpressionView,
>
    decreases remaining(tokens, index), 2nat,
    when kind(tokens, index) == TokenType::LEFT_BRACKET
{
    let inner = operand_spec(tokens, index + 1, LOWEST as nat);
    let end = index + 1 + inner.consumed;
    if kind(tokens, end + 1) == TokenType::RIGHT_BRACKET {
        Parsed {
            value: ExpressionView::Index {
                token: token(tokens, index),
                left: Box::new(left),
                index: Box::new(inner.value),
            },
            consumed: 2 + inner.consumed,
            errors: inner.errors,
        }
    } else {
        Parsed {
            value: ExpressionView::ZeroValue,
            consumed: 1 + inner.consumed,
            errors: inner.errors.push(unexpected(tokens, end, TokenType::RIGHT_BRACKET)),
        }
    }
}

} // verus!
