//! What holds of every parse.

use vstd::prelude::*;
use crate::ast::{ExpressionView, StatementView};
use crate::error::ParseErrorView;
use crate::grammar::{
    binary_spec, binding_spec, block_body_spec, block_spec, expression_list_spec, expression_spec,
    function_spec, grouped_spec, identifier_at, identifier_spec, if_spec, infix_loop_spec,
    infix_spec, integer_spec, kind, list_tail_spec, operand_spec, parameters_spec,
    prefix_operator_spec, prefix_spec, program_spec, remaining, semicolon_after, statement_spec,
    token, unexpected, Parsed,
};
use crate::lexer::{layout_only, lemma_layout_only, lemma_tokens_are_stream, tokens_from};
use crate::precedence::{
    has_infix, has_postfix, has_prefix, is_binary_operator, lemma_precedence_table, precedence_of,
    LOWEST, PREFIX,
};
use crate::text::decimal_value;
use crate::token::{TokenType, TokenView};

verus! {

/// A text that holds nothing but blank characters and comments is the empty
/// program, without diagnostics.
pub proof fn lemma_layout_only_program(text: Seq<char>)
    requires
        layout_only(text, 0),
    ensures
        program_spec(tokens_from(text, 0, 0), 0).value == Seq::<StatementView>::empty(),
        program_spec(tokens_from(text, 0, 0), 0).errors == Seq::<ParseErrorView>::empty(),
        program_spec(tokens_from(text, 0, 0), 0).consumed == 0,
{
    lemma_layout_only(text, 0, 0);
    lemma_tokens_are_stream(text, 0, 0);
}

/// The parse of a program ends on an `EOF`.
pub proof fn lemma_program_ends_on_eof(tokens: Seq<TokenView>, index: nat)
    ensures
        kind(tokens, index + program_spec(tokens, index).consumed) == TokenType::EOF,
    decreases remaining(tokens, index),
{
    if kind(tokens, index) != TokenType::EOF {
        let first = statement_spec(tokens, index);
        lemma_program_ends_on_eof(tokens, index + first.consumed + 1);
    }
}

/// A `let` or `const` statement without its `=` is given up with one
/// diagnostic, and the parse resumes at the token behind the name: the rest
/// of the program is what it would be if it started there.
pub proof fn lemma_missing_equal_sign(tokens: Seq<TokenView>, index: nat)
    requires
        kind(tokens, index) == TokenType::LET || kind(tokens, index) == TokenType::CONST,
        kind(tokens, index + 1) == TokenType::IDENTIFIER,
        kind(tokens, index + 2) != TokenType::EQUAL,
    ensures
        statement_spec(tokens, index) == (Parsed {
            value: StatementView::ZeroValue,
            consumed: 1,
            errors: seq![unexpected(tokens, index + 1, TokenType::EQUAL)],
        }),
        program_spec(tokens, index) == (Parsed {
            value: seq![StatementView::ZeroValue] + program_spec(tokens, index + 2).value,
            consumed: 2 + program_spec(tokens, index + 2).consumed,
            errors: seq![unexpected(tokens, index + 1, TokenType::EQUAL)] + program_spec(
                tokens,
                index + 2,
            ).errors,
        }),
{
    assert(statement_spec(tokens, index) == binding_spec(tokens, index));
}

/// `let` name `=` integer, before a token that continues no expression, is
/// a `let` statement of that name and that number, without a diagnostic,
/// whatever was parsed before it. It takes the `;` behind it with it.
pub proof fn lemma_let_of_integer(tokens: Seq<TokenView>, index: nat, value: nat)
    requires
        kind(tokens, index) == TokenType::LET,
        kind(tokens, index + 1) == TokenType::IDENTIFIER,
        kind(tokens, index + 2) == TokenType::EQUAL,
        kind(tokens, index + 3) == TokenType::INTEGER,
        decimal_value(token(tokens, index + 3).literal) == Some(value),
        value <= usize::MAX,
        !has_infix(kind(tokens, index + 4)),
    ensures
        statement_spec(tokens, index) == (Parsed {
            value: StatementView::Let {
                token: token(tokens, index),
                name: identifier_at(tokens, index + 1),
                value: ExpressionView::IntegerLiteral { token: token(tokens, index + 3), value },
            },
            consumed: 3 + semicolon_after(tokens, index + 3),
            errors: Seq::empty(),
        }),
{
    let none = Seq::<ParseErrorView>::empty();
    let number = ExpressionView::IntegerLiteral { token: token(tokens, index + 3), value };
    assert(none + none =~= none);
    assert(prefix_spec(tokens, index + 3) == integer_spec(tokens, index + 3));
    assert(integer_spec(tokens, index + 3) == Parsed {
        value: number,
        consumed: 0,
        errors: none,
    });
    assert(infix_loop_spec(tokens, index + 3, LOWEST as nat, number) == Parsed {
        value: number,
        consumed: 0,
        errors: none,
    });
    assert(expression_spec(tokens, index + 3, LOWEST as nat) == Parsed {
        value: Some(number),
        consumed: 0,
        errors: none,
    });
    assert(operand_spec(tokens, index + 3, LOWEST as nat) == Parsed {
        value: number,
        consumed: 0,
        errors: none,
    });
    assert(statement_spec(tokens, index) == binding_spec(tokens, index));
}

/// A block that was parsed without a diagnostic is closed: its parse ends on
/// a `}`. The parse of any block ends on a `}` or on an `EOF`.
pub proof fn lemma_block_is_closed(tokens: Seq<TokenView>, index: nat)
    ensures
        block_spec(tokens, index).errors.len() == 0 ==> kind(
            tokens,
            index + block_spec(tokens, index).consumed,
        ) == TokenType::RIGHT_BRACE,
        kind(tokens, index + block_spec(tokens, index).consumed) == TokenType::RIGHT_BRACE || kind(
            tokens,
            index + block_spec(tokens, index).consumed,
        ) == TokenType::EOF,
{
    lemma_block_body_ends(tokens, index + 1);
}

/// The statements of a block end before a `}`, or before an `EOF` with a
/// diagnostic.
pub proof fn lemma_block_body_ends(tokens: Seq<TokenView>, index: nat)
    ensures
        block_body_spec(tokens, index).errors.len() == 0 ==> kind(
            tokens,
            index + block_body_spec(tokens, index).consumed,
        ) == TokenType::RIGHT_BRACE,
        kind(tokens, index + block_body_spec(tokens, index).consumed) == TokenType::RIGHT_BRACE
            || kind(tokens, index + block_body_spec(tokens, index).consumed) == TokenType::EOF,
    decreases remaining(tokens, index),
{
    if kind(tokens, index) != TokenType::RIGHT_BRACE && kind(tokens, index) != TokenType::EOF {
        let first = statement_spec(tokens, index);
        lemma_block_body_ends(tokens, index + first.consumed + 1);
    }
}

/// The binary expression of the operator at `operator`, between `left` and
/// `right`.
pub open spec fn binary(
    tokens: Seq<TokenView>,
    operator: nat,
    left: ExpressionView,
    right: ExpressionView,
) -> ExpressionView {
    ExpressionView::Infix {
        token: token(tokens, operator),
        operator: token(tokens, operator).literal,
        left: Box::new(left),
        right: Box::new(right),
    }
}

/// The identifier at `index` as an expression.
pub open spec fn name(tokens: Seq<TokenView>, index: nat) -> ExpressionView {
    ExpressionView::Identifier(identifier_at(tokens, index))
}

/// An identifier before a token that does not bind tighter than `precedence`
/// is an operand by itself.
pub proof fn lemma_lone_identifier(tokens: Seq<TokenView>, index: nat, precedence: nat)
    requires
        kind(tokens, index) == TokenType::IDENTIFIER,
        !has_postfix(kind(tokens, index + 1)),
        precedence_of(kind(tokens, index + 1)) <= precedence,
    ensures
        operand_spec(tokens, index, precedence) == (Parsed {
            value: name(tokens, index),
            consumed: 0,
            errors: Seq::empty(),
        }),
{
    let left = prefix_spec(tokens, index);
    assert(left == identifier_spec(tokens, index));
    let whole = infix_loop_spec(tokens, index, precedence, left.value);
    assert(whole.errors =~= Seq::<ParseErrorView>::empty());
    assert(left.errors + whole.errors =~= Seq::<ParseErrorView>::empty());
}

/// Of two binary operators with one operand between them, the right one
/// takes the operand if it binds tighter than the left one, and else the
/// left one does: operators of one binding power group to the left.
pub proof fn lemma_two_operators(tokens: Seq<TokenView>, index: nat)
    requires
        kind(tokens, index) == TokenType::IDENTIFIER,
        is_binary_operator(kind(tokens, index + 1)),
        kind(tokens, index + 2) == TokenType::IDENTIFIER,
        is_binary_operator(kind(tokens, index + 3)),
        kind(tokens, index + 4) == TokenType::IDENTIFIER,
        !has_infix(kind(tokens, index + 5)),
        !has_postfix(kind(tokens, index + 5)),
    ensures
        expression_spec(tokens, index, LOWEST as nat) == (Parsed {
            value: Some(
                if precedence_of(kind(tokens, index + 3)) > precedence_of(
                    kind(tokens, index + 1),
                ) {
                    binary(
                        tokens,
                        index + 1,
                        name(tokens, index),
                        binary(
                            tokens,
                            index + 3,
                            name(tokens, index + 2),
                            name(tokens, index + 4),
                        ),
                    )
                } else {
                    binary(
                        tokens,
                        index + 3,
                        binary(tokens, index + 1, name(tokens, index), name(tokens, index + 2)),
                        name(tokens, index + 4),
                    )
                },
            ),
            consumed: 4,
            errors: Seq::empty(),
        }),
{
    let first = kind(tokens, index + 1);
    let second = kind(tokens, index + 3);
    let none = Seq::<ParseErrorView>::empty();
    lemma_precedence_table(first);
    lemma_precedence_table(second);
    lemma_precedence_table(kind(tokens, index + 5));
    let a = name(tokens, index);
    let b = name(tokens, index + 2);
    let c = name(tokens, index + 4);
    assert(prefix_spec(tokens, index) == identifier_spec(tokens, index));
    assert(none + none =~= none);
    if precedence_of(second) > precedence_of(first) {
        // the right operand of the first operator takes in the second operator
        lemma_lone_identifier(tokens, index + 4, precedence_of(second));
        assert(binary_spec(tokens, index + 3, b) == Parsed {
            value: binary(tokens, index + 3, b, c),
            consumed: 1,
            errors: none,
        });
        assert(infix_spec(tokens, index + 3, b) == binary_spec(tokens, index + 3, b));
        assert(infix_loop_spec(
            tokens,
            index + 4,
            precedence_of(first),
            binary(tokens, index + 3, b, c),
        ) == Parsed { value: binary(tokens, index + 3, b, c), consumed: 0, errors: none });
        assert(infix_loop_spec(tokens, index + 2, precedence_of(first), b) == Parsed {
            value: binary(tokens, index + 3, b, c),
            consumed: 2,
            errors: none,
        });
        assert(prefix_spec(tokens, index + 2) == identifier_spec(tokens, index + 2));
        assert(expression_spec(tokens, index + 2, precedence_of(first)) == Parsed {
            value: Some(binary(tokens, index + 3, b, c)),
            consumed: 2,
            errors: none,
        });
        assert(operand_spec(tokens, index + 2, precedence_of(first)) == Parsed {
            value: binary(tokens, index + 3, b, c),
            consumed: 2,
            errors: none,
        });
        let whole = binary(tokens, index + 1, a, binary(tokens, index + 3, b, c));
        assert(binary_spec(tokens, index + 1, a) == Parsed {
            value: whole,
            consumed: 3,
            errors: none,
        });
        assert(infix_spec(tokens, index + 1, a) == binary_spec(tokens, index + 1, a));
        assert(infix_loop_spec(tokens, index + 4, LOWEST as nat, whole) == Parsed {
            value: whole,
            consumed: 0,
            errors: none,
        });
        assert(infix_loop_spec(tokens, index, LOWEST as nat, a) == Parsed {
            value: whole,
            consumed: 4,
            errors: none,
        });
    } else {
        // the first operator is complete before the second one is looked at
        lemma_lone_identifier(tokens, index + 2, precedence_of(first));
        let inner = binary(tokens, index + 1, a, b);
        assert(binary_spec(tokens, index + 1, a) == Parsed {
            value: inner,
            consumed: 1,
            errors: none,
        });
        assert(infix_spec(tokens, index + 1, a) == binary_spec(tokens, index + 1, a));
        lemma_lone_identifier(tokens, index + 4, precedence_of(second));
        let whole = binary(tokens, index + 3, inner, c);
        assert(binary_spec(tokens, index + 3, inner) == Parsed {
            value: whole,
            consumed: 1,
            errors: none,
        });
        assert(infix_spec(tokens, index + 3, inner) == binary_spec(tokens, index + 3, inner));
        assert(infix_loop_spec(tokens, index + 4, LOWEST as nat, whole) == Parsed {
            value: whole,
            consumed: 0,
            errors: none,
        });
        assert(infix_loop_spec(tokens, index + 2, LOWEST as nat, inner) == Parsed {
            value: whole,
            consumed: 2,
            errors: none,
        });
        assert(infix_loop_spec(tokens, index, LOWEST as nat, a) == Parsed {
            value: whole,
            consumed: 4,
            errors: none,
        });
    }
}

/// A prefix operator binds tighter than every binary operator: its operand
/// ends before the binary operator that follows, and the prefix expression
/// is the left operand of that operator.
pub proof fn lemma_prefix_binds_tighter(tokens: Seq<TokenView>, index: nat)
    requires
        kind(tokens, index) == TokenType::BANG || kind(tokens, index) == TokenType::MINUS,
        kind(tokens, index + 1) == TokenType::IDENTIFIER,
        is_binary_operator(kind(tokens, index + 2)),
        kind(tokens, index + 3) == TokenType::IDENTIFIER,
        !has_infix(kind(tokens, index + 4)),
        !has_postfix(kind(tokens, index + 4)),
    ensures
        expression_spec(tokens, index, LOWEST as nat) == (Parsed {
            value: Some(
                binary(
                    tokens,
                    index + 2,
                    ExpressionView::Prefix {
                        token: token(tokens, index),
                        operator: token(tokens, index).literal,
                        right: Box::new(name(tokens, index + 1)),
                    },
                    name(tokens, index + 3),
                ),
            ),
            consumed: 3,
            errors: Seq::empty(),
        }),
{
    let none = Seq::<ParseErrorView>::empty();
    lemma_precedence_table(kind(tokens, index + 2));
    lemma_precedence_table(kind(tokens, index + 4));
    assert(none + none =~= none);
    lemma_lone_identifier(tokens, index + 1, PREFIX as nat);
    let negated = ExpressionView::Prefix {
        token: token(tokens, index),
        operator: token(tokens, index).literal,
        right: Box::new(name(tokens, index + 1)),
    };
    assert(prefix_operator_spec(tokens, index) == Parsed {
        value: negated,
        consumed: 1,
        errors: none,
    });
    assert(prefix_spec(tokens, index) == prefix_operator_spec(tokens, index));
    lemma_lone_identifier(tokens, index + 3, precedence_of(kind(tokens, index + 2)));
    let whole = binary(tokens, index + 2, negated, name(tokens, index + 3));
    assert(binary_spec(tokens, index + 2, negated) == Parsed {
        value: whole,
        consumed: 1,
        errors: none,
    });
    assert(infix_spec(tokens, index + 2, negated) == binary_spec(tokens, index + 2, negated));
    assert(infix_loop_spec(tokens, index + 3, LOWEST as nat, whole) == Parsed {
        value: whole,
        consumed: 0,
        errors: none,
    });
    assert(infix_loop_spec(tokens, index + 1, LOWEST as nat, negated) == Parsed {
        value: whole,
        consumed: 2,
        errors: none,
    });
}

/// Brackets override the binding powers: a bracketed binary expression is
/// the left operand of the operator behind it, however tight that operator
/// binds.
pub proof fn lemma_grouping(tokens: Seq<TokenView>, index: nat)
    requires
        kind(tokens, index) == TokenType::LEFT_PAREN,
        kind(tokens, index + 1) == TokenType::IDENTIFIER,
        is_binary_operator(kind(tokens, index + 2)),
        kind(tokens, index + 3) == TokenType::IDENTIFIER,
        kind(tokens, index + 4) == TokenType::RIGHT_PAREN,
        is_binary_operator(kind(tokens, index + 5)),
        kind(tokens, index + 6) == TokenType::IDENTIFIER,
        !has_infix(kind(tokens, index + 7)),
        !has_postfix(kind(tokens, index + 7)),
    ensures
        expression_spec(tokens, index, LOWEST as nat) == (Parsed {
            value: Some(
                binary(
                    tokens,
                    index + 5,
                    binary(
                        tokens,
                        index + 2,
                        name(tokens, index + 1),
                        name(tokens, index + 3),
                    ),
                    name(tokens, index + 6),
                ),
            ),
            consumed: 6,
            errors: Seq::empty(),
        }),
{
    let none = Seq::<ParseErrorView>::empty();
    lemma_precedence_table(kind(tokens, index + 2));
    lemma_precedence_table(kind(tokens, index + 4));
    lemma_precedence_table(kind(tokens, index + 5));
    lemma_precedence_table(kind(tokens, index + 7));
    let a = name(tokens, index + 1);
    let b = name(tokens, index + 3);
    let c = name(tokens, index + 6);
    assert(none + none =~= none);
    // inside the brackets
    lemma_lone_identifier(tokens, index + 3, precedence_of(kind(tokens, index + 2)));
    let inner = binary(tokens, index + 2, a, b);
    assert(binary_spec(tokens, index + 2, a) == Parsed {
        value: inner,
        consumed: 1,
        errors: none,
    });
    assert(infix_spec(tokens, index + 2, a) == binary_spec(tokens, index + 2, a));
    assert(infix_loop_spec(tokens, index + 3, LOWEST as nat, inner) == Parsed {
        value: inner,
        consumed: 0,
        errors: none,
    });
    assert(infix_loop_spec(tokens, index + 1, LOWEST as nat, a) == Parsed {
        value: inner,
        consumed: 2,
        errors: none,
    });
    assert(prefix_spec(tokens, index + 1) == identifier_spec(tokens, index + 1));
    assert(expression_spec(tokens, index + 1, LOWEST as nat) == Parsed {
        value: Some(inner),
        consumed: 2,
        errors: none,
    });
    assert(operand_spec(tokens, index + 1, LOWEST as nat) == Parsed {
        value: inner,
        consumed: 2,
        errors: none,
    });
    assert(grouped_spec(tokens, index) == Parsed { value: inner, consumed: 4, errors: none });
    assert(prefix_spec(tokens, index) == grouped_spec(tokens, index));
    // behind the brackets
    lemma_lone_identifier(tokens, index + 6, precedence_of(kind(tokens, index + 5)));
    let whole = binary(tokens, index + 5, inner, c);
    assert(binary_spec(tokens, index + 5, inner) == Parsed {
        value: whole,
        consumed: 1,
        errors: none,
    });
    assert(infix_spec(tokens, index + 5, inner) == binary_spec(tokens, index + 5, inner));
    assert(infix_loop_spec(tokens, index + 6, LOWEST as nat, whole) == Parsed {
        value: whole,
        consumed: 0,
        errors: none,
    });
    assert(infix_loop_spec(tokens, index + 4, LOWEST as nat, inner) == Parsed {
        value: whole,
        consumed: 2,
        errors: none,
    });
}

/// Whether none of `expressions` holds a placeholder.
pub open spec fn all_complete(expressions: Seq<ExpressionView>) -> bool {
    forall|i: int| 0 <= i < expressions.len() ==> (#[trigger] expressions[i]).is_complete()
}

/// Whether none of `statements` holds a placeholder.
pub open spec fn all_statements_complete(statements: Seq<StatementView>) -> bool {
    forall|i: int| 0 <= i < statements.len() ==> (#[trigger] statements[i]).is_complete()
}

/// A program that was parsed without a diagnostic holds no placeholder:
/// wherever the parser gives a construct up, it says so.
pub proof fn lemma_complete_program(tokens: Seq<TokenView>, index: nat)
    ensures
        program_spec(tokens, index).errors.len() == 0 ==> all_statements_complete(
            program_spec(tokens, index).value,
        ),
    decreases remaining(tokens, index), 9nat,
{
    if kind(tokens, index) != TokenType::EOF {
        let first = statement_spec(tokens, index);
        lemma_complete_statement(tokens, index);
        lemma_complete_program(tokens, index + first.consumed + 1);
    }
}

/// A statement that was parsed without a diagnostic holds no placeholder.
pub proof fn lemma_complete_statement(tokens: Seq<TokenView>, index: nat)
    ensures
        statement_spec(tokens, index).errors.len() == 0 ==> statement_spec(
            tokens,
            index,
        ).value.is_complete(),
    decreases remaining(tokens, index), 8nat,
{
    if kind(tokens, index) == TokenType::LET || kind(tokens, index) == TokenType::CONST {
        lemma_complete_binding(tokens, index);
    } else if kind(tokens, index) == TokenType::RETURN {
        lemma_complete_operand(tokens, index + 1, LOWEST as nat);
    } else {
        lemma_complete_operand(tokens, index, LOWEST as nat);
    }
}

/// A `let` or `const` statement that was parsed without a diagnostic holds
/// no placeholder.
pub proof fn lemma_complete_binding(tokens: Seq<TokenView>, index: nat)
    requires
        kind(tokens, index) == TokenType::LET || kind(tokens, index) == TokenType::CONST,
    ensures
        binding_spec(tokens, index).errors.len() == 0 ==> binding_spec(
            tokens,
            index,
        ).value.is_complete(),
    decreases remaining(tokens, index), 7nat,
{
    if kind(tokens, index + 1) == TokenType::IDENTIFIER && kind(tokens, index + 2)
        == TokenType::EQUAL {
        lemma_complete_operand(tokens, index + 3, LOWEST as nat);
    }
}

/// An expression that was parsed without a diagnostic is there, and holds
/// no placeholder.
pub proof fn lemma_complete_operand(tokens: Seq<TokenView>, index: nat, precedence: nat)
    ensures
        operand_spec(tokens, index, precedence).errors.len() == 0 ==> operand_spec(
            tokens,
            index,
            precedence,
        ).value.is_complete(),
        expression_spec(tokens, index, precedence).errors.len() == 0 ==> expression_spec(
            tokens,
            index,
            precedence,
        ).value is Some && expression_spec(tokens, index, precedence).value->0.is_complete(),
    decreases remaining(tokens, index), 6nat,
{
    if has_prefix(kind(tokens, index)) {
        let left = prefix_spec(tokens, index);
        lemma_complete_prefix(tokens, index);
        if left.errors.len() == 0 {
            lemma_complete_infix_loop(tokens, index + left.consumed, precedence, left.value);
        }
    }
}

/// What a token starts, parsed without a diagnostic, holds no placeholder.
pub proof fn lemma_complete_prefix(tokens: Seq<TokenView>, index: nat)
    requires
        has_prefix(kind(tokens, index)),
    ensures
        prefix_spec(tokens, index).errors.len() == 0 ==> prefix_spec(
            tokens,
            index,
        ).value.is_complete(),
    decreases remaining(tokens, index), 4nat,
{
    let kind = kind(tokens, index);
    if kind == TokenType::BANG || kind == TokenType::MINUS {
        lemma_complete_operand(tokens, index + 1, PREFIX as nat);
    } else if kind == TokenType::LEFT_PAREN {
        lemma_complete_operand(tokens, index + 1, LOWEST as nat);
    } else if kind == TokenType::IF {
        lemma_complete_if(tokens, index);
    } else if kind == TokenType::FUNCTION {
        lemma_complete_function(tokens, index);
    } else if kind == TokenType::LEFT_BRACKET {
        lemma_complete_list(tokens, index, TokenType::RIGHT_BRACKET);
    }
}

/// An `if` expression that was parsed without a diagnostic holds no
/// placeholder.
pub proof fn lemma_complete_if(tokens: Seq<TokenView>, index: nat)
    requires
        kind(tokens, index) == TokenType::IF,
    ensures
        if_spec(tokens, index).errors.len() == 0 ==> if_spec(tokens, index).value.is_complete(),
    decreases remaining(tokens, index), 3nat,
{
    if kind(tokens, index + 1) == TokenType::LEFT_PAREN {
        let condition = operand_spec(tokens, index + 2, LOWEST as nat);
        lemma_complete_operand(tokens, index + 2, LOWEST as nat);
        let end = index + 2 + condition.consumed;
        if kind(tokens, end + 1) == TokenType::RIGHT_PAREN && kind(tokens, end + 2)
            == TokenType::LEFT_BRACE {
            let consequence = block_spec(tokens, end + 2);
            lemma_complete_block(tokens, end + 2);
            let close = end + 2 + consequence.consumed;
            if kind(tokens, close + 1) == TokenType::ELSE && kind(tokens, close + 2)
                == TokenType::LEFT_BRACE {
                lemma_complete_block(tokens, close + 2);
            }
        }
    }
}

/// A block that was parsed without a diagnostic holds no placeholder.
pub proof fn lemma_complete_block(tokens: Seq<TokenView>, index: nat)
    ensures
        block_spec(tokens, index).errors.len() == 0 ==> block_spec(
            tokens,
            index,
        ).value.is_complete(),
    decreases remaining(tokens, index), 10nat,
{
    lemma_complete_block_body(tokens, index + 1);
}

/// The statements of a block that were parsed without a diagnostic hold no
/// placeholder.
pub proof fn lemma_complete_block_body(tokens: Seq<TokenView>, index: nat)
    ensures
        block_body_spec(tokens, index).errors.len() == 0 ==> all_statements_complete(
            block_body_spec(tokens, index).value,
        ),
    decreases remaining(tokens, index), 9nat,
{
    if kind(tokens, index) != TokenType::RIGHT_BRACE && kind(tokens, index) != TokenType::EOF {
        let first = statement_spec(tokens, index);
        lemma_complete_statement(tokens, index);
        lemma_complete_block_body(tokens, index + first.consumed + 1);
    }
}

/// A function literal that was parsed without a diagnostic holds no
/// placeholder.
pub proof fn lemma_complete_function(tokens: Seq<TokenView>, index: nat)
    requires
        kind(tokens, index) == TokenType::FUNCTION,
    ensures
        function_spec(tokens, index).errors.len() == 0 ==> function_spec(
            tokens,
            index,
        ).value.is_complete(),
    decreases remaining(tokens, index), 3nat,
{
    if kind(tokens, index + 1) == TokenType::LEFT_PAREN {
        let parameters = parameters_spec(tokens, index + 1);
        let end = index + 1 + parameters.consumed;
        if kind(tokens, end + 1) == TokenType::LEFT_BRACE {
            lemma_complete_block(tokens, end + 1);
        }
    }
}

/// The expressions of a list that were parsed without a diagnostic hold no
/// placeholder.
pub proof fn lemma_complete_list(tokens: Seq<TokenView>, index: nat, end: TokenType)
    requires
        kind(tokens, index) == TokenType::LEFT_PAREN || kind(tokens, index)
            == TokenType::LEFT_BRACKET,
    ensures
        expression_list_spec(tokens, index, end).errors.len() == 0 ==> all_complete(
            expression_list_spec(tokens, index, end).value,
        ),
    decreases remaining(tokens, index), 1nat,
{
    if kind(tokens, index + 1) != end {
        let first = operand_spec(tokens, index + 1, LOWEST as nat);
        lemma_complete_operand(tokens, index + 1, LOWEST as nat);
        lemma_complete_list_tail(tokens, index + 1 + first.consumed);
    }
}

/// The expressions behind the first of a list that were parsed without a
/// diagnostic hold no placeholder.
pub proof fn lemma_complete_list_tail(tokens: Seq<TokenView>, index: nat)
    ensures
        list_tail_spec(tokens, index).errors.len() == 0 ==> all_complete(
            list_tail_spec(tokens, index).value,
        ),
    decreases remaining(tokens, index), 0nat,
{
    if kind(tokens, index + 1) == TokenType::COMMA {
        let item = operand_spec(tokens, index + 2, LOWEST as nat);
        lemma_complete_operand(tokens, index + 2, LOWEST as nat);
        lemma_complete_list_tail(tokens, index + 2 + item.consumed);
    }
}

/// An expression without a placeholder, continued by operators without a
/// diagnostic, holds no placeholder.
pub proof fn lemma_complete_infix_loop(
    tokens: Seq<TokenView>,
    index: nat,
    precedence: nat,
    left: ExpressionView,
)
    requires
        left.is_complete(),
    ensures
        infix_loop_spec(tokens, index, precedence, left).errors.len() == 0 ==> infix_loop_spec(
            tokens,
            index,
            precedence,
            left,
        ).value.is_complete(),
    decreases remaining(tokens, index), 4nat,
{
    let next = kind(tokens, index + 1);
    if next != TokenType::SEMICOLON && precedence < precedence_of(next) && has_infix(next) {
        let step = infix_spec(tokens, index + 1, left);
        lemma_complete_infix(tokens, index + 1, left);
        if step.errors.len() == 0 {
            lemma_complete_infix_loop(tokens, index + 1 + step.consumed, precedence, step.value);
        }
    }
}

/// What an operator makes of an expression without a placeholder, parsed
/// without a diagnostic, holds no placeholder.
pub proof fn lemma_complete_infix(tokens: Seq<TokenView>, index: nat, left: ExpressionView)
    requires
        has_infix(kind(tokens, index)),
        left.is_complete(),
    ensures
        infix_spec(tokens, index, left).errors.len() == 0 ==> infix_spec(
            tokens,
            index,
            left,
        ).value.is_complete(),
    decreases remaining(tokens, index), 3nat,
{
    if kind(tokens, index) == TokenType::LEFT_PAREN {
        lemma_complete_list(tokens, index, TokenType::RIGHT_PAREN);
    } else if kind(tokens, index) == TokenType::LEFT_BRACKET {
        lemma_complete_operand(tokens, index + 1, LOWEST as nat);
    } else {
        lemma_complete_operand(tokens, index + 1, precedence_of(kind(tokens, index)));
    }
}

} // verus!
