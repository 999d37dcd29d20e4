//! The parser: a precedence-climbing parser for expressions, with
//! recursive descent for statements. What it builds is stated in `grammar`.

use vstd::prelude::*;
use crate::ast::{
    expressions_view, identifiers_view, statements_view, strings_view, ArrayLiteral,
    BlockStatement, BlockView, Boolean, CallExpression, ConstStatement, Expression,
    ExpressionStatement, ExpressionView, FunctionLiteral, Identifier, IdentifierView,
    IfExpression, IndexExpression, InfixExpression, IntegerLiteral, LetStatement,
    PostfixExpression, PrefixExpression, ReturnStatement, RootNode, Statement, StatementView,
    StringLiteral, ZeroValueExpression, ZeroValueStatement,
};
use crate::error::{error_messages, errors_view, ParseError, ParseErrorView};
use crate::grammar::{
    alternative_spec, array_spec, binary_spec, binding_spec, block_body_spec, block_spec,
    branches_spec, call_spec, expression_list_spec, expression_spec, expression_statement_spec,
    function_spec, grouped_spec, identifier_at, identifier_spec, if_spec, index_spec,
    infix_loop_spec, infix_spec, integer_spec, kind, list_tail_spec, operand_spec,
    parameters_spec, parameters_tail_spec, prefix_operator_spec, prefix_spec, program_spec,
    remaining, return_spec, statement_spec, token, unexpected,
};
use crate::laws::{all_statements_complete, lemma_complete_program};
use crate::lexer::{is_token_stream, tokens_from, Lexer};
use crate::precedence::{
    has_infix, has_postfix, has_prefix, is_binary_operator, precedence_of, Precedences, LOWEST,
    PREFIX,
};
use crate::text::parse_decimal;
use crate::token::{Token, TokenType, TokenView};

verus! {

/// How many of `tokens` a lexer has handed out when the parser has asked it
/// for `asked` of them: it hands out no token behind the `EOF`.
pub open spec fn handed_out(tokens: Seq<TokenView>, asked: nat) -> int {
    if asked < tokens.len() {
        asked as int
    } else {
        tokens.len() - 1
    }
}

/// One more token from the lexer: it is the token at `asked`, and the lexer
/// has then handed out one token more, unless that token is the `EOF`.
proof fn lemma_window_step(tokens: Seq<TokenView>, asked: nat, pending: Seq<TokenView>)
    requires
        is_token_stream(tokens),
        pending == tokens.skip(handed_out(tokens, asked)),
    ensures
        pending[0] == token(tokens, asked),
        tokens.skip(handed_out(tokens, asked + 1)) == if pending[0].token_type == TokenType::EOF {
            pending
        } else {
            pending.skip(1)
        },
{
    let cut = handed_out(tokens, asked);
    assert(pending[0] == tokens[cut]);
    if tokens[cut].token_type == TokenType::EOF {
        assert(cut == tokens.len() - 1);
    } else {
        assert(cut < tokens.len() - 1);
        assert(tokens.skip(cut).skip(1) =~= tokens.skip(cut + 1));
    }
}

/// The parser: it pulls tokens from a lexer through a window of three, the
/// previous, the current and the next token, and builds the syntax tree. It
/// never stops on malformed input: it records a diagnostic, puts a
/// placeholder where the construct should stand, and goes on.
pub struct Parser {
    lexer: Lexer,
    errors: Vec<ParseError>,
    current_token: Token,
    peek_token: Token,
    prev_token: Token,
    tokens: Ghost<Seq<TokenView>>,
    index: Ghost<nat>,
}

impl Parser {
    /// The tokens that the parser was made to read: those that its lexer had
    /// still to hand out when the parser was made.
    pub closed spec fn tokens(&self) -> Seq<TokenView> {
        self.tokens@
    }

    /// Where the parser stands: the place of the current token among
    /// `tokens()`.
    pub closed spec fn index(&self) -> nat {
        self.index@
    }

    /// The diagnostics recorded so far, in order.
    pub closed spec fn error_views(&self) -> Seq<ParseErrorView> {
        errors_view(self.errors@)
    }

    /// The window holds the tokens around `index()`, and the lexer has handed
    /// out exactly those up to the next token.
    #[verifier::opaque]
    pub closed spec fn wf(&self) -> bool {
        &&& self.lexer.wf()
        &&& is_token_stream(self.tokens@)
        &&& self.current_token@ == token(self.tokens@, self.index@)
        &&& self.peek_token@ == token(self.tokens@, self.index@ + 1)
        &&& self.prev_token@ == if self.index@ == 0 {
            TokenView::none()
        } else {
            token(self.tokens@, (self.index@ - 1) as nat)
        }
        &&& self.lexer.pending() == self.tokens@.skip(handed_out(self.tokens@, self.index@ + 2))
    }

    /// Whether `after` is this parser `consumed` tokens further on, with
    /// `errors` added to its diagnostics.
    pub open spec fn moved(&self, after: Parser, consumed: nat, errors: Seq<ParseErrorView>)
        -> bool {
        &&& after.wf()
        &&& after.tokens() == self.tokens()
        &&& after.index() == self.index() + consumed
        &&& after.error_views() =~= self.error_views() + errors
    }

    /// A parser on the tokens of `lexer`, on the first of them, with no
    /// diagnostics.
    pub fn new(lexer: Lexer) -> (parser: Parser)
        requires
            lexer.wf(),
        ensures
            parser.wf(),
            parser.tokens() == lexer.pending(),
            parser.index() == 0,
            parser.error_views() == Seq::<ParseErrorView>::empty(),
    {
        reveal(Parser::wf);
        let mut lexer = lexer;
        let ghost tokens = lexer.pending();
        proof {
            lexer.lemma_pending();
        }
        proof {
            assert(tokens.skip(0) =~= tokens);
            lemma_window_step(tokens, 0, tokens);
        }
        let current_token = lexer.next_token();
        proof {
            lemma_window_step(tokens, 1, lexer.pending());
        }
        let peek_token = lexer.next_token();
        let parser = Parser {
            lexer,
            errors: Vec::new(),
            current_token,
            peek_token,
            prev_token: Token::none(),
            tokens: Ghost(tokens),
            index: Ghost(0),
        };
        assert(parser.error_views() =~= Seq::<ParseErrorView>::empty());
        parser
    }

    /// Moves the window on by one token.
    fn next_token(&mut self)
        requires
            old(self).wf(),
        ensures
            old(self).moved(*final(self), 1, Seq::empty()),
            final(self).error_views() == old(self).error_views(),
    {
        proof {
            reveal(Parser::wf);
            lemma_window_step(self.tokens@, self.index@ + 2, self.lexer.pending());
        }
        let mut token = self.lexer.next_token();
        std::mem::swap(&mut self.peek_token, &mut token);
        std::mem::swap(&mut self.current_token, &mut token);
        self.prev_token = token;
        proof {
            self.index@ = self.index@ + 1;
        }
    }

    /// The current token.
    fn current(&self) -> (current: &Token)
        requires
            self.wf(),
        ensures
            current@ == token(self.tokens(), self.index()),
    {
        proof {
            reveal(Parser::wf);
        }
        &self.current_token
    }

    /// The token behind the current one.
    fn peek(&self) -> (peek: &Token)
        requires
            self.wf(),
        ensures
            peek@ == token(self.tokens(), self.index() + 1),
    {
        proof {
            reveal(Parser::wf);
        }
        &self.peek_token
    }

    /// The token before the current one.
    fn previous(&self) -> (previous: &Token)
        requires
            self.wf(),
            self.index() >= 1,
        ensures
            previous@ == token(self.tokens(), (self.index() - 1) as nat),
    {
        proof {
            reveal(Parser::wf);
        }
        &self.prev_token
    }

    /// Whether the token behind the current one is of the kind `token_type`.
    fn peek_token_type_is(&self, token_type: TokenType) -> (is: bool)
        requires
            self.wf(),
        ensures
            is == (kind(self.tokens(), self.index() + 1) == token_type),
    {
        self.peek().token_type == token_type
    }

    /// Whether the current token is of the kind `token_type`.
    fn current_token_type_is(&self, token_type: TokenType) -> (is: bool)
        requires
            self.wf(),
        ensures
            is == (kind(self.tokens(), self.index()) == token_type),
    {
        self.current().token_type == token_type
    }

    /// The binding power of the token behind the current one.
    fn peek_token_precedence(&self) -> (precedence: usize)
        requires
            self.wf(),
        ensures
            precedence == precedence_of(kind(self.tokens(), self.index() + 1)),
    {
        Precedences::get(self.peek().token_type)
    }

    /// Moves on to the next token if it is of the kind `token_type`, and
    /// records a diagnostic if it is not.
    fn expect_peek_type(&mut self, token_type: TokenType) -> (found: bool)
        requires
            old(self).wf(),
        ensures
            found == (kind(old(self).tokens(), old(self).index() + 1) == token_type),
            found ==> old(self).moved(*final(self), 1, Seq::empty()),
            found ==> final(self).error_views() == old(self).error_views(),
            !found ==> old(self).moved(
                *final(self),
                0,
                seq![unexpected(old(self).tokens(), old(self).index(), token_type)],
            ),
    {
        if self.peek_token_type_is(token_type) {
            self.next_token();
            return true;
        }
        self.peek_error(token_type);
        false
    }

    /// Adds `error` to the diagnostics.
    fn record(&mut self, error: ParseError)
        requires
            old(self).wf(),
        ensures
            old(self).moved(*final(self), 0, seq![error@]),
    {
        proof {
            reveal(Parser::wf);
        }
        self.errors.push(error);
    }

    /// Records that the current token ends a block that was not closed.
    fn missing_brace_error(&mut self)
        requires
            old(self).wf(),
        ensures
            old(self).moved(
                *final(self),
                0,
                seq![
                    ParseErrorView::ExpectedToken {
                        line: token(old(self).tokens(), old(self).index()).line,
                        expected: TokenType::RIGHT_BRACE,
                        found: token(old(self).tokens(), old(self).index()).literal,
                    },
                ],
            ),
    {
        let error = ParseError::ExpectedToken {
            line: self.current().line,
            expected: TokenType::RIGHT_BRACE,
            found: self.current().literal.clone(),
        };
        self.record(error);
    }

    /// Records that the token behind the current one is not of the kind
    /// `token_type`.
    fn peek_error(&mut self, token_type: TokenType)
        requires
            old(self).wf(),
        ensures
            old(self).moved(
                *final(self),
                0,
                seq![unexpected(old(self).tokens(), old(self).index(), token_type)],
            ),
    {
        let error = ParseError::ExpectedToken {
            line: self.current().line,
            expected: token_type,
            found: self.peek().literal.clone(),
        };
        self.record(error);
    }

    /// Records that no expression starts with the current token.
    fn no_prefix_parse_func_error(&mut self)
        requires
            old(self).wf(),
        ensures
            old(self).moved(
                *final(self),
                0,
                seq![
                    ParseErrorView::NoPrefixParseFunction {
                        line: token(old(self).tokens(), old(self).index()).line,
                        token_type: kind(old(self).tokens(), old(self).index()),
                    },
                ],
            ),
    {
        let error = ParseError::NoPrefixParseFunction {
            line: self.current().line,
            token_type: self.current().token_type,
        };
        self.record(error);
    }

    /// Records that an expression was due at the current token and none
    /// could be parsed.
    fn failed_expression_error(&mut self)
        requires
            old(self).wf(),
        ensures
            old(self).moved(
                *final(self),
                0,
                seq![
                    ParseErrorView::FailedToParseExpression {
                        line: token(old(self).tokens(), old(self).index()).line,
                    },
                ],
            ),
    {
        let error = ParseError::FailedToParseExpression { line: self.current().line };
        self.record(error);
    }

    /// Parses the program: statements up to `EOF`. The parser ends on the
    /// `EOF`.
    pub fn parse_program(&mut self) -> (program: RootNode)
        requires
            old(self).wf(),
        ensures
            old(self).moved(
                *final(self),
                program_spec(old(self).tokens(), old(self).index()).consumed,
                program_spec(old(self).tokens(), old(self).index()).errors,
            ),
            program.view() == program_spec(old(self).tokens(), old(self).index()).value,
            kind(final(self).tokens(), final(self).index()) == TokenType::EOF,
    {
        let mut statements: Vec<Statement> = Vec::new();
        let ghost tokens = self.tokens();
        let ghost from = self.index();
        let ghost before = self.error_views();
        let ghost whole = program_spec(tokens, from);
        assert(statements_view(statements@) + whole.value =~= whole.value);
        while !self.current_token_type_is(TokenType::EOF)
            invariant
                self.wf(),
                self.tokens() == tokens,
                self.index() >= from,
                whole.value =~= statements_view(statements@) + program_spec(
                    tokens,
                    self.index(),
                ).value,
                whole.consumed == (self.index() - from) + program_spec(
                    tokens,
                    self.index(),
                ).consumed,
                before + whole.errors =~= self.error_views() + program_spec(
                    tokens,
                    self.index(),
                ).errors,
            decreases remaining(tokens, self.index()),
        {
            let ghost done = statements_view(statements@);
            let ghost first = statement_spec(tokens, self.index());
            let ghost rest = program_spec(tokens, self.index() + first.consumed + 1);
            let statement = self.parse_stmt();
            statements.push(statement);
            self.next_token();
            assert(statements_view(statements@) =~= done.push(first.value));
            assert(done + (seq![first.value] + rest.value) =~= done.push(first.value)
                + rest.value);
        }
        assert(statements_view(statements@) + Seq::<StatementView>::empty() =~= statements_view(
            statements@,
        ));
        RootNode { statements }
    }

    /// Parses the expression that starts at the current token and takes in,
    /// to its right, every operator that binds tighter than `precedence`.
    fn parse_expr(&mut self, precedence: usize) -> (result: Option<Expression>)
        requires
            old(self).wf(),
        ensures
            old(self).moved(
                *final(self),
                expression_spec(old(self).tokens(), old(self).index(), precedence as nat).consumed,
                expression_spec(old(self).tokens(), old(self).index(), precedence as nat).errors,
            ),
            match result {
                Some(expression) => expression_spec(
                    old(self).tokens(),
                    old(self).index(),
                    precedence as nat,
                ).value == Some(expression.view()),
                None => expression_spec(
                    old(self).tokens(),
                    old(self).index(),
                    precedence as nat,
                ).value is None,
            },
        decreases remaining(old(self).tokens(), old(self).index()), 5nat,
    {
        if !is_prefix_kind(self.current().token_type) {
            self.no_prefix_parse_func_error();
            return None;
        }
        let ghost tokens = self.tokens();
        let ghost start = self.index();
        let mut left = parse_prefix(self);
        let ghost from = self.index();
        let ghost before = self.error_views();
        let ghost whole = infix_loop_spec(tokens, from, precedence as nat, left.view());
        while !self.peek_token_type_is(TokenType::SEMICOLON) && precedence
            < self.peek_token_precedence() && is_infix_kind(self.peek().token_type)
            invariant
                self.wf(),
                self.tokens() == tokens,
                tokens == old(self).tokens(),
                start == old(self).index(),
                start < tokens.len(),
                self.index() >= from >= start,
                whole.value == infix_loop_spec(
                    tokens,
                    self.index(),
                    precedence as nat,
                    left.view(),
                ).value,
                whole.consumed == (self.index() - from) + infix_loop_spec(
                    tokens,
                    self.index(),
                    precedence as nat,
                    left.view(),
                ).consumed,
                before + whole.errors =~= self.error_views() + infix_loop_spec(
                    tokens,
                    self.index(),
                    precedence as nat,
                    left.view(),
                ).errors,
            decreases remaining(tokens, self.index()),
        {
            let ghost step = infix_spec(tokens, self.index() + 1, left.view());
            let ghost rest = infix_loop_spec(
                tokens,
                self.index() + 1 + step.consumed,
                precedence as nat,
                step.value,
            );
            let ghost seen = self.error_views();
            self.next_token();
            left = parse_infix(self, left);
            assert(seen + (step.errors + rest.errors) =~= (seen + step.errors) + rest.errors);
        }
        Some(left)
    }

    /// Parses the block whose `{` is the current token. The parser ends on
    /// the `}`, and on the `EOF` where the block is not closed.
    fn parse_block_stmt(&mut self) -> (block: BlockStatement)
        requires
            old(self).wf(),
        ensures
            old(self).moved(
                *final(self),
                block_spec(old(self).tokens(), old(self).index()).consumed,
                block_spec(old(self).tokens(), old(self).index()).errors,
            ),
            block.view() == block_spec(old(self).tokens(), old(self).index()).value,
        decreases remaining(old(self).tokens(), old(self).index()), 10nat,
    {
        let token = self.current().clone();
        let mut statements: Vec<Statement> = Vec::new();
        let ghost tokens = self.tokens();
        self.next_token();
        let ghost from = self.index();
        let ghost before = self.error_views();
        let ghost whole = block_body_spec(tokens, from);
        assert(statements_view(statements@) + whole.value =~= whole.value);
        while !self.current_token_type_is(TokenType::RIGHT_BRACE) && !self.current_token_type_is(
            TokenType::EOF,
        )
            invariant
                self.wf(),
                self.tokens() == tokens,
                tokens == old(self).tokens(),
                from == old(self).index() + 1,
                self.index() >= from,
                whole.value =~= statements_view(statements@) + block_body_spec(
                    tokens,
                    self.index(),
                ).value,
                whole.consumed == (self.index() - from) + block_body_spec(
                    tokens,
                    self.index(),
                ).consumed,
                before + whole.errors =~= self.error_views() + block_body_spec(
                    tokens,
                    self.index(),
                ).errors,
            decreases remaining(tokens, self.index()),
        {
            let ghost done = statements_view(statements@);
            let ghost first = statement_spec(tokens, self.index());
            let ghost rest = block_body_spec(tokens, self.index() + first.consumed + 1);
            let ghost seen = self.error_views();
            let statement = self.parse_stmt();
            statements.push(statement);
            self.next_token();
            assert(statements_view(statements@) =~= done.push(first.value));
            assert(done + (seq![first.value] + rest.value) =~= done.push(first.value)
                + rest.value);
            assert(seen + (first.errors + rest.errors) =~= (seen + first.errors) + rest.errors);
        }
        if self.current_token_type_is(TokenType::EOF) {
            self.missing_brace_error();
        }
        assert(statements_view(statements@) + Seq::<StatementView>::empty() =~= statements_view(
            statements@,
        ));
        BlockStatement { token, statements }
    }

    /// Parses the statement that starts at the current token. The parser
    /// ends on its last token.
    fn parse_stmt(&mut self) -> (statement: Statement)
        requires
            old(self).wf(),
        ensures
            old(self).moved(
                *final(self),
                statement_spec(old(self).tokens(), old(self).index()).consumed,
                statement_spec(old(self).tokens(), old(self).index()).errors,
            ),
            statement.view() == statement_spec(old(self).tokens(), old(self).index()).value,
        decreases remaining(old(self).tokens(), old(self).index()), 8nat,
    {
        match self.current().token_type {
            TokenType::LET => parse_let_stmt(self),
            TokenType::CONST => parse_const_stmt(self),
            TokenType::RETURN => parse_return_stmt(self),
            _ => parse_expr_stmt(self),
        }
    }

    /// Parses the parameters of a function literal whose `(` is the current
    /// token.
    fn parse_function_params(&mut self) -> (identifiers: Vec<Identifier>)
        requires
            old(self).wf(),
        ensures
            old(self).moved(
                *final(self),
                parameters_spec(old(self).tokens(), old(self).index()).consumed,
                parameters_spec(old(self).tokens(), old(self).index()).errors,
            ),
            identifiers_view(identifiers@) == parameters_spec(
                old(self).tokens(),
                old(self).index(),
            ).value,
    {
        let mut identifiers: Vec<Identifier> = Vec::new();
        if self.peek_token_type_is(TokenType::RIGHT_PAREN) {
            self.next_token();
            assert(identifiers_view(identifiers@) =~= Seq::<IdentifierView>::empty());
            return identifiers;
        }
        let ghost tokens = self.tokens();
        self.next_token();
        let ghost from = self.index();
        identifiers.push(
            Identifier {
                token: self.current().clone(),
                value: self.current().literal.clone(),
            },
        );
        let ghost whole = parameters_tail_spec(tokens, from);
        assert(identifiers_view(identifiers@) =~= seq![identifier_at(tokens, from)]);
        assert(whole.value =~= identifiers_view(identifiers@).skip(1) + whole.value);
        while self.peek_token_type_is(TokenType::COMMA)
            invariant
                self.wf(),
                self.tokens() == tokens,
                self.index() >= from,
                self.error_views() == old(self).error_views(),
                identifiers@.len() >= 1,
                identifiers_view(identifiers@)[0] == identifier_at(tokens, from),
                whole.value =~= identifiers_view(identifiers@).skip(1) + parameters_tail_spec(
                    tokens,
                    self.index(),
                ).value,
                whole.consumed == (self.index() - from) + parameters_tail_spec(
                    tokens,
                    self.index(),
                ).consumed,
                whole.errors == Seq::<ParseErrorView>::empty(),
                parameters_tail_spec(tokens, self.index()).errors == Seq::<ParseErrorView>::empty(),
            decreases remaining(tokens, self.index()),
        {
            let ghost done = identifiers_view(identifiers@);
            let ghost rest = parameters_tail_spec(tokens, self.index() + 2);
            let ghost name = identifier_at(tokens, self.index() + 2);
            self.next_token();
            self.next_token();
            identifiers.push(
                Identifier {
                    token: self.current().clone(),
                    value: self.current().literal.clone(),
                },
            );
            assert(identifiers_view(identifiers@) =~= done.push(name));
            assert(done.skip(1) + (seq![name] + rest.value) =~= done.push(name).skip(1)
                + rest.value);
        }
        if !self.expect_peek_type(TokenType::RIGHT_PAREN) {
            let none: Vec<Identifier> = Vec::new();
            assert(identifiers_view(none@) =~= Seq::<IdentifierView>::empty());
            return none;
        }
        assert(identifiers_view(identifiers@) =~= seq![identifier_at(tokens, from)]
            + identifiers_view(identifiers@).skip(1));
        identifiers
    }

    /// The diagnostics recorded so far, in order.
    pub fn errors(&self) -> (errors: &Vec<ParseError>)
        ensures
            errors_view(errors@) == self.error_views(),
    {
        &self.errors
    }

    /// The diagnostics recorded so far as they are shown, each of the form
    /// `Line <line>: <reason>`, in order.
    pub fn error_messages(&self) -> (messages: Vec<String>)
        ensures
            strings_view(messages@) == error_messages(self.error_views()),
    {
        let mut messages: Vec<String> = Vec::new();
        let mut i: usize = 0;
        while i < self.errors.len()
            invariant
                i <= self.errors@.len(),
                messages@.len() == i,
                forall|k: int|
                    0 <= k < i ==> (#[trigger] messages@[k])@ == self.errors@[k]@.message(),
            decreases self.errors@.len() - i,
        {
            messages.push(self.errors[i].message());
            i = i + 1;
        }
        assert(strings_view(messages@) =~= error_messages(self.error_views()));
        messages
    }
}

/// Parses `input` from its first character to its end: the program, and the
/// diagnostics in the order in which they were recorded. Without diagnostics
/// the program holds no placeholder; with them it is the best that could be
/// made of `input`, and may hold a placeholder where a construct was given
/// up.
pub fn parse(input: String) -> (result: (RootNode, Vec<ParseError>))
    ensures
        result.0.view() == program_spec(tokens_from(input@, 0, 0), 0).value,
        errors_view(result.1@) == program_spec(tokens_from(input@, 0, 0), 0).errors,
        result.1@.len() == 0 ==> all_statements_complete(result.0.view()),
{
    proof {
        lemma_complete_program(tokens_from(input@, 0, 0), 0);
    }
    let lexer = Lexer::new(input);
    let mut parser = Parser::new(lexer);
    let ghost before = parser.error_views();
    let program = parser.parse_program();
    assert(before + program_spec(tokens_from(input@, 0, 0), 0).errors =~= program_spec(
        tokens_from(input@, 0, 0),
        0,
    ).errors);
    (program, parser.errors)
}

/// Whether an expression can start with a token of this kind.
fn is_prefix_kind(kind: TokenType) -> (is: bool)
    ensures
        is == has_prefix(kind),
{
    kind == TokenType::IDENTIFIER || kind == TokenType::INTEGER || kind == TokenType::STRING
        || kind == TokenType::TRUE || kind == TokenType::FALSE || kind == TokenType::BANG || kind
        == TokenType::MINUS || kind == TokenType::LEFT_PAREN || kind == TokenType::IF || kind
        == TokenType::FUNCTION || kind == TokenType::LEFT_BRACKET
}

/// Whether the kind is that of a binary operator.
fn is_binary_kind(kind: TokenType) -> (is: bool)
    ensures
        is == is_binary_operator(kind),
{
    kind == TokenType::PLUS || kind == TokenType::MINUS || kind == TokenType::STAR || kind
        == TokenType::SLASH || kind == TokenType::MOD || kind == TokenType::EQUAL_EQUAL || kind
        == TokenType::BANG_EQUAL || kind == TokenType::LESS || kind == TokenType::GREATER || kind
        == TokenType::LESS_EQUAL || kind == TokenType::GREATER_EQUAL || kind == TokenType::AND
        || kind == TokenType::OR
}

/// Whether a token of this kind can continue an expression.
fn is_infix_kind(kind: TokenType) -> (is: bool)
    ensures
        is == has_infix(kind),
{
    is_binary_kind(kind) || kind == TokenType::LEFT_PAREN || kind == TokenType::LEFT_BRACKET
}

/// Whether a token of this kind can follow an identifier as an operator.
fn is_postfix_kind(kind: TokenType) -> (is: bool)
    ensures
        is == has_postfix(kind),
{
    kind == TokenType::PLUS_PLUS || kind == TokenType::MINUS_MINUS
}

/// The placeholder for an expression that could not be parsed.
fn zero_value() -> (node: Expression)
    ensures
        node.view() == ExpressionView::ZeroValue,
{
    Expression::ZeroValue(ZeroValueExpression {  })
}

/// Parses the expression that is due at the current token; where there is
/// none, records that and gives the placeholder.
fn parse_operand(parser: &mut Parser, precedence: usize) -> (node: Expression)
    requires
        old(parser).wf(),
    ensures
        old(parser).moved(
            *final(parser),
            operand_spec(old(parser).tokens(), old(parser).index(), precedence as nat).consumed,
            operand_spec(old(parser).tokens(), old(parser).index(), precedence as nat).errors,
        ),
        node.view() == operand_spec(
            old(parser).tokens(),
            old(parser).index(),
            precedence as nat,
        ).value,
    decreases remaining(old(parser).tokens(), old(parser).index()), 6nat,
{
    match parser.parse_expr(precedence) {
        Some(expression) => expression,
        None => {
            parser.failed_expression_error();
            zero_value()
        },
    }
}

/// Parses what the current token starts.
fn parse_prefix(parser: &mut Parser) -> (node: Expression)
    requires
        old(parser).wf(),
        has_prefix(kind(old(parser).tokens(), old(parser).index())),
    ensures
        old(parser).moved(
            *final(parser),
            prefix_spec(old(parser).tokens(), old(parser).index()).consumed,
            prefix_spec(old(parser).tokens(), old(parser).index()).errors,
        ),
        node.view() == prefix_spec(old(parser).tokens(), old(parser).index()).value,
    decreases remaining(old(parser).tokens(), old(parser).index()), 4nat,
{
    match parser.current().token_type {
        TokenType::IDENTIFIER => parse_identifier(parser),
        TokenType::INTEGER => parse_integer_literal(parser),
        TokenType::STRING => parse_string_literal(parser),
        TokenType::TRUE => parse_boolean(parser),
        TokenType::FALSE => parse_boolean(parser),
        TokenType::BANG => parse_prefix_expr(parser),
        TokenType::MINUS => parse_prefix_expr(parser),
        TokenType::LEFT_PAREN => parse_grouped_expr(parser),
        TokenType::IF => parse_if_expr(parser),
        TokenType::FUNCTION => parse_function_literal(parser),
        _ => parse_array_literal(parser),
    }
}

/// Parses what the current token makes of `left`, the expression to its
/// left.
fn parse_infix(parser: &mut Parser, left: Expression) -> (node: Expression)
    requires
        old(parser).wf(),
        has_infix(kind(old(parser).tokens(), old(parser).index())),
    ensures
        old(parser).moved(
            *final(parser),
            infix_spec(old(parser).tokens(), old(parser).index(), left.view()).consumed,
            infix_spec(old(parser).tokens(), old(parser).index(), left.view()).errors,
        ),
        node.view() == infix_spec(old(parser).tokens(), old(parser).index(), left.view()).value,
    decreases remaining(old(parser).tokens(), old(parser).index()), 3nat,
{
    match parser.current().token_type {
        TokenType::LEFT_PAREN => parse_call_expr(parser, left),
        TokenType::LEFT_BRACKET => parse_index_expr(parser, left),
        _ => parse_infix_expr(parser, left),
    }
}

/// Parses the identifier that is the current token, with the `++` or `--`
/// that may follow it.
fn parse_identifier(parser: &mut Parser) -> (node: Expression)
    requires
        old(parser).wf(),
    ensures
        old(parser).moved(
            *final(parser),
            identifier_spec(old(parser).tokens(), old(parser).index()).consumed,
            identifier_spec(old(parser).tokens(), old(parser).index()).errors,
        ),
        node.view() == identifier_spec(old(parser).tokens(), old(parser).index()).value,
{
    if is_postfix_kind(parser.peek().token_type) {
        parser.next_token();
        return parse_postfix_expr(parser);
    }
    Expression::Identifier(
        Identifier {
            token: parser.current().clone(),
            value: parser.current().literal.clone(),
        },
    )
}

/// Builds the postfix expression whose operator is the current token and
/// whose identifier is the token before it.
fn parse_postfix_expr(parser: &Parser) -> (node: Expression)
    requires
        parser.wf(),
        parser.index() >= 1,
    ensures
        node.view() == (ExpressionView::Postfix {
            token: token(parser.tokens(), (parser.index() - 1) as nat),
            operator: token(parser.tokens(), parser.index()).literal,
        }),
{
    Expression::Postfix(
        PostfixExpression {
            token: parser.previous().clone(),
            operator: parser.current().literal.clone(),
        },
    )
}

/// Parses the integer literal that is the current token.
fn parse_integer_literal(parser: &mut Parser) -> (node: Expression)
    requires
        old(parser).wf(),
    ensures
        old(parser).moved(
            *final(parser),
            integer_spec(old(parser).tokens(), old(parser).index()).consumed,
            integer_spec(old(parser).tokens(), old(parser).index()).errors,
        ),
        node.view() == integer_spec(old(parser).tokens(), old(parser).index()).value,
{
    match parse_decimal(parser.current().literal.as_str()) {
        Some(value) => Expression::IntegerLiteral(
            IntegerLiteral { token: parser.current().clone(), value },
        ),
        None => {
            parser.failed_expression_error();
            zero_value()
        },
    }
}

/// Parses the string literal that is the current token.
fn parse_string_literal(parser: &mut Parser) -> (node: Expression)
    requires
        old(parser).wf(),
        kind(old(parser).tokens(), old(parser).index()) == TokenType::STRING,
    ensures
        old(parser).moved(
            *final(parser),
            prefix_spec(old(parser).tokens(), old(parser).index()).consumed,
            prefix_spec(old(parser).tokens(), old(parser).index()).errors,
        ),
        node.view() == prefix_spec(old(parser).tokens(), old(parser).index()).value,
{
    Expression::StringLiteral(
        StringLiteral {
            token: parser.current().clone(),
            value: parser.current().literal.clone(),
        },
    )
}

/// Parses the `true` or `false` that is the current token.
fn parse_boolean(parser: &mut Parser) -> (node: Expression)
    requires
        old(parser).wf(),
        kind(old(parser).tokens(), old(parser).index()) == TokenType::TRUE || kind(
            old(parser).tokens(),
            old(parser).index(),
        ) == TokenType::FALSE,
    ensures
        old(parser).moved(
            *final(parser),
            prefix_spec(old(parser).tokens(), old(parser).index()).consumed,
            prefix_spec(old(parser).tokens(), old(parser).index()).errors,
        ),
        node.view() == prefix_spec(old(parser).tokens(), old(parser).index()).value,
{
    Expression::Boolean(
        Boolean {
            token: parser.current().clone(),
            value: parser.current_token_type_is(TokenType::TRUE),
        },
    )
}

/// Parses the `!` or `-` that is the current token, and its operand.
fn parse_prefix_expr(parser: &mut Parser) -> (node: Expression)
    requires
        old(parser).wf(),
        kind(old(parser).tokens(), old(parser).index()) == TokenType::BANG || kind(
            old(parser).tokens(),
            old(parser).index(),
        ) == TokenType::MINUS,
    ensures
        old(parser).moved(
            *final(parser),
            prefix_operator_spec(old(parser).tokens(), old(parser).index()).consumed,
            prefix_operator_spec(old(parser).tokens(), old(parser).index()).errors,
        ),
        node.view() == prefix_operator_spec(old(parser).tokens(), old(parser).index()).value,
    decreases remaining(old(parser).tokens(), old(parser).index()), 3nat,
{
    let token = parser.current().clone();
    let operator = parser.current().literal.clone();
    parser.next_token();
    let right = parse_operand(parser, PREFIX);
    Expression::Prefix(PrefixExpression { token, operator, right: Box::new(right) })
}

/// Parses the expression in brackets whose `(` is the current token.
fn parse_grouped_expr(parser: &mut Parser) -> (node: Expression)
    requires
        old(parser).wf(),
        kind(old(parser).tokens(), old(parser).index()) == TokenType::LEFT_PAREN,
    ensures
        old(parser).moved(
            *final(parser),
            grouped_spec(old(parser).tokens(), old(parser).index()).consumed,
            grouped_spec(old(parser).tokens(), old(parser).index()).errors,
        ),
        node.view() == grouped_spec(old(parser).tokens(), old(parser).index()).value,
    decreases remaining(old(parser).tokens(), old(parser).index()), 3nat,
{
    parser.next_token();
    let expression = parse_operand(parser, LOWEST);
    if !parser.expect_peek_type(TokenType::RIGHT_PAREN) {
        return zero_value();
    }
    expression
}

/// Parses the `if` expression whose `if` is the current token.
fn parse_if_expr(parser: &mut Parser) -> (node: Expression)
    requires
        old(parser).wf(),
        kind(old(parser).tokens(), old(parser).index()) == TokenType::IF,
    ensures
        old(parser).moved(
            *final(parser),
            if_spec(old(parser).tokens(), old(parser).index()).consumed,
            if_spec(old(parser).tokens(), old(parser).index()).errors,
        ),
        node.view() == if_spec(old(parser).tokens(), old(parser).index()).value,
    decreases remaining(old(parser).tokens(), old(parser).index()), 3nat,
{
    let ghost tokens = parser.tokens();
    let ghost before = parser.error_views();
    let token = parser.current().clone();
    if !parser.expect_peek_type(TokenType::LEFT_PAREN) {
        return zero_value();
    }
    parser.next_token();
    let ghost first = operand_spec(tokens, parser.index(), LOWEST as nat);
    let condition = parse_operand(parser, LOWEST);
    let ghost second = branches_spec(tokens, parser.index(), token@, condition.view());
    assert((before + first.errors) + second.errors =~= before + (first.errors + second.errors));
    parse_branches(parser, token, condition)
}

/// Parses the `)` and the branches of the `if` expression of the token
/// `token` and the condition `condition`; the current token is the last of
/// the condition.
fn parse_branches(parser: &mut Parser, token: Token, condition: Expression) -> (node: Expression)
    requires
        old(parser).wf(),
    ensures
        old(parser).moved(
            *final(parser),
            branches_spec(
                old(parser).tokens(),
                old(parser).index(),
                token@,
                condition.view(),
            ).consumed,
            branches_spec(
                old(parser).tokens(),
                old(parser).index(),
                token@,
                condition.view(),
            ).errors,
        ),
        node.view() == branches_spec(
            old(parser).tokens(),
            old(parser).index(),
            token@,
            condition.view(),
        ).value,
    decreases remaining(old(parser).tokens(), old(parser).index()), 12nat,
{
    let ghost tokens = parser.tokens();
    let ghost before = parser.error_views();
    if !parser.expect_peek_type(TokenType::RIGHT_PAREN) {
        return zero_value();
    }
    if !parser.expect_peek_type(TokenType::LEFT_BRACE) {
        return zero_value();
    }
    let ghost first = block_spec(tokens, parser.index());
    let consequence = parser.parse_block_stmt();
    let ghost second = alternative_spec(tokens, parser.index());
    assert((before + first.errors) + second.errors =~= before + (first.errors + second.errors));
    match parse_alternative(parser) {
        Some(alternative) => Expression::If(
            IfExpression { token, condition: Box::new(condition), consequence, alternative },
        ),
        None => zero_value(),
    }
}

/// Parses what follows the first branch of an `if`; the current token is
/// the `}` of that branch.
fn parse_alternative(parser: &mut Parser) -> (alternative: Option<Option<BlockStatement>>)
    requires
        old(parser).wf(),
    ensures
        old(parser).moved(
            *final(parser),
            alternative_spec(old(parser).tokens(), old(parser).index()).consumed,
            alternative_spec(old(parser).tokens(), old(parser).index()).errors,
        ),
        match alternative {
            Some(Some(block)) => alternative_spec(old(parser).tokens(), old(parser).index()).value
                == Some(Some(block.view())),
            Some(None) => alternative_spec(old(parser).tokens(), old(parser).index()).value
                == Some(None::<BlockView>),
            None => alternative_spec(old(parser).tokens(), old(parser).index()).value is None,
        },
    decreases remaining(old(parser).tokens(), old(parser).index()), 11nat,
{
    if !parser.peek_token_type_is(TokenType::ELSE) {
        return Some(None);
    }
    parser.next_token();
    if !parser.expect_peek_type(TokenType::LEFT_BRACE) {
        return None;
    }
    let block = parser.parse_block_stmt();
    Some(Some(block))
}

/// Parses the function literal whose `func` is the current token.
fn parse_function_literal(parser: &mut Parser) -> (node: Expression)
    requires
        old(parser).wf(),
        kind(old(parser).tokens(), old(parser).index()) == TokenType::FUNCTION,
    ensures
        old(parser).moved(
            *final(parser),
            function_spec(old(parser).tokens(), old(parser).index()).consumed,
            function_spec(old(parser).tokens(), old(parser).index()).errors,
        ),
        node.view() == function_spec(old(parser).tokens(), old(parser).index()).value,
    decreases remaining(old(parser).tokens(), old(parser).index()), 3nat,
{
    let token = parser.current().clone();
    if !parser.expect_peek_type(TokenType::LEFT_PAREN) {
        return zero_value();
    }
    let parameters = parser.parse_function_params();
    if !parser.expect_peek_type(TokenType::LEFT_BRACE) {
        return zero_value();
    }
    let body = parser.parse_block_stmt();
    Expression::Function(FunctionLiteral { token, parameters, body, name: String::new() })
}

/// Parses the array literal whose `[` is the current token.
fn parse_array_literal(parser: &mut Parser) -> (node: Expression)
    requires
        old(parser).wf(),
        kind(old(parser).tokens(), old(parser).index()) == TokenType::LEFT_BRACKET,
    ensures
        old(parser).moved(
            *final(parser),
            array_spec(old(parser).tokens(), old(parser).index()).consumed,
            array_spec(old(parser).tokens(), old(parser).index()).errors,
        ),
        node.view() == array_spec(old(parser).tokens(), old(parser).index()).value,
    decreases remaining(old(parser).tokens(), old(parser).index()), 3nat,
{
    let token = parser.current().clone();
    let elements = parse_expr_list(parser, TokenType::RIGHT_BRACKET);
    Expression::Array(ArrayLiteral { token, elements })
}

/// Parses the expressions of a list whose opening token is the current one,
/// up to the token of the kind `end` that closes it.
fn parse_expr_list(parser: &mut Parser, end: TokenType) -> (list: Vec<Expression>)
    requires
        old(parser).wf(),
        kind(old(parser).tokens(), old(parser).index()) == TokenType::LEFT_PAREN || kind(
            old(parser).tokens(),
            old(parser).index(),
        ) == TokenType::LEFT_BRACKET,
    ensures
        old(parser).moved(
            *final(parser),
            expression_list_spec(old(parser).tokens(), old(parser).index(), end).consumed,
            expression_list_spec(old(parser).tokens(), old(parser).index(), end).errors,
        ),
        expressions_view(list@) == expression_list_spec(
            old(parser).tokens(),
            old(parser).index(),
            end,
        ).value,
    decreases remaining(old(parser).tokens(), old(parser).index()), 1nat,
{
    let mut list: Vec<Expression> = Vec::new();
    assert(expressions_view(list@) =~= Seq::<ExpressionView>::empty());
    if parser.peek_token_type_is(end) {
        parser.next_token();
        return list;
    }
    let ghost tokens = parser.tokens();
    let ghost before = parser.error_views();
    parser.next_token();
    let ghost head = operand_spec(tokens, parser.index(), LOWEST as nat);
    let expression = parse_operand(parser, LOWEST);
    list.push(expression);
    assert(expressions_view(list@) =~= seq![head.value]);
    let ghost tail = list_tail_spec(tokens, parser.index());
    parse_list_tail(parser, &mut list);
    assert((before + head.errors) + tail.errors =~= before + (head.errors + tail.errors));
    let ghost missing = unexpected(tokens, parser.index(), end);
    if !parser.expect_peek_type(end) {
        let none: Vec<Expression> = Vec::new();
        assert(expressions_view(none@) =~= Seq::<ExpressionView>::empty());
        assert((before + (head.errors + tail.errors)) + seq![missing] =~= before + (head.errors
            + tail.errors).push(missing));
        return none;
    }
    list
}

/// Parses the expressions that follow the one that ends at the current
/// token, each behind a `,`, and adds them to `list`.
fn parse_list_tail(parser: &mut Parser, list: &mut Vec<Expression>)
    requires
        old(parser).wf(),
    ensures
        old(parser).moved(
            *final(parser),
            list_tail_spec(old(parser).tokens(), old(parser).index()).consumed,
            list_tail_spec(old(parser).tokens(), old(parser).index()).errors,
        ),
        expressions_view(final(list)@) == expressions_view(old(list)@) + list_tail_spec(
            old(parser).tokens(),
            old(parser).index(),
        ).value,
    decreases remaining(old(parser).tokens(), old(parser).index()), 0nat,
{
    let ghost tokens = parser.tokens();
    let ghost from = parser.index();
    let ghost before = parser.error_views();
    let ghost given = expressions_view(list@);
    let ghost whole = list_tail_spec(tokens, from);
    while parser.peek_token_type_is(TokenType::COMMA)
        invariant
            parser.wf(),
            parser.tokens() == tokens,
            tokens == old(parser).tokens(),
            from == old(parser).index(),
            parser.index() >= from,
            given + whole.value =~= expressions_view(list@) + list_tail_spec(
                tokens,
                parser.index(),
            ).value,
            whole.consumed == (parser.index() - from) + list_tail_spec(
                tokens,
                parser.index(),
            ).consumed,
            before + whole.errors =~= parser.error_views() + list_tail_spec(
                tokens,
                parser.index(),
            ).errors,
        decreases remaining(tokens, parser.index()),
    {
        let ghost done = expressions_view(list@);
        let ghost item = operand_spec(tokens, parser.index() + 2, LOWEST as nat);
        let ghost rest = list_tail_spec(tokens, parser.index() + 2 + item.consumed);
        let ghost seen = parser.error_views();
        parser.next_token();
        parser.next_token();
        let expression = parse_operand(parser, LOWEST);
        list.push(expression);
        assert(expressions_view(list@) =~= done.push(item.value));
        assert(done + (seq![item.value] + rest.value) =~= done.push(item.value) + rest.value);
        assert(seen + (item.errors + rest.errors) =~= (seen + item.errors) + rest.errors);
    }
    assert(expressions_view(list@) + Seq::<ExpressionView>::empty() =~= expressions_view(list@));
}

/// Parses the binary operator that is the current token, and its right
/// operand; `left` is its left operand.
fn parse_infix_expr(parser: &mut Parser, left: Expression) -> (node: Expression)
    requires
        old(parser).wf(),
        is_binary_operator(kind(old(parser).tokens(), old(parser).index())),
    ensures
        old(parser).moved(
            *final(parser),
            binary_spec(old(parser).tokens(), old(parser).index(), left.view()).consumed,
            binary_spec(old(parser).tokens(), old(parser).index(), left.view()).errors,
        ),
        node.view() == binary_spec(old(parser).tokens(), old(parser).index(), left.view()).value,
    decreases remaining(old(parser).tokens(), old(parser).index()), 2nat,
{
    let token = parser.current().clone();
    let operator = parser.current().literal.clone();
    let precedence = Precedences::get(parser.current().token_type);
    parser.next_token();
    let right = parse_operand(parser, precedence);
    Expression::Infix(
        InfixExpression { token, operator, left: Box::new(left), right: Box::new(right) },
    )
}

/// Parses the arguments of a call whose `(` is the current token;
/// `function` is what is called.
fn parse_call_expr(parser: &mut Parser, function: Expression) -> (node: Expression)
    requires
        old(parser).wf(),
        kind(old(parser).tokens(), old(parser).index()) == TokenType::LEFT_PAREN,
    ensures
        old(parser).moved(
            *final(parser),
            call_spec(old(parser).tokens(), old(parser).index(), function.view()).consumed,
            call_spec(old(parser).tokens(), old(parser).index(), function.view()).errors,
        ),
        node.view() == call_spec(
            old(parser).tokens(),
            old(parser).index(),
            function.view(),
        ).value,
    decreases remaining(old(parser).tokens(), old(parser).index()), 2nat,
{
    let token = parser.current().clone();
    let arguments = parse_expr_list(parser, TokenType::RIGHT_PAREN);
    Expression::Call(CallExpression { token, function: Box::new(function), arguments })
}

/// Parses the index whose `[` is the current token; `left` is what is
/// indexed.
fn parse_index_expr(parser: &mut Parser, left: Expression) -> (node: Expression)
    requires
        old(parser).wf(),
        kind(old(parser).tokens(), old(parser).index()) == TokenType::LEFT_BRACKET,
    ensures
        old(parser).moved(
            *final(parser),
            index_spec(old(parser).tokens(), old(parser).index(), left.view()).consumed,
            index_spec(old(parser).tokens(), old(parser).index(), left.view()).errors,
        ),
        node.view() == index_spec(old(parser).tokens(), old(parser).index(), left.view()).value,
    decreases remaining(old(parser).tokens(), old(parser).index()), 2nat,
{
    let token = parser.current().clone();
    parser.next_token();
    let index = parse_operand(parser, LOWEST);
    if !parser.expect_peek_type(TokenType::RIGHT_BRACKET) {
        return zero_value();
    }
    Expression::Index(IndexExpression { token, left: Box::new(left), index: Box::new(index) })
}

/// Parses the statement whose `let` is the current token.
fn parse_let_stmt(parser: &mut Parser) -> (statement: Statement)
    requires
        old(parser).wf(),
        kind(old(parser).tokens(), old(parser).index()) == TokenType::LET,
    ensures
        old(parser).moved(
            *final(parser),
            binding_spec(old(parser).tokens(), old(parser).index()).consumed,
            binding_spec(old(parser).tokens(), old(parser).index()).errors,
        ),
        statement.view() == binding_spec(old(parser).tokens(), old(parser).index()).value,
    decreases remaining(old(parser).tokens(), old(parser).index()), 7nat,
{
    let token = parser.current().clone();
    if !parser.expect_peek_type(TokenType::IDENTIFIER) {
        return Statement::ZeroValue(ZeroValueStatement {  });
    }
    let name = Identifier {
        token: parser.current().clone(),
        value: parser.current().literal.clone(),
    };
    if !parser.expect_peek_type(TokenType::EQUAL) {
        return Statement::ZeroValue(ZeroValueStatement {  });
    }
    parser.next_token();
    let value = parse_operand(parser, LOWEST);
    if parser.peek_token_type_is(TokenType::SEMICOLON) {
        parser.next_token();
    }
    Statement::Let(LetStatement { token, name, value: Box::new(value) })
}

/// Parses the statement whose `const` is the current token.
fn parse_const_stmt(parser: &mut Parser) -> (statement: Statement)
    requires
        old(parser).wf(),
        kind(old(parser).tokens(), old(parser).index()) == TokenType::CONST,
    ensures
        old(parser).moved(
            *final(parser),
            binding_spec(old(parser).tokens(), old(parser).index()).consumed,
            binding_spec(old(parser).tokens(), old(parser).index()).errors,
        ),
        statement.view() == binding_spec(old(parser).tokens(), old(parser).index()).value,
    decreases remaining(old(parser).tokens(), old(parser).index()), 7nat,
{
    let token = parser.current().clone();
    if !parser.expect_peek_type(TokenType::IDENTIFIER) {
        return Statement::ZeroValue(ZeroValueStatement {  });
    }
    let name = Identifier {
        token: parser.current().clone(),
        value: parser.current().literal.clone(),
    };
    if !parser.expect_peek_type(TokenType::EQUAL) {
        return Statement::ZeroValue(ZeroValueStatement {  });
    }
    parser.next_token();
    let value = parse_operand(parser, LOWEST);
    if parser.peek_token_type_is(TokenType::SEMICOLON) {
        parser.next_token();
    }
    Statement::Const(ConstStatement { token, name, value: Box::new(value) })
}

/// Parses the statement whose `return` is the current token.
fn parse_return_stmt(parser: &mut Parser) -> (statement: Statement)
    requires
        old(parser).wf(),
        kind(old(parser).tokens(), old(parser).index()) == TokenType::RETURN,
    ensures
        old(parser).moved(
            *final(parser),
            return_spec(old(parser).tokens(), old(parser).index()).consumed,
            return_spec(old(parser).tokens(), old(parser).index()).errors,
        ),
        statement.view() == return_spec(old(parser).tokens(), old(parser).index()).value,
    decreases remaining(old(parser).tokens(), old(parser).index()), 7nat,
{
    let token = parser.current().clone();
    parser.next_token();
    let return_value = parse_operand(parser, LOWEST);
    if parser.peek_token_type_is(TokenType::SEMICOLON) {
        parser.next_token();
    }
    Statement::Return(ReturnStatement { token, return_value: Box::new(return_value) })
}

/// Parses the expression that starts at the current token, as a statement.
fn parse_expr_stmt(parser: &mut Parser) -> (statement: Statement)
    requires
        old(parser).wf(),
    ensures
        old(parser).moved(
            *final(parser),
            expression_statement_spec(old(parser).tokens(), old(parser).index()).consumed,
            expression_statement_spec(old(parser).tokens(), old(parser).index()).errors,
        ),
        statement.view() == expression_statement_spec(
            old(parser).tokens(),
            old(parser).index(),
        ).value,
    decreases remaining(old(parser).tokens(), old(parser).index()), 7nat,
{
    let token = parser.current().clone();
    let expression = parse_operand(parser, LOWEST);
    if parser.peek_token_type_is(TokenType::SEMICOLON) {
        parser.next_token();
    }
    Statement::Expression(ExpressionStatement { token, expression: Box::new(expression) })
}

} // verus!
