//! The syntax tree. Every node keeps the token that it starts with, and has
//! a string form that shows how its parts were grouped. Each node has a
//! view, which is what contracts speak of.

use vstd::prelude::*;
use vstd::string::StringExecFns;
use crate::token::{Token, TokenView};

verus! {

/// What an identifier is, in specifications.
pub struct IdentifierView {
    pub token: TokenView,
    pub value: Seq<char>,
}

/// What a block is, in specifications.
pub struct BlockView {
    pub token: TokenView,
    pub statements: Seq<StatementView>,
}

/// What an expression is, in specifications.
#[allow(inconsistent_fields)]
pub enum ExpressionView {
    ZeroValue,
    Identifier(IdentifierView),
    IntegerLiteral { token: TokenView, value: nat },
    StringLiteral { token: TokenView, value: Seq<char> },
    Boolean { token: TokenView, value: bool },
    Prefix { token: TokenView, operator: Seq<char>, right: Box<ExpressionView> },
    Infix {
        token: TokenView,
        operator: Seq<char>,
        left: Box<ExpressionView>,
        right: Box<ExpressionView>,
    },
    Postfix { token: TokenView, operator: Seq<char> },
    Array { token: TokenView, elements: Seq<ExpressionView> },
    Function {
        token: TokenView,
        parameters: Seq<IdentifierView>,
        body: BlockView,
        name: Seq<char>,
    },
    If {
        token: TokenView,
        condition: Box<ExpressionView>,
        consequence: BlockView,
        alternative: Option<BlockView>,
    },
    Call { token: TokenView, function: Box<ExpressionView>, arguments: Seq<ExpressionView> },
    Index { token: TokenView, left: Box<ExpressionView>, index: Box<ExpressionView> },
}

/// What a statement is, in specifications.
pub enum StatementView {
    ZeroValue,
    Let { token: TokenView, name: IdentifierView, value: ExpressionView },
    Const { token: TokenView, name: IdentifierView, value: ExpressionView },
    Return { token: TokenView, return_value: ExpressionView },
    Expression { token: TokenView, expression: ExpressionView },
    Block(BlockView),
}

/// Stands where no expression could be parsed.
#[derive(Debug)]
pub struct ZeroValueExpression {}

/// Stands where a statement was given up.
#[derive(Debug)]
pub struct ZeroValueStatement {}

/// A name: `add`, `foobar`, `x`.
#[derive(Debug)]
pub struct Identifier {
    pub token: Token,
    pub value: String,
}

/// An integer literal and the number that it writes.
#[derive(Debug)]
pub struct IntegerLiteral {
    pub token: Token,
    pub value: usize,
}

/// A string literal and its content.
#[derive(Debug)]
pub struct StringLiteral {
    pub token: Token,
    pub value: String,
}

/// `true` or `false`.
#[derive(Debug)]
pub struct Boolean {
    pub token: Token,
    pub value: bool,
}

/// A prefix operator, `!` or `-`, and the expression to its right.
#[derive(Debug)]
pub struct PrefixExpression {
    pub token: Token,
    pub operator: String,
    pub right: Box<Expression>,
}

/// A binary operator between two expressions.
#[derive(Debug)]
pub struct InfixExpression {
    pub token: Token,
    pub operator: String,
    pub left: Box<Expression>,
    pub right: Box<Expression>,
}

/// An identifier with `++` or `--` behind it; `token` is the identifier.
#[derive(Debug)]
pub struct PostfixExpression {
    pub token: Token,
    pub operator: String,
}

/// `[` elements `]`.
#[derive(Debug)]
pub struct ArrayLiteral {
    pub token: Token,
    pub elements: Vec<Expression>,
}

/// `func (` parameters `)` body. `name` is the name that the function is
/// bound to, and empty where it is bound to none.
#[derive(Debug)]
pub struct FunctionLiteral {
    pub token: Token,
    pub parameters: Vec<Identifier>,
    pub body: BlockStatement,
    pub name: String,
}

/// `if (` condition `)` consequence, with or without `else` alternative.
#[derive(Debug)]
pub struct IfExpression {
    pub token: Token,
    pub condition: Box<Expression>,
    pub consequence: BlockStatement,
    pub alternative: Option<BlockStatement>,
}

/// A call: function `(` arguments `)`; `token` is the `(`.
#[derive(Debug)]
pub struct CallExpression {
    pub token: Token,
    pub function: Box<Expression>,
    pub arguments: Vec<Expression>,
}

/// left `[` index `]`; `token` is the `[`.
#[derive(Debug)]
pub struct IndexExpression {
    pub token: Token,
    pub left: Box<Expression>,
    pub index: Box<Expression>,
}

/// `{` statements `}`; `token` is the `{`.
#[derive(Debug)]
pub struct BlockStatement {
    pub token: Token,
    pub statements: Vec<Statement>,
}

/// `let` name `=` value `;`
#[derive(Debug)]
pub struct LetStatement {
    pub token: Token,
    pub name: Identifier,
    pub value: Box<Expression>,
}

/// `const` name `=` value `;`
#[derive(Debug)]
pub struct ConstStatement {
    pub token: Token,
    pub name: Identifier,
    pub value: Box<Expression>,
}

/// `return` value `;`
#[derive(Debug)]
pub struct ReturnStatement {
    pub token: Token,
    pub return_value: Box<Expression>,
}

/// An expression that stands as a statement; `token` is its first token.
#[derive(Debug)]
pub struct ExpressionStatement {
    pub token: Token,
    pub expression: Box<Expression>,
}

/// An expression: it produces a value.
#[derive(Debug)]
pub enum Expression {
    ZeroValue(ZeroValueExpression),
    Identifier(Identifier),
    IntegerLiteral(IntegerLiteral),
    StringLiteral(StringLiteral),
    Boolean(Boolean),
    Prefix(PrefixExpression),
    Infix(InfixExpression),
    Postfix(PostfixExpression),
    Array(ArrayLiteral),
    Function(FunctionLiteral),
    If(IfExpression),
    Call(CallExpression),
    Index(IndexExpression),
}

/// A statement: it produces no value.
#[derive(Debug)]
pub enum Statement {
    ZeroValue(ZeroValueStatement),
    Let(LetStatement),
    Const(ConstStatement),
    Return(ReturnStatement),
    Expression(ExpressionStatement),
    Block(BlockStatement),
}

/// The root of every tree that the parser builds: the statements of a
/// program, in order.
#[derive(Debug)]
pub struct RootNode {
    pub statements: Vec<Statement>,
}

/// The views of `expressions`, in order.
pub open spec fn expressions_view(expressions: Seq<Expression>) -> Seq<ExpressionView>
    decreases expressions,
{
    Seq::new(
        expressions.len(),
        |i: int|
            if 0 <= i < expressions.len() {
                expressions[i].view()
            } else {
                ExpressionView::ZeroValue
            },
    )
}

/// The views of `statements`, in order.
pub open spec fn statements_view(statements: Seq<Statement>) -> Seq<StatementView>
    decreases statements,
{
    Seq::new(
        statements.len(),
        |i: int|
            if 0 <= i < statements.len() {
                statements[i].view()
            } else {
                StatementView::ZeroValue
            },
    )
}

/// The views of `identifiers`, in order.
pub open spec fn identifiers_view(identifiers: Seq<Identifier>) -> Seq<IdentifierView> {
    Seq::new(identifiers.len(), |i: int| identifiers[i].identifier_view())
}

/// `items`, one after the other, with `separator` between each two.
pub open spec fn join(items: Seq<Seq<char>>, separator: Seq<char>) -> Seq<char>
    decreases items.len(),
{
    if items.len() == 0 {
        Seq::empty()
    } else if items.len() == 1 {
        items[0]
    } else {
        join(items.drop_last(), separator) + separator + items.last()
    }
}

/// The string forms of `expressions`, in order.
pub open spec fn expression_strings(expressions: Seq<ExpressionView>) -> Seq<Seq<char>>
    decreases expressions,
{
    Seq::new(
        expressions.len(),
        |i: int|
            if 0 <= i < expressions.len() {
                expressions[i].string()
            } else {
                Seq::empty()
            },
    )
}

/// The string forms of `statements`, in order.
pub open spec fn statement_strings(statements: Seq<StatementView>) -> Seq<Seq<char>>
    decreases statements,
{
    Seq::new(
        statements.len(),
        |i: int|
            if 0 <= i < statements.len() {
                statements[i].string()
            } else {
                Seq::empty()
            },
    )
}

/// The names that `identifiers` hold, in order.
pub open spec fn identifier_strings(identifiers: Seq<IdentifierView>) -> Seq<Seq<char>> {
    Seq::new(identifiers.len(), |i: int| identifiers[i].value)
}

impl BlockView {
    /// Whether the block holds no placeholder.
    pub open spec fn is_complete(self) -> bool
        decreases self,
    {
        forall|i: int|
            0 <= i < self.statements.len() ==> (#[trigger] self.statements[i]).is_complete()
    }

    /// The text of the token that the block starts with.
    pub open spec fn token_literal(self) -> Seq<char> {
        self.token.literal
    }

    /// The block as source text: its statements between braces, with a
    /// space between each two.
    pub open spec fn string(self) -> Seq<char>
        decreases self,
    {
        if self.statements.len() == 0 {
            "{ }"@
        } else {
            "{ "@ + join(statement_strings(self.statements), " "@) + " }"@
        }
    }
}

impl ExpressionView {
    /// Whether the expression holds no placeholder.
    pub open spec fn is_complete(self) -> bool
        decreases self,
    {
        match self {
            ExpressionView::ZeroValue => false,
            ExpressionView::Identifier(_) => true,
            ExpressionView::IntegerLiteral { .. } => true,
            ExpressionView::StringLiteral { .. } => true,
            ExpressionView::Boolean { .. } => true,
            ExpressionView::Prefix { right, .. } => right.is_complete(),
            ExpressionView::Infix { left, right, .. } => left.is_complete()
                && right.is_complete(),
            ExpressionView::Postfix { .. } => true,
            ExpressionView::Array { elements, .. } => forall|i: int|
                0 <= i < elements.len() ==> (#[trigger] elements[i]).is_complete(),
            ExpressionView::Function { body, .. } => body.is_complete(),
            ExpressionView::If { condition, consequence, alternative, .. } => {
                &&& condition.is_complete()
                &&& consequence.is_complete()
                &&& match alternative {
                    Some(block) => block.is_complete(),
                    None => true,
                }
            },
            ExpressionView::Call { function, arguments, .. } => function.is_complete()
                && forall|i: int|
                0 <= i < arguments.len() ==> (#[trigger] arguments[i]).is_complete(),
            ExpressionView::Index { left, index, .. } => left.is_complete()
                && index.is_complete(),
        }
    }

    /// The text of the token that the expression starts with.
    pub open spec fn token_literal(self) -> Seq<char> {
        match self {
            ExpressionView::ZeroValue => "zero value"@,
            ExpressionView::Identifier(identifier) => identifier.token.literal,
            ExpressionView::IntegerLiteral { token, .. } => token.literal,
            ExpressionView::StringLiteral { token, .. } => token.literal,
            ExpressionView::Boolean { token, .. } => token.literal,
            ExpressionView::Prefix { token, .. } => token.literal,
            ExpressionView::Infix { token, .. } => token.literal,
            ExpressionView::Postfix { token, .. } => token.literal,
            ExpressionView::Array { token, .. } => token.literal,
            ExpressionView::Function { token, .. } => token.literal,
            ExpressionView::If { token, .. } => token.literal,
            ExpressionView::Call { token, .. } => token.literal,
            ExpressionView::Index { token, .. } => token.literal,
        }
    }

    /// The expression as source text, with the brackets that show how its
    /// operators bind.
    pub open spec fn string(self) -> Seq<char>
        decreases self,
    {
        match self {
            ExpressionView::ZeroValue => "zero value"@,
            ExpressionView::Identifier(identifier) => identifier.value,
            ExpressionView::IntegerLiteral { token, .. } => token.literal,
            ExpressionView::StringLiteral { token, .. } => token.literal,
            ExpressionView::Boolean { token, .. } => token.literal,
            ExpressionView::Prefix { operator, right, .. } => "("@ + operator + right.string()
                + ")"@,
            ExpressionView::Infix { operator, left, right, .. } => "("@ + left.string() + " "@
                + operator + " "@ + right.string() + ")"@,
            ExpressionView::Postfix { token, operator } => "("@ + token.literal + operator
                + ")"@,
            ExpressionView::Array { elements, .. } => "["@ + join(
                expression_strings(elements),
                ", "@,
            ) + "]"@,
            ExpressionView::Function { token, parameters, body, .. } => token.literal + "("@
                + join(identifier_strings(parameters), ", "@) + ") "@ + body.string(),
            ExpressionView::If { condition, consequence, alternative, .. } => match alternative {
                Some(block) => "if ("@ + condition.string() + ") "@ + consequence.string()
                    + " else "@ + block.string(),
                None => "if ("@ + condition.string() + ") "@ + consequence.string(),
            },
            ExpressionView::Call { function, arguments, .. } => function.string() + "("@ + join(
                expression_strings(arguments),
                ", "@,
            ) + ")"@,
            ExpressionView::Index { left, index, .. } => "("@ + left.string() + "["@
                + index.string() + "])"@,
        }
    }
}

impl StatementView {
    /// Whether the statement holds no placeholder.
    pub open spec fn is_complete(self) -> bool
        decreases self,
    {
        match self {
            StatementView::ZeroValue => false,
            StatementView::Let { value, .. } => value.is_complete(),
            StatementView::Const { value, .. } => value.is_complete(),
            StatementView::Return { return_value, .. } => return_value.is_complete(),
            StatementView::Expression { expression, .. } => expression.is_complete(),
            StatementView::Block(block) => block.is_complete(),
        }
    }

    /// The text of the token that the statement starts with.
    pub open spec fn token_literal(self) -> Seq<char> {
        match self {
            StatementView::ZeroValue => "zero value"@,
            StatementView::Let { token, .. } => token.literal,
            StatementView::Const { token, .. } => token.literal,
            StatementView::Return { token, .. } => token.literal,
            StatementView::Expression { token, .. } => token.literal,
            StatementView::Block(block) => block.token.literal,
        }
    }

    /// The statement as source text.
    pub open spec fn string(self) -> Seq<char>
        decreases self,
    {
        match self {
            StatementView::ZeroValue => "zero value"@,
            StatementView::Let { token, name, value } => token.literal + " "@ + name.value
                + " = "@ + value.string() + ";"@,
            StatementView::Const { token, name, value } => token.literal + " "@ + name.value
                + " = "@ + value.string() + ";"@,
            StatementView::Return { token, return_value } => token.literal + " "@
                + return_value.string() + ";"@,
            StatementView::Expression { expression, .. } => expression.string(),
            StatementView::Block(block) => block.string(),
        }
    }
}

/// The text of the token that a program starts with; empty for the empty
/// program.
pub open spec fn program_token_literal(statements: Seq<StatementView>) -> Seq<char> {
    if statements.len() > 0 {
        statements[0].token_literal()
    } else {
        ""@
    }
}

/// A program as source text: its statements, one after the other.
pub open spec fn program_string(statements: Seq<StatementView>) -> Seq<char> {
    join(statement_strings(statements), ""@)
}

/// What the strings of a vector are, in order.
pub open spec fn strings_view(strings: Seq<String>) -> Seq<Seq<char>> {
    Seq::new(strings.len(), |i: int| strings[i]@)
}

/// `items`, one after the other, with `separator` between each two.
fn join_strings(items: &Vec<String>, separator: &str) -> (text: String)
    ensures
        text@ == join(strings_view(items@), separator@),
{
    let mut text = String::new();
    let mut i: usize = 0;
    while i < items.len()
        invariant
            i <= items@.len(),
            text@ == join(strings_view(items@).take(i as int), separator@),
        decreases items@.len() - i,
    {
        let ghost done = strings_view(items@).take(i as int);
        let ghost next = strings_view(items@).take(i + 1);
        assert(next.drop_last() == done);
        assert(next.last() == items@[i as int]@);
        if i > 0 {
            text.append(separator);
        }
        text.append(items[i].as_str());
        assert(text@ == join(next, separator@));
        i = i + 1;
    }
    assert(strings_view(items@).take(i as int) == strings_view(items@));
    text
}

/// The string forms of `expressions`, in order.
fn strings_of_expressions(expressions: &Vec<Expression>) -> (strings: Vec<String>)
    ensures
        strings_view(strings@) == expression_strings(expressions_view(expressions@)),
    decreases expressions,
{
    let mut strings: Vec<String> = Vec::new();
    let mut i: usize = 0;
    while i < expressions.len()
        invariant
            i <= expressions@.len(),
            strings@.len() == i,
            forall|k: int|
                0 <= k < i ==> (#[trigger] strings@[k])@ == expressions@[k].view().string(),
        decreases expressions@.len() - i,
    {
        strings.push(expressions[i].string());
        i = i + 1;
    }
    assert(strings_view(strings@) =~= expression_strings(expressions_view(expressions@)));
    strings
}

/// The string forms of `statements`, in order.
fn strings_of_statements(statements: &Vec<Statement>) -> (strings: Vec<String>)
    ensures
        strings_view(strings@) == statement_strings(statements_view(statements@)),
    decreases statements,
{
    let mut strings: Vec<String> = Vec::new();
    let mut i: usize = 0;
    while i < statements.len()
        invariant
            i <= statements@.len(),
            strings@.len() == i,
            forall|k: int|
                0 <= k < i ==> (#[trigger] strings@[k])@ == statements@[k].view().string(),
        decreases statements@.len() - i,
    {
        strings.push(statements[i].string());
        i = i + 1;
    }
    assert(strings_view(strings@) =~= statement_strings(statements_view(statements@)));
    strings
}

/// The names that `identifiers` hold, in order.
fn strings_of_identifiers(identifiers: &Vec<Identifier>) -> (strings: Vec<String>)
    ensures
        strings_view(strings@) == identifier_strings(identifiers_view(identifiers@)),
{
    let mut strings: Vec<String> = Vec::new();
    let mut i: usize = 0;
    while i < identifiers.len()
        invariant
            i <= identifiers@.len(),
            strings@.len() == i,
            forall|k: int| 0 <= k < i ==> (#[trigger] strings@[k])@ == identifiers@[k].value@,
        decreases identifiers@.len() - i,
    {
        strings.push(identifiers[i].value.clone());
        i = i + 1;
    }
    assert(strings_view(strings@) =~= identifier_strings(identifiers_view(identifiers@)));
    strings
}

impl ZeroValueExpression {
    /// The value as contracts speak of it.
    pub open spec fn view(&self) -> ExpressionView {
        ExpressionView::ZeroValue
    }

    /// The text of the token that the node starts with.
    pub fn token_literal(&self) -> (literal: String)
        ensures
            literal@ == self.view().token_literal(),
    {
        "zero value".to_owned()
    }

    /// The node as source text.
    pub fn string(&self) -> (text: String)
        ensures
            text@ == self.view().string(),
    {
        "zero value".to_owned()
    }
}

impl ZeroValueStatement {
    /// The value as contracts speak of it.
    pub open spec fn view(&self) -> StatementView {
        StatementView::ZeroValue
    }

    /// The text of the token that the node starts with.
    pub fn token_literal(&self) -> (literal: String)
        ensures
            literal@ == self.view().token_literal(),
    {
        "zero value".to_owned()
    }

    /// The node as source text.
    pub fn string(&self) -> (text: String)
        ensures
            text@ == self.view().string(),
    {
        "zero value".to_owned()
    }
}

impl Identifier {
    /// The identifier where a name is asked for.
    pub open spec fn identifier_view(&self) -> IdentifierView {
        IdentifierView { token: self.token@, value: self.value@ }
    }

    /// The identifier as an expression.
    pub open spec fn view(&self) -> ExpressionView {
        ExpressionView::Identifier(self.identifier_view())
    }

    /// The text of the token that the node starts with.
    pub fn token_literal(&self) -> (literal: String)
        ensures
            literal@ == self.view().token_literal(),
    {
        self.token.literal.clone()
    }

    /// The node as source text.
    pub fn string(&self) -> (text: String)
        ensures
            text@ == self.view().string(),
    {
        self.value.clone()
    }
}

impl IntegerLiteral {
    /// The value as contracts speak of it.
    pub open spec fn view(&self) -> ExpressionView {
        ExpressionView::IntegerLiteral { token: self.token@, value: self.value as nat }
    }

    /// The text of the token that the node starts with.
    pub fn token_literal(&self) -> (literal: String)
        ensures
            literal@ == self.view().token_literal(),
    {
        self.token.literal.clone()
    }

    /// The node as source text.
    pub fn string(&self) -> (text: String)
        ensures
            text@ == self.view().string(),
    {
        self.token.literal.clone()
    }
}

impl StringLiteral {
    /// The value as contracts speak of it.
    pub open spec fn view(&self) -> ExpressionView {
        ExpressionView::StringLiteral { token: self.token@, value: self.value@ }
    }

    /// The text of the token that the node starts with.
    pub fn token_literal(&self) -> (literal: String)
        ensures
            literal@ == self.view().token_literal(),
    {
        self.token.literal.clone()
    }

    /// The node as source text.
    pub fn string(&self) -> (text: String)
        ensures
            text@ == self.view().string(),
    {
        self.token.literal.clone()
    }
}

impl Boolean {
    /// The value as contracts speak of it.
    pub open spec fn view(&self) -> ExpressionView {
        ExpressionView::Boolean { token: self.token@, value: self.value }
    }

    /// The text of the token that the node starts with.
    pub fn token_literal(&self) -> (literal: String)
        ensures
            literal@ == self.view().token_literal(),
    {
        self.token.literal.clone()
    }

    /// The node as source text.
    pub fn string(&self) -> (text: String)
        ensures
            text@ == self.view().string(),
    {
        self.token.literal.clone()
    }
}

impl PrefixExpression {
    /// The value as contracts speak of it.
    pub open spec fn view(&self) -> ExpressionView
        decreases self,
    {
        ExpressionView::Prefix {
            token: self.token@,
            operator: self.operator@,
            right: Box::new(self.right.view()),
        }
    }

    /// The text of the token that the node starts with.
    pub fn token_literal(&self) -> (literal: String)
        ensures
            literal@ == self.view().token_literal(),
    {
        self.token.literal.clone()
    }

    /// The node as source text.
    pub fn string(&self) -> (text: String)
        ensures
            text@ == self.view().string(),
        decreases self,
    {
        let mut text = "(".to_owned();
        text.append(self.operator.as_str());
        text.append(self.right.string().as_str());
        text.append(")");
        text
    }
}

impl InfixExpression {
    /// The value as contracts speak of it.
    pub open spec fn view(&self) -> ExpressionView
        decreases self,
    {
        ExpressionView::Infix {
            token: self.token@,
            operator: self.operator@,
            left: Box::new(self.left.view()),
            right: Box::new(self.right.view()),
        }
    }

    /// The text of the token that the node starts with.
    pub fn token_literal(&self) -> (literal: String)
        ensures
            literal@ == self.view().token_literal(),
    {
        self.token.literal.clone()
    }

    /// The node as source text.
    pub fn string(&self) -> (text: String)
        ensures
            text@ == self.view().string(),
        decreases self,
    {
        let mut text = "(".to_owned();
        text.append(self.left.string().as_str());
        text.append(" ");
        text.append(self.operator.as_str());
        text.append(" ");
        text.append(self.right.string().as_str());
        text.append(")");
        text
    }
}

impl PostfixExpression {
    /// The value as contracts speak of it.
    pub open spec fn view(&self) -> ExpressionView {
        ExpressionView::Postfix { token: self.token@, operator: self.operator@ }
    }

    /// The text of the token that the node starts with.
    pub fn token_literal(&self) -> (literal: String)
        ensures
            literal@ == self.view().token_literal(),
    {
        self.token.literal.clone()
    }

    /// The node as source text.
    pub fn string(&self) -> (text: String)
        ensures
            text@ == self.view().string(),
    {
        let mut text = "(".to_owned();
        text.append(self.token.literal.as_str());
        text.append(self.operator.as_str());
        text.append(")");
        text
    }
}

impl ArrayLiteral {
    /// The value as contracts speak of it.
    pub open spec fn view(&self) -> ExpressionView
        decreases self,
    {
        ExpressionView::Array {
            token: self.token@,
            elements: expressions_view(self.elements@),
        }
    }

    /// The text of the token that the node starts with.
    pub fn token_literal(&self) -> (literal: String)
        ensures
            literal@ == self.view().token_literal(),
    {
        self.token.literal.clone()
    }

    /// The node as source text.
    pub fn string(&self) -> (text: String)
        ensures
            text@ == self.view().string(),
        decreases self,
    {
        let mut text = "[".to_owned();
        text.append(join_strings(&strings_of_expressions(&self.elements), ", ").as_str());
        text.append("]");
        text
    }
}

impl FunctionLiteral {
    /// The value as contracts speak of it.
    pub open spec fn view(&self) -> ExpressionView
        decreases self,
    {
        ExpressionView::Function {
            token: self.token@,
            parameters: identifiers_view(self.parameters@),
            body: self.body.view(),
            name: self.name@,
        }
    }

    /// The text of the token that the node starts with.
    pub fn token_literal(&self) -> (literal: String)
        ensures
            literal@ == self.view().token_literal(),
    {
        self.token.literal.clone()
    }

    /// The node as source text.
    pub fn string(&self) -> (text: String)
        ensures
            text@ == self.view().string(),
        decreases self,
    {
        let mut text = self.token.literal.clone();
        text.append("(");
        text.append(join_strings(&strings_of_identifiers(&self.parameters), ", ").as_str());
        text.append(") ");
        text.append(self.body.string().as_str());
        text
    }
}

impl IfExpression {
    /// The value as contracts speak of it.
    pub open spec fn view(&self) -> ExpressionView
        decreases self,
    {
        ExpressionView::If {
            token: self.token@,
            condition: Box::new(self.condition.view()),
            consequence: self.consequence.view(),
            alternative: match self.alternative {
                Some(block) => Some(block.view()),
                None => None,
            },
        }
    }

    /// The text of the token that the node starts with.
    pub fn token_literal(&self) -> (literal: String)
        ensures
            literal@ == self.view().token_literal(),
    {
        self.token.literal.clone()
    }

    /// The node as source text.
    pub fn string(&self) -> (text: String)
        ensures
            text@ == self.view().string(),
        decreases self,
    {
        let mut text = "if (".to_owned();
        text.append(self.condition.string().as_str());
        text.append(") ");
        text.append(self.consequence.string().as_str());
        match &self.alternative {
            Some(block) => {
                text.append(" else ");
                text.append(block.string().as_str());
            },
            None => {},
        }
        text
    }
}

impl CallExpression {
    /// The value as contracts speak of it.
    pub open spec fn view(&self) -> ExpressionView
        decreases self,
    {
        ExpressionView::Call {
            token: self.token@,
            function: Box::new(self.function.view()),
            arguments: expressions_view(self.arguments@),
        }
    }

    /// The text of the token that the node starts with.
    pub fn token_literal(&self) -> (literal: String)
        ensures
            literal@ == self.view().token_literal(),
    {
        self.token.literal.clone()
    }

    /// The node as source text.
    pub fn string(&self) -> (text: String)
        ensures
            text@ == self.view().string(),
        decreases self,
    {
        let mut text = self.function.string();
        text.append("(");
        text.append(join_strings(&strings_of_expressions(&self.arguments), ", ").as_str());
        text.append(")");
        text
    }
}

impl IndexExpression {
    /// The value as contracts speak of it.
    pub open spec fn view(&self) -> ExpressionView
        decreases self,
    {
        ExpressionView::Index {
            token: self.token@,
            left: Box::new(self.left.view()),
            index: Box::new(self.index.view()),
        }
    }

    /// The text of the token that the node starts with.
    pub fn token_literal(&self) -> (literal: String)
        ensures
            literal@ == self.view().token_literal(),
    {
        self.token.literal.clone()
    }

    /// The node as source text.
    pub fn string(&self) -> (text: String)
        ensures
            text@ == self.view().string(),
        decreases self,
    {
        let mut text = "(".to_owned();
        text.append(self.left.string().as_str());
        text.append("[");
        text.append(self.index.string().as_str());
        text.append("])");
        text
    }
}

impl BlockStatement {
    /// The value as contracts speak of it.
    pub open spec fn view(&self) -> BlockView
        decreases self,
    {
        BlockView { token: self.token@, statements: statements_view(self.statements@) }
    }

    /// The text of the token that the node starts with.
    pub fn token_literal(&self) -> (literal: String)
        ensures
            literal@ == self.view().token_literal(),
    {
        self.token.literal.clone()
    }

    /// The node as source text.
    pub fn string(&self) -> (text: String)
        ensures
            text@ == self.view().string(),
        decreases self,
    {
        if self.statements.len() == 0 {
            return "{ }".to_owned();
        }
        let mut text = "{ ".to_owned();
        text.append(join_strings(&strings_of_statements(&self.statements), " ").as_str());
        text.append(" }");
        text
    }
}

impl LetStatement {
    /// The value as contracts speak of it.
    pub open spec fn view(&self) -> StatementView
        decreases self,
    {
        StatementView::Let {
            token: self.token@,
            name: self.name.identifier_view(),
            value: self.value.view(),
        }
    }

    /// The text of the token that the node starts with.
    pub fn token_literal(&self) -> (literal: String)
        ensures
            literal@ == self.view().token_literal(),
    {
        self.token.literal.clone()
    }

    /// The node as source text.
    pub fn string(&self) -> (text: String)
        ensures
            text@ == self.view().string(),
        decreases self,
    {
        let mut text = self.token.literal.clone();
        text.append(" ");
        text.append(self.name.value.as_str());
        text.append(" = ");
        text.append(self.value.string().as_str());
        text.append(";");
        text
    }
}

impl ConstStatement {
    /// The value as contracts speak of it.
    pub open spec fn view(&self) -> StatementView
        decreases self,
    {
        StatementView::Const {
            token: self.token@,
            name: self.name.identifier_view(),
            value: self.value.view(),
        }
    }

    /// The text of the token that the node starts with.
    pub fn token_literal(&self) -> (literal: String)
        ensures
            literal@ == self.view().token_literal(),
    {
        self.token.literal.clone()
    }

    /// The node as source text.
    pub fn string(&self) -> (text: String)
        ensures
            text@ == self.view().string(),
        decreases self,
    {
        let mut text = self.token.literal.clone();
        text.append(" ");
        text.append(self.name.value.as_str());
        text.append(" = ");
        text.append(self.value.string().as_str());
        text.append(";");
        text
    }
}

impl ReturnStatement {
    /// The value as contracts speak of it.
    pub open spec fn view(&self) -> StatementView
        decreases self,
    {
        StatementView::Return { token: self.token@, return_value: self.return_value.view() }
    }

    /// The text of the token that the node starts with.
    pub fn token_literal(&self) -> (literal: String)
        ensures
            literal@ == self.view().token_literal(),
    {
        self.token.literal.clone()
    }

    /// The node as source text.
    pub fn string(&self) -> (text: String)
        ensures
            text@ == self.view().string(),
        decreases self,
    {
        let mut text = self.token.literal.clone();
        text.append(" ");
        text.append(self.return_value.string().as_str());
        text.append(";");
        text
    }
}

impl ExpressionStatement {
    /// The value as contracts speak of it.
    pub open spec fn view(&self) -> StatementView
        decreases self,
    {
        StatementView::Expression { token: self.token@, expression: self.expression.view() }
    }

    /// The text of the token that the node starts with.
    pub fn token_literal(&self) -> (literal: String)
        ensures
            literal@ == self.view().token_literal(),
    {
        self.token.literal.clone()
    }

    /// The node as source text.
    pub fn string(&self) -> (text: String)
        ensures
            text@ == self.view().string(),
        decreases self,
    {
        self.expression.string()
    }
}

impl Expression {
    /// The value as contracts speak of it.
    pub open spec fn view(&self) -> ExpressionView
        decreases self,
    {
        match self {
            Expression::ZeroValue(node) => node.view(),
            Expression::Identifier(node) => node.view(),
            Expression::IntegerLiteral(node) => node.view(),
            Expression::StringLiteral(node) => node.view(),
            Expression::Boolean(node) => node.view(),
            Expression::Prefix(node) => node.view(),
            Expression::Infix(node) => node.view(),
            Expression::Postfix(node) => node.view(),
            Expression::Array(node) => node.view(),
            Expression::Function(node) => node.view(),
            Expression::If(node) => node.view(),
            Expression::Call(node) => node.view(),
            Expression::Index(node) => node.view(),
        }
    }

    /// The text of the token that the expression starts with.
    pub fn token_literal(&self) -> (literal: String)
        ensures
            literal@ == self.view().token_literal(),
    {
        match self {
            Expression::ZeroValue(node) => node.token_literal(),
            Expression::Identifier(node) => node.token_literal(),
            Expression::IntegerLiteral(node) => node.token_literal(),
            Expression::StringLiteral(node) => node.token_literal(),
            Expression::Boolean(node) => node.token_literal(),
            Expression::Prefix(node) => node.token_literal(),
            Expression::Infix(node) => node.token_literal(),
            Expression::Postfix(node) => node.token_literal(),
            Expression::Array(node) => node.token_literal(),
            Expression::Function(node) => node.token_literal(),
            Expression::If(node) => node.token_literal(),
            Expression::Call(node) => node.token_literal(),
            Expression::Index(node) => node.token_literal(),
        }
    }

    /// The expression as source text.
    pub fn string(&self) -> (text: String)
        ensures
            text@ == self.view().string(),
        decreases self,
    {
        match self {
            Expression::ZeroValue(node) => node.string(),
            Expression::Identifier(node) => node.string(),
            Expression::IntegerLiteral(node) => node.string(),
            Expression::StringLiteral(node) => node.string(),
            Expression::Boolean(node) => node.string(),
            Expression::Prefix(node) => node.string(),
            Expression::Infix(node) => node.string(),
            Expression::Postfix(node) => node.string(),
            Expression::Array(node) => node.string(),
            Expression::Function(node) => node.string(),
            Expression::If(node) => node.string(),
            Expression::Call(node) => node.string(),
            Expression::Index(node) => node.string(),
        }
    }
}

impl Statement {
    /// The value as contracts speak of it.
    pub open spec fn view(&self) -> StatementView
        decreases self,
    {
        match self {
            Statement::ZeroValue(node) => node.view(),
            Statement::Let(node) => node.view(),
            Statement::Const(node) => node.view(),
            Statement::Return(node) => node.view(),
            Statement::Expression(node) => node.view(),
            Statement::Block(node) => StatementView::Block(node.view()),
        }
    }

    /// The text of the token that the statement starts with.
    pub fn token_literal(&self) -> (literal: String)
        ensures
            literal@ == self.view().token_literal(),
    {
        match self {
            Statement::ZeroValue(node) => node.token_literal(),
            Statement::Let(node) => node.token_literal(),
            Statement::Const(node) => node.token_literal(),
            Statement::Return(node) => node.token_literal(),
            Statement::Expression(node) => node.token_literal(),
            Statement::Block(node) => node.token_literal(),
        }
    }

    /// The statement as source text.
    pub fn string(&self) -> (text: String)
        ensures
            text@ == self.view().string(),
        decreases self,
    {
        match self {
            Statement::ZeroValue(node) => node.string(),
            Statement::Let(node) => node.string(),
            Statement::Const(node) => node.string(),
            Statement::Return(node) => node.string(),
            Statement::Expression(node) => node.string(),
            Statement::Block(node) => node.string(),
        }
    }
}

impl RootNode {
    /// The statements of the program.
    pub open spec fn view(&self) -> Seq<StatementView> {
        statements_view(self.statements@)
    }

    /// The text of the token that the program starts with; empty for the
    /// empty program.
    pub fn token_literal(&self) -> (literal: String)
        ensures
            literal@ == program_token_literal(self.view()),
    {
        if self.statements.len() > 0 {
            self.statements[0].token_literal()
        } else {
            "".to_owned()
        }
    }

    /// The program as source text: its statements, one after the other.
    pub fn string(&self) -> (text: String)
        ensures
            text@ == program_string(self.view()),
    {
        join_strings(&strings_of_statements(&self.statements), "")
    }
}

} // verus!
