//! The syntax tree: programs, statements, expressions, and their values.

use crate::token::{Token, TokenView};
use vstd::prelude::*;

verus! {

/// What every node of the syntax tree offers: the literal of the token that
/// introduced it.
pub trait Node {
    /// The literal that `token_literal` reports.
    spec fn spec_token_literal(&self) -> Seq<char>;

    fn token_literal(&self) -> (literal: String)
        ensures
            literal@ == self.spec_token_literal(),
    ;
}

/// Mathematical value of an identifier node.
pub struct IdentifierView {
    pub token: TokenView,
    pub value: Seq<char>,
}

impl IdentifierView {
    /// The name repeats the literal of the identifier's token.
    pub open spec fn wf(self) -> bool {
        self.value == self.token.literal
    }
}

/// Mathematical value of an expression node.
pub enum ExpressionView {
    Identifier(IdentifierView),
}

impl ExpressionView {
    pub open spec fn wf(self) -> bool {
        match self {
            ExpressionView::Identifier(identifier) => identifier.wf(),
        }
    }
}

/// Mathematical value of a `let` statement.
pub struct LetStatementView {
    pub token: TokenView,
    pub name: IdentifierView,
    pub value: ExpressionView,
}

/// Mathematical value of a `return` statement.
pub struct ReturnStatementView {
    pub token: TokenView,
    pub return_value: ExpressionView,
}

/// Mathematical value of a statement node.
pub enum StatementView {
    Let(LetStatementView),
    Return(ReturnStatementView),
}

impl StatementView {
    /// The token that introduced the statement.
    pub open spec fn token(self) -> TokenView {
        match self {
            StatementView::Let(statement) => statement.token,
            StatementView::Return(statement) => statement.token,
        }
    }

    /// Every identifier inside the statement repeats its token's literal.
    pub open spec fn wf(self) -> bool {
        match self {
            StatementView::Let(statement) => statement.name.wf() && statement.value.wf(),
            StatementView::Return(statement) => statement.return_value.wf(),
        }
    }
}

/// The literal that a sequence of statements reports: that of its first
/// statement, or the empty text when there is none.
pub open spec fn first_literal(statements: Seq<StatementView>) -> Seq<char> {
    if statements.len() == 0 {
        Seq::empty()
    } else {
        statements[0].token().literal
    }
}

/// A name in the source text.
#[derive(Debug)]
pub struct Identifier {
    pub token: Token,
    pub value: String,
}

impl View for Identifier {
    type V = IdentifierView;

    open spec fn view(&self) -> IdentifierView {
        IdentifierView { token: self.token@, value: self.value@ }
    }
}

impl Node for Identifier {
    open spec fn spec_token_literal(&self) -> Seq<char> {
        self.token.literal@
    }

    fn token_literal(&self) -> (literal: String) {
        self.token.literal.clone()
    }
}

/// The closed set of expression nodes.
#[derive(Debug)]
pub enum Expression {
    Identifier(Identifier),
}

impl View for Expression {
    type V = ExpressionView;

    open spec fn view(&self) -> ExpressionView {
        match self {
            Expression::Identifier(identifier) => ExpressionView::Identifier(identifier@),
        }
    }
}

impl Node for Expression {
    open spec fn spec_token_literal(&self) -> Seq<char> {
        match self {
            Expression::Identifier(identifier) => identifier.spec_token_literal(),
        }
    }

    fn token_literal(&self) -> (literal: String) {
        match self {
            Expression::Identifier(identifier) => identifier.token_literal(),
        }
    }
}

/// `let <name> = <value>;`
#[derive(Debug)]
pub struct LetStatement {
    pub token: Token,
    pub name: Identifier,
    pub value: Expression,
}

impl View for LetStatement {
    type V = LetStatementView;

    open spec fn view(&self) -> LetStatementView {
        LetStatementView { token: self.token@, name: self.name@, value: self.value@ }
    }
}

impl Node for LetStatement {
    open spec fn spec_token_literal(&self) -> Seq<char> {
        self.token.literal@
    }

    fn token_literal(&self) -> (literal: String) {
        self.token.literal.clone()
    }
}

/// `return <value>;`
#[derive(Debug)]
pub struct ReturnStatement {
    pub token: Token,
    pub return_value: Expression,
}

impl View for ReturnStatement {
    type V = ReturnStatementView;

    open spec fn view(&self) -> ReturnStatementView {
        ReturnStatementView { token: self.token@, return_value: self.return_value@ }
    }
}

impl Node for ReturnStatement {
    open spec fn spec_token_literal(&self) -> Seq<char> {
        self.token.literal@
    }

    fn token_literal(&self) -> (literal: String) {
        self.token.literal.clone()
    }
}

/// The closed set of statement nodes.
#[derive(Debug)]
pub enum Statement {
    Let(LetStatement),
    Return(ReturnStatement),
}

impl View for Statement {
    type V = StatementView;

    open spec fn view(&self) -> StatementView {
        match self {
            Statement::Let(statement) => StatementView::Let(statement@),
            Statement::Return(statement) => StatementView::Return(statement@),
        }
    }
}

impl DeepView for Statement {
    type V = StatementView;

    open spec fn deep_view(&self) -> StatementView {
        self@
    }
}

impl Node for Statement {
    open spec fn spec_token_literal(&self) -> Seq<char> {
        self@.token().literal
    }

    fn token_literal(&self) -> (literal: String) {
        match self {
            Statement::Let(statement) => statement.token_literal(),
            Statement::Return(statement) => statement.token_literal(),
        }
    }
}

/// The root of the syntax tree: the statements in source order.
#[derive(Debug)]
pub struct Program {
    pub statements: Vec<Statement>,
}

impl View for Program {
    type V = Seq<StatementView>;

    open spec fn view(&self) -> Seq<StatementView> {
        self.statements.deep_view()
    }
}

impl Node for Program {
    open spec fn spec_token_literal(&self) -> Seq<char> {
        first_literal(self@)
    }

    fn token_literal(&self) -> (literal: String) {
        if self.statements.len() == 0 {
            return String::new();
        }
        self.statements[0].token_literal()
    }
}

} // verus!
