//! The syntax tree of a source file.

use crate::compiler::declaration::Position;
use crate::types::Operator;
use vstd::prelude::*;

verus! {

/// An expression.
#[derive(Debug, PartialEq, Eq)]
pub enum Expression {
    /// A number literal, as it is written.
    Number(String),
    /// A string literal: the string that it stands for.
    Text(String),
    /// A truth value.
    Bool(bool),
    /// A variable, by its name with the `$`.
    Variable(String),
    /// A call of a function.
    Call { function: String, arguments: Vec<Expression> },
    /// An operator applied to one operand.
    Unary { operator: Operator, operand: Box<Expression> },
    /// An operator applied to two operands.
    Binary { operator: Operator, left: Box<Expression>, right: Box<Expression> },
    /// The place of an expression that the source lacks.
    Missing,
}

/// The mathematical value of an [`Expression`].
pub enum ExpressionView {
    Number(Seq<char>),
    Text(Seq<char>),
    Bool(bool),
    Variable(Seq<char>),
    Call { function: Seq<char>, arguments: Seq<ExpressionView> },
    Unary { operator: Operator, operand: Box<ExpressionView> },
    Binary { operator: Operator, left: Box<ExpressionView>, right: Box<ExpressionView> },
    Missing,
}

/// The mathematical value of an expression.
pub open spec fn expression_view(expression: Expression) -> ExpressionView
    decreases expression,
{
    match expression {
        Expression::Number(text) => ExpressionView::Number(text@),
        Expression::Text(text) => ExpressionView::Text(text@),
        Expression::Bool(truth) => ExpressionView::Bool(truth),
        Expression::Variable(name) => ExpressionView::Variable(name@),
        Expression::Call { function, arguments } => ExpressionView::Call {
            function: function@,
            arguments: Seq::new(
                arguments@.len(),
                |i: int|
                    if 0 <= i < arguments@.len() {
                        expression_view(arguments@[i])
                    } else {
                        ExpressionView::Missing
                    },
            ),
        },
        Expression::Unary { operator, operand } => ExpressionView::Unary {
            operator,
            operand: Box::new(expression_view(*operand)),
        },
        Expression::Binary { operator, left, right } => ExpressionView::Binary {
            operator,
            left: Box::new(expression_view(*left)),
            right: Box::new(expression_view(*right)),
        },
        Expression::Missing => ExpressionView::Missing,
    }
}

impl View for Expression {
    type V = ExpressionView;

    open spec fn view(&self) -> ExpressionView {
        expression_view(*self)
    }
}

impl DeepView for Expression {
    type V = ExpressionView;

    open spec fn deep_view(&self) -> ExpressionView {
        expression_view(*self)
    }
}

/// A piece of a line or of a command: text, or an expression whose value
/// takes its place.
#[derive(Debug, PartialEq, Eq)]
pub enum LinePart {
    Text(String),
    Expression(Expression),
}

/// The mathematical value of a [`LinePart`].
pub enum LinePartView {
    Text(Seq<char>),
    Expression(ExpressionView),
}

impl View for LinePart {
    type V = LinePartView;

    open spec fn view(&self) -> LinePartView {
        match self {
            LinePart::Text(text) => LinePartView::Text(text@),
            LinePart::Expression(expression) => LinePartView::Expression(expression@),
        }
    }
}

impl DeepView for LinePart {
    type V = LinePartView;

    open spec fn deep_view(&self) -> LinePartView {
        self@
    }
}

/// A statement of a node's body.
#[derive(Debug, PartialEq, Eq)]
pub enum Statement {
    /// A line of dialogue.
    Line { parts: Vec<LinePart>, hashtags: Vec<String>, start: Position },
    /// A group of shortcut options.
    Options { options: Vec<ShortcutOption>, start: Position },
    /// `<<if>>` with its `<<elseif>>` clauses and its `<<else>>`.
    If { clauses: Vec<Clause>, otherwise: Option<Vec<Statement>>, start: Position },
    /// `<<set>>`.
    Assign { variable: String, value: Expression, start: Position },
    /// `<<declare>>`. It starts where the name of its variable starts.
    Declare { variable: String, value: Expression, start: Position },
    /// `<<jump>>`.
    Jump { destination: String, start: Position },
    /// `<<stop>>`.
    Stop { start: Position },
    /// `<<call>>`.
    Call { call: Expression, start: Position },
    /// A command for the host.
    Command { parts: Vec<LinePart>, start: Position },
}

/// One option of a group of shortcut options.
#[derive(Debug, PartialEq, Eq)]
pub struct ShortcutOption {
    pub parts: Vec<LinePart>,
    pub hashtags: Vec<String>,
    /// The condition of the option, if it has one.
    pub condition: Option<Expression>,
    /// What follows when the option is chosen.
    pub body: Vec<Statement>,
    pub start: Position,
}

/// A clause of an `<<if>>`: a condition and what follows when it holds.
#[derive(Debug, PartialEq, Eq)]
pub struct Clause {
    pub condition: Expression,
    pub body: Vec<Statement>,
}

/// The mathematical value of a [`Statement`].
pub enum StatementView {
    Line { parts: Seq<LinePartView>, hashtags: Seq<Seq<char>>, start: Position },
    Options { options: Seq<ShortcutOptionView>, start: Position },
    If { clauses: Seq<ClauseView>, otherwise: Option<Seq<StatementView>>, start: Position },
    Assign { variable: Seq<char>, value: ExpressionView, start: Position },
    Declare { variable: Seq<char>, value: ExpressionView, start: Position },
    Jump { destination: Seq<char>, start: Position },
    Stop { start: Position },
    Call { call: ExpressionView, start: Position },
    Command { parts: Seq<LinePartView>, start: Position },
}

/// The mathematical value of a [`ShortcutOption`].
pub struct ShortcutOptionView {
    pub parts: Seq<LinePartView>,
    pub hashtags: Seq<Seq<char>>,
    pub condition: Option<ExpressionView>,
    pub body: Seq<StatementView>,
    pub start: Position,
}

/// The mathematical value of a [`Clause`].
pub struct ClauseView {
    pub condition: ExpressionView,
    pub body: Seq<StatementView>,
}

/// The mathematical value of a statement.
pub open spec fn statement_view(statement: Statement) -> StatementView
    decreases statement,
{
    match statement {
        Statement::Line { parts, hashtags, start } => StatementView::Line {
            parts: parts.deep_view(),
            hashtags: hashtags.deep_view(),
            start,
        },
        Statement::Options { options, start } => StatementView::Options {
            options: Seq::new(
                options@.len(),
                |i: int|
                    if 0 <= i < options@.len() {
                        option_view(options@[i])
                    } else {
                        arbitrary()
                    },
            ),
            start,
        },
        Statement::If { clauses, otherwise, start } => StatementView::If {
            clauses: Seq::new(
                clauses@.len(),
                |i: int|
                    if 0 <= i < clauses@.len() {
                        clause_view(clauses@[i])
                    } else {
                        arbitrary()
                    },
            ),
            otherwise: match otherwise {
                Some(body) => Some(statements_view(body)),
                None => None,
            },
            start,
        },
        Statement::Assign { variable, value, start } => StatementView::Assign {
            variable: variable@,
            value: value@,
            start,
        },
        Statement::Declare { variable, value, start } => StatementView::Declare {
            variable: variable@,
            value: value@,
            start,
        },
        Statement::Jump { destination, start } => StatementView::Jump {
            destination: destination@,
            start,
        },
        Statement::Stop { start } => StatementView::Stop { start },
        Statement::Call { call, start } => StatementView::Call { call: call@, start },
        Statement::Command { parts, start } => StatementView::Command {
            parts: parts.deep_view(),
            start,
        },
    }
}

/// The mathematical value of a list of statements.
pub open spec fn statements_view(statements: Vec<Statement>) -> Seq<StatementView>
    decreases statements,
{
    Seq::new(
        statements@.len(),
        |i: int|
            if 0 <= i < statements@.len() {
                statement_view(statements@[i])
            } else {
                arbitrary()
            },
    )
}

/// The mathematical value of a shortcut option.
pub open spec fn option_view(option: ShortcutOption) -> ShortcutOptionView
    decreases option,
{
    ShortcutOptionView {
        parts: option.parts.deep_view(),
        hashtags: option.hashtags.deep_view(),
        condition: option.condition.deep_view(),
        body: statements_view(option.body),
        start: option.start,
    }
}

/// The mathematical value of a clause.
pub open spec fn clause_view(clause: Clause) -> ClauseView
    decreases clause,
{
    ClauseView { condition: clause.condition@, body: statements_view(clause.body) }
}

impl View for Statement {
    type V = StatementView;

    open spec fn view(&self) -> StatementView {
        statement_view(*self)
    }
}

impl DeepView for Statement {
    type V = StatementView;

    open spec fn deep_view(&self) -> StatementView {
        statement_view(*self)
    }
}

impl View for ShortcutOption {
    type V = ShortcutOptionView;

    open spec fn view(&self) -> ShortcutOptionView {
        option_view(*self)
    }
}

impl DeepView for ShortcutOption {
    type V = ShortcutOptionView;

    open spec fn deep_view(&self) -> ShortcutOptionView {
        option_view(*self)
    }
}

impl View for Clause {
    type V = ClauseView;

    open spec fn view(&self) -> ClauseView {
        clause_view(*self)
    }
}

impl DeepView for Clause {
    type V = ClauseView;

    open spec fn deep_view(&self) -> ClauseView {
        clause_view(*self)
    }
}

/// A header of a node: a key and its value.
#[derive(Debug, Clone, PartialEq, Eq)]
pub struct Header {
    pub key: String,
    pub value: String,
}

/// The mathematical value of a [`Header`].
pub struct HeaderView {
    pub key: Seq<char>,
    pub value: Seq<char>,
}

impl View for Header {
    type V = HeaderView;

    open spec fn view(&self) -> HeaderView {
        HeaderView { key: self.key@, value: self.value@ }
    }
}

impl DeepView for Header {
    type V = HeaderView;

    open spec fn deep_view(&self) -> HeaderView {
        self@
    }
}

/// A node as it is written: its headers and its body.
#[derive(Debug, PartialEq, Eq)]
pub struct NodeTree {
    pub headers: Vec<Header>,
    pub body: Vec<Statement>,
    pub start: Position,
}

/// The mathematical value of a [`NodeTree`].
pub struct NodeTreeView {
    pub headers: Seq<HeaderView>,
    pub body: Seq<StatementView>,
    pub start: Position,
}

impl View for NodeTree {
    type V = NodeTreeView;

    open spec fn view(&self) -> NodeTreeView {
        NodeTreeView {
            headers: self.headers.deep_view(),
            body: self.body.deep_view(),
            start: self.start,
        }
    }
}

impl DeepView for NodeTree {
    type V = NodeTreeView;

    open spec fn deep_view(&self) -> NodeTreeView {
        self@
    }
}

/// The syntax tree of a file: its nodes.
#[derive(Debug, PartialEq, Eq)]
pub struct DialogueTree {
    pub nodes: Vec<NodeTree>,
}

/// The mathematical value of a [`DialogueTree`].
pub struct DialogueTreeView {
    pub nodes: Seq<NodeTreeView>,
}

impl View for DialogueTree {
    type V = DialogueTreeView;

    open spec fn view(&self) -> DialogueTreeView {
        DialogueTreeView { nodes: self.nodes.deep_view() }
    }
}

/// The views of the statements of a list are the view of the list.
pub proof fn lemma_statements_view(statements: Vec<Statement>)
    ensures
        statements.deep_view() == statements_view(statements),
{
    assert(statements.deep_view() =~= statements_view(statements));
}

} // verus!
