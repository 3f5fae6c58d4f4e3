//! The parser: from tokens to the syntax tree of a file.
//!
//! The parser never gives up. Where a token is missing it goes on as if the
//! token were there, and where a token is in the way it skips it; either
//! way it says so in a diagnostic. There is always a tree.

use crate::compiler::ast::{
    lemma_statements_view, Clause, ClauseView, DialogueTree, DialogueTreeView, Expression, ExpressionView, Header,
    HeaderView, LinePart, LinePartView, NodeTree, NodeTreeView, ShortcutOption,
    ShortcutOptionView, Statement, StatementView,
};
use crate::compiler::declaration::Position;
use crate::compiler::diagnostic::{Diagnostic, DiagnosticSeverity, DiagnosticView};
use crate::compiler::lexer::{characters, is_blank, slice};
use crate::compiler::token::{Token, TokenKind, TokenView};
use crate::types::Operator;
use std::ops::RangeInclusive;
use vstd::prelude::*;

verus! {

/// Whether a token reaches the parser: blanks and comments do not.
pub open spec fn is_significant(kind: TokenKind) -> bool {
    kind != TokenKind::Whitespace && kind != TokenKind::Comment
}

/// The tokens that reach the parser, in their order.
pub open spec fn significant(tokens: Seq<TokenView>) -> Seq<TokenView>
    decreases tokens.len(),
{
    if tokens.len() == 0 {
        Seq::empty()
    } else if is_significant(tokens.last().kind) {
        significant(tokens.drop_last()).push(tokens.last())
    } else {
        significant(tokens.drop_last())
    }
}

/// The kind of the token at an index; the end of the file outside the
/// tokens.
pub open spec fn kind_at(tokens: Seq<TokenView>, at: int) -> TokenKind {
    if 0 <= at < tokens.len() {
        tokens[at].kind
    } else {
        TokenKind::EndOfFile
    }
}

/// The lexeme of the token at an index; nothing outside the tokens.
pub open spec fn text_at(tokens: Seq<TokenView>, at: int) -> Seq<char> {
    if 0 <= at < tokens.len() {
        tokens[at].text
    } else {
        Seq::empty()
    }
}

/// Where the token at an index starts; the start of the file outside the
/// tokens.
pub open spec fn start_at(tokens: Seq<TokenView>, at: int) -> Position {
    if 0 <= at < tokens.len() {
        tokens[at].start
    } else {
        Position { line: 0, character: 0 }
    }
}

/// Where the token at an index ends; the start of the file outside the
/// tokens.
pub open spec fn stop_at(tokens: Seq<TokenView>, at: int) -> Position {
    if 0 <= at < tokens.len() {
        tokens[at].stop
    } else {
        Position { line: 0, character: 0 }
    }
}

/// The error that the token at an index gives rise to.
pub open spec fn error_at(tokens: Seq<TokenView>, at: int, message: Seq<char>) -> DiagnosticView {
    DiagnosticView {
        start: start_at(tokens, at),
        stop: stop_at(tokens, at),
        severity: DiagnosticSeverity::Error,
        message,
        context: None,
    }
}

/// What a part of the parser has made of the tokens from some index on: a
/// value, the index of the first token behind it, and the diagnostics so
/// far.
pub struct Parsed<T> {
    pub value: T,
    pub next: int,
    pub diagnostics: Seq<DiagnosticView>,
}

/// How many tokens lie at and behind an index.
pub open spec fn remaining(tokens: Seq<TokenView>, at: int) -> nat {
    if 0 <= at <= tokens.len() {
        (tokens.len() - at) as nat
    } else {
        0
    }
}

/// The rank of a level of precedence among the parts of the parser: the
/// looser a level, the higher its rank.
pub open spec fn level_rank(level: int) -> int {
    if 0 <= level < 5 {
        10 - level
    } else {
        5
    }
}

/// The larger of two indices.
pub open spec fn no_sooner(next: int, floor: int) -> int {
    if next < floor {
        floor
    } else {
        next
    }
}

/// Steps over the token at `at` if it is of the given kind; else reports
/// that it is missing and stays.
pub open spec fn expect(
    tokens: Seq<TokenView>,
    at: int,
    kind: TokenKind,
    message: Seq<char>,
    diagnostics: Seq<DiagnosticView>,
) -> Parsed<()> {
    if kind_at(tokens, at) == kind {
        Parsed { value: (), next: at + 1, diagnostics }
    } else {
        Parsed { value: (), next: at, diagnostics: diagnostics.push(error_at(tokens, at, message)) }
    }
}

/// Steps over the token at `at` if it is a line break.
pub open spec fn skip_newline(tokens: Seq<TokenView>, at: int) -> int {
    if kind_at(tokens, at) == TokenKind::Newline {
        at + 1
    } else {
        at
    }
}

/// A text without its backslashes: behind a backslash a character stands
/// for itself.
pub open spec fn unescaped(text: Seq<char>) -> Seq<char>
    decreases text.len(),
{
    if text.len() == 0 {
        text
    } else if text[0] == '\\' && text.len() >= 2 {
        seq![text[1]] + unescaped(text.skip(2))
    } else {
        seq![text[0]] + unescaped(text.skip(1))
    }
}

/// A text without its first character.
pub open spec fn without_first(text: Seq<char>) -> Seq<char> {
    if text.len() >= 1 {
        text.skip(1)
    } else {
        text
    }
}

/// The string that a string literal stands for: what lies between its
/// quotes, without backslashes.
pub open spec fn string_value(literal: Seq<char>) -> Seq<char> {
    if literal.len() >= 2 && literal.last() == '"' {
        unescaped(literal.subrange(1, literal.len() - 1))
    } else {
        unescaped(without_first(literal))
    }
}

/// Whether a text holds nothing but blanks.
pub open spec fn is_all_blank(text: Seq<char>) -> bool {
    forall|i: int| 0 <= i < text.len() ==> is_blank(#[trigger] text[i])
}

/// A text without the blanks at its end.
pub open spec fn trimmed_end(text: Seq<char>) -> Seq<char>
    decreases text.len(),
{
    if text.len() > 0 && is_blank(text.last()) {
        trimmed_end(text.drop_last())
    } else {
        text
    }
}

/// The parts of a line without the blanks at the end of the line.
pub open spec fn trimmed_parts(parts: Seq<LinePartView>) -> Seq<LinePartView> {
    if parts.len() > 0 && parts.last() is Text {
        parts.drop_last().push(LinePartView::Text(trimmed_end(parts.last()->Text_0)))
    } else {
        parts
    }
}

/// The operator that a token stands for on a level of precedence, from the
/// loosest, level 0, to the tightest, level 4.
pub open spec fn binary_operator(kind: TokenKind, level: int) -> Option<Operator> {
    if level == 0 {
        match kind {
            TokenKind::And => Some(Operator::And),
            TokenKind::Or => Some(Operator::Or),
            TokenKind::Xor => Some(Operator::Xor),
            _ => None,
        }
    } else if level == 1 {
        match kind {
            TokenKind::EqualTo => Some(Operator::EqualTo),
            TokenKind::NotEqualTo => Some(Operator::NotEqualTo),
            _ => None,
        }
    } else if level == 2 {
        match kind {
            TokenKind::LessThan => Some(Operator::LessThan),
            TokenKind::LessThanOrEqualTo => Some(Operator::LessThanOrEqualTo),
            TokenKind::GreaterThan => Some(Operator::GreaterThan),
            TokenKind::GreaterThanOrEqualTo => Some(Operator::GreaterThanOrEqualTo),
            _ => None,
        }
    } else if level == 3 {
        match kind {
            TokenKind::Plus => Some(Operator::Add),
            TokenKind::Minus => Some(Operator::Subtract),
            _ => None,
        }
    } else if level == 4 {
        match kind {
            TokenKind::Star => Some(Operator::Multiply),
            TokenKind::Slash => Some(Operator::Divide),
            TokenKind::Percent => Some(Operator::Modulo),
            _ => None,
        }
    } else {
        None
    }
}

/// The operator that a token stands for in front of its operand.
pub open spec fn unary_operator(kind: TokenKind) -> Option<Operator> {
    match kind {
        TokenKind::Minus => Some(Operator::UnarySubtract),
        TokenKind::Not => Some(Operator::Not),
        _ => None,
    }
}

/// Whether the arguments of a call end before the token.
pub open spec fn ends_arguments(kind: TokenKind) -> bool {
    kind == TokenKind::RightParen || kind == TokenKind::EndOfFile || kind == TokenKind::CommandEnd
        || kind == TokenKind::ExpressionEnd || kind == TokenKind::Newline
}

/// An expression on a level of precedence: operands of the next level with
/// the operators of this level between them, which bind to the left. Level
/// 5 and above is an operand with its unary operators.
pub open spec fn parse_binary(
    tokens: Seq<TokenView>,
    at: int,
    level: int,
    diagnostics: Seq<DiagnosticView>,
) -> Parsed<ExpressionView>
    decreases remaining(tokens, at), level_rank(level),
{
    if at < 0 || level < 0 {
        Parsed { value: ExpressionView::Missing, next: at, diagnostics }
    } else if level >= 5 {
        parse_unary(tokens, at, diagnostics)
    } else {
        let left = parse_binary(tokens, at, level + 1, diagnostics);
        parse_binary_rest(tokens, Parsed { next: no_sooner(left.next, at), ..left }, level)
    }
}

/// What follows the first operand of a level: any number of operators of
/// the level, each with its right operand.
pub open spec fn parse_binary_rest(
    tokens: Seq<TokenView>,
    left: Parsed<ExpressionView>,
    level: int,
) -> Parsed<ExpressionView>
    decreases remaining(tokens, left.next), 0int,
{
    match binary_operator(kind_at(tokens, left.next), level) {
        Some(operator) => if 0 <= left.next < tokens.len() && 0 <= level {
            let right = parse_binary(tokens, left.next + 1, level + 1, left.diagnostics);
            parse_binary_rest(
                tokens,
                Parsed {
                    value: ExpressionView::Binary {
                        operator,
                        left: Box::new(left.value),
                        right: Box::new(right.value),
                    },
                    next: no_sooner(right.next, left.next + 1),
                    diagnostics: right.diagnostics,
                },
                level,
            )
        } else {
            left
        },
        None => left,
    }
}

/// An operand with the unary operators in front of it.
pub open spec fn parse_unary(
    tokens: Seq<TokenView>,
    at: int,
    diagnostics: Seq<DiagnosticView>,
) -> Parsed<ExpressionView>
    decreases remaining(tokens, at), 4int,
{
    match unary_operator(kind_at(tokens, at)) {
        Some(operator) => if 0 <= at < tokens.len() {
            let operand = parse_unary(tokens, at + 1, diagnostics);
            Parsed {
                value: ExpressionView::Unary { operator, operand: Box::new(operand.value) },
                ..operand
            }
        } else {
            parse_primary(tokens, at, diagnostics)
        },
        None => parse_primary(tokens, at, diagnostics),
    }
}

/// An operand: a literal, a variable, a call, or an expression in
/// brackets. Where none stands, the missing expression.
pub open spec fn parse_primary(
    tokens: Seq<TokenView>,
    at: int,
    diagnostics: Seq<DiagnosticView>,
) -> Parsed<ExpressionView>
    decreases remaining(tokens, at), 3int,
{
    let text = text_at(tokens, at);
    if at < 0 || at >= tokens.len() {
        Parsed {
            value: ExpressionView::Missing,
            next: at,
            diagnostics: diagnostics.push(error_at(tokens, at, "Expected an expression"@)),
        }
    } else {
        match kind_at(tokens, at) {
            TokenKind::Number => Parsed {
                value: ExpressionView::Number(text),
                next: at + 1,
                diagnostics,
            },
            TokenKind::StringLiteral => Parsed {
                value: ExpressionView::Text(string_value(text)),
                next: at + 1,
                diagnostics,
            },
            TokenKind::True => Parsed { value: ExpressionView::Bool(true), next: at + 1, diagnostics },
            TokenKind::False => Parsed {
                value: ExpressionView::Bool(false),
                next: at + 1,
                diagnostics,
            },
            TokenKind::Variable => Parsed {
                value: ExpressionView::Variable(text),
                next: at + 1,
                diagnostics,
            },
            TokenKind::Identifier => {
                let open = expect(
                    tokens,
                    at + 1,
                    TokenKind::LeftParen,
                    "Expected '(' behind the name of a function"@,
                    diagnostics,
                );
                let arguments = parse_arguments(
                    tokens,
                    no_sooner(open.next, at + 1),
                    Seq::empty(),
                    open.diagnostics,
                );
                let close = expect(
                    tokens,
                    arguments.next,
                    TokenKind::RightParen,
                    "Expected ')' behind the arguments"@,
                    arguments.diagnostics,
                );
                Parsed {
                    value: ExpressionView::Call { function: text, arguments: arguments.value },
                    next: close.next,
                    diagnostics: close.diagnostics,
                }
            },
            TokenKind::LeftParen => {
                let inner = parse_binary(tokens, at + 1, 0, diagnostics);
                let close = expect(
                    tokens,
                    inner.next,
                    TokenKind::RightParen,
                    "Expected ')'"@,
                    inner.diagnostics,
                );
                Parsed { value: inner.value, next: close.next, diagnostics: close.diagnostics }
            },
            _ => Parsed {
                value: ExpressionView::Missing,
                next: at,
                diagnostics: diagnostics.push(error_at(tokens, at, "Expected an expression"@)),
            },
        }
    }
}

/// The arguments of a call, with commas between them, up to the bracket
/// that closes them.
pub open spec fn parse_arguments(
    tokens: Seq<TokenView>,
    at: int,
    arguments: Seq<ExpressionView>,
    diagnostics: Seq<DiagnosticView>,
) -> Parsed<Seq<ExpressionView>>
    decreases remaining(tokens, at), 12int,
{
    if at < 0 || at >= tokens.len() || ends_arguments(kind_at(tokens, at)) {
        Parsed { value: arguments, next: at, diagnostics }
    } else {
        let argument = parse_binary(tokens, at, 0, diagnostics);
        let behind = no_sooner(argument.next, at + 1);
        let next = if kind_at(tokens, behind) == TokenKind::Comma {
            behind + 1
        } else {
            behind
        };
        parse_arguments(tokens, next, arguments.push(argument.value), argument.diagnostics)
    }
}

/// An expression.
pub open spec fn parse_expression(
    tokens: Seq<TokenView>,
    at: int,
    diagnostics: Seq<DiagnosticView>,
) -> Parsed<ExpressionView> {
    parse_binary(tokens, at, 0, diagnostics)
}

/// The parts of a line or of a command for the host: text, and
/// expressions in braces.
pub open spec fn parse_parts(
    tokens: Seq<TokenView>,
    at: int,
    parts: Seq<LinePartView>,
    diagnostics: Seq<DiagnosticView>,
) -> Parsed<Seq<LinePartView>>
    decreases remaining(tokens, at), 15int,
{
    if at < 0 || at >= tokens.len() {
        Parsed { value: parts, next: at, diagnostics }
    } else if kind_at(tokens, at) == TokenKind::Text || kind_at(tokens, at)
        == TokenKind::CommandText {
        parse_parts(
            tokens,
            at + 1,
            parts.push(LinePartView::Text(unescaped(text_at(tokens, at)))),
            diagnostics,
        )
    } else if kind_at(tokens, at) == TokenKind::ExpressionStart {
        let expression = parse_binary(tokens, at + 1, 0, diagnostics);
        let close = expect(
            tokens,
            no_sooner(expression.next, at + 1),
            TokenKind::ExpressionEnd,
            "Expected '}'"@,
            expression.diagnostics,
        );
        parse_parts(
            tokens,
            close.next,
            parts.push(LinePartView::Expression(expression.value)),
            close.diagnostics,
        )
    } else {
        Parsed { value: parts, next: at, diagnostics }
    }
}

/// The hashtags at the end of a line. Blanks between them do not count.
pub open spec fn parse_hashtags(tokens: Seq<TokenView>, at: int, hashtags: Seq<Seq<char>>) -> (
    Seq<Seq<char>>,
    int,
)
    decreases remaining(tokens, at),
{
    if at < 0 || at >= tokens.len() {
        (hashtags, at)
    } else if kind_at(tokens, at) == TokenKind::Hashtag {
        parse_hashtags(tokens, at + 1, hashtags.push(without_first(text_at(tokens, at))))
    } else if kind_at(tokens, at) == TokenKind::Text && is_all_blank(text_at(tokens, at)) {
        parse_hashtags(tokens, at + 1, hashtags)
    } else {
        (hashtags, at)
    }
}

/// Whether the token at `at` and the token behind it start a command with
/// the given keyword.
pub open spec fn command_with(tokens: Seq<TokenView>, at: int, keyword: TokenKind) -> bool {
    kind_at(tokens, at) == TokenKind::CommandStart && kind_at(tokens, at + 1) == keyword
}

/// Whether a list of statements ends before the token at `at`: at the end
/// of the body, of an indented block or of the file, and before a command
/// that goes on with or ends an `<<if>>`.
pub open spec fn ends_statements(tokens: Seq<TokenView>, at: int) -> bool {
    let kind = kind_at(tokens, at);
    kind == TokenKind::BodyEnd || kind == TokenKind::Dedent || kind == TokenKind::EndOfFile
        || command_with(tokens, at, TokenKind::CommandElse) || command_with(
        tokens,
        at,
        TokenKind::CommandElseIf,
    ) || command_with(tokens, at, TokenKind::CommandEndIf)
}

/// Statements, one behind the other, up to where they end.
pub open spec fn parse_statements(
    tokens: Seq<TokenView>,
    at: int,
    statements: Seq<StatementView>,
    diagnostics: Seq<DiagnosticView>,
) -> Parsed<Seq<StatementView>>
    decreases remaining(tokens, at), 30int,
{
    if at < 0 || at >= tokens.len() || ends_statements(tokens, at) {
        Parsed { value: statements, next: at, diagnostics }
    } else if kind_at(tokens, at) == TokenKind::Newline {
        parse_statements(tokens, at + 1, statements, diagnostics)
    } else {
        let statement = parse_statement(tokens, at, diagnostics);
        parse_statements(
            tokens,
            no_sooner(statement.next, at + 1),
            match statement.value {
                Some(value) => statements.push(value),
                None => statements,
            },
            statement.diagnostics,
        )
    }
}

/// One statement. A token with which no statement starts is reported and
/// skipped.
pub open spec fn parse_statement(
    tokens: Seq<TokenView>,
    at: int,
    diagnostics: Seq<DiagnosticView>,
) -> Parsed<Option<StatementView>>
    decreases remaining(tokens, at), 25int,
{
    let kind = kind_at(tokens, at);
    if kind == TokenKind::ShortcutArrow {
        let options = parse_options(tokens, at, Seq::empty(), diagnostics);
        Parsed {
            value: Some(
                StatementView::Options { options: options.value, start: start_at(tokens, at) },
            ),
            next: options.next,
            diagnostics: options.diagnostics,
        }
    } else if kind == TokenKind::CommandStart {
        let command = parse_command(tokens, at, diagnostics);
        Parsed { value: Some(command.value), next: command.next, diagnostics: command.diagnostics }
    } else if kind == TokenKind::Text || kind == TokenKind::ExpressionStart || kind
        == TokenKind::Hashtag {
        let parts = parse_parts(tokens, at, Seq::empty(), diagnostics);
        let hashtags = parse_hashtags(tokens, no_sooner(parts.next, at), Seq::empty());
        Parsed {
            value: Some(
                StatementView::Line {
                    parts: trimmed_parts(parts.value),
                    hashtags: hashtags.0,
                    start: start_at(tokens, at),
                },
            ),
            next: skip_newline(tokens, hashtags.1),
            diagnostics: parts.diagnostics,
        }
    } else {
        Parsed {
            value: None,
            next: at + 1,
            diagnostics: diagnostics.push(error_at(tokens, at, "Expected a statement"@)),
        }
    }
}

/// The options of a group: as many as follow one another.
pub open spec fn parse_options(
    tokens: Seq<TokenView>,
    at: int,
    options: Seq<ShortcutOptionView>,
    diagnostics: Seq<DiagnosticView>,
) -> Parsed<Seq<ShortcutOptionView>>
    decreases remaining(tokens, at), 24int,
{
    if 0 <= at < tokens.len() && kind_at(tokens, at) == TokenKind::ShortcutArrow {
        let option = parse_option(tokens, at, diagnostics);
        parse_options(
            tokens,
            no_sooner(option.next, at + 1),
            options.push(option.value),
            option.diagnostics,
        )
    } else {
        Parsed { value: options, next: at, diagnostics }
    }
}

/// One option: the arrow at `at`, the line of the option with its
/// condition and its hashtags, and the indented block of what follows the
/// option.
pub open spec fn parse_option(
    tokens: Seq<TokenView>,
    at: int,
    diagnostics: Seq<DiagnosticView>,
) -> Parsed<ShortcutOptionView>
    decreases remaining(tokens, at), 23int,
{
    let parts = parse_parts(tokens, at + 1, Seq::empty(), diagnostics);
    let line_end = no_sooner(parts.next, at + 1);
    let condition = if command_with(tokens, line_end, TokenKind::CommandIf) {
        let expression = parse_binary(tokens, line_end + 2, 0, parts.diagnostics);
        let close = expect(
            tokens,
            no_sooner(expression.next, line_end + 2),
            TokenKind::CommandEnd,
            "Expected '>>'"@,
            expression.diagnostics,
        );
        Parsed {
            value: Some(expression.value),
            next: close.next,
            diagnostics: close.diagnostics,
        }
    } else {
        Parsed { value: None, next: line_end, diagnostics: parts.diagnostics }
    };
    let hashtags = parse_hashtags(tokens, condition.next, Seq::empty());
    let behind_line = skip_newline(tokens, no_sooner(hashtags.1, line_end));
    let body = if 0 <= at && kind_at(tokens, behind_line) == TokenKind::Indent {
        let statements = parse_statements(
            tokens,
            behind_line + 1,
            Seq::empty(),
            condition.diagnostics,
        );
        Parsed {
            next: if kind_at(tokens, statements.next) == TokenKind::Dedent {
                statements.next + 1
            } else {
                statements.next
            },
            ..statements
        }
    } else {
        Parsed { value: Seq::empty(), next: behind_line, diagnostics: condition.diagnostics }
    };
    Parsed {
        value: ShortcutOptionView {
            parts: trimmed_parts(parts.value),
            hashtags: hashtags.0,
            condition: condition.value,
            body: body.value,
            start: start_at(tokens, at),
        },
        next: body.next,
        diagnostics: body.diagnostics,
    }
}

/// A variable, the sign of an assignment and an expression, up to the end
/// of the command: what stands behind `set` and `declare`.
pub open spec fn parse_assignment(
    tokens: Seq<TokenView>,
    at: int,
    diagnostics: Seq<DiagnosticView>,
) -> Parsed<(Seq<char>, ExpressionView)>
    decreases remaining(tokens, at), 20int,
{
    let variable = expect(
        tokens,
        at,
        TokenKind::Variable,
        "Expected a variable"@,
        diagnostics,
    );
    let sign = if kind_at(tokens, variable.next) == TokenKind::To || kind_at(
        tokens,
        variable.next,
    ) == TokenKind::Assign {
        Parsed { value: (), next: variable.next + 1, diagnostics: variable.diagnostics }
    } else {
        Parsed {
            value: (),
            next: variable.next,
            diagnostics: variable.diagnostics.push(
                error_at(tokens, variable.next, "Expected 'to' or '='"@),
            ),
        }
    };
    let value = parse_binary(tokens, no_sooner(sign.next, at), 0, sign.diagnostics);
    let close = expect(
        tokens,
        value.next,
        TokenKind::CommandEnd,
        "Expected '>>'"@,
        value.diagnostics,
    );
    Parsed {
        value: (
            if kind_at(tokens, at) == TokenKind::Variable {
                text_at(tokens, at)
            } else {
                Seq::empty()
            },
            value.value,
        ),
        next: close.next,
        diagnostics: close.diagnostics,
    }
}

/// A command: the `<<` at `at` and what follows it up to the `>>`; with an
/// `<<if>>`, up to its `<<endif>>`.
pub open spec fn parse_command(
    tokens: Seq<TokenView>,
    at: int,
    diagnostics: Seq<DiagnosticView>,
) -> Parsed<StatementView>
    decreases remaining(tokens, at), 22int,
{
    let start = start_at(tokens, at);
    let keyword = kind_at(tokens, at + 1);
    if at < 0 {
        Parsed { value: StatementView::Stop { start }, next: at, diagnostics }
    } else if keyword == TokenKind::CommandIf {
        let first = parse_clause(tokens, at, diagnostics);
        parse_if_rest(
            tokens,
            no_sooner(first.next, at + 2),
            seq![first.value],
            start,
            first.diagnostics,
        )
    } else if keyword == TokenKind::CommandSet {
        let assignment = parse_assignment(tokens, at + 2, diagnostics);
        Parsed {
            value: StatementView::Assign {
                variable: assignment.value.0,
                value: assignment.value.1,
                start,
            },
            next: assignment.next,
            diagnostics: assignment.diagnostics,
        }
    } else if keyword == TokenKind::CommandDeclare {
        let assignment = parse_assignment(tokens, at + 2, diagnostics);
        Parsed {
            value: StatementView::Declare {
                variable: assignment.value.0,
                value: assignment.value.1,
                start: if kind_at(tokens, at + 2) == TokenKind::Variable {
                    start_at(tokens, at + 2)
                } else {
                    start
                },
            },
            next: assignment.next,
            diagnostics: assignment.diagnostics,
        }
    } else if keyword == TokenKind::CommandJump {
        let destination = expect(
            tokens,
            at + 2,
            TokenKind::Identifier,
            "Expected the name of a node"@,
            diagnostics,
        );
        let close = expect(
            tokens,
            destination.next,
            TokenKind::CommandEnd,
            "Expected '>>'"@,
            destination.diagnostics,
        );
        Parsed {
            value: StatementView::Jump {
                destination: if kind_at(tokens, at + 2) == TokenKind::Identifier {
                    text_at(tokens, at + 2)
                } else {
                    Seq::empty()
                },
                start,
            },
            next: close.next,
            diagnostics: close.diagnostics,
        }
    } else if keyword == TokenKind::CommandStop {
        let close = expect(tokens, at + 2, TokenKind::CommandEnd, "Expected '>>'"@, diagnostics);
        Parsed {
            value: StatementView::Stop { start },
            next: close.next,
            diagnostics: close.diagnostics,
        }
    } else if keyword == TokenKind::CommandCall {
        let call = parse_binary(tokens, at + 2, 0, diagnostics);
        let close = expect(
            tokens,
            no_sooner(call.next, at + 2),
            TokenKind::CommandEnd,
            "Expected '>>'"@,
            call.diagnostics,
        );
        Parsed {
            value: StatementView::Call { call: call.value, start },
            next: close.next,
            diagnostics: close.diagnostics,
        }
    } else {
        let parts = parse_parts(tokens, at + 1, Seq::empty(), diagnostics);
        let close = expect(
            tokens,
            no_sooner(parts.next, at + 1),
            TokenKind::CommandEnd,
            "Expected '>>'"@,
            parts.diagnostics,
        );
        Parsed {
            value: StatementView::Command { parts: parts.value, start },
            next: close.next,
            diagnostics: close.diagnostics,
        }
    }
}

/// A clause of an `<<if>>`: behind the `<<` at `at` and its keyword, the
/// condition, the end of the command, and the statements of the clause.
pub open spec fn parse_clause(
    tokens: Seq<TokenView>,
    at: int,
    diagnostics: Seq<DiagnosticView>,
) -> Parsed<ClauseView>
    decreases remaining(tokens, at), 21int,
{
    let condition = parse_binary(tokens, at + 2, 0, diagnostics);
    let close = expect(
        tokens,
        no_sooner(condition.next, at + 2),
        TokenKind::CommandEnd,
        "Expected '>>'"@,
        condition.diagnostics,
    );
    if at < 0 || at >= tokens.len() {
        Parsed {
            value: ClauseView { condition: condition.value, body: Seq::empty() },
            next: at,
            diagnostics: close.diagnostics,
        }
    } else {
        let body = parse_statements(tokens, close.next, Seq::empty(), close.diagnostics);
        Parsed {
            value: ClauseView { condition: condition.value, body: body.value },
            next: body.next,
            diagnostics: body.diagnostics,
        }
    }
}

/// What follows the first clause of an `<<if>>`: `<<elseif>>` clauses, an
/// `<<else>>`, and the `<<endif>>`.
pub open spec fn parse_if_rest(
    tokens: Seq<TokenView>,
    at: int,
    clauses: Seq<ClauseView>,
    start: Position,
    diagnostics: Seq<DiagnosticView>,
) -> Parsed<StatementView>
    decreases remaining(tokens, at), 29int,
{
    if at < 0 || at >= tokens.len() {
        Parsed {
            value: StatementView::If { clauses, otherwise: None, start },
            next: at,
            diagnostics: diagnostics.push(error_at(tokens, at, "Expected '<<endif>>'"@)),
        }
    } else if command_with(tokens, at, TokenKind::CommandElseIf) {
        let clause = parse_clause(tokens, at, diagnostics);
        parse_if_rest(
            tokens,
            no_sooner(clause.next, at + 2),
            clauses.push(clause.value),
            start,
            clause.diagnostics,
        )
    } else if command_with(tokens, at, TokenKind::CommandElse) {
        let open = expect(tokens, at + 2, TokenKind::CommandEnd, "Expected '>>'"@, diagnostics);
        let body = parse_statements(tokens, open.next, Seq::empty(), open.diagnostics);
        let end = parse_endif(tokens, body.next, body.diagnostics);
        Parsed {
            value: StatementView::If { clauses, otherwise: Some(body.value), start },
            next: end.next,
            diagnostics: end.diagnostics,
        }
    } else {
        let end = parse_endif(tokens, at, diagnostics);
        Parsed {
            value: StatementView::If { clauses, otherwise: None, start },
            next: end.next,
            diagnostics: end.diagnostics,
        }
    }
}

/// The `<<endif>>` at `at`; where there is none, it is reported missing.
pub open spec fn parse_endif(
    tokens: Seq<TokenView>,
    at: int,
    diagnostics: Seq<DiagnosticView>,
) -> Parsed<()> {
    if command_with(tokens, at, TokenKind::CommandEndIf) {
        expect(tokens, at + 2, TokenKind::CommandEnd, "Expected '>>'"@, diagnostics)
    } else {
        Parsed {
            value: (),
            next: at,
            diagnostics: diagnostics.push(error_at(tokens, at, "Expected '<<endif>>'"@)),
        }
    }
}

/// The body of a node, up to the `===` that ends it or to the end of the
/// file. A token that ends a list of statements and does not end the body
/// is reported and skipped.
pub open spec fn parse_body(
    tokens: Seq<TokenView>,
    at: int,
    statements: Seq<StatementView>,
    diagnostics: Seq<DiagnosticView>,
) -> Parsed<Seq<StatementView>>
    decreases remaining(tokens, at), 44int,
{
    if at < 0 || at >= tokens.len() {
        Parsed { value: statements, next: at, diagnostics }
    } else {
        let some = parse_statements(tokens, at, statements, diagnostics);
        let behind = no_sooner(some.next, at);
        let kind = kind_at(tokens, behind);
        if kind == TokenKind::BodyEnd {
            Parsed { value: some.value, next: behind + 1, diagnostics: some.diagnostics }
        } else if kind == TokenKind::EndOfFile {
            Parsed {
                value: some.value,
                next: behind,
                diagnostics: some.diagnostics.push(error_at(tokens, behind, "Expected '==='"@)),
            }
        } else {
            parse_body(
                tokens,
                behind + 1,
                some.value,
                some.diagnostics.push(error_at(tokens, behind, "Expected a statement"@)),
            )
        }
    }
}

/// The headers of a node, up to the `---` that ends them or to the end of
/// the file.
pub open spec fn parse_headers(
    tokens: Seq<TokenView>,
    at: int,
    headers: Seq<HeaderView>,
    diagnostics: Seq<DiagnosticView>,
) -> Parsed<Seq<HeaderView>>
    decreases remaining(tokens, at),
{
    let kind = kind_at(tokens, at);
    if at < 0 || at >= tokens.len() || kind == TokenKind::BodyStart || kind
        == TokenKind::EndOfFile {
        Parsed { value: headers, next: at, diagnostics }
    } else if kind == TokenKind::Newline || kind == TokenKind::Hashtag {
        parse_headers(tokens, at + 1, headers, diagnostics)
    } else if kind == TokenKind::Identifier {
        let delimiter = expect(
            tokens,
            at + 1,
            TokenKind::HeaderDelimiter,
            "Expected ':' behind the key of a header"@,
            diagnostics,
        );
        let has_value = kind_at(tokens, delimiter.next) == TokenKind::RestOfLine;
        parse_headers(
            tokens,
            if has_value {
                delimiter.next + 1
            } else {
                delimiter.next
            },
            headers.push(
                HeaderView {
                    key: text_at(tokens, at),
                    value: if has_value {
                        text_at(tokens, delimiter.next)
                    } else {
                        Seq::empty()
                    },
                },
            ),
            delimiter.diagnostics,
        )
    } else {
        parse_headers(
            tokens,
            at + 1,
            headers,
            diagnostics.push(error_at(tokens, at, "Expected a header"@)),
        )
    }
}

/// A node: its headers, the `---`, and its body up to the `===`.
pub open spec fn parse_node(
    tokens: Seq<TokenView>,
    at: int,
    diagnostics: Seq<DiagnosticView>,
) -> Parsed<NodeTreeView> {
    let headers = parse_headers(tokens, at, Seq::empty(), diagnostics);
    let open = expect(
        tokens,
        headers.next,
        TokenKind::BodyStart,
        "Expected '---'"@,
        headers.diagnostics,
    );
    let body = if kind_at(tokens, headers.next) == TokenKind::BodyStart {
        parse_body(tokens, open.next, Seq::empty(), open.diagnostics)
    } else {
        Parsed { value: Seq::empty(), next: open.next, diagnostics: open.diagnostics }
    };
    Parsed {
        value: NodeTreeView { headers: headers.value, body: body.value, start: start_at(tokens, at) },
        next: body.next,
        diagnostics: body.diagnostics,
    }
}

/// The nodes of a file.
pub open spec fn parse_nodes(
    tokens: Seq<TokenView>,
    at: int,
    nodes: Seq<NodeTreeView>,
    diagnostics: Seq<DiagnosticView>,
) -> Parsed<Seq<NodeTreeView>>
    decreases remaining(tokens, at),
{
    if at < 0 || at >= tokens.len() || kind_at(tokens, at) == TokenKind::EndOfFile {
        Parsed { value: nodes, next: at, diagnostics }
    } else if kind_at(tokens, at) == TokenKind::Newline {
        parse_nodes(tokens, at + 1, nodes, diagnostics)
    } else {
        let node = parse_node(tokens, at, diagnostics);
        parse_nodes(tokens, no_sooner(node.next, at + 1), nodes.push(node.value), node.diagnostics)
    }
}

/// The syntax tree of the tokens of a file, and what there is to say about
/// their syntax.
pub open spec fn parse_spec(tokens: Seq<TokenView>) -> (DialogueTreeView, Seq<DiagnosticView>) {
    let nodes = parse_nodes(significant(tokens), 0, Seq::empty(), Seq::empty());
    (DialogueTreeView { nodes: nodes.value }, nodes.diagnostics)
}

/// The tokens that reach the parser, in their order.
pub fn significant_tokens(tokens: &Vec<Token>) -> (kept: Vec<Token>)
    ensures
        kept.deep_view() == significant(tokens.deep_view()),
{
    let mut kept: Vec<Token> = Vec::new();
    let mut i: usize = 0;
    proof {
        assert(tokens.deep_view().take(0) =~= Seq::empty());
        assert(kept.deep_view() =~= Seq::empty());
    }
    while i < tokens.len()
        invariant
            i <= tokens.len(),
            kept.deep_view() == significant(tokens.deep_view().take(i as int)),
        decreases tokens.len() - i,
    {
        let ghost before = kept.deep_view();
        proof {
            assert(tokens.deep_view().take(i + 1).drop_last() =~= tokens.deep_view().take(
                i as int,
            ));
        }
        if tokens[i].kind != TokenKind::Whitespace && tokens[i].kind != TokenKind::Comment {
            kept.push(tokens[i].clone());
            proof {
                assert(kept.deep_view() =~= before.push(tokens[i as int]@));
            }
        }
        i = i + 1;
    }
    proof {
        assert(tokens.deep_view().take(i as int) =~= tokens.deep_view());
    }
    kept
}

fn kind(tokens: &Vec<Token>, at: usize) -> (kind: TokenKind)
    ensures
        kind == kind_at(tokens.deep_view(), at as int),
{
    if at < tokens.len() {
        tokens[at].kind
    } else {
        TokenKind::EndOfFile
    }
}

fn text(tokens: &Vec<Token>, at: usize) -> (text: String)
    ensures
        text@ == text_at(tokens.deep_view(), at as int),
{
    if at < tokens.len() {
        tokens[at].text.clone()
    } else {
        String::new()
    }
}

fn start(tokens: &Vec<Token>, at: usize) -> (start: Position)
    ensures
        start == start_at(tokens.deep_view(), at as int),
{
    if at < tokens.len() {
        tokens[at].start
    } else {
        Position { line: 0, character: 0 }
    }
}

fn report(tokens: &Vec<Token>, at: usize, message: &str, diagnostics: &mut Vec<Diagnostic>)
    ensures
        final(diagnostics).deep_view() == old(diagnostics).deep_view().push(
            error_at(tokens.deep_view(), at as int, message@),
        ),
{
    let stop = if at < tokens.len() {
        tokens[at].stop
    } else {
        Position { line: 0, character: 0 }
    };
    let diagnostic = Diagnostic::from_message(
        RangeInclusive::new(start(tokens, at), stop),
        message.to_owned(),
    );
    diagnostics.push(diagnostic);
    proof {
        assert(diagnostics.deep_view() =~= old(diagnostics).deep_view().push(
            error_at(tokens.deep_view(), at as int, message@),
        ));
    }
}

fn expect_token(
    tokens: &Vec<Token>,
    at: usize,
    expected: TokenKind,
    message: &str,
    diagnostics: &mut Vec<Diagnostic>,
) -> (next: usize)
    requires
        at <= tokens.len(),
        expected != TokenKind::EndOfFile,
    ensures
        at <= next <= tokens.len(),
        (Parsed::<()> {
            value: (),
            next: next as int,
            diagnostics: final(diagnostics).deep_view(),
        }) == expect(
            tokens.deep_view(),
            at as int,
            expected,
            message@,
            old(diagnostics).deep_view(),
        ),
{
    if kind(tokens, at) == expected {
        at + 1
    } else {
        report(tokens, at, message, diagnostics);
        at
    }
}

fn step_over_newline(tokens: &Vec<Token>, at: usize) -> (next: usize)
    requires
        at <= tokens.len(),
    ensures
        next <= tokens.len(),
        next == skip_newline(tokens.deep_view(), at as int),
{
    if kind(tokens, at) == TokenKind::Newline {
        at + 1
    } else {
        at
    }
}

fn later(next: usize, floor: usize) -> (r: usize)
    ensures
        r == no_sooner(next as int, floor as int),
{
    if next < floor {
        floor
    } else {
        next
    }
}

/// The characters from `from` on without their backslashes.
fn unescape_from(chars: &Vec<char>, from: usize, to: usize) -> (text: String)
    requires
        from <= to <= chars.len(),
    ensures
        text@ == unescaped(chars@.subrange(from as int, to as int)),
{
    let mut text = String::new();
    let mut i = from;
    let ghost whole = chars@.subrange(from as int, to as int);
    proof {
        assert(whole.skip(0) =~= whole);
        assert(text@ + unescaped(whole.skip(0)) =~= unescaped(whole));
    }
    while i < to
        invariant
            from <= i <= to <= chars.len(),
            whole == chars@.subrange(from as int, to as int),
            text@ + unescaped(whole.skip(i - from)) == unescaped(whole),
        decreases to - i,
    {
        let ghost rest = whole.skip(i - from);
        let ghost before = text@;
        if chars[i] == '\\' && i + 1 < to {
            text.push(chars[i + 1]);
            proof {
                assert(rest.skip(2) =~= whole.skip(i + 2 - from));
                assert(text@ + unescaped(whole.skip(i + 2 - from)) =~= before + unescaped(rest));
            }
            i = i + 2;
        } else {
            text.push(chars[i]);
            proof {
                assert(rest.skip(1) =~= whole.skip(i + 1 - from));
                assert(text@ + unescaped(whole.skip(i + 1 - from)) =~= before + unescaped(rest));
            }
            i = i + 1;
        }
    }
    proof {
        assert(whole.skip(to - from) =~= Seq::empty());
        assert(text@ + unescaped(whole.skip(to - from)) =~= text@);
    }
    text
}

fn unescape(text: &str) -> (r: String)
    ensures
        r@ == unescaped(text@),
{
    let chars = characters(text);
    proof {
        assert(chars@.subrange(0, chars.len() as int) =~= chars@);
    }
    unescape_from(&chars, 0, chars.len())
}

fn value_of_string(literal: &str) -> (r: String)
    ensures
        r@ == string_value(literal@),
{
    let chars = characters(literal);
    if chars.len() >= 2 && chars[chars.len() - 1] == '"' {
        unescape_from(&chars, 1, chars.len() - 1)
    } else if chars.len() >= 1 {
        proof {
            assert(chars@.subrange(1, chars.len() as int) =~= chars@.skip(1));
        }
        unescape_from(&chars, 1, chars.len())
    } else {
        String::new()
    }
}

fn all_blank(text: &str) -> (r: bool)
    ensures
        r == is_all_blank(text@),
{
    let chars = characters(text);
    let mut i: usize = 0;
    while i < chars.len()
        invariant
            i <= chars.len(),
            chars@ == text@,
            forall|j: int| 0 <= j < i ==> is_blank(#[trigger] chars@[j]),
        decreases chars.len() - i,
    {
        if !(chars[i] == ' ' || chars[i] == '\t') {
            return false;
        }
        i = i + 1;
    }
    true
}

fn trim_end(text: &str) -> (r: String)
    ensures
        r@ == trimmed_end(text@),
{
    let chars = characters(text);
    let mut end = chars.len();
    proof {
        assert(chars@.take(end as int) =~= chars@);
    }
    while end > 0 && (chars[end - 1] == ' ' || chars[end - 1] == '\t')
        invariant
            end <= chars.len(),
            chars@ == text@,
            trimmed_end(chars@.take(end as int)) == trimmed_end(text@),
        decreases end,
    {
        proof {
            assert(chars@.take(end as int).drop_last() =~= chars@.take(end - 1));
        }
        end = end - 1;
    }
    proof {
        assert(chars@.subrange(0, end as int) =~= chars@.take(end as int));
    }
    slice(&chars, 0, end)
}

fn hashtag_text(text: &str) -> (r: String)
    ensures
        r@ == without_first(text@),
{
    let chars = characters(text);
    if chars.len() >= 1 {
        proof {
            assert(chars@.subrange(1, chars.len() as int) =~= chars@.skip(1));
        }
        slice(&chars, 1, chars.len())
    } else {
        String::new()
    }
}

fn trim_parts(parts: Vec<LinePart>) -> (r: Vec<LinePart>)
    ensures
        r.deep_view() == trimmed_parts(parts.deep_view()),
{
    let mut parts = parts;
    let ghost before = parts.deep_view();
    match parts.pop() {
        Some(LinePart::Text(text)) => {
            let ghost front = parts.deep_view();
            parts.push(LinePart::Text(trim_end(text.as_str())));
            proof {
                assert(front =~= before.drop_last());
                assert(parts.deep_view() =~= trimmed_parts(before));
            }
        },
        Some(other) => {
            let ghost front = parts.deep_view();
            let ghost last = other@;
            parts.push(other);
            proof {
                assert(parts.deep_view() =~= before);
            }
        },
        None => {
            proof {
                assert(parts.deep_view() =~= before);
            }
        },
    }
    parts
}

fn operator_of(kind: TokenKind, level: u8) -> (operator: Option<Operator>)
    ensures
        operator == binary_operator(kind, level as int),
{
    if level == 0 {
        match kind {
            TokenKind::And => Some(Operator::And),
            TokenKind::Or => Some(Operator::Or),
            TokenKind::Xor => Some(Operator::Xor),
            _ => None,
        }
    } else if level == 1 {
        match kind {
            TokenKind::EqualTo => Some(Operator::EqualTo),
            TokenKind::NotEqualTo => Some(Operator::NotEqualTo),
            _ => None,
        }
    } else if level == 2 {
        match kind {
            TokenKind::LessThan => Some(Operator::LessThan),
            TokenKind::LessThanOrEqualTo => Some(Operator::LessThanOrEqualTo),
            TokenKind::GreaterThan => Some(Operator::GreaterThan),
            TokenKind::GreaterThanOrEqualTo => Some(Operator::GreaterThanOrEqualTo),
            _ => None,
        }
    } else if level == 3 {
        match kind {
            TokenKind::Plus => Some(Operator::Add),
            TokenKind::Minus => Some(Operator::Subtract),
            _ => None,
        }
    } else if level == 4 {
        match kind {
            TokenKind::Star => Some(Operator::Multiply),
            TokenKind::Slash => Some(Operator::Divide),
            TokenKind::Percent => Some(Operator::Modulo),
            _ => None,
        }
    } else {
        None
    }
}

fn operator_in_front(kind: TokenKind) -> (operator: Option<Operator>)
    ensures
        operator == unary_operator(kind),
{
    match kind {
        TokenKind::Minus => Some(Operator::UnarySubtract),
        TokenKind::Not => Some(Operator::Not),
        _ => None,
    }
}

/// What an executable part of the parser has made of the tokens.
pub open spec fn parsed<T>(value: T, next: usize, diagnostics: Vec<Diagnostic>) -> Parsed<T> {
    Parsed { value, next: next as int, diagnostics: diagnostics.deep_view() }
}

fn binary(
    tokens: &Vec<Token>,
    at: usize,
    level: u8,
    diagnostics: &mut Vec<Diagnostic>,
) -> (r: (Expression, usize))
    requires
        at <= tokens.len(),
    ensures
        r.1 <= tokens.len(),
        parsed(r.0@, r.1, *final(diagnostics)) == parse_binary(
            tokens.deep_view(),
            at as int,
            level as int,
            old(diagnostics).deep_view(),
        ),
    decreases remaining(tokens.deep_view(), at as int), level_rank(level as int),
{
    if level >= 5 {
        return unary(tokens, at, diagnostics);
    }
    let (first, behind) = binary(tokens, at, level + 1, diagnostics);
    let mut left = first;
    let mut next = later(behind, at);
    let ghost start = Parsed {
        value: left@,
        next: next as int,
        diagnostics: diagnostics.deep_view(),
    };
    loop
        invariant
            at <= next <= tokens.len(),
            level < 5,
            parse_binary_rest(tokens.deep_view(), start, level as int) == parse_binary_rest(
                tokens.deep_view(),
                parsed(left@, next, *diagnostics),
                level as int,
            ),
            remaining(tokens.deep_view(), next as int) <= remaining(
                tokens.deep_view(),
                at as int,
            ),
        ensures
            next <= tokens.len(),
            parsed(left@, next, *diagnostics) == parse_binary_rest(
                tokens.deep_view(),
                start,
                level as int,
            ),
        decreases tokens.len() - next,
    {
        match operator_of(kind(tokens, next), level) {
            Some(operator) => {
                if next >= tokens.len() {
                    break ;
                }
                let (right, behind) = binary(tokens, next + 1, level + 1, diagnostics);
                left = Expression::Binary {
                    operator,
                    left: Box::new(left),
                    right: Box::new(right),
                };
                next = later(behind, next + 1);
            },
            None => {
                break ;
            },
        }
    }
    (left, next)
}

fn unary(tokens: &Vec<Token>, at: usize, diagnostics: &mut Vec<Diagnostic>) -> (r: (
    Expression,
    usize,
))
    requires
        at <= tokens.len(),
    ensures
        r.1 <= tokens.len(),
        parsed(r.0@, r.1, *final(diagnostics)) == parse_unary(
            tokens.deep_view(),
            at as int,
            old(diagnostics).deep_view(),
        ),
    decreases remaining(tokens.deep_view(), at as int), 4int,
{
    match operator_in_front(kind(tokens, at)) {
        Some(operator) => {
            if at < tokens.len() {
                let (operand, next) = unary(tokens, at + 1, diagnostics);
                (Expression::Unary { operator, operand: Box::new(operand) }, next)
            } else {
                primary(tokens, at, diagnostics)
            }
        },
        None => primary(tokens, at, diagnostics),
    }
}

fn primary(tokens: &Vec<Token>, at: usize, diagnostics: &mut Vec<Diagnostic>) -> (r: (
    Expression,
    usize,
))
    requires
        at <= tokens.len(),
    ensures
        r.1 <= tokens.len(),
        parsed(r.0@, r.1, *final(diagnostics)) == parse_primary(
            tokens.deep_view(),
            at as int,
            old(diagnostics).deep_view(),
        ),
    decreases remaining(tokens.deep_view(), at as int), 3int,
{
    if at >= tokens.len() {
        report(tokens, at, "Expected an expression", diagnostics);
        return (Expression::Missing, at);
    }
    match kind(tokens, at) {
        TokenKind::Number => (Expression::Number(text(tokens, at)), at + 1),
        TokenKind::StringLiteral => (
            Expression::Text(value_of_string(text(tokens, at).as_str())),
            at + 1,
        ),
        TokenKind::True => (Expression::Bool(true), at + 1),
        TokenKind::False => (Expression::Bool(false), at + 1),
        TokenKind::Variable => (Expression::Variable(text(tokens, at)), at + 1),
        TokenKind::Identifier => {
            let open = expect_token(
                tokens,
                at + 1,
                TokenKind::LeftParen,
                "Expected '(' behind the name of a function",
                diagnostics,
            );
            let (arguments, behind) = arguments(tokens, later(open, at + 1), diagnostics);
            let close = expect_token(
                tokens,
                behind,
                TokenKind::RightParen,
                "Expected ')' behind the arguments",
                diagnostics,
            );
            let call = Expression::Call { function: text(tokens, at), arguments };
            proof {
                assert(call@->arguments =~= arguments.deep_view());
            }
            (call, close)
        },
        TokenKind::LeftParen => {
            let (inner, behind) = binary(tokens, at + 1, 0, diagnostics);
            let close = expect_token(
                tokens,
                behind,
                TokenKind::RightParen,
                "Expected ')'",
                diagnostics,
            );
            (inner, close)
        },
        _ => {
            report(tokens, at, "Expected an expression", diagnostics);
            (Expression::Missing, at)
        },
    }
}

fn kind_ends_arguments(kind: TokenKind) -> (r: bool)
    ensures
        r == ends_arguments(kind),
{
    kind == TokenKind::RightParen || kind == TokenKind::EndOfFile || kind == TokenKind::CommandEnd
        || kind == TokenKind::ExpressionEnd || kind == TokenKind::Newline
}

fn arguments(tokens: &Vec<Token>, at: usize, diagnostics: &mut Vec<Diagnostic>) -> (r: (
    Vec<Expression>,
    usize,
))
    requires
        at <= tokens.len(),
    ensures
        r.1 <= tokens.len(),
        parsed(r.0.deep_view(), r.1, *final(diagnostics)) == parse_arguments(
            tokens.deep_view(),
            at as int,
            Seq::empty(),
            old(diagnostics).deep_view(),
        ),
    decreases remaining(tokens.deep_view(), at as int), 12int,
{
    let mut found: Vec<Expression> = Vec::new();
    let mut next = at;
    proof {
        assert(found.deep_view() =~= Seq::empty());
    }
    while next < tokens.len() && !kind_ends_arguments(kind(tokens, next))
        invariant
            at <= next <= tokens.len(),
            parse_arguments(
                tokens.deep_view(),
                at as int,
                Seq::empty(),
                old(diagnostics).deep_view(),
            ) == parse_arguments(
                tokens.deep_view(),
                next as int,
                found.deep_view(),
                diagnostics.deep_view(),
            ),
        decreases tokens.len() - next,
    {
        let ghost before = found.deep_view();
        let (argument, behind) = binary(tokens, next, 0, diagnostics);
        let behind = later(behind, next + 1);
        let ghost added = argument@;
        found.push(argument);
        proof {
            assert(found.deep_view() =~= before.push(added));
        }
        next = if kind(tokens, behind) == TokenKind::Comma {
            behind + 1
        } else {
            behind
        };
    }
    (found, next)
}

fn parts(tokens: &Vec<Token>, at: usize, diagnostics: &mut Vec<Diagnostic>) -> (r: (
    Vec<LinePart>,
    usize,
))
    requires
        at <= tokens.len(),
    ensures
        at <= r.1 <= tokens.len(),
        parsed(r.0.deep_view(), r.1, *final(diagnostics)) == parse_parts(
            tokens.deep_view(),
            at as int,
            Seq::empty(),
            old(diagnostics).deep_view(),
        ),
    decreases remaining(tokens.deep_view(), at as int), 15int,
{
    let mut found: Vec<LinePart> = Vec::new();
    let mut next = at;
    proof {
        assert(found.deep_view() =~= Seq::empty());
    }
    while next < tokens.len() && (kind(tokens, next) == TokenKind::Text || kind(tokens, next)
        == TokenKind::CommandText || kind(tokens, next) == TokenKind::ExpressionStart)
        invariant
            at <= next <= tokens.len(),
            parse_parts(
                tokens.deep_view(),
                at as int,
                Seq::empty(),
                old(diagnostics).deep_view(),
            ) == parse_parts(
                tokens.deep_view(),
                next as int,
                found.deep_view(),
                diagnostics.deep_view(),
            ),
        decreases tokens.len() - next,
    {
        let ghost before = found.deep_view();
        if kind(tokens, next) == TokenKind::ExpressionStart {
            let (expression, behind) = binary(tokens, next + 1, 0, diagnostics);
            let close = expect_token(
                tokens,
                later(behind, next + 1),
                TokenKind::ExpressionEnd,
                "Expected '}'",
                diagnostics,
            );
            let ghost added = expression@;
            found.push(LinePart::Expression(expression));
            proof {
                assert(found.deep_view() =~= before.push(LinePartView::Expression(added)));
            }
            next = close;
        } else {
            let piece = unescape(text(tokens, next).as_str());
            let ghost added = piece@;
            found.push(LinePart::Text(piece));
            proof {
                assert(found.deep_view() =~= before.push(LinePartView::Text(added)));
            }
            next = next + 1;
        }
    }
    (found, next)
}

fn hashtags(tokens: &Vec<Token>, at: usize) -> (r: (Vec<String>, usize))
    requires
        at <= tokens.len(),
    ensures
        at <= r.1 <= tokens.len(),
        (r.0.deep_view(), r.1 as int) == parse_hashtags(
            tokens.deep_view(),
            at as int,
            Seq::empty(),
        ),
{
    let mut found: Vec<String> = Vec::new();
    let mut next = at;
    proof {
        assert(found.deep_view() =~= Seq::empty());
    }
    loop
        invariant
            at <= next <= tokens.len(),
            parse_hashtags(tokens.deep_view(), at as int, Seq::empty()) == parse_hashtags(
                tokens.deep_view(),
                next as int,
                found.deep_view(),
            ),
        ensures
            at <= next <= tokens.len(),
            (found.deep_view(), next as int) == parse_hashtags(
                tokens.deep_view(),
                at as int,
                Seq::empty(),
            ),
        decreases tokens.len() - next,
    {
        if next >= tokens.len() {
            break ;
        }
        let ghost before = found.deep_view();
        if kind(tokens, next) == TokenKind::Hashtag {
            let tag = hashtag_text(text(tokens, next).as_str());
            let ghost added = tag@;
            found.push(tag);
            proof {
                assert(found.deep_view() =~= before.push(added));
            }
            next = next + 1;
        } else if kind(tokens, next) == TokenKind::Text && all_blank(
            text(tokens, next).as_str(),
        ) {
            next = next + 1;
        } else {
            break ;
        }
    }
    (found, next)
}

fn is_command_with(tokens: &Vec<Token>, at: usize, keyword: TokenKind) -> (r: bool)
    requires
        at <= tokens.len(),
    ensures
        r == command_with(tokens.deep_view(), at as int, keyword),
        r && keyword != TokenKind::EndOfFile ==> at + 1 < tokens.len(),
{
    kind(tokens, at) == TokenKind::CommandStart && kind(tokens, at + 1) == keyword
}

fn statements_end(tokens: &Vec<Token>, at: usize) -> (r: bool)
    requires
        at <= tokens.len(),
    ensures
        r == ends_statements(tokens.deep_view(), at as int),
{
    let kind = kind(tokens, at);
    kind == TokenKind::BodyEnd || kind == TokenKind::Dedent || kind == TokenKind::EndOfFile
        || is_command_with(tokens, at, TokenKind::CommandElse) || is_command_with(
        tokens,
        at,
        TokenKind::CommandElseIf,
    ) || is_command_with(tokens, at, TokenKind::CommandEndIf)
}

fn no_statements() -> (r: Vec<Statement>)
    ensures
        r.deep_view() == Seq::<StatementView>::empty(),
{
    let r: Vec<Statement> = Vec::new();
    proof {
        assert(r.deep_view() =~= Seq::empty());
    }
    r
}

fn statements(
    tokens: &Vec<Token>,
    at: usize,
    found: Vec<Statement>,
    diagnostics: &mut Vec<Diagnostic>,
) -> (r: (Vec<Statement>, usize))
    requires
        at <= tokens.len(),
    ensures
        at <= r.1 <= tokens.len(),
        parsed(r.0.deep_view(), r.1, *final(diagnostics)) == parse_statements(
            tokens.deep_view(),
            at as int,
            found.deep_view(),
            old(diagnostics).deep_view(),
        ),
    decreases remaining(tokens.deep_view(), at as int), 30int,
{
    let ghost given = found.deep_view();
    let mut found = found;
    let mut next = at;
    while next < tokens.len() && !statements_end(tokens, next)
        invariant
            at <= next <= tokens.len(),
            parse_statements(
                tokens.deep_view(),
                at as int,
                given,
                old(diagnostics).deep_view(),
            ) == parse_statements(
                tokens.deep_view(),
                next as int,
                found.deep_view(),
                diagnostics.deep_view(),
            ),
        decreases tokens.len() - next,
    {
        if kind(tokens, next) == TokenKind::Newline {
            next = next + 1;
        } else {
            let ghost before = found.deep_view();
            let (one, behind) = statement(tokens, next, diagnostics);
            match one {
                Some(one) => {
                    let ghost added = one@;
                    found.push(one);
                    proof {
                        assert(found.deep_view() =~= before.push(added));
                    }
                },
                None => {},
            }
            next = later(behind, next + 1);
        }
    }
    (found, next)
}

fn statement(tokens: &Vec<Token>, at: usize, diagnostics: &mut Vec<Diagnostic>) -> (r: (
    Option<Statement>,
    usize,
))
    requires
        at < tokens.len(),
    ensures
        r.1 <= tokens.len(),
        parsed(r.0.deep_view(), r.1, *final(diagnostics)) == parse_statement(
            tokens.deep_view(),
            at as int,
            old(diagnostics).deep_view(),
        ),
    decreases remaining(tokens.deep_view(), at as int), 25int,
{
    let first = kind(tokens, at);
    if first == TokenKind::ShortcutArrow {
        let (found, next) = options(tokens, at, diagnostics);
        let group = Statement::Options { options: found, start: start(tokens, at) };
        proof {
            assert(group@->Options_options =~= found.deep_view());
        }
        (Some(group), next)
    } else if first == TokenKind::CommandStart {
        let (found, next) = command(tokens, at, diagnostics);
        (Some(found), next)
    } else if first == TokenKind::Text || first == TokenKind::ExpressionStart || first
        == TokenKind::Hashtag {
        let (found, behind) = parts(tokens, at, diagnostics);
        let (tags, behind) = hashtags(tokens, later(behind, at));
        (
            Some(
                Statement::Line {
                    parts: trim_parts(found),
                    hashtags: tags,
                    start: start(tokens, at),
                },
            ),
            step_over_newline(tokens, behind),
        )
    } else {
        report(tokens, at, "Expected a statement", diagnostics);
        (None, at + 1)
    }
}

fn options(tokens: &Vec<Token>, at: usize, diagnostics: &mut Vec<Diagnostic>) -> (r: (
    Vec<ShortcutOption>,
    usize,
))
    requires
        at <= tokens.len(),
    ensures
        at <= r.1 <= tokens.len(),
        parsed(r.0.deep_view(), r.1, *final(diagnostics)) == parse_options(
            tokens.deep_view(),
            at as int,
            Seq::empty(),
            old(diagnostics).deep_view(),
        ),
    decreases remaining(tokens.deep_view(), at as int), 24int,
{
    let mut found: Vec<ShortcutOption> = Vec::new();
    let mut next = at;
    proof {
        assert(found.deep_view() =~= Seq::empty());
    }
    while next < tokens.len() && kind(tokens, next) == TokenKind::ShortcutArrow
        invariant
            at <= next <= tokens.len(),
            parse_options(
                tokens.deep_view(),
                at as int,
                Seq::empty(),
                old(diagnostics).deep_view(),
            ) == parse_options(
                tokens.deep_view(),
                next as int,
                found.deep_view(),
                diagnostics.deep_view(),
            ),
        decreases tokens.len() - next,
    {
        let ghost before = found.deep_view();
        let (one, behind) = option(tokens, next, diagnostics);
        let ghost added = one@;
        found.push(one);
        proof {
            assert(found.deep_view() =~= before.push(added));
        }
        next = later(behind, next + 1);
    }
    (found, next)
}

fn option(tokens: &Vec<Token>, at: usize, diagnostics: &mut Vec<Diagnostic>) -> (r: (
    ShortcutOption,
    usize,
))
    requires
        at < tokens.len(),
    ensures
        r.1 <= tokens.len(),
        parsed(r.0@, r.1, *final(diagnostics)) == parse_option(
            tokens.deep_view(),
            at as int,
            old(diagnostics).deep_view(),
        ),
    decreases remaining(tokens.deep_view(), at as int), 23int,
{
    let (found, behind) = parts(tokens, at + 1, diagnostics);
    let line_end = later(behind, at + 1);
    let (condition, behind) = if is_command_with(tokens, line_end, TokenKind::CommandIf) {
        let (expression, behind) = binary(tokens, line_end + 2, 0, diagnostics);
        let close = expect_token(
            tokens,
            later(behind, line_end + 2),
            TokenKind::CommandEnd,
            "Expected '>>'",
            diagnostics,
        );
        (Some(expression), close)
    } else {
        (None, line_end)
    };
    let (tags, behind) = hashtags(tokens, behind);
    let behind_line = step_over_newline(tokens, later(behind, line_end));
    let (body, next) = if kind(tokens, behind_line) == TokenKind::Indent {
        let (body, behind) = statements(tokens, behind_line + 1, no_statements(), diagnostics);
        (
            body,
            if kind(tokens, behind) == TokenKind::Dedent {
                behind + 1
            } else {
                behind
            },
        )
    } else {
        (no_statements(), behind_line)
    };
    proof {
        lemma_statements_view(body);
    }
    (
        ShortcutOption {
            parts: trim_parts(found),
            hashtags: tags,
            condition,
            body,
            start: start(tokens, at),
        },
        next,
    )
}

fn assignment(tokens: &Vec<Token>, at: usize, diagnostics: &mut Vec<Diagnostic>) -> (r: (
    String,
    Expression,
    usize,
))
    requires
        at <= tokens.len(),
    ensures
        r.2 <= tokens.len(),
        parsed((r.0@, r.1@), r.2, *final(diagnostics)) == parse_assignment(
            tokens.deep_view(),
            at as int,
            old(diagnostics).deep_view(),
        ),
    decreases remaining(tokens.deep_view(), at as int), 20int,
{
    let name = if kind(tokens, at) == TokenKind::Variable {
        text(tokens, at)
    } else {
        String::new()
    };
    let behind = expect_token(
        tokens,
        at,
        TokenKind::Variable,
        "Expected a variable",
        diagnostics,
    );
    let behind = if kind(tokens, behind) == TokenKind::To || kind(tokens, behind)
        == TokenKind::Assign {
        behind + 1
    } else {
        report(tokens, behind, "Expected 'to' or '='", diagnostics);
        behind
    };
    let (value, behind) = binary(tokens, later(behind, at), 0, diagnostics);
    let close = expect_token(tokens, behind, TokenKind::CommandEnd, "Expected '>>'", diagnostics);
    (name, value, close)
}

fn command(tokens: &Vec<Token>, at: usize, diagnostics: &mut Vec<Diagnostic>) -> (r: (
    Statement,
    usize,
))
    requires
        at < tokens.len(),
    ensures
        r.1 <= tokens.len(),
        parsed(r.0@, r.1, *final(diagnostics)) == parse_command(
            tokens.deep_view(),
            at as int,
            old(diagnostics).deep_view(),
        ),
    decreases remaining(tokens.deep_view(), at as int), 22int,
{
    let start = start(tokens, at);
    let keyword = kind(tokens, at + 1);
    if keyword == TokenKind::CommandIf {
        let (first, behind) = clause(tokens, at, diagnostics);
        let mut clauses: Vec<Clause> = Vec::new();
        let ghost added = first@;
        clauses.push(first);
        proof {
            assert(clauses.deep_view() =~= seq![added]);
        }
        if_rest(tokens, later(behind, at + 2), clauses, start, diagnostics)
    } else if keyword == TokenKind::CommandSet {
        let (variable, value, next) = assignment(tokens, at + 2, diagnostics);
        (Statement::Assign { variable, value, start }, next)
    } else if keyword == TokenKind::CommandDeclare {
        let start = if kind(tokens, at + 2) == TokenKind::Variable {
            self::start(tokens, at + 2)
        } else {
            start
        };
        let (variable, value, next) = assignment(tokens, at + 2, diagnostics);
        (Statement::Declare { variable, value, start }, next)
    } else if keyword == TokenKind::CommandJump {
        let destination = if kind(tokens, at + 2) == TokenKind::Identifier {
            text(tokens, at + 2)
        } else {
            String::new()
        };
        let behind = expect_token(
            tokens,
            at + 2,
            TokenKind::Identifier,
            "Expected the name of a node",
            diagnostics,
        );
        let close = expect_token(
            tokens,
            behind,
            TokenKind::CommandEnd,
            "Expected '>>'",
            diagnostics,
        );
        (Statement::Jump { destination, start }, close)
    } else if keyword == TokenKind::CommandStop {
        let close = expect_token(
            tokens,
            at + 2,
            TokenKind::CommandEnd,
            "Expected '>>'",
            diagnostics,
        );
        (Statement::Stop { start }, close)
    } else if keyword == TokenKind::CommandCall {
        let (call, behind) = binary(tokens, at + 2, 0, diagnostics);
        let close = expect_token(
            tokens,
            later(behind, at + 2),
            TokenKind::CommandEnd,
            "Expected '>>'",
            diagnostics,
        );
        (Statement::Call { call, start }, close)
    } else {
        let (found, behind) = parts(tokens, at + 1, diagnostics);
        let close = expect_token(
            tokens,
            later(behind, at + 1),
            TokenKind::CommandEnd,
            "Expected '>>'",
            diagnostics,
        );
        (Statement::Command { parts: found, start }, close)
    }
}

fn clause(tokens: &Vec<Token>, at: usize, diagnostics: &mut Vec<Diagnostic>) -> (r: (
    Clause,
    usize,
))
    requires
        at + 1 < tokens.len(),
    ensures
        r.1 <= tokens.len(),
        parsed(r.0@, r.1, *final(diagnostics)) == parse_clause(
            tokens.deep_view(),
            at as int,
            old(diagnostics).deep_view(),
        ),
    decreases remaining(tokens.deep_view(), at as int), 21int,
{
    let (condition, behind) = binary(tokens, at + 2, 0, diagnostics);
    let close = expect_token(
        tokens,
        later(behind, at + 2),
        TokenKind::CommandEnd,
        "Expected '>>'",
        diagnostics,
    );
    let (body, next) = statements(tokens, close, no_statements(), diagnostics);
    proof {
        lemma_statements_view(body);
    }
    (Clause { condition, body }, next)
}

fn endif(tokens: &Vec<Token>, at: usize, diagnostics: &mut Vec<Diagnostic>) -> (next: usize)
    requires
        at <= tokens.len(),
    ensures
        at <= next <= tokens.len(),
        parsed((), next, *final(diagnostics)) == parse_endif(
            tokens.deep_view(),
            at as int,
            old(diagnostics).deep_view(),
        ),
{
    if is_command_with(tokens, at, TokenKind::CommandEndIf) {
        expect_token(tokens, at + 2, TokenKind::CommandEnd, "Expected '>>'", diagnostics)
    } else {
        report(tokens, at, "Expected '<<endif>>'", diagnostics);
        at
    }
}

fn if_rest(
    tokens: &Vec<Token>,
    at: usize,
    clauses: Vec<Clause>,
    start: Position,
    diagnostics: &mut Vec<Diagnostic>,
) -> (r: (Statement, usize))
    requires
        at <= tokens.len(),
    ensures
        r.1 <= tokens.len(),
        parsed(r.0@, r.1, *final(diagnostics)) == parse_if_rest(
            tokens.deep_view(),
            at as int,
            clauses.deep_view(),
            start,
            old(diagnostics).deep_view(),
        ),
    decreases remaining(tokens.deep_view(), at as int), 29int,
{
    let ghost given = clauses.deep_view();
    let mut clauses = clauses;
    let mut next = at;
    while next < tokens.len() && is_command_with(tokens, next, TokenKind::CommandElseIf)
        invariant
            at <= next <= tokens.len(),
            parse_if_rest(
                tokens.deep_view(),
                at as int,
                given,
                start,
                old(diagnostics).deep_view(),
            ) == parse_if_rest(
                tokens.deep_view(),
                next as int,
                clauses.deep_view(),
                start,
                diagnostics.deep_view(),
            ),
        decreases tokens.len() - next,
    {
        let ghost before = clauses.deep_view();
        let (one, behind) = clause(tokens, next, diagnostics);
        let ghost added = one@;
        clauses.push(one);
        proof {
            assert(clauses.deep_view() =~= before.push(added));
        }
        next = later(behind, next + 2);
    }
    if next >= tokens.len() {
        report(tokens, next, "Expected '<<endif>>'", diagnostics);
        let whole = Statement::If { clauses, otherwise: None, start };
        proof {
            assert(whole@->If_clauses =~= clauses.deep_view());
        }
        (whole, next)
    } else if is_command_with(tokens, next, TokenKind::CommandElse) {
        let open = expect_token(
            tokens,
            next + 2,
            TokenKind::CommandEnd,
            "Expected '>>'",
            diagnostics,
        );
        let (body, behind) = statements(tokens, open, no_statements(), diagnostics);
        let end = endif(tokens, behind, diagnostics);
        proof {
            lemma_statements_view(body);
        }
        let whole = Statement::If { clauses, otherwise: Some(body), start };
        proof {
            assert(whole@->If_clauses =~= clauses.deep_view());
        }
        (whole, end)
    } else {
        let end = endif(tokens, next, diagnostics);
        let whole = Statement::If { clauses, otherwise: None, start };
        proof {
            assert(whole@->If_clauses =~= clauses.deep_view());
        }
        (whole, end)
    }
}

fn body(tokens: &Vec<Token>, at: usize, diagnostics: &mut Vec<Diagnostic>) -> (r: (
    Vec<Statement>,
    usize,
))
    requires
        at <= tokens.len(),
    ensures
        r.1 <= tokens.len(),
        parsed(r.0.deep_view(), r.1, *final(diagnostics)) == parse_body(
            tokens.deep_view(),
            at as int,
            Seq::empty(),
            old(diagnostics).deep_view(),
        ),
{
    let mut found: Vec<Statement> = Vec::new();
    let mut next = at;
    proof {
        assert(found.deep_view() =~= Seq::empty());
    }
    loop
        invariant_except_break
            parse_body(
                tokens.deep_view(),
                at as int,
                Seq::empty(),
                old(diagnostics).deep_view(),
            ) == parse_body(
                tokens.deep_view(),
                next as int,
                found.deep_view(),
                diagnostics.deep_view(),
            ),
        invariant
            at <= next <= tokens.len(),
        ensures
            next <= tokens.len(),
            parsed(found.deep_view(), next, *diagnostics) == parse_body(
                tokens.deep_view(),
                at as int,
                Seq::empty(),
                old(diagnostics).deep_view(),
            ),
        decreases tokens.len() - next,
    {
        if next >= tokens.len() {
            break ;
        }
        let (some, behind) = statements(tokens, next, found, diagnostics);
        found = some;
        let behind = later(behind, next);
        let kind = kind(tokens, behind);
        if kind == TokenKind::BodyEnd {
            next = behind + 1;
            break ;
        } else if kind == TokenKind::EndOfFile {
            report(tokens, behind, "Expected '==='", diagnostics);
            next = behind;
            break ;
        } else {
            report(tokens, behind, "Expected a statement", diagnostics);
            next = behind + 1;
        }
    }
    (found, next)
}

fn headers(tokens: &Vec<Token>, at: usize, diagnostics: &mut Vec<Diagnostic>) -> (r: (
    Vec<Header>,
    usize,
))
    requires
        at <= tokens.len(),
    ensures
        at <= r.1 <= tokens.len(),
        parsed(r.0.deep_view(), r.1, *final(diagnostics)) == parse_headers(
            tokens.deep_view(),
            at as int,
            Seq::empty(),
            old(diagnostics).deep_view(),
        ),
{
    let mut found: Vec<Header> = Vec::new();
    let mut next = at;
    proof {
        assert(found.deep_view() =~= Seq::empty());
    }
    while next < tokens.len() && kind(tokens, next) != TokenKind::BodyStart && kind(tokens, next)
        != TokenKind::EndOfFile
        invariant
            at <= next <= tokens.len(),
            parse_headers(
                tokens.deep_view(),
                at as int,
                Seq::empty(),
                old(diagnostics).deep_view(),
            ) == parse_headers(
                tokens.deep_view(),
                next as int,
                found.deep_view(),
                diagnostics.deep_view(),
            ),
        decreases tokens.len() - next,
    {
        let first = kind(tokens, next);
        if first == TokenKind::Newline || first == TokenKind::Hashtag {
            next = next + 1;
        } else if first == TokenKind::Identifier {
            let ghost before = found.deep_view();
            let key = text(tokens, next);
            let behind = expect_token(
                tokens,
                next + 1,
                TokenKind::HeaderDelimiter,
                "Expected ':' behind the key of a header",
                diagnostics,
            );
            let has_value = kind(tokens, behind) == TokenKind::RestOfLine;
            let value = if has_value {
                text(tokens, behind)
            } else {
                String::new()
            };
            let header = Header { key, value };
            let ghost added = header@;
            found.push(header);
            proof {
                assert(found.deep_view() =~= before.push(added));
            }
            next = if has_value {
                behind + 1
            } else {
                behind
            };
        } else {
            report(tokens, next, "Expected a header", diagnostics);
            next = next + 1;
        }
    }
    (found, next)
}

fn node(tokens: &Vec<Token>, at: usize, diagnostics: &mut Vec<Diagnostic>) -> (r: (
    NodeTree,
    usize,
))
    requires
        at <= tokens.len(),
    ensures
        r.1 <= tokens.len(),
        parsed(r.0@, r.1, *final(diagnostics)) == parse_node(
            tokens.deep_view(),
            at as int,
            old(diagnostics).deep_view(),
        ),
{
    let (found, behind) = headers(tokens, at, diagnostics);
    let has_body = kind(tokens, behind) == TokenKind::BodyStart;
    let open = expect_token(tokens, behind, TokenKind::BodyStart, "Expected '---'", diagnostics);
    let (statements, next) = if has_body {
        body(tokens, open, diagnostics)
    } else {
        (no_statements(), open)
    };
    (NodeTree { headers: found, body: statements, start: start(tokens, at) }, next)
}

/// The syntax tree of the tokens of a file, and what there is to say about
/// their syntax.
pub fn parse(tokens: &Vec<Token>) -> (r: (DialogueTree, Vec<Diagnostic>))
    ensures
        (r.0@, r.1.deep_view()) == parse_spec(tokens.deep_view()),
{
    let tokens = significant_tokens(tokens);
    let mut diagnostics: Vec<Diagnostic> = Vec::new();
    let mut nodes: Vec<NodeTree> = Vec::new();
    let mut next: usize = 0;
    proof {
        assert(nodes.deep_view() =~= Seq::empty());
        assert(diagnostics.deep_view() =~= Seq::empty());
    }
    while next < tokens.len() && kind(&tokens, next) != TokenKind::EndOfFile
        invariant
            next <= tokens.len(),
            parse_nodes(tokens.deep_view(), 0, Seq::empty(), Seq::empty()) == parse_nodes(
                tokens.deep_view(),
                next as int,
                nodes.deep_view(),
                diagnostics.deep_view(),
            ),
        decreases tokens.len() - next,
    {
        if kind(&tokens, next) == TokenKind::Newline {
            next = next + 1;
        } else {
            let ghost before = nodes.deep_view();
            let (one, behind) = node(&tokens, next, &mut diagnostics);
            let ghost added = one@;
            nodes.push(one);
            proof {
                assert(nodes.deep_view() =~= before.push(added));
            }
            next = later(behind, next + 1);
        }
    }
    (DialogueTree { nodes }, diagnostics)
}

} // verus!
