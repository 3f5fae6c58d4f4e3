//! The base lexer: from the characters of a source file to raw tokens.
//!
//! Every character of the input ends up in exactly one token, blanks and
//! comments included, so that the text of the tokens, read one behind the
//! other, is the input again.

use crate::compiler::declaration::Position;
use crate::compiler::token::{
    stream_text, token_texts, Channel, Token, TokenKind, TokenView,
};
use crate::text::{joined, lemma_joined_first};
use crate::text::str_eq;
use vstd::prelude::*;

verus! {

/// What the lexer expects next.
#[derive(Debug, Clone, Copy, PartialEq, Eq, Hash, Structural)]
pub enum Mode {
    /// Between nodes and in the headers of a node.
    Header,
    /// Behind the delimiter of a header.
    HeaderValue,
    /// In the body of a node, where a statement may start.
    Body,
    /// In the body of a node, within a line of text.
    Text,
    /// Behind the `<<` of a command.
    Command,
    /// In a command of the language, behind its keyword.
    CommandExpression,
    /// In a command for the host.
    CommandText,
    /// In an expression within a line of text.
    TextExpression,
    /// In an expression within a command for the host.
    CommandTextExpression,
}

/// Classes of characters of which tokens are made.
#[derive(Debug, Clone, Copy, PartialEq, Eq, Hash, Structural)]
pub enum CharClass {
    /// A space or a tab.
    Blank,
    /// A decimal digit.
    Digit,
    /// A character of a name, behind its first.
    IdentifierPart,
    /// Any character but a line break.
    WithinLine,
    /// A character of a hashtag, behind the `#`.
    HashtagText,
}

pub open spec fn is_line_break(c: char) -> bool {
    c == '\n' || c == '\r'
}

pub open spec fn is_blank(c: char) -> bool {
    c == ' ' || c == '\t'
}

pub open spec fn is_digit(c: char) -> bool {
    '0' <= c <= '9'
}

/// Whether a name may start with the character: a letter, an underscore, or
/// any character outside ASCII.
pub open spec fn is_identifier_start(c: char) -> bool {
    ('a' <= c <= 'z') || ('A' <= c <= 'Z') || c == '_' || c > '\u{7f}'
}

impl CharClass {
    /// Whether the character belongs to the class.
    pub open spec fn accepts(self, c: char) -> bool {
        match self {
            CharClass::Blank => is_blank(c),
            CharClass::Digit => is_digit(c),
            CharClass::IdentifierPart => is_identifier_start(c) || is_digit(c) || c == '.',
            CharClass::WithinLine => !is_line_break(c),
            CharClass::HashtagText => !is_line_break(c) && !is_blank(c) && c != '#' && c != '$'
                && c != '<',
        }
    }

    /// Whether the character belongs to the class.
    pub fn matches(self, c: char) -> (accepted: bool)
        ensures
            accepted == self.accepts(c),
    {
        let line_break = c == '\n' || c == '\r';
        let blank = c == ' ' || c == '\t';
        let digit = '0' <= c && c <= '9';
        let start = ('a' <= c && c <= 'z') || ('A' <= c && c <= 'Z') || c == '_' || c > '\u{7f}';
        match self {
            CharClass::Blank => blank,
            CharClass::Digit => digit,
            CharClass::IdentifierPart => start || digit || c == '.',
            CharClass::WithinLine => !line_break,
            CharClass::HashtagText => !line_break && !blank && c != '#' && c != '$' && c != '<',
        }
    }
}

/// The character at an index; the null character outside the input.
pub open spec fn peek(input: Seq<char>, at: int) -> char {
    if 0 <= at < input.len() {
        input[at]
    } else {
        '\0'
    }
}

/// The end of the run of characters of a class that starts at `from`.
pub open spec fn span(input: Seq<char>, from: int, class: CharClass) -> int
    decreases input.len() - from,
{
    if 0 <= from < input.len() && class.accepts(input[from]) {
        span(input, from + 1, class)
    } else {
        from
    }
}

/// The end of the line break that starts at `from`, with the blanks that
/// follow it.
pub open spec fn newline_end(input: Seq<char>, from: int) -> int {
    if peek(input, from) == '\r' && peek(input, from + 1) == '\n' {
        span(input, from + 2, CharClass::Blank)
    } else {
        span(input, from + 1, CharClass::Blank)
    }
}

/// Whether text ends before the character at `at`: at a line break, a
/// hashtag, an expression, a command or a comment.
pub open spec fn ends_text(input: Seq<char>, at: int) -> bool {
    let c = peek(input, at);
    is_line_break(c) || c == '#' || c == '{' || (c == '<' && peek(input, at + 1) == '<') || (c
        == '/' && peek(input, at + 1) == '/')
}

/// The end of the text that goes on at `from`. A backslash keeps the
/// character behind it in the text.
pub open spec fn text_end(input: Seq<char>, from: int) -> int
    decreases input.len() - from,
{
    if from < 0 || from >= input.len() || ends_text(input, from) {
        from
    } else if input[from] == '\\' && from + 1 < input.len() && !is_line_break(input[from + 1]) {
        text_end(input, from + 2)
    } else {
        text_end(input, from + 1)
    }
}

/// The end of the command text that goes on at `from`: it ends at the end
/// of the command, at an expression, and at the end of the line.
pub open spec fn command_text_end(input: Seq<char>, from: int) -> int
    decreases input.len() - from,
{
    if from < 0 || from >= input.len() || is_line_break(input[from]) || input[from] == '{' || (
    input[from] == '>' && peek(input, from + 1) == '>') {
        from
    } else {
        command_text_end(input, from + 1)
    }
}

/// The end of the string literal whose contents start at `from`: behind the
/// closing quote, or at the end of the line where there is none. A
/// backslash keeps the character behind it in the string.
pub open spec fn string_end(input: Seq<char>, from: int) -> int
    decreases input.len() - from,
{
    if from < 0 || from >= input.len() || is_line_break(input[from]) {
        from
    } else if input[from] == '"' {
        from + 1
    } else if input[from] == '\\' && from + 1 < input.len() && !is_line_break(input[from + 1]) {
        string_end(input, from + 2)
    } else {
        string_end(input, from + 1)
    }
}

/// The end of the number that starts at `from`: digits, and behind them a
/// point with more digits where there is one.
pub open spec fn number_end(input: Seq<char>, from: int) -> int {
    let whole = span(input, from, CharClass::Digit);
    if peek(input, whole) == '.' && is_digit(peek(input, whole + 1)) {
        span(input, whole + 1, CharClass::Digit)
    } else {
        whole
    }
}

/// A token as the lexer finds it: its kind, where it ends, and what the
/// lexer expects behind it.
pub struct Lexeme {
    pub kind: TokenKind,
    pub end: int,
    pub next: Mode,
}

/// The keyword that a command starts with, if the word is one.
pub open spec fn command_keyword(word: Seq<char>) -> Option<TokenKind> {
    if word == "if"@ {
        Some(TokenKind::CommandIf)
    } else if word == "elseif"@ {
        Some(TokenKind::CommandElseIf)
    } else if word == "else"@ {
        Some(TokenKind::CommandElse)
    } else if word == "endif"@ {
        Some(TokenKind::CommandEndIf)
    } else if word == "set"@ {
        Some(TokenKind::CommandSet)
    } else if word == "declare"@ {
        Some(TokenKind::CommandDeclare)
    } else if word == "jump"@ {
        Some(TokenKind::CommandJump)
    } else if word == "stop"@ {
        Some(TokenKind::CommandStop)
    } else if word == "call"@ {
        Some(TokenKind::CommandCall)
    } else {
        None
    }
}

/// The kind of a word within an expression: a keyword or a name.
pub open spec fn expression_word(word: Seq<char>) -> TokenKind {
    if word == "true"@ {
        TokenKind::True
    } else if word == "false"@ {
        TokenKind::False
    } else if word == "and"@ {
        TokenKind::And
    } else if word == "or"@ {
        TokenKind::Or
    } else if word == "xor"@ {
        TokenKind::Xor
    } else if word == "not"@ {
        TokenKind::Not
    } else if word == "to"@ {
        TokenKind::To
    } else if word == "is"@ || word == "eq"@ {
        TokenKind::EqualTo
    } else if word == "neq"@ {
        TokenKind::NotEqualTo
    } else if word == "lt"@ {
        TokenKind::LessThan
    } else if word == "lte"@ {
        TokenKind::LessThanOrEqualTo
    } else if word == "gt"@ {
        TokenKind::GreaterThan
    } else if word == "gte"@ {
        TokenKind::GreaterThanOrEqualTo
    } else {
        TokenKind::Identifier
    }
}

/// The token of one character.
pub open spec fn single(kind: TokenKind, at: int, next: Mode) -> Lexeme {
    Lexeme { kind, end: at + 1, next }
}

/// The token of two characters.
pub open spec fn double(kind: TokenKind, at: int, next: Mode) -> Lexeme {
    Lexeme { kind, end: at + 2, next }
}

/// The token at `at` where it is blank space, a line break or a comment,
/// which are read alike almost everywhere. `after_break` is what the lexer
/// expects behind a line break.
pub open spec fn trivia(input: Seq<char>, at: int, mode: Mode, after_break: Mode) -> Option<
    Lexeme,
> {
    let c = peek(input, at);
    if is_line_break(c) {
        Some(Lexeme { kind: TokenKind::Newline, end: newline_end(input, at), next: after_break })
    } else if is_blank(c) {
        Some(
            Lexeme {
                kind: TokenKind::Whitespace,
                end: span(input, at + 1, CharClass::Blank),
                next: mode,
            },
        )
    } else {
        None
    }
}

/// The comment at `at`, if one starts there.
pub open spec fn comment(input: Seq<char>, at: int, mode: Mode) -> Option<Lexeme> {
    if peek(input, at) == '/' && peek(input, at + 1) == '/' {
        Some(
            Lexeme {
                kind: TokenKind::Comment,
                end: span(input, at + 2, CharClass::WithinLine),
                next: mode,
            },
        )
    } else {
        None
    }
}

/// The hashtag at `at`.
pub open spec fn hashtag(input: Seq<char>, at: int, next: Mode) -> Lexeme {
    Lexeme { kind: TokenKind::Hashtag, end: span(input, at + 1, CharClass::HashtagText), next }
}

/// Whether the three characters at `at` are all `c`.
pub open spec fn triple(input: Seq<char>, at: int, c: char) -> bool {
    peek(input, at) == c && peek(input, at + 1) == c && peek(input, at + 2) == c
}

/// The token at `at` between nodes and among the headers of a node.
pub open spec fn header_lexeme(input: Seq<char>, at: int) -> Lexeme {
    let c = peek(input, at);
    if trivia(input, at, Mode::Header, Mode::Header) is Some {
        trivia(input, at, Mode::Header, Mode::Header).unwrap()
    } else if comment(input, at, Mode::Header) is Some {
        comment(input, at, Mode::Header).unwrap()
    } else if triple(input, at, '-') {
        Lexeme { kind: TokenKind::BodyStart, end: at + 3, next: Mode::Body }
    } else if c == ':' {
        Lexeme {
            kind: TokenKind::HeaderDelimiter,
            end: span(input, at + 1, CharClass::Blank),
            next: Mode::HeaderValue,
        }
    } else if c == '#' {
        hashtag(input, at, Mode::Header)
    } else if is_identifier_start(c) {
        Lexeme {
            kind: TokenKind::Identifier,
            end: span(input, at + 1, CharClass::IdentifierPart),
            next: Mode::Header,
        }
    } else {
        single(TokenKind::Unknown, at, Mode::Header)
    }
}

/// The token at `at` behind the delimiter of a header.
pub open spec fn header_value_lexeme(input: Seq<char>, at: int) -> Lexeme {
    if is_line_break(peek(input, at)) {
        Lexeme { kind: TokenKind::Newline, end: newline_end(input, at), next: Mode::Header }
    } else {
        Lexeme {
            kind: TokenKind::RestOfLine,
            end: span(input, at + 1, CharClass::WithinLine),
            next: Mode::HeaderValue,
        }
    }
}

/// The token at `at` in the body of a node. `fresh` says whether a
/// statement may start there, which it may not within a line of text.
pub open spec fn body_lexeme(input: Seq<char>, at: int, fresh: bool) -> Lexeme {
    let c = peek(input, at);
    let here = if fresh {
        Mode::Body
    } else {
        Mode::Text
    };
    if is_line_break(c) {
        Lexeme { kind: TokenKind::Newline, end: newline_end(input, at), next: Mode::Body }
    } else if fresh && is_blank(c) {
        Lexeme {
            kind: TokenKind::Whitespace,
            end: span(input, at + 1, CharClass::Blank),
            next: Mode::Body,
        }
    } else if comment(input, at, here) is Some {
        comment(input, at, here).unwrap()
    } else if fresh && triple(input, at, '=') {
        Lexeme { kind: TokenKind::BodyEnd, end: at + 3, next: Mode::Header }
    } else if fresh && c == '-' && peek(input, at + 1) == '>' {
        double(TokenKind::ShortcutArrow, at, Mode::Body)
    } else if c == '<' && peek(input, at + 1) == '<' {
        double(TokenKind::CommandStart, at, Mode::Command)
    } else if c == '{' {
        single(TokenKind::ExpressionStart, at, Mode::TextExpression)
    } else if c == '#' {
        hashtag(input, at, Mode::Text)
    } else if input[at] == '\\' && at + 1 < input.len() && !is_line_break(input[at + 1]) {
        Lexeme { kind: TokenKind::Text, end: text_end(input, at + 2), next: Mode::Text }
    } else {
        Lexeme { kind: TokenKind::Text, end: text_end(input, at + 1), next: Mode::Text }
    }
}

/// The token at `at` behind the `<<` of a command.
pub open spec fn command_lexeme(input: Seq<char>, at: int) -> Lexeme {
    let c = peek(input, at);
    if trivia(input, at, Mode::Command, Mode::Body) is Some {
        trivia(input, at, Mode::Command, Mode::Body).unwrap()
    } else if c == '>' && peek(input, at + 1) == '>' {
        double(TokenKind::CommandEnd, at, Mode::Body)
    } else if c == '{' {
        single(TokenKind::ExpressionStart, at, Mode::CommandTextExpression)
    } else if is_identifier_start(c) {
        let end = span(input, at + 1, CharClass::IdentifierPart);
        match command_keyword(input.subrange(at, end)) {
            Some(kind) => Lexeme { kind, end, next: Mode::CommandExpression },
            None => Lexeme {
                kind: TokenKind::CommandText,
                end: command_text_end(input, end),
                next: Mode::CommandText,
            },
        }
    } else {
        Lexeme {
            kind: TokenKind::CommandText,
            end: command_text_end(input, at + 1),
            next: Mode::CommandText,
        }
    }
}

/// The token at `at` in a command for the host.
pub open spec fn command_text_lexeme(input: Seq<char>, at: int) -> Lexeme {
    let c = peek(input, at);
    if is_line_break(c) {
        Lexeme { kind: TokenKind::Newline, end: newline_end(input, at), next: Mode::Body }
    } else if c == '>' && peek(input, at + 1) == '>' {
        double(TokenKind::CommandEnd, at, Mode::Body)
    } else if c == '{' {
        single(TokenKind::ExpressionStart, at, Mode::CommandTextExpression)
    } else {
        Lexeme {
            kind: TokenKind::CommandText,
            end: command_text_end(input, at + 1),
            next: Mode::CommandText,
        }
    }
}

/// What the lexer expects behind the `}` that ends an expression.
pub open spec fn after_expression(mode: Mode) -> Mode {
    match mode {
        Mode::TextExpression => Mode::Text,
        Mode::CommandTextExpression => Mode::CommandText,
        _ => mode,
    }
}

/// The operator or bracket at `at`, if one stands there.
pub open spec fn operator_lexeme(input: Seq<char>, at: int, mode: Mode) -> Option<Lexeme> {
    let c = peek(input, at);
    let d = peek(input, at + 1);
    if c == '=' && d == '=' {
        Some(double(TokenKind::EqualTo, at, mode))
    } else if c == '!' && d == '=' {
        Some(double(TokenKind::NotEqualTo, at, mode))
    } else if c == '<' && d == '=' {
        Some(double(TokenKind::LessThanOrEqualTo, at, mode))
    } else if c == '>' && d == '=' {
        Some(double(TokenKind::GreaterThanOrEqualTo, at, mode))
    } else if c == '&' && d == '&' {
        Some(double(TokenKind::And, at, mode))
    } else if c == '|' && d == '|' {
        Some(double(TokenKind::Or, at, mode))
    } else if c == '=' {
        Some(single(TokenKind::Assign, at, mode))
    } else if c == '!' {
        Some(single(TokenKind::Not, at, mode))
    } else if c == '<' {
        Some(single(TokenKind::LessThan, at, mode))
    } else if c == '>' {
        Some(single(TokenKind::GreaterThan, at, mode))
    } else if c == '^' {
        Some(single(TokenKind::Xor, at, mode))
    } else if c == '+' {
        Some(single(TokenKind::Plus, at, mode))
    } else if c == '-' {
        Some(single(TokenKind::Minus, at, mode))
    } else if c == '*' {
        Some(single(TokenKind::Star, at, mode))
    } else if c == '/' {
        Some(single(TokenKind::Slash, at, mode))
    } else if c == '%' {
        Some(single(TokenKind::Percent, at, mode))
    } else if c == '(' {
        Some(single(TokenKind::LeftParen, at, mode))
    } else if c == ')' {
        Some(single(TokenKind::RightParen, at, mode))
    } else if c == ',' {
        Some(single(TokenKind::Comma, at, mode))
    } else {
        None
    }
}

/// The token at `at` in an expression.
pub open spec fn expression_lexeme(input: Seq<char>, at: int, mode: Mode) -> Lexeme {
    let c = peek(input, at);
    if trivia(input, at, mode, Mode::Body) is Some {
        trivia(input, at, mode, Mode::Body).unwrap()
    } else if mode == Mode::CommandExpression && c == '>' && peek(input, at + 1) == '>' {
        double(TokenKind::CommandEnd, at, Mode::Body)
    } else if mode != Mode::CommandExpression && c == '}' {
        single(TokenKind::ExpressionEnd, at, after_expression(mode))
    } else if is_digit(c) {
        Lexeme { kind: TokenKind::Number, end: number_end(input, at), next: mode }
    } else if c == '"' {
        Lexeme { kind: TokenKind::StringLiteral, end: string_end(input, at + 1), next: mode }
    } else if c == '$' {
        Lexeme {
            kind: TokenKind::Variable,
            end: span(input, at + 1, CharClass::IdentifierPart),
            next: mode,
        }
    } else if is_identifier_start(c) {
        let end = span(input, at + 1, CharClass::IdentifierPart);
        Lexeme { kind: expression_word(input.subrange(at, end)), end, next: mode }
    } else if operator_lexeme(input, at, mode) is Some {
        operator_lexeme(input, at, mode).unwrap()
    } else {
        single(TokenKind::Unknown, at, mode)
    }
}

/// The token at `at`, which lies within the input.
#[verifier::opaque]
pub open spec fn lexeme_at(input: Seq<char>, at: int, mode: Mode) -> Lexeme {
    match mode {
        Mode::Header => header_lexeme(input, at),
        Mode::HeaderValue => header_value_lexeme(input, at),
        Mode::Body => body_lexeme(input, at, true),
        Mode::Text => body_lexeme(input, at, false),
        Mode::Command => command_lexeme(input, at),
        Mode::CommandText => command_text_lexeme(input, at),
        Mode::CommandExpression => expression_lexeme(input, at, mode),
        Mode::TextExpression => expression_lexeme(input, at, mode),
        Mode::CommandTextExpression => expression_lexeme(input, at, mode),
    }
}

/// The channel of a token of the given kind.
pub open spec fn channel_of(kind: TokenKind) -> Channel {
    match kind {
        TokenKind::Newline => Channel::Whitespace,
        TokenKind::Whitespace => Channel::Whitespace,
        TokenKind::Comment => Channel::Comments,
        _ => Channel::Default,
    }
}

/// The position behind a character that stands at `position`.
pub open spec fn position_after(position: Position, c: char) -> Position {
    if c == '\n' {
        Position { line: (position.line + 1) as usize, character: 0 }
    } else {
        Position { line: position.line, character: (position.character + 1) as usize }
    }
}

/// The position behind a text that starts at `position`.
pub open spec fn position_behind(position: Position, text: Seq<char>) -> Position
    decreases text.len(),
{
    if text.len() == 0 {
        position
    } else {
        position_after(position_behind(position, text.drop_last()), text.last())
    }
}

/// The token with the given kind and text that starts at `start`. It ends
/// at the position of its last character.
pub open spec fn token_at(kind: TokenKind, text: Seq<char>, start: Position) -> TokenView {
    TokenView {
        kind,
        text,
        channel: channel_of(kind),
        start,
        stop: if text.len() == 0 {
            start
        } else {
            position_behind(start, text.drop_last())
        },
    }
}

/// The tokens of the input from index `at` on, where the lexer is in the
/// given mode and at the given position. The last token marks the end of
/// the file and has no text.
pub open spec fn lex_from(input: Seq<char>, at: int, mode: Mode, position: Position) -> Seq<
    TokenView,
>
    decreases input.len() - at,
{
    if at < 0 || at >= input.len() {
        seq![token_at(TokenKind::EndOfFile, Seq::empty(), position)]
    } else {
        let lexeme = lexeme_at(input, at, mode);
        let end = if at < lexeme.end <= input.len() {
            lexeme.end
        } else {
            at + 1
        };
        let text = input.subrange(at, end);
        seq![token_at(lexeme.kind, text, position)] + lex_from(
            input,
            end,
            lexeme.next,
            position_behind(position, text),
        )
    }
}

/// The tokens of a source text.
pub open spec fn lex_spec(input: Seq<char>) -> Seq<TokenView> {
    lex_from(input, 0, Mode::Header, Position { line: 0, character: 0 })
}

/// A run ends within the input, and not before it starts.
pub proof fn lemma_span_within(input: Seq<char>, from: int, class: CharClass)
    requires
        0 <= from <= input.len(),
    ensures
        from <= span(input, from, class) <= input.len(),
    decreases input.len() - from,
{
    if from < input.len() && class.accepts(input[from]) {
        lemma_span_within(input, from + 1, class);
    }
}

/// Text ends within the input, and not before it starts.
pub proof fn lemma_text_end_within(input: Seq<char>, from: int)
    requires
        0 <= from <= input.len(),
    ensures
        from <= text_end(input, from) <= input.len(),
    decreases input.len() - from,
{
    if from >= input.len() || ends_text(input, from) {
    } else if input[from] == '\\' && from + 1 < input.len() && !is_line_break(input[from + 1]) {
        lemma_text_end_within(input, from + 2);
    } else {
        lemma_text_end_within(input, from + 1);
    }
}

/// Command text ends within the input, and not before it starts.
pub proof fn lemma_command_text_end_within(input: Seq<char>, from: int)
    requires
        0 <= from <= input.len(),
    ensures
        from <= command_text_end(input, from) <= input.len(),
    decreases input.len() - from,
{
    if from >= input.len() || is_line_break(input[from]) || input[from] == '{' || (input[from]
        == '>' && peek(input, from + 1) == '>') {
    } else {
        lemma_command_text_end_within(input, from + 1);
    }
}

/// A string literal ends within the input, and not before its contents
/// start.
pub proof fn lemma_string_end_within(input: Seq<char>, from: int)
    requires
        0 <= from <= input.len(),
    ensures
        from <= string_end(input, from) <= input.len(),
    decreases input.len() - from,
{
    if from >= input.len() || is_line_break(input[from]) {
    } else if input[from] == '"' {
    } else if input[from] == '\\' && from + 1 < input.len() && !is_line_break(input[from + 1]) {
        lemma_string_end_within(input, from + 2);
    } else {
        lemma_string_end_within(input, from + 1);
    }
}

/// Every token has at least one character and ends within the input.
pub proof fn lemma_lexeme_within(input: Seq<char>, at: int, mode: Mode)
    requires
        0 <= at < input.len(),
    ensures
        at < lexeme_at(input, at, mode).end <= input.len(),
{
    reveal(lexeme_at);
    lemma_span_within(input, at + 1, CharClass::Blank);
    lemma_span_within(input, at + 1, CharClass::IdentifierPart);
    lemma_span_within(input, at + 1, CharClass::WithinLine);
    lemma_span_within(input, at + 1, CharClass::HashtagText);
    lemma_span_within(input, at, CharClass::Digit);
    lemma_text_end_within(input, at + 1);
    lemma_command_text_end_within(input, at + 1);
    lemma_string_end_within(input, at + 1);
    if at + 2 <= input.len() {
        lemma_span_within(input, at + 2, CharClass::Blank);
        lemma_span_within(input, at + 2, CharClass::WithinLine);
        lemma_text_end_within(input, at + 2);
    }
    let end = span(input, at + 1, CharClass::IdentifierPart);
    lemma_command_text_end_within(input, end);
    let whole = span(input, at, CharClass::Digit);
    if whole + 1 <= input.len() {
        lemma_span_within(input, whole + 1, CharClass::Digit);
    }
}

/// The tokens from an index on stand for the input from that index on.
pub proof fn lemma_lex_from_tiles(input: Seq<char>, at: int, mode: Mode, position: Position)
    requires
        0 <= at <= input.len(),
    ensures
        stream_text(lex_from(input, at, mode, position)) == input.skip(at),
    decreases input.len() - at,
{
    let tokens = lex_from(input, at, mode, position);
    if at >= input.len() {
        let texts = token_texts(tokens);
        assert(texts.len() == 1);
        assert(texts.drop_last() =~= Seq::empty());
        assert(joined(texts.drop_last()) =~= Seq::empty());
        assert(texts.last() =~= Seq::empty());
        assert(joined(texts) =~= Seq::empty());
        assert(input.skip(at) =~= Seq::empty());
    } else {
        lemma_lexeme_within(input, at, mode);
        let lexeme = lexeme_at(input, at, mode);
        let text = input.subrange(at, lexeme.end);
        let rest = lex_from(input, lexeme.end, lexeme.next, position_behind(position, text));
        lemma_lex_from_tiles(input, lexeme.end, lexeme.next, position_behind(position, text));
        lemma_joined_first(token_texts(tokens));
        assert(token_texts(tokens).skip(1) =~= token_texts(rest));
        assert(stream_text(tokens) =~= input.skip(at));
    }
}

/// The tokens of a text stand for the text: every character lies in
/// exactly one token.
pub proof fn lemma_lex_tiles(input: Seq<char>)
    ensures
        stream_text(lex_spec(input)) == input,
{
    lemma_lex_from_tiles(input, 0, Mode::Header, Position { line: 0, character: 0 });
    assert(input.skip(0) =~= input);
}

/// Lexing again what a stream of tokens stands for gives the same tokens.
pub proof fn lemma_lex_is_stable(input: Seq<char>)
    ensures
        lex_spec(stream_text(lex_spec(input))) == lex_spec(input),
{
    lemma_lex_tiles(input);
}

/// No token that the base lexer finds is synthetic.
pub proof fn lemma_lexeme_is_raw(input: Seq<char>, at: int, mode: Mode)
    ensures
        lexeme_at(input, at, mode).kind != TokenKind::Indent,
        lexeme_at(input, at, mode).kind != TokenKind::Dedent,
        lexeme_at(input, at, mode).kind != TokenKind::EndOfFile,
{
    reveal(lexeme_at);
}

/// The tokens of the base lexer: none is synthetic, and the last, and only
/// the last, marks the end of the file.
pub proof fn lemma_lex_from_is_raw(input: Seq<char>, at: int, mode: Mode, position: Position)
    requires
        0 <= at <= input.len(),
    ensures
        lex_from(input, at, mode, position).len() > 0,
        lex_from(input, at, mode, position).last().kind == TokenKind::EndOfFile,
        forall|i: int|
            0 <= i < lex_from(input, at, mode, position).len() ==> {
                let kind = (#[trigger] lex_from(input, at, mode, position)[i]).kind;
                &&& kind != TokenKind::Indent
                &&& kind != TokenKind::Dedent
                &&& (kind == TokenKind::EndOfFile) == (i == lex_from(
                    input,
                    at,
                    mode,
                    position,
                ).len() - 1)
            },
    decreases input.len() - at,
{
    if at < input.len() {
        lemma_lexeme_within(input, at, mode);
        lemma_lexeme_is_raw(input, at, mode);
        let lexeme = lexeme_at(input, at, mode);
        let text = input.subrange(at, lexeme.end);
        lemma_lex_from_is_raw(input, lexeme.end, lexeme.next, position_behind(position, text));
    }
}

/// The character at an index that lies `ahead` behind `at`; the null
/// character outside the input.
fn peek_at(chars: &Vec<char>, at: usize, ahead: usize) -> (c: char)
    ensures
        c == peek(chars@, at + ahead),
{
    if ahead < chars.len() && at < chars.len() - ahead {
        chars[at + ahead]
    } else {
        '\0'
    }
}

/// The end of the run of characters of a class that starts at `from`.
fn scan(chars: &Vec<char>, from: usize, class: CharClass) -> (end: usize)
    ensures
        end == span(chars@, from as int, class),
        from <= chars.len() ==> from <= end <= chars.len(),
{
    let mut end = from;
    while end < chars.len() && class.matches(chars[end])
        invariant
            from <= end,
            from <= chars.len() ==> end <= chars.len(),
            span(chars@, from as int, class) == span(chars@, end as int, class),
        decreases chars.len() - end,
    {
        end = end + 1;
    }
    end
}

fn line_break(c: char) -> (r: bool)
    ensures
        r == is_line_break(c),
{
    c == '\n' || c == '\r'
}

fn scan_newline(chars: &Vec<char>, from: usize) -> (end: usize)
    requires
        from < chars.len(),
    ensures
        end == newline_end(chars@, from as int),
        from < end <= chars.len(),
{
    if chars[from] == '\r' && peek_at(chars, from, 1) == '\n' {
        scan(chars, from + 2, CharClass::Blank)
    } else {
        scan(chars, from + 1, CharClass::Blank)
    }
}

fn text_ends(chars: &Vec<char>, at: usize) -> (r: bool)
    ensures
        r == ends_text(chars@, at as int),
{
    let c = peek_at(chars, at, 0);
    let d = peek_at(chars, at, 1);
    line_break(c) || c == '#' || c == '{' || (c == '<' && d == '<') || (c == '/' && d == '/')
}

fn scan_text(chars: &Vec<char>, from: usize) -> (end: usize)
    requires
        from <= chars.len(),
    ensures
        end == text_end(chars@, from as int),
        from <= end <= chars.len(),
{
    let mut end = from;
    while end < chars.len() && !text_ends(chars, end)
        invariant
            from <= end <= chars.len(),
            text_end(chars@, from as int) == text_end(chars@, end as int),
        decreases chars.len() - end,
    {
        if chars[end] == '\\' && end + 1 < chars.len() && !line_break(chars[end + 1]) {
            end = end + 2;
        } else {
            end = end + 1;
        }
    }
    end
}

fn scan_command_text(chars: &Vec<char>, from: usize) -> (end: usize)
    requires
        from <= chars.len(),
    ensures
        end == command_text_end(chars@, from as int),
        from <= end <= chars.len(),
{
    let mut end = from;
    while end < chars.len() && !(line_break(chars[end]) || chars[end] == '{' || (chars[end] == '>'
        && peek_at(chars, end, 1) == '>'))
        invariant
            from <= end <= chars.len(),
            command_text_end(chars@, from as int) == command_text_end(chars@, end as int),
        decreases chars.len() - end,
    {
        end = end + 1;
    }
    end
}

fn scan_string(chars: &Vec<char>, from: usize) -> (end: usize)
    requires
        from <= chars.len(),
    ensures
        end == string_end(chars@, from as int),
        from <= end <= chars.len(),
{
    let mut end = from;
    while end < chars.len() && !line_break(chars[end]) && chars[end] != '"'
        invariant
            from <= end <= chars.len(),
            string_end(chars@, from as int) == string_end(chars@, end as int),
        decreases chars.len() - end,
    {
        if chars[end] == '\\' && end + 1 < chars.len() && !line_break(chars[end + 1]) {
            end = end + 2;
        } else {
            end = end + 1;
        }
    }
    if end < chars.len() && chars[end] == '"' {
        end + 1
    } else {
        end
    }
}

fn scan_number(chars: &Vec<char>, from: usize) -> (end: usize)
    requires
        from < chars.len(),
    ensures
        end == number_end(chars@, from as int),
        from <= end <= chars.len(),
{
    let whole = scan(chars, from, CharClass::Digit);
    if peek_at(chars, whole, 0) == '.' && CharClass::Digit.matches(peek_at(chars, whole, 1)) {
        scan(chars, whole + 1, CharClass::Digit)
    } else {
        whole
    }
}

/// The characters from `from` to `to` as a string.
pub(crate) fn slice(chars: &Vec<char>, from: usize, to: usize) -> (text: String)
    requires
        from <= to <= chars.len(),
    ensures
        text@ == chars@.subrange(from as int, to as int),
{
    let mut text = String::new();
    let mut i = from;
    while i < to
        invariant
            from <= i <= to <= chars.len(),
            text@ == chars@.subrange(from as int, i as int),
        decreases to - i,
    {
        text.push(chars[i]);
        proof {
            assert(text@ =~= chars@.subrange(from as int, i + 1));
        }
        i = i + 1;
    }
    text
}

fn keyword_of_command(word: &str) -> (kind: Option<TokenKind>)
    ensures
        kind == command_keyword(word@),
{
    if str_eq(word, "if") {
        Some(TokenKind::CommandIf)
    } else if str_eq(word, "elseif") {
        Some(TokenKind::CommandElseIf)
    } else if str_eq(word, "else") {
        Some(TokenKind::CommandElse)
    } else if str_eq(word, "endif") {
        Some(TokenKind::CommandEndIf)
    } else if str_eq(word, "set") {
        Some(TokenKind::CommandSet)
    } else if str_eq(word, "declare") {
        Some(TokenKind::CommandDeclare)
    } else if str_eq(word, "jump") {
        Some(TokenKind::CommandJump)
    } else if str_eq(word, "stop") {
        Some(TokenKind::CommandStop)
    } else if str_eq(word, "call") {
        Some(TokenKind::CommandCall)
    } else {
        None
    }
}

fn word_of_expression(word: &str) -> (kind: TokenKind)
    ensures
        kind == expression_word(word@),
{
    if str_eq(word, "true") {
        TokenKind::True
    } else if str_eq(word, "false") {
        TokenKind::False
    } else if str_eq(word, "and") {
        TokenKind::And
    } else if str_eq(word, "or") {
        TokenKind::Or
    } else if str_eq(word, "xor") {
        TokenKind::Xor
    } else if str_eq(word, "not") {
        TokenKind::Not
    } else if str_eq(word, "to") {
        TokenKind::To
    } else if str_eq(word, "is") || str_eq(word, "eq") {
        TokenKind::EqualTo
    } else if str_eq(word, "neq") {
        TokenKind::NotEqualTo
    } else if str_eq(word, "lt") {
        TokenKind::LessThan
    } else if str_eq(word, "lte") {
        TokenKind::LessThanOrEqualTo
    } else if str_eq(word, "gt") {
        TokenKind::GreaterThan
    } else if str_eq(word, "gte") {
        TokenKind::GreaterThanOrEqualTo
    } else {
        TokenKind::Identifier
    }
}

/// A token as the lexer finds it: its kind, where it ends, and what the
/// lexer expects behind it.
struct Found {
    kind: TokenKind,
    end: usize,
    next: Mode,
}

impl Found {
    spec fn lexeme(self) -> Lexeme {
        Lexeme { kind: self.kind, end: self.end as int, next: self.next }
    }
}

fn identifier_start(c: char) -> (r: bool)
    ensures
        r == is_identifier_start(c),
{
    ('a' <= c && c <= 'z') || ('A' <= c && c <= 'Z') || c == '_' || c > '\u{7f}'
}

fn find_trivia(chars: &Vec<char>, at: usize, mode: Mode, after_break: Mode) -> (found: Option<
    Found,
>)
    requires
        at < chars.len(),
    ensures
        match found {
            Some(found) => trivia(chars@, at as int, mode, after_break) == Some(found.lexeme()),
            None => trivia(chars@, at as int, mode, after_break) is None,
        },
{
    let c = chars[at];
    if line_break(c) {
        Some(Found { kind: TokenKind::Newline, end: scan_newline(chars, at), next: after_break })
    } else if CharClass::Blank.matches(c) {
        Some(
            Found {
                kind: TokenKind::Whitespace,
                end: scan(chars, at + 1, CharClass::Blank),
                next: mode,
            },
        )
    } else {
        None
    }
}

fn find_comment(chars: &Vec<char>, at: usize, mode: Mode) -> (found: Option<Found>)
    requires
        at < chars.len(),
    ensures
        match found {
            Some(found) => comment(chars@, at as int, mode) == Some(found.lexeme()),
            None => comment(chars@, at as int, mode) is None,
        },
{
    if chars[at] == '/' && peek_at(chars, at, 1) == '/' {
        Some(
            Found {
                kind: TokenKind::Comment,
                end: scan(chars, at + 2, CharClass::WithinLine),
                next: mode,
            },
        )
    } else {
        None
    }
}

fn find_hashtag(chars: &Vec<char>, at: usize, next: Mode) -> (found: Found)
    requires
        at < chars.len(),
    ensures
        found.lexeme() == hashtag(chars@, at as int, next),
{
    Found { kind: TokenKind::Hashtag, end: scan(chars, at + 1, CharClass::HashtagText), next }
}

fn is_triple(chars: &Vec<char>, at: usize, c: char) -> (r: bool)
    ensures
        r == triple(chars@, at as int, c),
{
    peek_at(chars, at, 0) == c && peek_at(chars, at, 1) == c && peek_at(chars, at, 2) == c
}

fn find_in_header(chars: &Vec<char>, at: usize) -> (found: Found)
    requires
        at < chars.len(),
    ensures
        found.lexeme() == header_lexeme(chars@, at as int),
{
    let c = chars[at];
    if let Some(found) = find_trivia(chars, at, Mode::Header, Mode::Header) {
        found
    } else if let Some(found) = find_comment(chars, at, Mode::Header) {
        found
    } else if is_triple(chars, at, '-') {
        Found { kind: TokenKind::BodyStart, end: at + 3, next: Mode::Body }
    } else if c == ':' {
        Found {
            kind: TokenKind::HeaderDelimiter,
            end: scan(chars, at + 1, CharClass::Blank),
            next: Mode::HeaderValue,
        }
    } else if c == '#' {
        find_hashtag(chars, at, Mode::Header)
    } else if identifier_start(c) {
        Found {
            kind: TokenKind::Identifier,
            end: scan(chars, at + 1, CharClass::IdentifierPart),
            next: Mode::Header,
        }
    } else {
        Found { kind: TokenKind::Unknown, end: at + 1, next: Mode::Header }
    }
}

fn find_in_header_value(chars: &Vec<char>, at: usize) -> (found: Found)
    requires
        at < chars.len(),
    ensures
        found.lexeme() == header_value_lexeme(chars@, at as int),
{
    if line_break(chars[at]) {
        Found { kind: TokenKind::Newline, end: scan_newline(chars, at), next: Mode::Header }
    } else {
        Found {
            kind: TokenKind::RestOfLine,
            end: scan(chars, at + 1, CharClass::WithinLine),
            next: Mode::HeaderValue,
        }
    }
}

fn find_in_body(chars: &Vec<char>, at: usize, fresh: bool) -> (found: Found)
    requires
        at < chars.len(),
    ensures
        found.lexeme() == body_lexeme(chars@, at as int, fresh),
{
    let c = chars[at];
    let d = peek_at(chars, at, 1);
    let here = if fresh {
        Mode::Body
    } else {
        Mode::Text
    };
    if line_break(c) {
        Found { kind: TokenKind::Newline, end: scan_newline(chars, at), next: Mode::Body }
    } else if fresh && CharClass::Blank.matches(c) {
        Found {
            kind: TokenKind::Whitespace,
            end: scan(chars, at + 1, CharClass::Blank),
            next: Mode::Body,
        }
    } else if let Some(found) = find_comment(chars, at, here) {
        found
    } else if fresh && is_triple(chars, at, '=') {
        Found { kind: TokenKind::BodyEnd, end: at + 3, next: Mode::Header }
    } else if fresh && c == '-' && d == '>' {
        Found { kind: TokenKind::ShortcutArrow, end: at + 2, next: Mode::Body }
    } else if c == '<' && d == '<' {
        Found { kind: TokenKind::CommandStart, end: at + 2, next: Mode::Command }
    } else if c == '{' {
        Found { kind: TokenKind::ExpressionStart, end: at + 1, next: Mode::TextExpression }
    } else if c == '#' {
        find_hashtag(chars, at, Mode::Text)
    } else if c == '\\' && at + 1 < chars.len() && !line_break(chars[at + 1]) {
        Found { kind: TokenKind::Text, end: scan_text(chars, at + 2), next: Mode::Text }
    } else {
        Found { kind: TokenKind::Text, end: scan_text(chars, at + 1), next: Mode::Text }
    }
}

fn find_in_command(chars: &Vec<char>, at: usize) -> (found: Found)
    requires
        at < chars.len(),
    ensures
        found.lexeme() == command_lexeme(chars@, at as int),
{
    let c = chars[at];
    if let Some(found) = find_trivia(chars, at, Mode::Command, Mode::Body) {
        found
    } else if c == '>' && peek_at(chars, at, 1) == '>' {
        Found { kind: TokenKind::CommandEnd, end: at + 2, next: Mode::Body }
    } else if c == '{' {
        Found {
            kind: TokenKind::ExpressionStart,
            end: at + 1,
            next: Mode::CommandTextExpression,
        }
    } else if identifier_start(c) {
        let end = scan(chars, at + 1, CharClass::IdentifierPart);
        let word = slice(chars, at, end);
        match keyword_of_command(word.as_str()) {
            Some(kind) => Found { kind, end, next: Mode::CommandExpression },
            None => {
                proof {
                    lemma_span_within(chars@, at + 1, CharClass::IdentifierPart);
                }
                Found {
                    kind: TokenKind::CommandText,
                    end: scan_command_text(chars, end),
                    next: Mode::CommandText,
                }
            },
        }
    } else {
        Found {
            kind: TokenKind::CommandText,
            end: scan_command_text(chars, at + 1),
            next: Mode::CommandText,
        }
    }
}

fn find_in_command_text(chars: &Vec<char>, at: usize) -> (found: Found)
    requires
        at < chars.len(),
    ensures
        found.lexeme() == command_text_lexeme(chars@, at as int),
{
    let c = chars[at];
    if line_break(c) {
        Found { kind: TokenKind::Newline, end: scan_newline(chars, at), next: Mode::Body }
    } else if c == '>' && peek_at(chars, at, 1) == '>' {
        Found { kind: TokenKind::CommandEnd, end: at + 2, next: Mode::Body }
    } else if c == '{' {
        Found {
            kind: TokenKind::ExpressionStart,
            end: at + 1,
            next: Mode::CommandTextExpression,
        }
    } else {
        Found {
            kind: TokenKind::CommandText,
            end: scan_command_text(chars, at + 1),
            next: Mode::CommandText,
        }
    }
}

fn find_operator(chars: &Vec<char>, at: usize, mode: Mode) -> (found: Option<Found>)
    requires
        at < chars.len(),
    ensures
        match found {
            Some(found) => operator_lexeme(chars@, at as int, mode) == Some(found.lexeme()),
            None => operator_lexeme(chars@, at as int, mode) is None,
        },
{
    let c = chars[at];
    let d = peek_at(chars, at, 1);
    if c == '=' && d == '=' {
        Some(Found { kind: TokenKind::EqualTo, end: at + 2, next: mode })
    } else if c == '!' && d == '=' {
        Some(Found { kind: TokenKind::NotEqualTo, end: at + 2, next: mode })
    } else if c == '<' && d == '=' {
        Some(Found { kind: TokenKind::LessThanOrEqualTo, end: at + 2, next: mode })
    } else if c == '>' && d == '=' {
        Some(Found { kind: TokenKind::GreaterThanOrEqualTo, end: at + 2, next: mode })
    } else if c == '&' && d == '&' {
        Some(Found { kind: TokenKind::And, end: at + 2, next: mode })
    } else if c == '|' && d == '|' {
        Some(Found { kind: TokenKind::Or, end: at + 2, next: mode })
    } else if c == '=' {
        Some(Found { kind: TokenKind::Assign, end: at + 1, next: mode })
    } else if c == '!' {
        Some(Found { kind: TokenKind::Not, end: at + 1, next: mode })
    } else if c == '<' {
        Some(Found { kind: TokenKind::LessThan, end: at + 1, next: mode })
    } else if c == '>' {
        Some(Found { kind: TokenKind::GreaterThan, end: at + 1, next: mode })
    } else if c == '^' {
        Some(Found { kind: TokenKind::Xor, end: at + 1, next: mode })
    } else if c == '+' {
        Some(Found { kind: TokenKind::Plus, end: at + 1, next: mode })
    } else if c == '-' {
        Some(Found { kind: TokenKind::Minus, end: at + 1, next: mode })
    } else if c == '*' {
        Some(Found { kind: TokenKind::Star, end: at + 1, next: mode })
    } else if c == '/' {
        Some(Found { kind: TokenKind::Slash, end: at + 1, next: mode })
    } else if c == '%' {
        Some(Found { kind: TokenKind::Percent, end: at + 1, next: mode })
    } else if c == '(' {
        Some(Found { kind: TokenKind::LeftParen, end: at + 1, next: mode })
    } else if c == ')' {
        Some(Found { kind: TokenKind::RightParen, end: at + 1, next: mode })
    } else if c == ',' {
        Some(Found { kind: TokenKind::Comma, end: at + 1, next: mode })
    } else {
        None
    }
}

fn mode_after_expression(mode: Mode) -> (next: Mode)
    ensures
        next == after_expression(mode),
{
    match mode {
        Mode::TextExpression => Mode::Text,
        Mode::CommandTextExpression => Mode::CommandText,
        _ => mode,
    }
}

fn find_in_expression(chars: &Vec<char>, at: usize, mode: Mode) -> (found: Found)
    requires
        at < chars.len(),
    ensures
        found.lexeme() == expression_lexeme(chars@, at as int, mode),
{
    let c = chars[at];
    if let Some(found) = find_trivia(chars, at, mode, Mode::Body) {
        found
    } else if mode == Mode::CommandExpression && c == '>' && peek_at(chars, at, 1) == '>' {
        Found { kind: TokenKind::CommandEnd, end: at + 2, next: Mode::Body }
    } else if mode != Mode::CommandExpression && c == '}' {
        Found { kind: TokenKind::ExpressionEnd, end: at + 1, next: mode_after_expression(mode) }
    } else if CharClass::Digit.matches(c) {
        Found { kind: TokenKind::Number, end: scan_number(chars, at), next: mode }
    } else if c == '"' {
        Found { kind: TokenKind::StringLiteral, end: scan_string(chars, at + 1), next: mode }
    } else if c == '$' {
        Found {
            kind: TokenKind::Variable,
            end: scan(chars, at + 1, CharClass::IdentifierPart),
            next: mode,
        }
    } else if identifier_start(c) {
        let end = scan(chars, at + 1, CharClass::IdentifierPart);
        let word = slice(chars, at, end);
        Found { kind: word_of_expression(word.as_str()), end, next: mode }
    } else if let Some(found) = find_operator(chars, at, mode) {
        found
    } else {
        Found { kind: TokenKind::Unknown, end: at + 1, next: mode }
    }
}

fn find(chars: &Vec<char>, at: usize, mode: Mode) -> (found: Found)
    requires
        at < chars.len(),
    ensures
        found.lexeme() == lexeme_at(chars@, at as int, mode),
        at < found.end <= chars.len(),
{
    proof {
        reveal(lexeme_at);
        lemma_lexeme_within(chars@, at as int, mode);
    }
    match mode {
        Mode::Header => find_in_header(chars, at),
        Mode::HeaderValue => find_in_header_value(chars, at),
        Mode::Body => find_in_body(chars, at, true),
        Mode::Text => find_in_body(chars, at, false),
        Mode::Command => find_in_command(chars, at),
        Mode::CommandText => find_in_command_text(chars, at),
        Mode::CommandExpression => find_in_expression(chars, at, mode),
        Mode::TextExpression => find_in_expression(chars, at, mode),
        Mode::CommandTextExpression => find_in_expression(chars, at, mode),
    }
}

fn channel(kind: TokenKind) -> (channel: Channel)
    ensures
        channel == channel_of(kind),
{
    match kind {
        TokenKind::Newline => Channel::Whitespace,
        TokenKind::Whitespace => Channel::Whitespace,
        TokenKind::Comment => Channel::Comments,
        _ => Channel::Default,
    }
}

/// The token made of the characters from `from` to `to`, and the position
/// behind it.
fn make_token(chars: &Vec<char>, from: usize, to: usize, kind: TokenKind, start: Position) -> (made:
    (Token, Position))
    requires
        from < to <= chars.len(),
        start.line + start.character <= from,
    ensures
        made.0@ == token_at(kind, chars@.subrange(from as int, to as int), start),
        made.1 == position_behind(start, chars@.subrange(from as int, to as int)),
        made.1.line + made.1.character <= to,
{
    let mut text = String::new();
    let mut position = start;
    let mut stop = start;
    let mut i = from;
    while i < to
        invariant
            from <= i <= to <= chars.len(),
            text@ == chars@.subrange(from as int, i as int),
            position == position_behind(start, chars@.subrange(from as int, i as int)),
            position.line + position.character <= i,
            i > from ==> stop == position_behind(
                start,
                chars@.subrange(from as int, i as int).drop_last(),
            ),
        decreases to - i,
    {
        let c = chars[i];
        text.push(c);
        stop = position;
        position = if c == '\n' {
            Position { line: position.line + 1, character: 0 }
        } else {
            Position { line: position.line, character: position.character + 1 }
        };
        proof {
            let more = chars@.subrange(from as int, i + 1);
            assert(more.drop_last() =~= chars@.subrange(from as int, i as int));
            assert(text@ =~= more);
        }
        i = i + 1;
    }
    (Token { kind, text, channel: channel(kind), start, stop }, position)
}

/// The characters of a string.
pub(crate) fn characters(input: &str) -> (chars: Vec<char>)
    ensures
        chars@ == input@,
{
    let mut chars: Vec<char> = Vec::new();
    for c in iter: input.chars()
        invariant
            iter.seq() == input@,
            chars@ == input@.take(iter.index()),
    {
        chars.push(c);
        proof {
            assert(chars@ =~= input@.take(iter.index() + 1));
        }
    }
    proof {
        assert(chars@ =~= input@);
    }
    chars
}

/// The tokens of a source text. Every character of the text lies in
/// exactly one token; the last token marks the end of the file.
pub fn lex(input: &str) -> (tokens: Vec<Token>)
    ensures
        tokens.deep_view() == lex_spec(input@),
{
    let chars = characters(input);
    let mut tokens: Vec<Token> = Vec::new();
    let mut at: usize = 0;
    let mut mode = Mode::Header;
    let mut position = Position { line: 0, character: 0 };
    proof {
        assert(tokens.deep_view() + lex_from(chars@, 0, mode, position) =~= lex_spec(input@));
    }
    while at < chars.len()
        invariant
            at <= chars.len(),
            chars@ == input@,
            position.line + position.character <= at,
            tokens.deep_view() + lex_from(chars@, at as int, mode, position) == lex_spec(input@),
        decreases chars.len() - at,
    {
        let ghost before = tokens.deep_view();
        let found = find(&chars, at, mode);
        let (token, behind) = make_token(&chars, at, found.end, found.kind, position);
        let ghost made = token@;
        tokens.push(token);
        proof {
            assert(tokens.deep_view() =~= before.push(made));
            assert(before.push(made) + lex_from(chars@, found.end as int, found.next, behind)
                =~= before + lex_from(chars@, at as int, mode, position));
        }
        at = found.end;
        mode = found.next;
        position = behind;
    }
    let ghost before = tokens.deep_view();
    tokens.push(
        Token {
            kind: TokenKind::EndOfFile,
            text: String::new(),
            channel: Channel::Default,
            start: position,
            stop: position,
        },
    );
    proof {
        assert(tokens.deep_view() =~= before + lex_from(chars@, at as int, mode, position));
    }
    tokens
}

} // verus!
