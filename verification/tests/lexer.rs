use yarn_slinger::compiler::declaration::Position;
use yarn_slinger::compiler::lexer::{lex, CharClass};
use yarn_slinger::compiler::token::{lex_stream_to_text, Channel, Token, TokenKind};

fn lexemes(input: &str) -> Vec<(TokenKind, String)> {
    lex(input).into_iter().map(|token| (token.kind, token.text)).collect()
}

/// Kinds and lexemes without blanks.
fn words(input: &str) -> Vec<(TokenKind, String)> {
    lexemes(input)
        .into_iter()
        .filter(|(kind, _)| *kind != TokenKind::Whitespace)
        .collect()
}

fn expect(input: &str, expected: &[(TokenKind, &str)]) {
    let expected: Vec<(TokenKind, String)> =
        expected.iter().map(|(kind, text)| (*kind, text.to_string())).collect();
    assert_eq!(words(input), expected, "{input:?}");
}

fn position(line: usize, character: usize) -> Position {
    Position { line, character }
}

#[test]
fn empty_text_is_the_end_of_the_file() {
    let tokens = lex("");
    assert_eq!(
        tokens,
        vec![Token {
            kind: TokenKind::EndOfFile,
            text: String::new(),
            channel: Channel::Default,
            start: position(0, 0),
            stop: position(0, 0),
        }]
    );
}

#[test]
fn headers_are_keys_and_values() {
    expect(
        "title: Start\ntags: a b\n---\n",
        &[
            (TokenKind::Identifier, "title"),
            (TokenKind::HeaderDelimiter, ": "),
            (TokenKind::RestOfLine, "Start"),
            (TokenKind::Newline, "\n"),
            (TokenKind::Identifier, "tags"),
            (TokenKind::HeaderDelimiter, ": "),
            (TokenKind::RestOfLine, "a b"),
            (TokenKind::Newline, "\n"),
            (TokenKind::BodyStart, "---"),
            (TokenKind::Newline, "\n"),
            (TokenKind::EndOfFile, ""),
        ],
    );
}

#[test]
fn body_ends_where_the_headers_of_the_next_node_start() {
    expect(
        "---\nHello, world!\n===\ntitle: B",
        &[
            (TokenKind::BodyStart, "---"),
            (TokenKind::Newline, "\n"),
            (TokenKind::Text, "Hello, world!"),
            (TokenKind::Newline, "\n"),
            (TokenKind::BodyEnd, "==="),
            (TokenKind::Newline, "\n"),
            (TokenKind::Identifier, "title"),
            (TokenKind::HeaderDelimiter, ": "),
            (TokenKind::RestOfLine, "B"),
            (TokenKind::EndOfFile, ""),
        ],
    );
}

#[test]
fn text_ends_at_hashtags_expressions_commands_and_comments() {
    expect(
        "---\nYou have {$gold} coins <<wave>> #line:a1 #tone:dry // really\n",
        &[
            (TokenKind::BodyStart, "---"),
            (TokenKind::Newline, "\n"),
            (TokenKind::Text, "You have "),
            (TokenKind::ExpressionStart, "{"),
            (TokenKind::Variable, "$gold"),
            (TokenKind::ExpressionEnd, "}"),
            (TokenKind::Text, " coins "),
            (TokenKind::CommandStart, "<<"),
            (TokenKind::CommandText, "wave"),
            (TokenKind::CommandEnd, ">>"),
            (TokenKind::Hashtag, "#line:a1"),
            (TokenKind::Text, " "),
            (TokenKind::Hashtag, "#tone:dry"),
            (TokenKind::Text, " "),
            (TokenKind::Comment, "// really"),
            (TokenKind::Newline, "\n"),
            (TokenKind::EndOfFile, ""),
        ],
    );
}

#[test]
fn backslash_keeps_a_character_in_the_text() {
    expect(
        "---\na \\# b \\{c\\} \\<< d < e / f",
        &[
            (TokenKind::BodyStart, "---"),
            (TokenKind::Newline, "\n"),
            (TokenKind::Text, "a \\# b \\{c\\} \\<< d < e / f"),
            (TokenKind::EndOfFile, ""),
        ],
    );
    expect(
        "---\n\\#tag",
        &[
            (TokenKind::BodyStart, "---"),
            (TokenKind::Newline, "\n"),
            (TokenKind::Text, "\\#tag"),
            (TokenKind::EndOfFile, ""),
        ],
    );
}

#[test]
fn arrow_and_body_end_count_only_where_a_statement_starts() {
    expect(
        "---\n-> go -> on === x\n",
        &[
            (TokenKind::BodyStart, "---"),
            (TokenKind::Newline, "\n"),
            (TokenKind::ShortcutArrow, "->"),
            (TokenKind::Text, "go -> on === x"),
            (TokenKind::Newline, "\n"),
            (TokenKind::EndOfFile, ""),
        ],
    );
}

#[test]
fn commands_of_the_language_hold_expressions() {
    expect(
        "---\n<<set $x to $x + 1.5>>\n<<declare $name = \"Ann \\\"A\\\"\">>\n",
        &[
            (TokenKind::BodyStart, "---"),
            (TokenKind::Newline, "\n"),
            (TokenKind::CommandStart, "<<"),
            (TokenKind::CommandSet, "set"),
            (TokenKind::Variable, "$x"),
            (TokenKind::To, "to"),
            (TokenKind::Variable, "$x"),
            (TokenKind::Plus, "+"),
            (TokenKind::Number, "1.5"),
            (TokenKind::CommandEnd, ">>"),
            (TokenKind::Newline, "\n"),
            (TokenKind::CommandStart, "<<"),
            (TokenKind::CommandDeclare, "declare"),
            (TokenKind::Variable, "$name"),
            (TokenKind::Assign, "="),
            (TokenKind::StringLiteral, "\"Ann \\\"A\\\"\""),
            (TokenKind::CommandEnd, ">>"),
            (TokenKind::Newline, "\n"),
            (TokenKind::EndOfFile, ""),
        ],
    );
}

#[test]
fn if_else_on_one_line() {
    expect(
        "---\n<<if $visited_intro>>Hi again<<else>>Hi<<endif>>",
        &[
            (TokenKind::BodyStart, "---"),
            (TokenKind::Newline, "\n"),
            (TokenKind::CommandStart, "<<"),
            (TokenKind::CommandIf, "if"),
            (TokenKind::Variable, "$visited_intro"),
            (TokenKind::CommandEnd, ">>"),
            (TokenKind::Text, "Hi again"),
            (TokenKind::CommandStart, "<<"),
            (TokenKind::CommandElse, "else"),
            (TokenKind::CommandEnd, ">>"),
            (TokenKind::Text, "Hi"),
            (TokenKind::CommandStart, "<<"),
            (TokenKind::CommandEndIf, "endif"),
            (TokenKind::CommandEnd, ">>"),
            (TokenKind::EndOfFile, ""),
        ],
    );
}

#[test]
fn operators_and_keywords_of_expressions() {
    expect(
        "---\n<<if not (f(1, 2) >= 3 and $a != $b) or $c is true xor 1 <= 2 % 3 * 4 / 5 - 6>>",
        &[
            (TokenKind::BodyStart, "---"),
            (TokenKind::Newline, "\n"),
            (TokenKind::CommandStart, "<<"),
            (TokenKind::CommandIf, "if"),
            (TokenKind::Not, "not"),
            (TokenKind::LeftParen, "("),
            (TokenKind::Identifier, "f"),
            (TokenKind::LeftParen, "("),
            (TokenKind::Number, "1"),
            (TokenKind::Comma, ","),
            (TokenKind::Number, "2"),
            (TokenKind::RightParen, ")"),
            (TokenKind::GreaterThanOrEqualTo, ">="),
            (TokenKind::Number, "3"),
            (TokenKind::And, "and"),
            (TokenKind::Variable, "$a"),
            (TokenKind::NotEqualTo, "!="),
            (TokenKind::Variable, "$b"),
            (TokenKind::RightParen, ")"),
            (TokenKind::Or, "or"),
            (TokenKind::Variable, "$c"),
            (TokenKind::EqualTo, "is"),
            (TokenKind::True, "true"),
            (TokenKind::Xor, "xor"),
            (TokenKind::Number, "1"),
            (TokenKind::LessThanOrEqualTo, "<="),
            (TokenKind::Number, "2"),
            (TokenKind::Percent, "%"),
            (TokenKind::Number, "3"),
            (TokenKind::Star, "*"),
            (TokenKind::Number, "4"),
            (TokenKind::Slash, "/"),
            (TokenKind::Number, "5"),
            (TokenKind::Minus, "-"),
            (TokenKind::Number, "6"),
            (TokenKind::CommandEnd, ">>"),
            (TokenKind::EndOfFile, ""),
        ],
    );
    expect(
        "---\n{!$a && $b || $c ^ false == $d < 1 > 2 eq neq lt lte gt gte}",
        &[
            (TokenKind::BodyStart, "---"),
            (TokenKind::Newline, "\n"),
            (TokenKind::ExpressionStart, "{"),
            (TokenKind::Not, "!"),
            (TokenKind::Variable, "$a"),
            (TokenKind::And, "&&"),
            (TokenKind::Variable, "$b"),
            (TokenKind::Or, "||"),
            (TokenKind::Variable, "$c"),
            (TokenKind::Xor, "^"),
            (TokenKind::False, "false"),
            (TokenKind::EqualTo, "=="),
            (TokenKind::Variable, "$d"),
            (TokenKind::LessThan, "<"),
            (TokenKind::Number, "1"),
            (TokenKind::GreaterThan, ">"),
            (TokenKind::Number, "2"),
            (TokenKind::EqualTo, "eq"),
            (TokenKind::NotEqualTo, "neq"),
            (TokenKind::LessThan, "lt"),
            (TokenKind::LessThanOrEqualTo, "lte"),
            (TokenKind::GreaterThan, "gt"),
            (TokenKind::GreaterThanOrEqualTo, "gte"),
            (TokenKind::ExpressionEnd, "}"),
            (TokenKind::EndOfFile, ""),
        ],
    );
}

#[test]
fn jump_stop_and_call() {
    expect(
        "---\n<<jump Other.Node>>\n<<stop>>\n<<call greet(\"you\")>>\n<<elseif 1>>",
        &[
            (TokenKind::BodyStart, "---"),
            (TokenKind::Newline, "\n"),
            (TokenKind::CommandStart, "<<"),
            (TokenKind::CommandJump, "jump"),
            (TokenKind::Identifier, "Other.Node"),
            (TokenKind::CommandEnd, ">>"),
            (TokenKind::Newline, "\n"),
            (TokenKind::CommandStart, "<<"),
            (TokenKind::CommandStop, "stop"),
            (TokenKind::CommandEnd, ">>"),
            (TokenKind::Newline, "\n"),
            (TokenKind::CommandStart, "<<"),
            (TokenKind::CommandCall, "call"),
            (TokenKind::Identifier, "greet"),
            (TokenKind::LeftParen, "("),
            (TokenKind::StringLiteral, "\"you\""),
            (TokenKind::RightParen, ")"),
            (TokenKind::CommandEnd, ">>"),
            (TokenKind::Newline, "\n"),
            (TokenKind::CommandStart, "<<"),
            (TokenKind::CommandElseIf, "elseif"),
            (TokenKind::Number, "1"),
            (TokenKind::CommandEnd, ">>"),
            (TokenKind::EndOfFile, ""),
        ],
    );
}

#[test]
fn commands_for_the_host_are_text_with_expressions() {
    expect(
        "---\n<<shake camera {$strength} times>>",
        &[
            (TokenKind::BodyStart, "---"),
            (TokenKind::Newline, "\n"),
            (TokenKind::CommandStart, "<<"),
            (TokenKind::CommandText, "shake camera "),
            (TokenKind::ExpressionStart, "{"),
            (TokenKind::Variable, "$strength"),
            (TokenKind::ExpressionEnd, "}"),
            (TokenKind::CommandText, " times"),
            (TokenKind::CommandEnd, ">>"),
            (TokenKind::EndOfFile, ""),
        ],
    );
    // A word that only starts like a keyword is no keyword.
    expect(
        "---\n<<settle down>>",
        &[
            (TokenKind::BodyStart, "---"),
            (TokenKind::Newline, "\n"),
            (TokenKind::CommandStart, "<<"),
            (TokenKind::CommandText, "settle down"),
            (TokenKind::CommandEnd, ">>"),
            (TokenKind::EndOfFile, ""),
        ],
    );
}

#[test]
fn what_is_left_open_ends_with_its_line() {
    expect(
        "---\n<<set $x to \"open\nnext {1 +\nlast",
        &[
            (TokenKind::BodyStart, "---"),
            (TokenKind::Newline, "\n"),
            (TokenKind::CommandStart, "<<"),
            (TokenKind::CommandSet, "set"),
            (TokenKind::Variable, "$x"),
            (TokenKind::To, "to"),
            (TokenKind::StringLiteral, "\"open"),
            (TokenKind::Newline, "\n"),
            (TokenKind::Text, "next "),
            (TokenKind::ExpressionStart, "{"),
            (TokenKind::Number, "1"),
            (TokenKind::Plus, "+"),
            (TokenKind::Newline, "\n"),
            (TokenKind::Text, "last"),
            (TokenKind::EndOfFile, ""),
        ],
    );
}

#[test]
fn characters_that_fit_nowhere_are_tokens_of_their_own() {
    expect(
        "?x\n---\n{ ~ }",
        &[
            (TokenKind::Unknown, "?"),
            (TokenKind::Identifier, "x"),
            (TokenKind::Newline, "\n"),
            (TokenKind::BodyStart, "---"),
            (TokenKind::Newline, "\n"),
            (TokenKind::ExpressionStart, "{"),
            (TokenKind::Unknown, "~"),
            (TokenKind::ExpressionEnd, "}"),
            (TokenKind::EndOfFile, ""),
        ],
    );
}

#[test]
fn numbers_take_a_point_only_with_digits_behind_it() {
    expect(
        "---\n{12.5 3. 4.x}",
        &[
            (TokenKind::BodyStart, "---"),
            (TokenKind::Newline, "\n"),
            (TokenKind::ExpressionStart, "{"),
            (TokenKind::Number, "12.5"),
            (TokenKind::Number, "3"),
            (TokenKind::Unknown, "."),
            (TokenKind::Number, "4"),
            (TokenKind::Unknown, "."),
            (TokenKind::Identifier, "x"),
            (TokenKind::ExpressionEnd, "}"),
            (TokenKind::EndOfFile, ""),
        ],
    );
}

#[test]
fn newline_holds_the_indentation_of_the_next_line() {
    expect(
        "---\r\n  a\n\n\tb\r c",
        &[
            (TokenKind::BodyStart, "---"),
            (TokenKind::Newline, "\r\n  "),
            (TokenKind::Text, "a"),
            (TokenKind::Newline, "\n"),
            (TokenKind::Newline, "\n\t"),
            (TokenKind::Text, "b"),
            (TokenKind::Newline, "\r "),
            (TokenKind::Text, "c"),
            (TokenKind::EndOfFile, ""),
        ],
    );
}

#[test]
fn tokens_know_where_they_stand() {
    let tokens = lex("title: A\n---\nHé {$x}\n");
    let found: Vec<(TokenKind, Position, Position)> =
        tokens.iter().map(|token| (token.kind, token.start, token.stop)).collect();
    assert_eq!(
        found,
        vec![
            (TokenKind::Identifier, position(0, 0), position(0, 4)),
            (TokenKind::HeaderDelimiter, position(0, 5), position(0, 6)),
            (TokenKind::RestOfLine, position(0, 7), position(0, 7)),
            (TokenKind::Newline, position(0, 8), position(0, 8)),
            (TokenKind::BodyStart, position(1, 0), position(1, 2)),
            (TokenKind::Newline, position(1, 3), position(1, 3)),
            (TokenKind::Text, position(2, 0), position(2, 2)),
            (TokenKind::ExpressionStart, position(2, 3), position(2, 3)),
            (TokenKind::Variable, position(2, 4), position(2, 5)),
            (TokenKind::ExpressionEnd, position(2, 6), position(2, 6)),
            (TokenKind::Newline, position(2, 7), position(2, 7)),
            (TokenKind::EndOfFile, position(3, 0), position(3, 0)),
        ]
    );
    assert_eq!(tokens[3].channel, Channel::Whitespace);
    assert_eq!(tokens[0].channel, Channel::Default);
    assert_eq!(lex("// c")[0].channel, Channel::Comments);
    assert_eq!(lex(" x")[0].channel, Channel::Whitespace);
}

#[test]
fn every_character_lies_in_exactly_one_token() {
    for input in [
        "",
        "title: A\n---\nHello, world!\n===\n",
        "---\n-> a <<if $x>>\n    b {1 + \"two\"} #tag\n<<custom {$x} y>>\n===\ntitle: B\n---\n",
        "\u{1F600} \\ \r\r\n\t<< >> { } \" $ # // --- === ->",
        "---\n<<\n{\n\"\n$\n#\n\\",
    ] {
        assert_eq!(lex_stream_to_text(&lex(input)), input, "{input:?}");
        for token in &lex(input)[..lex(input).len() - 1] {
            assert!(!token.text.is_empty());
        }
    }
}

#[test]
fn classes_of_characters() {
    assert!(CharClass::Blank.matches(' '));
    assert!(CharClass::Blank.matches('\t'));
    assert!(!CharClass::Blank.matches('\n'));
    assert!(CharClass::Digit.matches('0'));
    assert!(CharClass::Digit.matches('9'));
    assert!(!CharClass::Digit.matches('a'));
    assert!(CharClass::IdentifierPart.matches('_'));
    assert!(CharClass::IdentifierPart.matches('.'));
    assert!(CharClass::IdentifierPart.matches('é'));
    assert!(CharClass::IdentifierPart.matches('7'));
    assert!(!CharClass::IdentifierPart.matches('-'));
    assert!(CharClass::WithinLine.matches(' '));
    assert!(!CharClass::WithinLine.matches('\r'));
    assert!(CharClass::HashtagText.matches(':'));
    assert!(!CharClass::HashtagText.matches('#'));
    assert!(!CharClass::HashtagText.matches(' '));
    assert!(!CharClass::HashtagText.matches('<'));
    assert!(!CharClass::HashtagText.matches('$'));
}
