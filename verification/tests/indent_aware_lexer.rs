use yarn_slinger::compiler::declaration::Position;
use yarn_slinger::compiler::diagnostic::DiagnosticSeverity;
use yarn_slinger::compiler::indent_aware_lexer::IndentAwareYarnSpinnerLexer;
use yarn_slinger::compiler::lexer::lex;
use yarn_slinger::compiler::token::{lex_stream_to_text, Channel, Token, TokenKind};

/// Reads tokens up to and including the first end-of-file token.
fn all_tokens(lexer: &mut IndentAwareYarnSpinnerLexer) -> Vec<Token> {
    let mut tokens = Vec::new();
    loop {
        let token = lexer.next_token();
        let done = token.kind == TokenKind::EndOfFile;
        tokens.push(token);
        if done {
            return tokens;
        }
    }
}

fn kinds(tokens: &[Token]) -> Vec<TokenKind> {
    tokens.iter().map(|token| token.kind).collect()
}

/// The kinds of the tokens of a text that reach the parser or carry layout.
fn significant(input: &str) -> Vec<TokenKind> {
    let mut lexer = IndentAwareYarnSpinnerLexer::new(input);
    all_tokens(&mut lexer)
        .iter()
        .map(|token| token.kind)
        .filter(|kind| *kind != TokenKind::Whitespace)
        .collect()
}

fn count(tokens: &[TokenKind], kind: TokenKind) -> usize {
    tokens.iter().filter(|token| **token == kind).count()
}

const MINIMAL_INPUT: &str = "title: Minimal Yarn
---
This is the one and only line
===";

#[test]
fn behaves_like_lexer_for_unindented_input() {
    let reference_tokens = lex(MINIMAL_INPUT);
    let mut indent_aware_lexer = IndentAwareYarnSpinnerLexer::new(MINIMAL_INPUT);

    let indent_aware_tokens = all_tokens(&mut indent_aware_lexer);
    assert_eq!(reference_tokens.len(), indent_aware_tokens.len());

    // Sanity check: Make sure at least one token is read: We do have input.
    assert_eq!(reference_tokens.first(), indent_aware_tokens.first());

    let mut index = 0;
    while reference_tokens[index].kind != TokenKind::EndOfFile {
        assert_eq!(reference_tokens[index], indent_aware_tokens[index]);
        index += 1;
    }

    assert_eq!(TokenKind::EndOfFile, reference_tokens[index].kind);
    assert_eq!(TokenKind::EndOfFile, indent_aware_tokens[index].kind);
}

fn option_indentation_relevant_input() -> String {
    "title: Start
---
-> Option 1
    Nice.
-> Option 2
    Nicer
"
    .to_owned()
        + "    "
        + "
    But this belongs to it!

    And this doesn't
===
        "
}

#[test]
fn correctly_indents_and_dedents_with_token() {
    let option_indentation_relevant_input: &str = &option_indentation_relevant_input();

    let mut indent_aware_lexer =
        IndentAwareYarnSpinnerLexer::new(option_indentation_relevant_input);
    let tokens = kinds(&all_tokens(&mut indent_aware_lexer));

    assert!(tokens.contains(&TokenKind::Indent));
    assert!(tokens.contains(&TokenKind::Dedent));
}

#[test]
fn options_are_wrapped_in_indent_and_dedent_in_order() {
    let input = option_indentation_relevant_input();
    let mut lexer = IndentAwareYarnSpinnerLexer::new(&input);
    let tokens = all_tokens(&mut lexer);
    let found: Vec<TokenKind> = kinds(&tokens)
        .into_iter()
        .filter(|kind| *kind != TokenKind::Whitespace)
        .collect();
    assert_eq!(
        found,
        vec![
            TokenKind::Identifier,
            TokenKind::HeaderDelimiter,
            TokenKind::RestOfLine,
            TokenKind::Newline,
            TokenKind::BodyStart,
            TokenKind::Newline,
            TokenKind::ShortcutArrow,
            TokenKind::Text,
            TokenKind::Newline,
            TokenKind::Indent,
            TokenKind::Text,
            TokenKind::Newline,
            TokenKind::Dedent,
            TokenKind::ShortcutArrow,
            TokenKind::Text,
            TokenKind::Newline,
            TokenKind::Indent,
            TokenKind::Text,
            TokenKind::Newline,
            TokenKind::Newline,
            TokenKind::Text,
            TokenKind::Newline,
            TokenKind::Newline,
            TokenKind::Text,
            TokenKind::Newline,
            TokenKind::Dedent,
            TokenKind::BodyEnd,
            TokenKind::Newline,
            TokenKind::EndOfFile,
        ]
    );
    assert!(lexer.diagnostics().is_empty());
    // Synthetic tokens have no text: the stream still stands for the input.
    assert_eq!(lex_stream_to_text(&tokens), input);
}

#[test]
fn lexing_the_text_of_a_stream_gives_the_stream_again() {
    let input = option_indentation_relevant_input();
    let mut lexer = IndentAwareYarnSpinnerLexer::new(&input);
    let tokens = all_tokens(&mut lexer);
    let text = lex_stream_to_text(&tokens);
    let mut again = IndentAwareYarnSpinnerLexer::new(&text);
    assert_eq!(all_tokens(&mut again), tokens);
}

#[test]
fn indents_and_dedents_balance_at_end_of_file() {
    // Two nested options are still open where the input ends.
    let tokens = significant("title: A\n---\n-> A\n  -> B\n      deep");
    assert_eq!(count(&tokens, TokenKind::Indent), 2);
    assert_eq!(count(&tokens, TokenKind::Dedent), 2);
    let length = tokens.len();
    assert_eq!(
        tokens[length - 3..],
        [TokenKind::Dedent, TokenKind::Dedent, TokenKind::EndOfFile]
    );
}

#[test]
fn one_line_may_close_several_indents() {
    let tokens = significant("---\n->\n    ->\n        deep\nout");
    assert_eq!(
        tokens,
        vec![
            TokenKind::BodyStart,
            TokenKind::Newline,
            TokenKind::ShortcutArrow,
            TokenKind::Newline,
            TokenKind::Indent,
            TokenKind::ShortcutArrow,
            TokenKind::Newline,
            TokenKind::Indent,
            TokenKind::Text,
            TokenKind::Newline,
            TokenKind::Dedent,
            TokenKind::Dedent,
            TokenKind::Text,
            TokenKind::EndOfFile,
        ]
    );
}

#[test]
fn deeper_line_without_shortcut_is_no_indent() {
    let tokens = significant("---\na line\n    its continuation\nanother line");
    assert_eq!(count(&tokens, TokenKind::Indent), 0);
    assert_eq!(count(&tokens, TokenKind::Dedent), 0);
}

#[test]
fn malformed_dedent_is_reported_and_still_emitted() {
    // The option's body is indented by four; the line after it by two.
    let mut lexer = IndentAwareYarnSpinnerLexer::new("---\n->\n    body\n  neither in nor out");
    let tokens = all_tokens(&mut lexer);
    let found: Vec<TokenKind> = kinds(&tokens)
        .into_iter()
        .filter(|kind| *kind != TokenKind::Whitespace)
        .collect();
    assert_eq!(
        found,
        vec![
            TokenKind::BodyStart,
            TokenKind::Newline,
            TokenKind::ShortcutArrow,
            TokenKind::Newline,
            TokenKind::Indent,
            TokenKind::Text,
            TokenKind::Newline,
            TokenKind::Dedent,
            TokenKind::Text,
            TokenKind::EndOfFile,
        ]
    );
    let diagnostics = lexer.diagnostics();
    assert_eq!(diagnostics.len(), 1);
    assert_eq!(diagnostics[0].severity, DiagnosticSeverity::Warning);
    assert_eq!(
        diagnostics[0].message,
        "Indentation does not match any enclosing level"
    );
    let newline = tokens
        .iter()
        .filter(|token| token.kind == TokenKind::Newline)
        .nth(2)
        .unwrap();
    assert_eq!(newline.text, "\n  ");
    assert_eq!(*diagnostics[0].range.start(), newline.start);
    assert_eq!(*diagnostics[0].range.end(), newline.stop);
}

#[test]
fn body_end_resets_open_indents() {
    let tokens = significant("---\n->\n    body\n    ===\n");
    // The indent that was open at `===` is forgotten: nothing closes it.
    assert_eq!(count(&tokens, TokenKind::Indent), 1);
    assert_eq!(count(&tokens, TokenKind::Dedent), 0);
    assert_eq!(count(&tokens, TokenKind::BodyEnd), 1);
}

#[test]
fn synthetic_tokens_have_no_text_and_stand_at_their_newline() {
    let mut lexer = IndentAwareYarnSpinnerLexer::new("---\n->\n\tbody");
    let tokens = all_tokens(&mut lexer);
    assert_eq!(tokens[3].kind, TokenKind::Newline);
    assert_eq!(tokens[4].kind, TokenKind::Indent);
    assert_eq!(tokens[4].text, "");
    assert_eq!(tokens[4].channel, Channel::Default);
    assert_eq!(tokens[4].start, tokens[3].start);
    assert_eq!(tokens[4].stop, tokens[3].stop);
    assert_eq!(tokens[3].indentation(), 8);
}

#[test]
fn lexer_hands_out_end_of_file_again_and_again() {
    let end_of_file = Token {
        kind: TokenKind::EndOfFile,
        text: "<EOF>".to_owned(),
        channel: Channel::Default,
        start: Position { line: 0, character: 0 },
        stop: Position { line: 0, character: 0 },
    };
    let mut lexer = IndentAwareYarnSpinnerLexer::new("");
    assert!(lexer.last_token().is_none());
    assert_eq!(lexer.next_token(), end_of_file);
    assert!(lexer.last_token().is_none());
    assert_eq!(lexer.next_token(), end_of_file);
    assert_eq!(lexer.next_token(), end_of_file);
    assert_eq!(lexer.diagnostics().len(), 0);

    // Behind a text with characters, the end of the file stands where the text ends.
    let mut lexer = IndentAwareYarnSpinnerLexer::new("a");
    assert_eq!(lexer.next_token().text, "a");
    let last = lexer.next_token();
    assert_eq!(last.kind, TokenKind::EndOfFile);
    assert_eq!(last.start, Position { line: 0, character: 1 });
    assert_eq!(lexer.next_token(), end_of_file);
    assert_eq!(lexer.next_token(), end_of_file);

    let mut without_tokens = IndentAwareYarnSpinnerLexer::from_tokens(Vec::new());
    assert_eq!(without_tokens.next_token().kind, TokenKind::EndOfFile);
    assert!(without_tokens.last_token().is_none());
}

#[test]
fn lexer_wraps_tokens_of_any_base_lexer() {
    let token = |kind: TokenKind, text: &str| Token {
        kind,
        text: text.to_owned(),
        channel: Channel::Default,
        start: Position { line: 0, character: 0 },
        stop: Position { line: 0, character: 0 },
    };
    let base = vec![
        token(TokenKind::ShortcutArrow, "->"),
        token(TokenKind::Newline, "\n  "),
        token(TokenKind::Text, "body"),
        token(TokenKind::EndOfFile, ""),
    ];
    let mut lexer = IndentAwareYarnSpinnerLexer::from_tokens(base);
    assert_eq!(
        kinds(&all_tokens(&mut lexer)),
        vec![
            TokenKind::ShortcutArrow,
            TokenKind::Newline,
            TokenKind::Indent,
            TokenKind::Text,
            TokenKind::Dedent,
            TokenKind::EndOfFile,
        ]
    );
}

#[test]
fn indentation_counts_spaces_and_tabs() {
    let token = |text: &str| Token {
        kind: TokenKind::Newline,
        text: text.to_string(),
        channel: Channel::Whitespace,
        start: Position { line: 0, character: 0 },
        stop: Position { line: 1, character: 0 },
    };
    assert_eq!(token("\n").indentation(), 0);
    assert_eq!(token("\n   ").indentation(), 3);
    assert_eq!(token("\r\n \t ").indentation(), 10);
}
