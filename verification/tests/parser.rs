use yarn_slinger::compiler::ast::{
    Clause, DialogueTree, Expression, Header, LinePart, NodeTree, ShortcutOption, Statement,
};
use yarn_slinger::compiler::declaration::Position;
use yarn_slinger::compiler::diagnostic::{Diagnostic, DiagnosticSeverity};
use yarn_slinger::compiler::file_parse_result::FileParseResult;
use yarn_slinger::compiler::lexer::lex;
use yarn_slinger::compiler::parser::{parse, significant_tokens};
use yarn_slinger::compiler::token::TokenKind;
use yarn_slinger::types::Operator;

const ORIGIN: Position = Position { line: 0, character: 0 };

fn at(line: usize, character: usize) -> Position {
    Position { line, character }
}

fn parse_file(source: &str) -> FileParseResult {
    FileParseResult::new("test.yarn".to_owned(), source)
}

fn forget_positions(statements: &mut Vec<Statement>) {
    for statement in statements {
        match statement {
            Statement::Line { start, .. }
            | Statement::Assign { start, .. }
            | Statement::Declare { start, .. }
            | Statement::Jump { start, .. }
            | Statement::Stop { start }
            | Statement::Call { start, .. }
            | Statement::Command { start, .. } => *start = ORIGIN,
            Statement::Options { options, start } => {
                *start = ORIGIN;
                for option in options {
                    option.start = ORIGIN;
                    forget_positions(&mut option.body);
                }
            }
            Statement::If { clauses, otherwise, start } => {
                *start = ORIGIN;
                for clause in clauses {
                    forget_positions(&mut clause.body);
                }
                if let Some(body) = otherwise {
                    forget_positions(body);
                }
            }
        }
    }
}

/// The statements of the body `source`, without their positions, and the
/// messages of the diagnostics.
fn body(source: &str) -> (Vec<Statement>, Vec<String>) {
    let result = parse_file(&format!("title: Test\n---\n{source}\n===\n"));
    let mut tree = result.tree;
    assert_eq!(tree.nodes.len(), 1);
    let mut statements = tree.nodes.remove(0).body;
    forget_positions(&mut statements);
    (statements, result.diagnostics.into_iter().map(|d| d.message).collect())
}

fn clean_body(source: &str) -> Vec<Statement> {
    let (statements, messages) = body(source);
    assert_eq!(messages, Vec::<String>::new(), "{source:?}");
    statements
}

/// The expression `source`, parsed as the value of an assignment.
fn expression(source: &str) -> Expression {
    let mut statements = clean_body(&format!("<<set $x to {source}>>"));
    match statements.remove(0) {
        Statement::Assign { value, .. } => value,
        other => panic!("{other:?}"),
    }
}

fn text(text: &str) -> LinePart {
    LinePart::Text(text.to_owned())
}

fn line(parts: Vec<LinePart>, hashtags: &[&str]) -> Statement {
    Statement::Line {
        parts,
        hashtags: hashtags.iter().map(|tag| tag.to_string()).collect(),
        start: ORIGIN,
    }
}

fn plain(words: &str) -> Statement {
    line(vec![text(words)], &[])
}

fn number(literal: &str) -> Expression {
    Expression::Number(literal.to_owned())
}

fn variable(name: &str) -> Expression {
    Expression::Variable(name.to_owned())
}

fn binary(operator: Operator, left: Expression, right: Expression) -> Expression {
    Expression::Binary { operator, left: Box::new(left), right: Box::new(right) }
}

fn unary(operator: Operator, operand: Expression) -> Expression {
    Expression::Unary { operator, operand: Box::new(operand) }
}

fn call(function: &str, arguments: Vec<Expression>) -> Expression {
    Expression::Call { function: function.to_owned(), arguments }
}

#[test]
fn hello_world_is_one_node_with_one_line() {
    let result = parse_file("title: A\n---\nHello, world!\n===\n");
    assert_eq!(result.name, "test.yarn");
    assert_eq!(result.diagnostics, vec![]);
    assert_eq!(
        result.tree,
        DialogueTree {
            nodes: vec![NodeTree {
                headers: vec![Header { key: "title".to_owned(), value: "A".to_owned() }],
                body: vec![Statement::Line {
                    parts: vec![text("Hello, world!")],
                    hashtags: vec![],
                    start: at(2, 0),
                }],
                start: at(0, 0),
            }],
        }
    );
    let kinds: Vec<TokenKind> = result.tokens.iter().map(|token| token.kind).collect();
    assert_eq!(kinds.last(), Some(&TokenKind::EndOfFile));
    assert_eq!(kinds.len(), 11);
}

#[test]
fn file_holds_several_nodes_with_their_headers() {
    let result = parse_file(
        "\n#file_tag\ntitle: A\ntags: a b\nempty:\n---\n===\n\ntitle: B\n---\nB\n===\n",
    );
    assert_eq!(result.diagnostics, vec![]);
    let header = |key: &str, value: &str| Header { key: key.to_owned(), value: value.to_owned() };
    assert_eq!(
        result.tree.nodes,
        vec![
            NodeTree {
                headers: vec![header("title", "A"), header("tags", "a b"), header("empty", "")],
                body: vec![],
                start: at(1, 0),
            },
            NodeTree {
                headers: vec![header("title", "B")],
                body: vec![Statement::Line {
                    parts: vec![text("B")],
                    hashtags: vec![],
                    start: at(10, 0),
                }],
                start: at(8, 0),
            },
        ]
    );
    assert_eq!(parse_file("").tree, DialogueTree { nodes: vec![] });
    assert_eq!(parse_file("\n\n  \n").tree, DialogueTree { nodes: vec![] });
}

#[test]
fn lines_hold_text_expressions_and_hashtags() {
    assert_eq!(
        clean_body("You have {$gold + 1} coins, {name()}!   #line:a1 #tone:dry  // well"),
        vec![line(
            vec![
                text("You have "),
                LinePart::Expression(binary(Operator::Add, variable("$gold"), number("1"))),
                text(" coins, "),
                LinePart::Expression(call("name", vec![])),
                text("!"),
            ],
            &["line:a1", "tone:dry"],
        )]
    );
    assert_eq!(clean_body("#lonely"), vec![line(vec![], &["lonely"])]);
    assert_eq!(
        clean_body("{$x}"),
        vec![line(vec![LinePart::Expression(variable("$x"))], &[])]
    );
    assert_eq!(
        clean_body("a \\# b \\{c\\} \\\\ d"),
        vec![plain("a # b {c} \\ d")]
    );
    assert_eq!(clean_body("one\n\n\ntwo"), vec![plain("one"), plain("two")]);
}

#[test]
fn declare_and_set() {
    assert_eq!(
        clean_body("<<declare $x = 3>>\n<<set $x to $x + 1>>\n<<set $name = \"a \\\"b\\\"\">>"),
        vec![
            Statement::Declare { variable: "$x".to_owned(), value: number("3"), start: ORIGIN },
            Statement::Assign {
                variable: "$x".to_owned(),
                value: binary(Operator::Add, variable("$x"), number("1")),
                start: ORIGIN,
            },
            Statement::Assign {
                variable: "$name".to_owned(),
                value: Expression::Text("a \"b\"".to_owned()),
                start: ORIGIN,
            },
        ]
    );
}

#[test]
fn jump_stop_call_and_commands_for_the_host() {
    assert_eq!(
        clean_body("<<jump Other.Node>>\n<<stop>>\n<<call greet(\"you\", 2)>>\n<<shake {$n} times>>\n<<wave>>"),
        vec![
            Statement::Jump { destination: "Other.Node".to_owned(), start: ORIGIN },
            Statement::Stop { start: ORIGIN },
            Statement::Call {
                call: call("greet", vec![Expression::Text("you".to_owned()), number("2")]),
                start: ORIGIN,
            },
            Statement::Command {
                parts: vec![
                    text("shake "),
                    LinePart::Expression(variable("$n")),
                    text(" times"),
                ],
                start: ORIGIN,
            },
            Statement::Command { parts: vec![text("wave")], start: ORIGIN },
        ]
    );
}

#[test]
fn operators_bind_by_precedence_and_to_the_left() {
    assert_eq!(
        expression("1 + 2 * 3 - 4"),
        binary(
            Operator::Subtract,
            binary(Operator::Add, number("1"), binary(Operator::Multiply, number("2"), number("3"))),
            number("4")
        )
    );
    assert_eq!(
        expression("8 / 4 / 2 % 3"),
        binary(
            Operator::Modulo,
            binary(Operator::Divide, binary(Operator::Divide, number("8"), number("4")), number("2")),
            number("3")
        )
    );
    assert_eq!(
        expression("(1 + 2) * 3"),
        binary(Operator::Multiply, binary(Operator::Add, number("1"), number("2")), number("3"))
    );
    assert_eq!(
        expression("not $a and $b or $c xor true"),
        binary(
            Operator::Xor,
            binary(Operator::Or, binary(Operator::And, unary(Operator::Not, variable("$a")), variable("$b")), variable("$c")),
            Expression::Bool(true)
        )
    );
    assert_eq!(
        expression("$a == $b < 1 + 2"),
        binary(
            Operator::EqualTo,
            variable("$a"),
            binary(Operator::LessThan, variable("$b"), binary(Operator::Add, number("1"), number("2")))
        )
    );
    assert_eq!(
        expression("1 <= 2 != false"),
        binary(
            Operator::NotEqualTo,
            binary(Operator::LessThanOrEqualTo, number("1"), number("2")),
            Expression::Bool(false)
        )
    );
    assert_eq!(
        expression("1 > 2 or 3 >= 4"),
        binary(
            Operator::Or,
            binary(Operator::GreaterThan, number("1"), number("2")),
            binary(Operator::GreaterThanOrEqualTo, number("3"), number("4"))
        )
    );
    assert_eq!(
        expression("- - 1 - -2"),
        binary(
            Operator::Subtract,
            unary(Operator::UnarySubtract, unary(Operator::UnarySubtract, number("1"))),
            unary(Operator::UnarySubtract, number("2"))
        )
    );
    assert_eq!(
        expression("!f(1, g(2) + 3,)"),
        unary(
            Operator::Not,
            call("f", vec![number("1"), binary(Operator::Add, call("g", vec![number("2")]), number("3"))])
        )
    );
}

fn option(
    words: &str,
    condition: Option<Expression>,
    hashtags: &[&str],
    body: Vec<Statement>,
) -> ShortcutOption {
    ShortcutOption {
        parts: vec![text(words)],
        hashtags: hashtags.iter().map(|tag| tag.to_string()).collect(),
        condition,
        body,
        start: ORIGIN,
    }
}

#[test]
fn options_have_conditions_and_bodies() {
    let source = "-> Option 1 <<if $a>> #line:o1
    Nice.
    -> Nested
        Deep.
    Back.
-> Option 2

    After a blank line.
Out.";
    assert_eq!(
        clean_body(source),
        vec![
            Statement::Options {
                options: vec![
                    option(
                        "Option 1",
                        Some(variable("$a")),
                        &["line:o1"],
                        vec![
                            plain("Nice."),
                            Statement::Options {
                                options: vec![option("Nested", None, &[], vec![plain("Deep.")])],
                                start: ORIGIN,
                            },
                            plain("Back."),
                        ],
                    ),
                    option("Option 2", None, &[], vec![plain("After a blank line.")]),
                ],
                start: ORIGIN,
            },
            plain("Out."),
        ]
    );
    // An option without a body.
    assert_eq!(
        clean_body("-> A\n-> B\nC"),
        vec![
            Statement::Options {
                options: vec![option("A", None, &[], vec![]), option("B", None, &[], vec![])],
                start: ORIGIN,
            },
            plain("C"),
        ]
    );
}

#[test]
fn if_has_clauses_and_an_else() {
    let expected = vec![Statement::If {
        clauses: vec![
            Clause { condition: variable("$a"), body: vec![plain("A")] },
            Clause {
                condition: binary(Operator::GreaterThan, variable("$b"), number("1")),
                body: vec![plain("B"), plain("B2")],
            },
        ],
        otherwise: Some(vec![plain("C")]),
        start: ORIGIN,
    }];
    assert_eq!(
        clean_body("<<if $a>>\nA\n<<elseif $b > 1>>\nB\nB2\n<<else>>\nC\n<<endif>>"),
        expected
    );
    assert_eq!(
        clean_body("<<if $visited_intro>>Hi again<<else>>Hi<<endif>>"),
        vec![Statement::If {
            clauses: vec![Clause {
                condition: variable("$visited_intro"),
                body: vec![plain("Hi again")],
            }],
            otherwise: Some(vec![plain("Hi")]),
            start: ORIGIN,
        }]
    );
    assert_eq!(
        clean_body("<<if true>>\n<<if false>>\nx\n<<endif>>\n<<endif>>\nafter"),
        vec![
            Statement::If {
                clauses: vec![Clause {
                    condition: Expression::Bool(true),
                    body: vec![Statement::If {
                        clauses: vec![Clause {
                            condition: Expression::Bool(false),
                            body: vec![plain("x")],
                        }],
                        otherwise: None,
                        start: ORIGIN,
                    }],
                }],
                otherwise: None,
                start: ORIGIN,
            },
            plain("after"),
        ]
    );
}

#[test]
fn statements_know_where_they_start() {
    let result = parse_file("title: A\n---\nOne\n  <<stop>>\n-> a\n    <<jump B>>\n===\n");
    assert_eq!(result.diagnostics, vec![]);
    assert_eq!(
        result.tree.nodes[0].body,
        vec![
            Statement::Line { parts: vec![text("One")], hashtags: vec![], start: at(2, 0) },
            Statement::Stop { start: at(3, 2) },
            Statement::Options {
                options: vec![ShortcutOption {
                    parts: vec![text("a")],
                    hashtags: vec![],
                    condition: None,
                    body: vec![Statement::Jump { destination: "B".to_owned(), start: at(5, 4) }],
                    start: at(4, 0),
                }],
                start: at(4, 0),
            },
        ]
    );
}

#[test]
fn what_is_missing_is_reported_and_made_up() {
    let (statements, messages) = body("<<if $a>>\nA");
    assert_eq!(
        statements,
        vec![Statement::If {
            clauses: vec![Clause { condition: variable("$a"), body: vec![plain("A")] }],
            otherwise: None,
            start: ORIGIN,
        }]
    );
    assert_eq!(messages, vec!["Expected '<<endif>>'"]);

    let (statements, messages) = body("<<set $x to>>");
    assert_eq!(
        statements,
        vec![Statement::Assign {
            variable: "$x".to_owned(),
            value: Expression::Missing,
            start: ORIGIN,
        }]
    );
    assert_eq!(messages, vec!["Expected an expression"]);

    let (statements, messages) = body("<<set x 1>>");
    assert_eq!(
        statements,
        vec![Statement::Assign {
            variable: String::new(),
            value: call("x", vec![number("1")]),
            start: ORIGIN,
        }]
    );
    assert_eq!(
        messages,
        vec![
            "Expected a variable",
            "Expected 'to' or '='",
            "Expected '(' behind the name of a function",
            "Expected ')' behind the arguments",
        ]
    );

    let (statements, messages) = body("<<jump>>\n<<stop now>>\nlast");
    assert_eq!(
        statements[0],
        Statement::Jump { destination: String::new(), start: ORIGIN }
    );
    assert_eq!(statements[1], Statement::Stop { start: ORIGIN });
    assert_eq!(statements.last(), Some(&plain("last")));
    assert_eq!(messages[0], "Expected the name of a node");
    assert_eq!(messages[1], "Expected '>>'");

    let (statements, messages) = body("{1 + } and {(2}");
    assert_eq!(
        statements,
        vec![line(
            vec![
                LinePart::Expression(binary(Operator::Add, number("1"), Expression::Missing)),
                text(" and "),
                LinePart::Expression(number("2")),
            ],
            &[],
        )]
    );
    assert_eq!(messages, vec!["Expected an expression", "Expected ')'"]);
}

#[test]
fn what_is_in_the_way_is_reported_and_skipped() {
    let (statements, messages) = body("<<endif>>\nA\n<<else>>\nB");
    assert_eq!(statements, vec![plain("A"), plain("B")]);
    assert_eq!(messages.len(), 6);
    assert!(messages.iter().all(|message| message == "Expected a statement"));

    let result = parse_file("? title: A\n---\nA\n");
    let messages: Vec<&str> = result.diagnostics.iter().map(|d| d.message.as_str()).collect();
    assert_eq!(messages, vec!["Expected a header", "Expected '==='"]);
    assert_eq!(result.tree.nodes.len(), 1);
    assert_eq!(result.tree.nodes[0].headers.len(), 1);
    assert_eq!(*result.diagnostics[0].range.start(), at(0, 0));
    assert_eq!(*result.diagnostics[0].range.end(), at(0, 0));
    assert_eq!(result.diagnostics[0].severity, DiagnosticSeverity::Error);
    assert_eq!(*result.diagnostics[1].range.start(), at(3, 0));

    let result = parse_file("title A\n");
    let messages: Vec<&str> = result.diagnostics.iter().map(|d| d.message.as_str()).collect();
    assert_eq!(
        messages,
        vec![
            "Expected ':' behind the key of a header",
            "Expected ':' behind the key of a header",
            "Expected '---'",
        ]
    );
    assert_eq!(result.tree.nodes.len(), 1);
    assert_eq!(result.tree.nodes[0].headers.len(), 2);
}

#[test]
fn diagnostics_of_the_lexer_come_first() {
    let result = parse_file("title: A\n---\n-> a\n    b\n  c <<set>>\n===\n");
    let found: Vec<(DiagnosticSeverity, &str)> = result
        .diagnostics
        .iter()
        .map(|d: &Diagnostic| (d.severity, d.message.as_str()))
        .collect();
    assert_eq!(
        found,
        vec![
            (DiagnosticSeverity::Warning, "Indentation does not match any enclosing level"),
            (DiagnosticSeverity::Error, "Expected a variable"),
            (DiagnosticSeverity::Error, "Expected 'to' or '='"),
            (DiagnosticSeverity::Error, "Expected an expression"),
        ]
    );
}

#[test]
fn blanks_and_comments_do_not_reach_the_parser() {
    let tokens = lex("a : b // c\n---\n  x  // y\n");
    let kept = significant_tokens(&tokens);
    assert!(kept
        .iter()
        .all(|token| token.kind != TokenKind::Whitespace && token.kind != TokenKind::Comment));
    assert_eq!(kept.len(), tokens.len() - 2);
    let (tree, diagnostics) = parse(&tokens);
    assert_eq!(tree.nodes.len(), 1);
    assert_eq!(diagnostics.len(), 1);
    assert_eq!(diagnostics[0].message, "Expected '==='");
}
