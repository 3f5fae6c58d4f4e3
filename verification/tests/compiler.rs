use yarn_slinger::compiler::compile::{compile, split_words, Compilation, SourceFile};
use yarn_slinger::compiler::declaration::{Declaration, DeclarationSource, Position};
use yarn_slinger::compiler::diagnostic::DiagnosticSeverity;
use yarn_slinger::compiler::lexer::lex;
use yarn_slinger::compiler::numbers::{
    NumberParser, NumberTable, WholeNumbers, LARGEST_WHOLE_NUMBER,
};
use yarn_slinger::compiler::token::TokenKind;
use yarn_slinger::compiler::string_table::{
    generate_line_id, hash, lock, push_hex, StringInfo,
};
use yarn_slinger::program::{Instruction, Label};
use yarn_slinger::runtime::dialogue::Dialogue;
use yarn_slinger::runtime::events::{DialogueEvent, Line, OptionId};
use yarn_slinger::runtime::library::{FunctionHost, Library};
use yarn_slinger::runtime::variable_storage::MemoryVariableStore;
use yarn_slinger::types::Type;
use yarn_slinger::value::{Number, YarnValue};

/// The number literals of the sources, read as floats.
fn floats(sources: &[(&str, &str)]) -> NumberTable {
    let mut table = NumberTable::new();
    for (_, source) in sources {
        for token in lex(source) {
            if token.kind == TokenKind::Number {
                let value: f32 = token.text.parse().unwrap();
                table.insert(token.text, Number::from_bits(value.to_bits()));
            }
        }
    }
    table
}

fn number(value: f32) -> YarnValue {
    YarnValue::Number(Number::from_bits(value.to_bits()))
}

fn float(value: &YarnValue) -> f32 {
    match value {
        YarnValue::Number(number) => f32::from_bits(number.to_bits()),
        other => panic!("{other:?} is no number"),
    }
}

/// The functions of the standard library that the tests call.
struct Host;

impl FunctionHost for Host {
    fn call(&mut self, name: &str, arguments: &Vec<YarnValue>) -> Option<YarnValue> {
        let a = arguments;
        Some(match name {
            "Number.Add" => number(float(&a[0]) + float(&a[1])),
            "Number.Subtract" => number(float(&a[0]) - float(&a[1])),
            "Number.Multiply" => number(float(&a[0]) * float(&a[1])),
            "Number.UnarySubtract" => number(-float(&a[0])),
            "Number.GreaterThan" => YarnValue::Bool(float(&a[0]) > float(&a[1])),
            "Number.EqualTo" => YarnValue::Bool(float(&a[0]) == float(&a[1])),
            "inc" => number(float(&a[0]) + 1.0),
            _ => return None,
        })
    }
}

fn library() -> Library {
    Library::standard_library()
        .with_function("visited", vec![Type::String], Type::Bool)
        .with_function("visited_count", vec![Type::String], Type::Number)
}

fn files(sources: &[(&str, &str)]) -> Vec<SourceFile> {
    sources
        .iter()
        .map(|(file_name, source)| SourceFile {
            file_name: file_name.to_string(),
            source: source.to_string(),
        })
        .collect()
}

fn compile_files(sources: &[(&str, &str)]) -> Compilation {
    compile(&files(sources), &library(), &floats(sources))
}

fn compile_one(source: &str) -> Compilation {
    compile_files(&[("test.yarn", source)])
}

fn node(body: &str) -> String {
    format!("title: Start\n---\n{body}\n===\n")
}

fn messages(compilation: &Compilation) -> Vec<&str> {
    compilation.diagnostics.iter().map(|d| d.message.as_str()).collect()
}

fn clean(source: &str) -> Compilation {
    let compilation = compile_one(source);
    assert_eq!(messages(&compilation), Vec::<&str>::new(), "{source}");
    assert!(compilation.succeeded());
    compilation
}

/// What the host shows for an event: the text of a line with its
/// substitutions, the text of the lines of options, the name of a command
/// or of a node.
fn shown(event: &DialogueEvent, table: &[StringInfo]) -> String {
    let text_of = |line: &Line| {
        let text = &table.iter().find(|info| info.line_id == line.id).unwrap().text;
        let substitutions = line
            .substitutions
            .iter()
            .map(|value| match value {
                YarnValue::Number(number) => f32::from_bits(number.to_bits()).to_string(),
                YarnValue::String(string) => string.clone(),
                YarnValue::Bool(truth) => truth.to_string(),
            })
            .collect();
        Dialogue::<MemoryVariableStore>::expand_substitutions(text, &substitutions)
    };
    match event {
        DialogueEvent::Line(line) => format!("Line({})", text_of(line)),
        DialogueEvent::Options(options) => format!(
            "Options({})",
            options
                .iter()
                .map(|option| {
                    let available = if option.is_available { "" } else { " (not available)" };
                    format!("{}{}", text_of(&option.line), available)
                })
                .collect::<Vec<_>>()
                .join("|")
        ),
        DialogueEvent::Command { name, arguments } => {
            format!("Command({name}, {})", arguments.len())
        }
        DialogueEvent::NodeStart(name) => format!("NodeStart({name})"),
        DialogueEvent::NodeComplete(name) => format!("NodeComplete({name})"),
        DialogueEvent::DialogueComplete => "DialogueComplete".to_owned(),
        DialogueEvent::LineHints(ids) => format!("LineHints({})", ids.len()),
        DialogueEvent::NodeError(error) => format!("NodeError({error:?})"),
    }
}

/// Runs the compiled program from the given node and selects the given
/// options in turn. Hands back what the host was shown.
fn run(compilation: Compilation, start: &str, selections: &[usize]) -> Vec<String> {
    let table = compilation.string_table;
    let mut dialogue = Dialogue::new(MemoryVariableStore::new());
    dialogue.replace_program(compilation.program);
    assert!(dialogue.try_set_node(start));
    let mut selections = selections.iter();
    let mut host = Host;
    let mut seen = Vec::new();
    while let Some(events) = dialogue.next(&mut host) {
        let waits = matches!(events.last(), Some(DialogueEvent::Options(_)));
        seen.extend(events.iter().map(|event| shown(event, &table)));
        if waits {
            assert!(dialogue.try_set_selected_option(OptionId(*selections.next().unwrap())));
        }
    }
    seen
}

#[test]
fn hello_world_runs_as_written() {
    let compilation = clean("title: A\n---\nHello, world!\n===\n");
    assert_eq!(compilation.string_table.len(), 1);
    assert_eq!(compilation.string_table[0].text, "Hello, world!");
    assert_eq!(compilation.string_table[0].node_name, "A");
    assert_eq!(compilation.string_table[0].file_name, "test.yarn");
    assert_eq!(compilation.string_table[0].line_number, 3);
    assert!(compilation.string_table[0].is_implicit_tag);
    assert_eq!(
        run(compilation, "A", &[]),
        vec!["NodeStart(A)", "Line(Hello, world!)", "NodeComplete(A)", "DialogueComplete"]
    );
}

#[test]
fn declared_variable_is_set_and_shown() {
    let compilation =
        clean(&node("<<declare $x = 3>>\n<<set $x to $x + 1>>\n{$x}"));
    assert_eq!(
        compilation.declarations,
        vec![Declaration::default()
            .with_name("$x".to_owned())
            .with_type(Some(Type::Number))
            .with_default_value(number(3.0))
            .with_source_file_name(DeclarationSource::File("test.yarn".to_owned()))
            .with_source_node_name("Start".to_owned())
            .with_range(
                Position { line: 2, character: 10 }..=Position { line: 2, character: 11 }
            )]
    );
    assert_eq!(
        compilation.program.initial_value("$x"),
        Some(&number(3.0))
    );
    assert_eq!(
        run(compilation, "Start", &[]),
        vec!["NodeStart(Start)", "Line(4)", "NodeComplete(Start)", "DialogueComplete"]
    );
}

#[test]
fn selected_shortcut_leads_to_its_body() {
    let source = node("-> A\n    In A.\n-> B\n    In B.\nAfter.");
    assert_eq!(
        run(clean(&source), "Start", &[1]),
        vec![
            "NodeStart(Start)",
            "Options(A|B)",
            "Line(In B.)",
            "Line(After.)",
            "NodeComplete(Start)",
            "DialogueComplete",
        ]
    );
    assert_eq!(
        run(clean(&source), "Start", &[0])[2..4],
        ["Line(In A.)", "Line(After.)"]
    );
}

#[test]
fn if_takes_the_branch_of_its_condition() {
    let source = node("<<if $visited_intro>>Hi again<<else>>Hi<<endif>>");
    let compilation = clean(&source);
    // The variable is not declared: its use shows it to be a truth value,
    // and it starts out false.
    assert_eq!(compilation.declarations.len(), 1);
    assert_eq!(compilation.declarations[0].name, "$visited_intro");
    assert_eq!(compilation.declarations[0].ty, Some(Type::Bool));
    assert_eq!(compilation.declarations[0].default_value, Some(YarnValue::Bool(false)));
    assert!(compilation.declarations[0].is_implicit);
    assert_eq!(
        run(compilation, "Start", &[]),
        vec!["NodeStart(Start)", "Line(Hi)", "NodeComplete(Start)", "DialogueComplete"]
    );
    let other = node("<<set $visited_intro to true>>\n<<if $visited_intro>>Hi again<<else>>Hi<<endif>>");
    assert_eq!(run(clean(&other), "Start", &[])[1], "Line(Hi again)");
}

#[test]
fn declaration_in_a_later_file_types_an_earlier_use() {
    let compilation = compile_files(&[
        ("one.yarn", "title: One\n---\n<<set $score to $score + 1>>\n{$score}\n===\n"),
        ("two.yarn", "title: Two\n---\n<<declare $score = 10>>\n===\n"),
    ]);
    assert_eq!(messages(&compilation), Vec::<&str>::new());
    assert_eq!(compilation.declarations.len(), 1);
    assert_eq!(compilation.declarations[0].name, "$score");
    assert_eq!(compilation.declarations[0].ty, Some(Type::Number));
    assert!(!compilation.declarations[0].is_implicit);
    assert_eq!(
        compilation.declarations[0].source_file_name,
        DeclarationSource::File("two.yarn".to_owned())
    );
    assert_eq!(compilation.program.node_names(), vec!["One", "Two"]);
    assert_eq!(run(compilation, "One", &[])[1], "Line(11)");
}

#[test]
fn missing_node_cannot_be_started() {
    let compilation = compile_files(&[]);
    assert!(compilation.succeeded());
    assert_eq!(compilation.program.node_names(), Vec::<String>::new());
    let mut dialogue = Dialogue::new(MemoryVariableStore::new());
    dialogue.replace_program(compilation.program);
    assert!(!dialogue.node_exists("Missing"));
    assert!(!dialogue.try_set_node("Missing"));
    assert!(!dialogue.is_active());
}

#[test]
fn options_with_conditions_and_nesting_run() {
    let source = node(
        "<<declare $gold = 2>>
-> Buy <<if $gold > 5>>
    Bought.
-> Beg
    -> Please
        <<set $gold to $gold + 10>>
    -> Never mind
        Fine.
    You have {$gold} coins.
<<jump End>>",
    ) + "title: End\n---\nBye. <<stop>>\nNever.\n===\n";
    assert_eq!(
        run(clean(&source), "Start", &[1, 0]),
        vec![
            "NodeStart(Start)",
            "Options(Buy (not available)|Beg)",
            "Options(Please|Never mind)",
            "Line(You have 12 coins.)",
            "NodeComplete(Start)",
            "NodeStart(End)",
            "Line(Bye.)",
            "NodeComplete(End)",
            "DialogueComplete",
        ]
    );
}

#[test]
fn elseif_chains_and_calls_run() {
    let source = node(
        "<<declare $n = 2>>
<<if $n == 1>>
one
<<elseif inc($n) == 3 and not false>>
two {\"and \" + \"more\"} {-$n * (1 - 3)}
<<else>>
many
<<endif>>
<<call inc(1)>>
<<fanfare {$n} loud>>",
    );
    assert_eq!(
        run(clean(&source), "Start", &[]),
        vec![
            "NodeStart(Start)",
            "Line(two and more 4)",
            "Command(fanfare {0} loud, 1)",
            "NodeComplete(Start)",
            "DialogueComplete",
        ]
    );
}

#[test]
fn code_of_a_node_is_as_the_rules_say() {
    let compilation = clean(&node(
        "<<declare $x = 1>>\n<<if $x > 0>>\nYes #line:yes\n<<endif>>\n-> A #line:a\n    <<stop>>\n<<jump Start>>",
    ));
    let code = &compilation.program.nodes[0];
    let float = |value: f32| Instruction::PushFloat(Number::from_bits(value.to_bits()));
    assert_eq!(
        code.instructions,
        vec![
            // <<if $x > 0>>
            Instruction::PushVariable("$x".to_owned()),
            float(0.0),
            Instruction::CallFunc("Number.GreaterThan".to_owned()),
            Instruction::JumpIfFalse("L1".to_owned()),
            Instruction::Pop,
            Instruction::RunLine { line_id: "line:yes".to_owned(), substitution_count: 0 },
            Instruction::JumpTo("L0".to_owned()),
            Instruction::Pop,
            // -> A
            Instruction::PushBool(true),
            Instruction::AddOption {
                line_id: "line:a".to_owned(),
                destination: "L3".to_owned(),
                has_condition: true,
            },
            Instruction::ShowOptions,
            Instruction::Jump,
            Instruction::Pop,
            Instruction::Stop,
            Instruction::JumpTo("L2".to_owned()),
            // <<jump Start>>
            Instruction::PushString("Start".to_owned()),
            Instruction::RunNode,
        ]
    );
    let label = |name: &str, index: usize| Label { name: name.to_owned(), index };
    assert_eq!(
        code.labels,
        vec![label("L1", 7), label("L0", 8), label("L3", 12), label("L2", 15)]
    );
    assert_eq!(code.name, "Start");
    assert_eq!(code.source_text_string_id, None);
}

#[test]
fn tags_of_a_node_are_the_words_of_its_header() {
    let compilation = clean("title: A\ntags:  rawText   intro\t x \n---\n===\n");
    let code = &compilation.program.nodes[0];
    assert_eq!(code.tags, vec!["rawText", "intro", "x"]);
    assert_eq!(code.source_text_string_id, Some("line:A".to_owned()));
    assert_eq!(split_words(""), Vec::<String>::new());
    assert_eq!(split_words("  "), Vec::<String>::new());
    assert_eq!(split_words("a"), vec!["a"]);
    assert_eq!(split_words(" a  bc "), vec!["a", "bc"]);
}

fn fnv1a(bytes: &[u8]) -> u32 {
    let mut hash: u32 = 0x811c_9dc5;
    for byte in bytes {
        hash ^= *byte as u32;
        hash = hash.wrapping_mul(0x0100_0193);
    }
    hash
}

#[test]
fn string_table_holds_every_line_with_its_id() {
    let compilation = clean(&node(
        "Plain. #tone:dry\nTagged {1 + 1} and {2}. #line:given #loud\n-> Option #line:o1\n    Inside.\n-> Other",
    ));
    let table = &compilation.string_table;
    let texts: Vec<&str> = table.iter().map(|info| info.text.as_str()).collect();
    // The lines of the options of a group come before what follows them.
    assert_eq!(texts, vec!["Plain.", "Tagged {0} and {1}.", "Option", "Other", "Inside."]);
    assert_eq!(table[1].line_id, "line:given");
    assert!(!table[1].is_implicit_tag);
    assert_eq!(table[1].metadata, vec!["loud"]);
    assert_eq!(table[1].line_number, 4);
    assert_eq!(table[2].line_id, "line:o1");
    assert_eq!(table[0].metadata, vec!["tone:dry"]);
    assert!(table[0].is_implicit_tag);
    let expected = format!("line:{:08x}", fnv1a(b"test.yarn\0Start\x003\0Plain."));
    assert_eq!(table[0].line_id, expected);
    assert_eq!(generate_line_id("test.yarn", "Start", 3, "Plain."), expected);
    assert_ne!(table[3].line_id, table[4].line_id);

    // Round trip: the program refers to exactly the lines of the table.
    let ids: Vec<&String> = table.iter().map(|info| &info.line_id).collect();
    let referred = compilation.program.nodes[0].line_ids();
    assert_eq!(ids, referred.iter().collect::<Vec<_>>());
}

#[test]
fn hash_and_hex_are_fnv1a_and_eight_digits() {
    assert_eq!(hash(""), 0x811c_9dc5);
    assert_eq!(hash("a"), 0xe40c_292c);
    assert_eq!(hash("foobar"), 0xbf9c_f968);
    assert_eq!(hash("é\0x"), fnv1a("é\0x".as_bytes()));
    let mut text = "0x".to_owned();
    push_hex(&mut text, 0x0123_abcd);
    push_hex(&mut text, 0);
    push_hex(&mut text, u32::MAX);
    assert_eq!(text, "0x0123abcd00000000ffffffff");
    assert_eq!(lock("foobar"), "bf9cf968");
    assert_eq!(lock(""), "811c9dc5");
    assert_ne!(lock("Hello"), lock("Hello!"));
}

#[test]
fn compiling_twice_gives_the_same() {
    let source = node("-> A\n    {$x + 1} <<if $x > 2>>\n<<set $y to \"s\">>\nLine");
    assert_eq!(compile_one(&source), compile_one(&source));
}

#[test]
fn types_that_do_not_fit_are_errors() {
    let errors = |body: &str| {
        let compilation = compile_one(&node(body));
        assert!(!compilation.succeeded());
        assert!(compilation
            .diagnostics
            .iter()
            .all(|d| d.severity == DiagnosticSeverity::Error));
        compilation.diagnostics.iter().map(|d| d.message.clone()).collect::<Vec<_>>()
    };
    assert_eq!(
        errors("{\"a\" + 1}"),
        vec!["The operands of an operator have different types"]
    );
    assert_eq!(
        errors("{\"a\" - \"b\"}"),
        vec!["An operator is applied to operands on which it is not defined"]
    );
    assert_eq!(
        errors("{true < false}"),
        vec!["An operator is applied to operands on which it is not defined"]
    );
    assert_eq!(
        errors("{-\"a\"}"),
        vec!["An operator is applied to an operand on which it is not defined"]
    );
    assert_eq!(
        errors("{not 1}"),
        vec!["An operator is applied to an operand on which it is not defined"]
    );
    assert_eq!(
        errors("{nowhere(1)}"),
        vec!["A function is called that the library does not have"]
    );
    assert_eq!(
        errors("{inc(1, 2)}"),
        vec!["A function is called with the wrong number of arguments"]
    );
    assert_eq!(
        errors("{inc(\"a\")}"),
        vec!["An argument has not the type of its parameter"]
    );
    assert_eq!(errors("<<if 1>>\n<<endif>>"), vec!["A condition is no truth value"]);
    assert_eq!(
        errors("<<jump Start>>\n-> a\n    <<if true>>\n    <<jump Nowhere>>\n    <<endif>>"),
        vec!["A jump leads to no node"]
    );
    assert_eq!(errors("-> a <<if \"s\">>"), vec!["A condition is no truth value"]);
    assert_eq!(
        errors("<<declare $x = 1>>\n<<set $x to \"s\">>"),
        vec!["A value is assigned to a variable of another type"]
    );
    assert_eq!(
        errors("<<declare $x = 1>>\n<<declare $x = \"s\">>"),
        vec!["A variable is declared twice with values of different types"]
    );
    assert_eq!(
        errors("<<declare $x = 1 + 1>>"),
        vec!["Expected a literal as the value of a declaration"]
    );
    assert_eq!(
        errors("{$a == $b}"),
        vec![
            "The type of a variable cannot be determined",
            "The type of a variable cannot be determined",
        ]
    );
    // Errors of variables without a type come last.
    assert_eq!(
        errors("{$a}\n{1 + true}"),
        vec![
            "The operands of an operator have different types",
            "The type of a variable cannot be determined",
        ]
    );
}

#[test]
fn nodes_need_titles_of_their_own() {
    let compilation = compile_one("title: A\n---\n===\nname: x\n---\n===\ntitle: A\n---\n===\n");
    assert_eq!(
        messages(&compilation),
        vec!["A node has no title", "Two nodes have the same name"]
    );
    assert!(!compilation.succeeded());
    assert_eq!(compilation.program.node_names(), vec!["A", "", "A"]);
    assert_eq!(
        *compilation.diagnostics[1].range.start(),
        Position { line: 6, character: 0 }
    );
}

#[test]
fn types_follow_from_use() {
    let compilation = clean(&node(
        "<<set $a to $b>>\n<<set $b to $c + 1>>\n<<set $s to $t>>\n{$t + \"x\"}\n{inc($n)}\n-> o <<if $flag>>\n<<set $u to visited(\"Start\")>>\n<<declare $d = \"text\">>",
    ));
    let types: Vec<(&str, &Option<Type>, bool)> = compilation
        .declarations
        .iter()
        .map(|d| (d.name.as_str(), &d.ty, d.is_implicit))
        .collect();
    assert_eq!(
        types,
        vec![
            ("$d", &Some(Type::String), false),
            ("$b", &Some(Type::Number), true),
            ("$a", &Some(Type::Number), true),
            ("$c", &Some(Type::Number), true),
            ("$t", &Some(Type::String), true),
            ("$s", &Some(Type::String), true),
            ("$n", &Some(Type::Number), true),
            ("$flag", &Some(Type::Bool), true),
            ("$u", &Some(Type::Bool), true),
        ]
    );
    let defaults: Vec<&Option<YarnValue>> =
        compilation.declarations.iter().map(|d| &d.default_value).collect();
    assert_eq!(defaults[0], &Some(YarnValue::String("text".to_owned())));
    assert_eq!(defaults[1], &Some(number(0.0)));
    assert_eq!(defaults[4], &Some(YarnValue::String(String::new())));
    assert_eq!(defaults[7], &Some(YarnValue::Bool(false)));
    assert_eq!(compilation.program.initial_values.len(), 9);
}

#[test]
fn warnings_do_not_fail_a_compilation() {
    let compilation = compile_one("title: A\n---\n-> a\n    b\n  c\n===\n");
    assert_eq!(messages(&compilation), vec!["Indentation does not match any enclosing level"]);
    assert_eq!(compilation.diagnostics[0].severity, DiagnosticSeverity::Warning);
    assert!(compilation.succeeded());
    let broken = compile_one("title: A\n---\n<<set $x to>>\n===\n");
    assert!(!broken.succeeded());
    assert_eq!(broken.program.nodes.len(), 1);
}

#[test]
fn whole_numbers_are_read_exactly() {
    assert_eq!(WholeNumbers::value("0"), Some(0));
    assert_eq!(WholeNumbers::value("007"), Some(7));
    assert_eq!(WholeNumbers::value("16777215"), Some(LARGEST_WHOLE_NUMBER));
    assert_eq!(WholeNumbers::value("16777216"), None);
    assert_eq!(WholeNumbers::value("99999999999999999999"), None);
    assert_eq!(WholeNumbers::value(""), None);
    assert_eq!(WholeNumbers::value("1.5"), None);
    assert_eq!(WholeNumbers::value("-1"), None);
    assert_eq!(WholeNumbers::value("12a"), None);
    assert_eq!(WholeNumbers::value("١"), None);
    let mut value: u32 = 0;
    while value <= LARGEST_WHOLE_NUMBER {
        assert_eq!(WholeNumbers::bits(value), (value as f32).to_bits(), "{value}");
        value += if value < 70_000 { 1 } else { 997 };
    }
    assert_eq!(
        WholeNumbers::bits(LARGEST_WHOLE_NUMBER),
        (LARGEST_WHOLE_NUMBER as f32).to_bits()
    );
    assert_eq!(WholeNumbers.parse("3"), Some(Number::from_bits(3.0_f32.to_bits())));
    assert_eq!(WholeNumbers.parse("3.0"), None);

    let compilation = compile(
        &files(&[("test.yarn", &node("{1 + 2}\n{1.5}"))]),
        &library(),
        &WholeNumbers,
    );
    assert_eq!(messages(&compilation), vec!["A number literal stands for no number"]);
    let clean = compile(&files(&[("test.yarn", &node("{1 + 2}"))]), &library(), &WholeNumbers);
    assert_eq!(run(clean, "Start", &[])[1], "Line(3)");
}

#[test]
fn lines_must_not_share_an_id() {
    let compilation = compile_one(&node("One. #line:a\nTwo. #line:b\nThree. #line:a"));
    assert_eq!(messages(&compilation), vec!["Two lines have the same id"]);
    assert!(!compilation.succeeded());
    assert_eq!(compilation.diagnostics[0].severity, DiagnosticSeverity::Error);
    assert_eq!(
        compilation.diagnostics[0].range,
        Position { line: 4, character: 0 }..=Position { line: 4, character: 0 }
    );
    let ids: Vec<&str> =
        compilation.string_table.iter().map(|info| info.line_id.as_str()).collect();
    assert_eq!(ids, vec!["line:a", "line:b", "line:a"]);

    let compilation = clean(&node("One. #line:a\nTwo. #line:b\nThree.\nThree."));
    let mut ids: Vec<&str> =
        compilation.string_table.iter().map(|info| info.line_id.as_str()).collect();
    ids.sort();
    ids.dedup();
    assert_eq!(ids.len(), 4);
}
