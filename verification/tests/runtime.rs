use yarn_slinger::collections::StringMap;
use yarn_slinger::program::{CombineError, InitialValue, Instruction, Label, Node, Program};
use yarn_slinger::runtime::dialogue::{Dialogue, NodeLookupError};
use yarn_slinger::runtime::events::{
    DialogueEvent, DialogueOption, ExecutionState, Line, OptionId, RuntimeError,
};
use yarn_slinger::runtime::library::{builtin_operator, FunctionHost, Library, NoFunctions};
use yarn_slinger::runtime::markup::{MarkupAttribute, PluralRequest};
use yarn_slinger::runtime::variable_storage::{MemoryVariableStore, VariableStorage};
use yarn_slinger::runtime::virtual_machine::{
    get_node_visit_count, is_node_visited, VirtualMachine,
};
use yarn_slinger::types::Type;
use yarn_slinger::value::{Number, YarnValue};

fn number(value: f32) -> YarnValue {
    YarnValue::Number(Number::from_bits(value.to_bits()))
}

fn string(value: &str) -> YarnValue {
    YarnValue::String(value.to_owned())
}

fn node(name: &str, instructions: Vec<Instruction>, labels: Vec<(&str, usize)>) -> Node {
    Node {
        name: name.to_owned(),
        instructions,
        labels: labels
            .into_iter()
            .map(|(name, index)| Label { name: name.to_owned(), index })
            .collect(),
        tags: Vec::new(),
        source_text_string_id: None,
    }
}

fn program(nodes: Vec<Node>) -> Program {
    Program { nodes, initial_values: Vec::new() }
}

fn run_line(line_id: &str, substitution_count: usize) -> Instruction {
    Instruction::RunLine { line_id: line_id.to_owned(), substitution_count }
}

fn line(id: &str, substitutions: Vec<YarnValue>) -> DialogueEvent {
    DialogueEvent::Line(Line { id: id.to_owned(), substitutions })
}

fn node_start(name: &str) -> DialogueEvent {
    DialogueEvent::NodeStart(name.to_owned())
}

fn node_complete(name: &str) -> DialogueEvent {
    DialogueEvent::NodeComplete(name.to_owned())
}

/// A host that knows the arithmetic of numbers and the joining of strings.
struct Arithmetic {
    calls: usize,
}

impl FunctionHost for Arithmetic {
    fn call(&mut self, name: &str, arguments: &Vec<YarnValue>) -> Option<YarnValue> {
        self.calls += 1;
        let float = |value: &YarnValue| match value {
            YarnValue::Number(number) => f32::from_bits(number.to_bits()),
            _ => panic!("not a number"),
        };
        match name {
            "Number.Add" => Some(number(float(&arguments[0]) + float(&arguments[1]))),
            "Number.GreaterThan" => {
                Some(YarnValue::Bool(float(&arguments[0]) > float(&arguments[1])))
            }
            "wrong_type" => Some(string("not a number")),
            _ => None,
        }
    }
}

fn dialogue_with(nodes: Vec<Node>) -> Dialogue<MemoryVariableStore> {
    let mut dialogue = Dialogue::new(MemoryVariableStore::new());
    dialogue.replace_program(program(nodes));
    dialogue
}

/// Calls `next` until the dialogue stops or blocks, and gathers the events.
fn run_to_end(dialogue: &mut Dialogue<MemoryVariableStore>) -> Vec<DialogueEvent> {
    let mut host = Arithmetic { calls: 0 };
    let mut events = Vec::new();
    while let Some(batch) = dialogue.next(&mut host) {
        if batch.is_empty() {
            break;
        }
        events.extend(batch);
    }
    events
}

#[test]
fn is_send_sync() {
    let variable_storage = MemoryVariableStore::new();
    let dialogue = Dialogue::new(variable_storage);
    accept_send_sync(dialogue);
}

fn accept_send_sync(_: impl Send + Sync) {}

#[test]
fn hello_world_runs_from_start_to_end() {
    let mut dialogue = dialogue_with(vec![node("A", vec![run_line("line:hello", 0)], vec![])]);
    assert!(!dialogue.is_active());
    assert_eq!(dialogue.current_node(), None);
    dialogue.set_node("A");
    assert!(dialogue.is_active());
    assert_eq!(dialogue.current_node(), Some("A".to_owned()));

    let mut host = NoFunctions;
    let first = dialogue.next(&mut host).unwrap();
    assert_eq!(first, vec![node_start("A"), line("line:hello", vec![])]);
    assert!(dialogue.is_active());
    let second = dialogue.next(&mut host).unwrap();
    assert_eq!(second, vec![node_complete("A"), DialogueEvent::DialogueComplete]);
    assert!(!dialogue.is_active());
    assert_eq!(dialogue.next(&mut host), None);
    assert_eq!(dialogue.next(&mut host), None);
}

#[test]
fn declared_variable_is_read_set_and_shown() {
    // <<declare $x = 3>>, <<set $x to $x + 1>>, then the line "{$x}".
    let mut dialogue = Dialogue::new(MemoryVariableStore::new());
    dialogue.replace_program(Program {
        nodes: vec![node(
            "Start",
            vec![
                Instruction::PushVariable("$x".to_owned()),
                Instruction::PushFloat(Number::from_bits(1.0_f32.to_bits())),
                Instruction::CallFunc("Number.Add".to_owned()),
                Instruction::StoreVariable("$x".to_owned()),
                Instruction::Pop,
                Instruction::PushVariable("$x".to_owned()),
                run_line("line:x", 1),
            ],
            vec![],
        )],
        initial_values: vec![InitialValue { name: "$x".to_owned(), value: number(3.0) }],
    });
    dialogue.set_node_to_start();
    let events = run_to_end(&mut dialogue);
    assert_eq!(
        events,
        vec![
            node_start("Start"),
            line("line:x", vec![number(4.0)]),
            node_complete("Start"),
            DialogueEvent::DialogueComplete,
        ]
    );
    // The host turns the value into text and puts it in the line.
    let shown = match &events[1] {
        DialogueEvent::Line(Line { substitutions, .. }) => match &substitutions[0] {
            YarnValue::Number(number) => f32::from_bits(number.to_bits()).to_string(),
            _ => unreachable!(),
        },
        _ => unreachable!(),
    };
    assert_eq!(
        Dialogue::<MemoryVariableStore>::expand_substitutions("{0}", &vec![shown]),
        "4"
    );
}

fn options_program() -> Vec<Node> {
    vec![node(
        "Start",
        vec![
            Instruction::AddOption {
                line_id: "line:a".to_owned(),
                destination: "L0".to_owned(),
                has_condition: false,
            },
            Instruction::PushBool(false),
            Instruction::AddOption {
                line_id: "line:b".to_owned(),
                destination: "L1".to_owned(),
                has_condition: true,
            },
            Instruction::ShowOptions,
            Instruction::Jump,
            Instruction::Pop,
            run_line("line:in_a", 0),
            Instruction::JumpTo("end".to_owned()),
            Instruction::Pop,
            run_line("line:in_b", 0),
            Instruction::JumpTo("end".to_owned()),
        ],
        vec![("L0", 5), ("L1", 8), ("end", 11)],
    )]
}

fn option(id: usize, line_id: &str, destination: &str, is_available: bool) -> DialogueOption {
    DialogueOption {
        line: Line { id: line_id.to_owned(), substitutions: Vec::new() },
        id: OptionId(id),
        destination: destination.to_owned(),
        is_available,
    }
}

#[test]
fn selected_option_continues_at_its_destination() {
    let mut dialogue = dialogue_with(options_program());
    dialogue.set_node("Start");
    let mut host = NoFunctions;
    let shown = dialogue.next(&mut host).unwrap();
    assert_eq!(
        shown,
        vec![
            node_start("Start"),
            DialogueEvent::Options(vec![
                option(0, "line:a", "L0", true),
                option(1, "line:b", "L1", false),
            ]),
        ]
    );
    // Until an option is selected the dialogue stays where it is.
    assert_eq!(dialogue.next(&mut host), Some(vec![]));
    assert!(dialogue.is_active());

    dialogue.set_selected_option(OptionId(1));
    assert_eq!(dialogue.next(&mut host), Some(vec![line("line:in_b", vec![])]));
    assert_eq!(
        dialogue.next(&mut host),
        Some(vec![node_complete("Start"), DialogueEvent::DialogueComplete])
    );
}

#[test]
fn first_option_continues_at_its_destination() {
    let mut dialogue = dialogue_with(options_program());
    dialogue.set_node("Start");
    let mut host = NoFunctions;
    dialogue.next(&mut host).unwrap();
    dialogue.set_selected_option(OptionId(0));
    assert_eq!(dialogue.next(&mut host), Some(vec![line("line:in_a", vec![])]));
}

#[test]
fn if_else_takes_the_branch_of_its_condition() {
    // <<if $visited_intro>>Hi again<<else>>Hi<<endif>>
    let instructions = vec![
        Instruction::PushVariable("$visited_intro".to_owned()),
        Instruction::JumpIfFalse("else".to_owned()),
        Instruction::Pop,
        run_line("line:hi_again", 0),
        Instruction::JumpTo("endif".to_owned()),
        Instruction::Pop,
        run_line("line:hi", 0),
    ];
    let labels = vec![("else", 5), ("endif", 7)];

    let mut dialogue = Dialogue::new(MemoryVariableStore::new());
    dialogue.replace_program(Program {
        nodes: vec![node("Start", instructions.clone(), labels.clone())],
        initial_values: vec![InitialValue {
            name: "$visited_intro".to_owned(),
            value: YarnValue::Bool(false),
        }],
    });
    dialogue.set_node("Start");
    let events = run_to_end(&mut dialogue);
    assert_eq!(events[1], line("line:hi", vec![]));
    assert_eq!(events.len(), 4);

    let mut storage = MemoryVariableStore::new();
    storage.set("$visited_intro".to_owned(), YarnValue::Bool(true));
    let mut dialogue = Dialogue::new(storage);
    dialogue.replace_program(program(vec![node("Start", instructions, labels)]));
    dialogue.set_node("Start");
    let events = run_to_end(&mut dialogue);
    assert_eq!(events[1], line("line:hi_again", vec![]));
    assert_eq!(events.len(), 4);
}

#[test]
fn run_node_ends_one_node_and_starts_the_next() {
    let mut dialogue = dialogue_with(vec![
        node(
            "A",
            vec![Instruction::PushString("B".to_owned()), Instruction::RunNode],
            vec![],
        ),
        node("B", vec![run_line("line:b", 0), Instruction::Stop], vec![]),
    ])
    .with_should_send_line_hints();
    assert!(dialogue.should_send_line_hints());
    dialogue.set_node("A");
    let mut host = NoFunctions;
    assert_eq!(
        dialogue.next(&mut host),
        Some(vec![
            DialogueEvent::LineHints(vec![]),
            node_start("A"),
            node_complete("A"),
            DialogueEvent::LineHints(vec!["line:b".to_owned()]),
            node_start("B"),
        ])
    );
    assert_eq!(dialogue.current_node(), Some("B".to_owned()));
    assert_eq!(dialogue.next(&mut host), Some(vec![line("line:b", vec![])]));
    assert_eq!(
        dialogue.next(&mut host),
        Some(vec![node_complete("B"), DialogueEvent::DialogueComplete])
    );
}

#[test]
fn line_hints_name_lines_and_options_of_the_node() {
    let mut nodes = options_program();
    nodes[0].instructions.insert(0, run_line("line:first", 0));
    let mut dialogue = dialogue_with(nodes);
    *dialogue.should_send_line_hints_mut() = true;
    dialogue.set_node("Start");
    let mut host = NoFunctions;
    let events = dialogue.next(&mut host).unwrap();
    assert_eq!(
        events[0],
        DialogueEvent::LineHints(vec![
            "line:first".to_owned(),
            "line:a".to_owned(),
            "line:b".to_owned(),
            "line:in_a".to_owned(),
            "line:in_b".to_owned(),
        ])
    );
    assert_eq!(events[1], node_start("Start"));
}

#[test]
fn commands_take_their_arguments_in_order() {
    let mut dialogue = dialogue_with(vec![node(
        "Start",
        vec![
            Instruction::PushString("left".to_owned()),
            Instruction::PushBool(true),
            Instruction::PushString("door".to_owned()),
            Instruction::RunCommand { name: "open".to_owned(), argument_count: 2 },
            Instruction::Pop,
        ],
        vec![],
    )]);
    dialogue.set_node("Start");
    let mut host = NoFunctions;
    assert_eq!(
        dialogue.next(&mut host),
        Some(vec![
            node_start("Start"),
            DialogueEvent::Command {
                name: "open".to_owned(),
                arguments: vec![YarnValue::Bool(true), string("door")],
            },
        ])
    );
    assert_eq!(
        dialogue.next(&mut host),
        Some(vec![node_complete("Start"), DialogueEvent::DialogueComplete])
    );
}

fn error_of(instructions: Vec<Instruction>) -> RuntimeError {
    let mut dialogue = dialogue_with(vec![node("Start", instructions, vec![])]);
    dialogue.library_mut().add_function("wrong_type".to_owned(), vec![], Type::Number);
    dialogue.library_mut().add_function("fails".to_owned(), vec![], Type::Any);
    dialogue.set_node("Start");
    let events = run_to_end(&mut dialogue);
    assert!(!dialogue.is_active());
    match events.last() {
        Some(DialogueEvent::NodeError(error)) => error.clone(),
        other => panic!("no error but {other:?}"),
    }
}

#[test]
fn errors_of_the_script_stop_the_dialogue() {
    assert_eq!(
        error_of(vec![Instruction::CallFunc("nowhere".to_owned())]),
        RuntimeError::UnknownFunction("nowhere".to_owned())
    );
    assert_eq!(
        error_of(vec![Instruction::CallFunc("fails".to_owned())]),
        RuntimeError::FunctionFailed("fails".to_owned())
    );
    assert_eq!(
        error_of(vec![Instruction::CallFunc("wrong_type".to_owned())]),
        RuntimeError::TypeMismatch
    );
    assert_eq!(
        error_of(vec![
            Instruction::PushBool(true),
            Instruction::PushBool(true),
            Instruction::CallFunc("Number.Add".to_owned()),
        ]),
        RuntimeError::TypeMismatch
    );
    assert_eq!(
        error_of(vec![
            Instruction::PushFloat(Number::zero()),
            Instruction::CallFunc("Number.Add".to_owned()),
        ]),
        RuntimeError::StackUnderflow
    );
    assert_eq!(
        error_of(vec![Instruction::JumpTo("nowhere".to_owned())]),
        RuntimeError::UnknownLabel("nowhere".to_owned())
    );
    assert_eq!(
        error_of(vec![Instruction::PushString("nowhere".to_owned()), Instruction::RunNode]),
        RuntimeError::UnknownNode("nowhere".to_owned())
    );
    assert_eq!(error_of(vec![Instruction::Pop]), RuntimeError::StackUnderflow);
    assert_eq!(error_of(vec![Instruction::Jump]), RuntimeError::StackUnderflow);
    assert_eq!(
        error_of(vec![Instruction::PushBool(true), Instruction::Jump]),
        RuntimeError::TypeMismatch
    );
    assert_eq!(
        error_of(vec![
            Instruction::PushString("maybe".to_owned()),
            Instruction::JumpIfFalse("x".to_owned()),
        ]),
        RuntimeError::TypeMismatch
    );
    assert_eq!(error_of(vec![run_line("line:x", 1)]), RuntimeError::StackUnderflow);
    assert_eq!(
        error_of(vec![Instruction::StoreVariable("$x".to_owned())]),
        RuntimeError::StackUnderflow
    );
    assert_eq!(error_of(vec![Instruction::PushNull]), RuntimeError::ReservedInstruction);
}

#[test]
fn variable_without_value_is_zero() {
    let mut dialogue = dialogue_with(vec![node(
        "Start",
        vec![Instruction::PushVariable("$nowhere".to_owned()), run_line("line:x", 1)],
        vec![],
    )]);
    dialogue.set_node("Start");
    let events = run_to_end(&mut dialogue);
    assert_eq!(events[1], line("line:x", vec![number(0.0)]));
}

#[test]
fn visited_is_answered_from_the_storage() {
    let mut storage = MemoryVariableStore::new();
    storage.set("Cave".to_owned(), number(2.0));
    storage.set("Hill".to_owned(), number(0.0));
    storage.set("Lake".to_owned(), string("often"));
    assert!(is_node_visited(&storage, "Cave"));
    assert!(!is_node_visited(&storage, "Hill"));
    assert!(!is_node_visited(&storage, "Lake"));
    assert!(!is_node_visited(&storage, "Moon"));
    assert_eq!(get_node_visit_count(&storage, "Cave"), Number::from_bits(2.0_f32.to_bits()));
    assert_eq!(get_node_visit_count(&storage, "Lake"), Number::zero());
    assert_eq!(get_node_visit_count(&storage, "Moon"), Number::zero());

    let mut dialogue = Dialogue::new(storage);
    dialogue.replace_program(program(vec![node(
        "Start",
        vec![
            Instruction::PushString("Cave".to_owned()),
            Instruction::CallFunc("visited".to_owned()),
            Instruction::PushString("Cave".to_owned()),
            Instruction::CallFunc("visited_count".to_owned()),
            Instruction::PushString("Moon".to_owned()),
            Instruction::CallFunc("visited".to_owned()),
            run_line("line:x", 3),
        ],
        vec![],
    )]));
    dialogue.set_node("Start");
    let mut host = Arithmetic { calls: 0 };
    let events = dialogue.next(&mut host).unwrap();
    assert_eq!(
        events[1],
        line("line:x", vec![YarnValue::Bool(true), number(2.0), YarnValue::Bool(false)])
    );
    assert_eq!(host.calls, 0);
}

#[test]
fn machine_can_be_driven_one_instruction_at_a_time() {
    let mut library = Library::new();
    library.add_numeric_function("double", 1);
    let mut machine = VirtualMachine::new(library, MemoryVariableStore::new());
    assert_eq!(machine.execution_state(), ExecutionState::Stopped);
    machine.replace_program(program(vec![node(
        "Start",
        vec![
            Instruction::PushFloat(Number::from_bits(2.0_f32.to_bits())),
            Instruction::CallFunc("double".to_owned()),
            Instruction::StoreVariable("$x".to_owned()),
        ],
        vec![],
    )]));
    machine.set_node("Start");
    assert_eq!(machine.execution_state(), ExecutionState::Running);
    assert_eq!(machine.pending_call(), None);
    machine.step_with(None);
    assert_eq!(machine.pending_call(), Some(("double".to_owned(), vec![number(2.0)])));
    machine.step_with(Some(number(4.0)));
    assert_eq!(machine.pending_call(), None);
    machine.step_with(None);
    assert_eq!(machine.variable_storage().get("$x"), Some(number(4.0)));
    machine.step_with(None);
    assert_eq!(machine.execution_state(), ExecutionState::Stopped);
    assert!(!machine.is_active());
}

#[test]
fn stop_ends_the_dialogue_without_a_word() {
    let mut dialogue = dialogue_with(vec![node("A", vec![run_line("line:a", 0)], vec![])]);
    dialogue.set_node("A");
    dialogue.stop();
    assert!(!dialogue.is_active());
    let mut host = NoFunctions;
    assert_eq!(dialogue.next(&mut host), None);
}

#[test]
fn nodes_are_found_by_name() {
    let mut tagged = node("Tagged", vec![], vec![]);
    tagged.tags = vec!["rawText".to_owned(), "intro".to_owned()];
    let mut dialogue = Dialogue::new(MemoryVariableStore::new());
    assert_eq!(dialogue.node_names(), None);
    assert!(!dialogue.node_exists("Tagged"));
    assert_eq!(dialogue.get_node("Tagged"), Err(NodeLookupError::NoProgramLoaded));
    assert_eq!(dialogue.get_string_id_for_node("Tagged"), None);
    assert_eq!(dialogue.get_tags_for_node("Tagged"), None);

    dialogue.replace_program(Program::new());
    assert_eq!(dialogue.node_names(), Some(vec![]));
    assert_eq!(dialogue.get_node("Tagged"), Err(NodeLookupError::NoNodesLoaded));

    dialogue.replace_program(program(vec![node("Plain", vec![], vec![]), tagged.clone()]));
    assert_eq!(
        dialogue.node_names(),
        Some(vec!["Plain".to_owned(), "Tagged".to_owned()])
    );
    assert!(dialogue.node_exists("Tagged"));
    assert!(!dialogue.node_exists("tagged"));
    assert_eq!(dialogue.get_node("Tagged"), Ok(tagged));
    assert_eq!(
        dialogue.get_node("Missing"),
        Err(NodeLookupError::NoNodeNamed("Missing".to_owned()))
    );
    assert_eq!(
        dialogue.get_string_id_for_node("Tagged"),
        Some("line:Tagged".to_owned())
    );
    assert_eq!(dialogue.get_string_id_for_node("Missing"), None);
    assert_eq!(
        dialogue.get_tags_for_node("Tagged"),
        Some(vec!["rawText".to_owned(), "intro".to_owned()])
    );
    assert_eq!(dialogue.get_tags_for_node("Plain"), Some(vec![]));
    assert_eq!(dialogue.get_tags_for_node("Missing"), None);

    dialogue.unload_all();
    assert_eq!(dialogue.node_names(), None);
}

#[test]
fn programs_are_added_beside_each_other() {
    let mut dialogue = Dialogue::new(MemoryVariableStore::new());
    assert_eq!(
        dialogue.add_program(program(vec![node("A", vec![run_line("line:a", 0)], vec![])])),
        Ok(())
    );
    dialogue.set_node("A");
    assert_eq!(dialogue.add_program(program(vec![node("B", vec![], vec![])])), Ok(()));
    assert_eq!(dialogue.node_names(), Some(vec!["A".to_owned(), "B".to_owned()]));
    // Adding a program leaves the dialogue where it is.
    assert_eq!(dialogue.current_node(), Some("A".to_owned()));
    assert!(dialogue.is_active());
    // Replacing it does not.
    dialogue.replace_program(program(vec![node("C", vec![], vec![])]));
    assert_eq!(dialogue.current_node(), None);
    assert!(!dialogue.is_active());
}

#[test]
fn combining_programs_keeps_order_and_refuses_duplicates() {
    let first = Program {
        nodes: vec![node("A", vec![], vec![]), node("B", vec![], vec![])],
        initial_values: vec![InitialValue { name: "$a".to_owned(), value: number(1.0) }],
    };
    let second = Program {
        nodes: vec![node("C", vec![], vec![])],
        initial_values: vec![InitialValue { name: "$c".to_owned(), value: string("c") }],
    };
    let combined = Program::combine(vec![first.clone(), second.clone()]).unwrap();
    assert_eq!(combined.node_names(), vec!["A", "B", "C"]);
    assert_eq!(combined.node_index("C"), Some(2));
    assert_eq!(combined.node_index("D"), None);
    assert_eq!(combined.initial_value("$c"), Some(&string("c")));
    assert_eq!(combined.initial_value("$a"), Some(&number(1.0)));
    assert_eq!(combined.initial_value("$b"), None);

    let clash = program(vec![node("X", vec![], vec![]), node("B", vec![], vec![])]);
    assert_eq!(
        Program::combine(vec![first.clone(), second, clash]),
        Err(CombineError::DuplicateNodeName("B".to_owned()))
    );
    assert_eq!(
        Program::combine(vec![first.clone(), first]),
        Err(CombineError::DuplicateNodeName("A".to_owned()))
    );
    assert_eq!(Program::combine(vec![]), Ok(Program::new()));
}

#[test]
fn labels_are_found_by_their_first_entry() {
    let node = node("N", vec![], vec![("a", 1), ("b", 2), ("a", 3)]);
    assert_eq!(node.label_index("a"), Some(1));
    assert_eq!(node.label_index("b"), Some(2));
    assert_eq!(node.label_index("c"), None);
}

#[test]
fn substitution_markers_are_replaced_by_index() {
    let expand = |text: &str, substitutions: &[&str]| {
        Dialogue::<MemoryVariableStore>::expand_substitutions(
            text,
            &substitutions.iter().map(|s| s.to_string()).collect(),
        )
    };
    assert_eq!(expand("Hello, {0}!", &["world"]), "Hello, world!");
    assert_eq!(expand("{1} before {0}, {1} again", &["a", "b"]), "b before a, b again");
    assert_eq!(expand("{0} and {2}", &["a"]), "a and {2}");
    assert_eq!(expand("nothing here", &["a"]), "nothing here");
    assert_eq!(expand("{0}", &[]), "{0}");
    // A substitution may bring in the marker of a later one.
    assert_eq!(expand("{0}", &["{1}", "x"]), "x");
    // But not that of an earlier one.
    assert_eq!(expand("{1}", &["x", "{0}"]), "{0}");
    let many: Vec<&str> = vec!["0", "1", "2", "3", "4", "5", "6", "7", "8", "9", "ten", "eleven"];
    assert_eq!(expand("{10}{11}{1}{0}", &many), "teneleven10");
}

#[test]
fn markup_is_read() {
    let dialogue = Dialogue::new(MemoryVariableStore::new());
    let markup = dialogue.parse_markup("[b]bold[/b] text");
    assert_eq!(markup.text, "bold text");
    assert_eq!(
        markup.attributes,
        vec![MarkupAttribute {
            name: "b".to_owned(),
            position: 0,
            length: 4,
            properties: Vec::new(),
        }]
    );
    assert_eq!(markup.requests, Vec::new());
    let markup = dialogue.parse_markup("[plural value=2 one=\"% cat\" other=\"% cats\"/]");
    assert_eq!(markup.text, "2 cats");
    assert_eq!(markup.requests, vec![PluralRequest { ordinal: false, value: "2".to_owned() }]);
    assert_eq!(dialogue.parse_markup("plain").text, "plain");
}

#[test]
fn language_code_can_be_set_and_changed() {
    let dialogue = Dialogue::new(MemoryVariableStore::new());
    assert_eq!(dialogue.language_code(), None);
    let mut dialogue = dialogue.with_language_code("en-US".to_owned());
    assert_eq!(dialogue.language_code(), Some("en-US"));
    dialogue.language_code_mut().unwrap().push_str("-x");
    assert_eq!(dialogue.language_code(), Some("en-US-x"));
    let mut none = Dialogue::new(MemoryVariableStore::new());
    assert!(none.language_code_mut().is_none());
}

#[test]
fn new_dialogue_has_the_standard_functions() {
    let dialogue = Dialogue::new(MemoryVariableStore::new());
    let library = dialogue.library();
    for name in [
        "Number.EqualTo",
        "Number.Add",
        "Number.UnarySubtract",
        "Number.LessThanOrEqualTo",
        "String.Add",
        "String.EqualTo",
        "Bool.And",
        "Bool.Not",
        "random",
        "random_range",
        "dice",
        "round",
        "floor",
        "ceil",
        "inc",
        "dec",
        "decimal",
        "int",
        "visited",
        "visited_count",
    ] {
        assert!(library.contains(name), "{name}");
    }
    assert!(!library.contains("String.Subtract"));
    assert!(!library.contains("Bool.Add"));
    let add = library.get("Number.Add").unwrap();
    assert_eq!(add.parameters, vec![Type::Number, Type::Number]);
    assert_eq!(add.return_type, Type::Number);
    let visited = library.get("visited").unwrap();
    assert_eq!(visited.parameters, vec![Type::String]);
    assert_eq!(visited.return_type, Type::Bool);
    assert_eq!(library.get("visited_count").unwrap().return_type, Type::Number);
    assert_eq!(library.get("random").unwrap().parameters, vec![]);
    assert_eq!(library.get("random_range").unwrap().parameters.len(), 2);
    assert_eq!(Library::standard_library().get("visited"), None);
}

#[test]
fn extending_a_library_overrides_by_name() {
    let other = Library::new()
        .with_function("shout", vec![Type::String], Type::String)
        .with_function("dice", vec![], Type::Any);
    let dialogue = Dialogue::new(MemoryVariableStore::new()).with_extended_library(other);
    let library = dialogue.library();
    assert_eq!(library.get("shout").unwrap().parameters, vec![Type::String]);
    assert_eq!(library.get("dice").unwrap().parameters, vec![]);
    assert_eq!(library.get("dice").unwrap().return_type, Type::Any);
    assert!(library.contains("Number.Add"));
}

#[test]
fn memory_store_holds_what_was_set() {
    let mut store = MemoryVariableStore::new();
    assert!(!store.contains("$a"));
    assert_eq!(store.get("$a"), None);
    store.set("$a".to_owned(), number(1.0));
    store.set("$b".to_owned(), string("b"));
    store.set("$a".to_owned(), YarnValue::Bool(true));
    assert!(store.contains("$a"));
    assert_eq!(store.get("$a"), Some(YarnValue::Bool(true)));
    assert_eq!(store.get("$b"), Some(string("b")));
    store.clear();
    assert!(!store.contains("$a"));
    assert_eq!(store.get("$b"), None);
}

#[test]
fn string_map_extends_in_favour_of_the_other_map() {
    let mut map: StringMap<YarnValue> = StringMap::new();
    map.insert("a".to_owned(), number(1.0));
    map.insert("b".to_owned(), number(2.0));
    let mut other: StringMap<YarnValue> = StringMap::new();
    other.insert("b".to_owned(), number(20.0));
    other.insert("c".to_owned(), number(30.0));
    other.insert("b".to_owned(), number(21.0));
    map.extend(other);
    assert_eq!(map.get("a"), Some(&number(1.0)));
    assert_eq!(map.get("b"), Some(&number(21.0)));
    assert_eq!(map.get("c"), Some(&number(30.0)));
    assert!(!map.contains_key("d"));
    map.clear();
    assert!(!map.contains_key("a"));
}

#[test]
fn program_with_a_name_that_is_loaded_is_not_added() {
    let mut dialogue = Dialogue::new(MemoryVariableStore::new());
    let loaded = program(vec![
        node("A", vec![run_line("line:a", 0)], vec![]),
        node("B", vec![], vec![]),
    ]);
    assert_eq!(dialogue.add_program(loaded), Ok(()));
    dialogue.set_node("A");
    let repeating = program(vec![
        node("C", vec![], vec![]),
        node("B", vec![run_line("line:b", 0)], vec![]),
        node("A", vec![], vec![]),
    ]);
    assert_eq!(
        dialogue.add_program(repeating),
        Err(CombineError::DuplicateNodeName("B".to_owned()))
    );
    assert_eq!(dialogue.node_names(), Some(vec!["A".to_owned(), "B".to_owned()]));
    assert_eq!(dialogue.current_node(), Some("A".to_owned()));
    assert!(dialogue.is_active());

    // A program that repeats a name of its own is not loaded either, if one is loaded.
    let twice = program(vec![node("D", vec![], vec![]), node("D", vec![], vec![])]);
    assert_eq!(
        dialogue.add_program(twice),
        Err(CombineError::DuplicateNodeName("D".to_owned()))
    );
    assert_eq!(dialogue.node_names(), Some(vec!["A".to_owned(), "B".to_owned()]));
}

fn words(first: &str, second: &str) -> Vec<YarnValue> {
    vec![YarnValue::String(first.to_owned()), YarnValue::String(second.to_owned())]
}

fn truths(first: bool, second: bool) -> Vec<YarnValue> {
    vec![YarnValue::Bool(first), YarnValue::Bool(second)]
}

#[test]
fn operators_on_strings_join_and_compare() {
    assert_eq!(
        builtin_operator("String.Add", &words("ab", "cd")),
        Some(YarnValue::String("abcd".to_owned()))
    );
    assert_eq!(
        builtin_operator("String.Add", &words("", "é")),
        Some(YarnValue::String("é".to_owned()))
    );
    assert_eq!(builtin_operator("String.EqualTo", &words("a", "a")), Some(YarnValue::Bool(true)));
    assert_eq!(builtin_operator("String.EqualTo", &words("a", "b")), Some(YarnValue::Bool(false)));
    assert_eq!(
        builtin_operator("String.NotEqualTo", &words("a", "a")),
        Some(YarnValue::Bool(false))
    );
    assert_eq!(
        builtin_operator("String.NotEqualTo", &words("a", "b")),
        Some(YarnValue::Bool(true))
    );
    assert_eq!(builtin_operator("String.And", &words("a", "b")), None);
    assert_eq!(builtin_operator("Bool.And", &words("a", "b")), None);
    assert_eq!(builtin_operator("String.Add", &truths(true, true)), None);
    assert_eq!(builtin_operator("String.Add", &vec![YarnValue::String("a".to_owned())]), None);
}

#[test]
fn operators_on_truth_values_are_those_of_logic() {
    let table: [(&str, [bool; 4]); 5] = [
        ("Bool.EqualTo", [true, false, false, true]),
        ("Bool.NotEqualTo", [false, true, true, false]),
        ("Bool.And", [false, false, false, true]),
        ("Bool.Or", [false, true, true, true]),
        ("Bool.Xor", [false, true, true, false]),
    ];
    for (name, results) in table {
        let mut found = Vec::new();
        for (first, second) in [(false, false), (false, true), (true, false), (true, true)] {
            found.push(builtin_operator(name, &truths(first, second)));
        }
        let expected: Vec<Option<YarnValue>> =
            results.iter().map(|result| Some(YarnValue::Bool(*result))).collect();
        assert_eq!(found, expected);
    }
    assert_eq!(
        builtin_operator("Bool.Not", &vec![YarnValue::Bool(true)]),
        Some(YarnValue::Bool(false))
    );
    assert_eq!(
        builtin_operator("Bool.Not", &vec![YarnValue::Bool(false)]),
        Some(YarnValue::Bool(true))
    );
    assert_eq!(builtin_operator("Bool.Not", &truths(true, true)), None);
    assert_eq!(builtin_operator("Bool.Not", &vec![YarnValue::String("true".to_owned())]), None);
    assert_eq!(builtin_operator("Bool.Nand", &truths(true, true)), None);
    assert_eq!(builtin_operator("Bool.And", &Vec::new()), None);
}

#[test]
fn conversion_to_a_truth_value() {
    let convert = |value: YarnValue| builtin_operator("bool", &vec![value]);
    assert_eq!(convert(YarnValue::Bool(true)), Some(YarnValue::Bool(true)));
    assert_eq!(convert(YarnValue::Bool(false)), Some(YarnValue::Bool(false)));
    assert_eq!(convert(YarnValue::String("true".to_owned())), Some(YarnValue::Bool(true)));
    assert_eq!(convert(YarnValue::String("false".to_owned())), Some(YarnValue::Bool(false)));
    assert_eq!(convert(YarnValue::String("yes".to_owned())), None);
    assert_eq!(convert(YarnValue::Number(Number::from_bits(0))), Some(YarnValue::Bool(false)));
    assert_eq!(
        convert(YarnValue::Number(Number::from_bits(0x3F80_0000))),
        Some(YarnValue::Bool(true))
    );
    assert_eq!(builtin_operator("bool", &truths(true, true)), None);
    assert_eq!(builtin_operator("string", &vec![YarnValue::Bool(true)]), None);
}

#[test]
fn machine_answers_operators_without_the_host() {
    let code = vec![
        Instruction::PushString("ab".to_owned()),
        Instruction::PushString("cd".to_owned()),
        Instruction::CallFunc("String.Add".to_owned()),
        run_line("line:a", 1),
        Instruction::PushBool(true),
        Instruction::CallFunc("Bool.Not".to_owned()),
        Instruction::PushBool(false),
        Instruction::CallFunc("Bool.Or".to_owned()),
        run_line("line:b", 1),
    ];
    let mut dialogue = Dialogue::new(MemoryVariableStore::new());
    dialogue.replace_program(program(vec![node("A", code, vec![])]));
    dialogue.set_node("A");
    let mut host = NoFunctions;
    assert_eq!(
        dialogue.next(&mut host),
        Some(vec![
            DialogueEvent::NodeStart("A".to_owned()),
            DialogueEvent::Line(Line {
                id: "line:a".to_owned(),
                substitutions: vec![YarnValue::String("abcd".to_owned())],
            }),
        ])
    );
    assert_eq!(
        dialogue.next(&mut host),
        Some(vec![DialogueEvent::Line(Line {
            id: "line:b".to_owned(),
            substitutions: vec![YarnValue::Bool(false)],
        })])
    );
}
