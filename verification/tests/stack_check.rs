use yarn_slinger::compiler::compile::{compile, SourceFile};
use yarn_slinger::compiler::declaration::Declaration;
use yarn_slinger::compiler::numbers::WholeNumbers;
use yarn_slinger::compiler::stack_check::{check_node, Shape, Slot};
use yarn_slinger::program::{Instruction, Label, Node, Program};
use yarn_slinger::runtime::library::Library;
use yarn_slinger::types::Type;
use yarn_slinger::value::Number;

fn node_of(name: &str, instructions: Vec<Instruction>, labels: &[(&str, usize)]) -> Node {
    Node {
        name: name.to_owned(),
        instructions,
        labels: labels
            .iter()
            .map(|(name, index)| Label { name: name.to_string(), index: *index })
            .collect(),
        tags: Vec::new(),
        source_text_string_id: None,
    }
}

fn declared(name: &str, ty: Type) -> Declaration {
    Declaration::default().with_name(name.to_owned()).with_type(Some(ty))
}

/// The stacks of the shapes of a node, `None` for an instruction that
/// cannot be reached; `None` in all where the node is out of order.
fn stacks(
    instructions: Vec<Instruction>,
    labels: &[(&str, usize)],
    declarations: &[Declaration],
) -> Option<Vec<Option<Vec<Slot>>>> {
    let node = node_of("Start", instructions, labels);
    let other = node_of("Other", Vec::new(), &[]);
    let program = Program { nodes: vec![node.clone(), other], initial_values: Vec::new() };
    let library = Library::standard_library();
    let shapes = check_node(&node, &program, &library, &declarations.to_vec())?;
    Some(shapes.into_iter().map(|shape| shape.map(|shape| shape.stack)).collect())
}

fn one() -> Instruction {
    Instruction::PushFloat(Number::from_bits(0x3F80_0000))
}

fn text(string: &str) -> Instruction {
    Instruction::PushString(string.to_owned())
}

fn call(name: &str) -> Instruction {
    Instruction::CallFunc(name.to_owned())
}

#[test]
fn shapes_follow_the_stack() {
    assert_eq!(
        stacks(vec![one(), one(), call("Number.Add"), Instruction::Pop], &[], &[]),
        Some(vec![
            Some(vec![]),
            Some(vec![Slot::Number]),
            Some(vec![Slot::Number, Slot::Number]),
            Some(vec![Slot::Number]),
            Some(vec![]),
        ])
    );
    assert_eq!(
        stacks(vec![one(), one(), call("Number.LessThan")], &[], &[]),
        Some(vec![
            Some(vec![]),
            Some(vec![Slot::Number]),
            Some(vec![Slot::Number, Slot::Number]),
            Some(vec![Slot::Bool]),
        ])
    );
}

#[test]
fn empty_node_is_in_order() {
    assert_eq!(stacks(vec![], &[], &[]), Some(vec![Some(vec![])]));
}

#[test]
fn pop_needs_a_value() {
    assert_eq!(stacks(vec![Instruction::Pop], &[], &[]), None);
    assert_eq!(stacks(vec![one(), Instruction::Pop, Instruction::Pop], &[], &[]), None);
}

#[test]
fn reserved_instruction_is_out_of_order() {
    assert_eq!(stacks(vec![Instruction::PushNull], &[], &[]), None);
}

#[test]
fn code_that_cannot_be_reached_has_no_shape() {
    assert_eq!(
        stacks(vec![Instruction::Stop, Instruction::Pop], &[], &[]),
        Some(vec![Some(vec![]), None, None])
    );
}

#[test]
fn strings_that_name_nodes_are_told_apart() {
    assert_eq!(
        stacks(vec![text("Other"), Instruction::RunNode], &[], &[]),
        Some(vec![Some(vec![]), Some(vec![Slot::NodeName]), None])
    );
    assert_eq!(stacks(vec![text("Nowhere"), Instruction::RunNode], &[], &[]), None);
    assert_eq!(stacks(vec![one(), Instruction::RunNode], &[], &[]), None);
    assert_eq!(
        stacks(vec![text("Other"), text("Nowhere"), call("String.Add")], &[], &[]),
        Some(vec![
            Some(vec![]),
            Some(vec![Slot::NodeName]),
            Some(vec![Slot::NodeName, Slot::Text]),
            Some(vec![Slot::Text]),
        ])
    );
}

#[test]
fn calls_need_arguments_of_the_right_types() {
    assert_eq!(stacks(vec![one(), call("Number.Add")], &[], &[]), None);
    assert_eq!(stacks(vec![one(), text("a"), call("Number.Add")], &[], &[]), None);
    assert_eq!(stacks(vec![one(), one(), call("Number.Unknown")], &[], &[]), None);
    assert!(stacks(vec![one(), one(), call("Number.EqualTo")], &[], &[]).is_some());
}

#[test]
fn both_ways_to_an_instruction_must_give_the_same_stack() {
    let jump = || Instruction::JumpIfFalse("L".to_owned());
    let truth = || Instruction::PushBool(true);
    assert_eq!(
        stacks(vec![truth(), jump(), Instruction::Pop, Instruction::Stop], &[("L", 2)], &[]),
        Some(vec![
            Some(vec![]),
            Some(vec![Slot::Bool]),
            Some(vec![Slot::Bool]),
            Some(vec![]),
            None,
        ])
    );
    assert_eq!(stacks(vec![truth(), jump(), one(), Instruction::Pop], &[("L", 3)], &[]), None);
    assert_eq!(stacks(vec![truth(), jump()], &[], &[]), None);
    assert_eq!(stacks(vec![truth(), jump()], &[("L", 7)], &[]), None);
    assert_eq!(stacks(vec![text("a"), jump()], &[("L", 2)], &[]), None);
}

#[test]
fn jump_back_must_find_the_shape_it_brings() {
    let back = || Instruction::JumpTo("Top".to_owned());
    assert_eq!(
        stacks(vec![Instruction::PushBool(true), Instruction::Pop, back()], &[("Top", 0)], &[]),
        Some(vec![Some(vec![]), Some(vec![Slot::Bool]), Some(vec![]), None])
    );
    assert_eq!(stacks(vec![one(), back()], &[("Top", 0)], &[]), None);
    assert_eq!(stacks(vec![Instruction::Stop, one(), back()], &[("Top", 1)], &[]).is_some(), true);
}

#[test]
fn variables_hold_values_of_their_types() {
    let declarations = [declared("$n", Type::Number), declared("$s", Type::String)];
    let store = |name: &str| Instruction::StoreVariable(name.to_owned());
    let push = |name: &str| Instruction::PushVariable(name.to_owned());
    assert_eq!(
        stacks(vec![one(), store("$n"), Instruction::Pop, push("$s")], &[], &declarations),
        Some(vec![
            Some(vec![]),
            Some(vec![Slot::Number]),
            Some(vec![Slot::Number]),
            Some(vec![]),
            Some(vec![Slot::Text]),
        ])
    );
    assert_eq!(stacks(vec![one(), store("$s")], &[], &declarations), None);
    assert_eq!(stacks(vec![one(), store("$unknown")], &[], &declarations), None);
    assert_eq!(stacks(vec![push("$unknown")], &[], &declarations), None);
    assert_eq!(stacks(vec![store("$n")], &[], &declarations), None);
}

fn option(destination: &str, has_condition: bool) -> Instruction {
    Instruction::AddOption {
        line_id: "line:1".to_owned(),
        destination: destination.to_owned(),
        has_condition,
    }
}

#[test]
fn options_lead_to_code_that_finds_their_label() {
    let code = vec![
        option("A", false),
        Instruction::PushBool(false),
        option("B", true),
        Instruction::ShowOptions,
        Instruction::Jump,
        Instruction::Pop,
        Instruction::Stop,
    ];
    let node = node_of("Start", code.clone(), &[("A", 5), ("B", 5)]);
    let program = Program { nodes: vec![node.clone()], initial_values: Vec::new() };
    let shapes = check_node(&node, &program, &Library::new(), &Vec::new()).unwrap();
    let pending: Vec<bool> =
        shapes.iter().map(|shape| shape.as_ref().is_some_and(|shape| shape.has_pending)).collect();
    assert_eq!(pending, vec![false, true, true, true, false, false, false, false]);
    let stacks: Vec<Option<Vec<Slot>>> =
        shapes.into_iter().map(|shape| shape.map(|shape| shape.stack)).collect();
    assert_eq!(
        stacks,
        vec![
            Some(vec![]),
            Some(vec![]),
            Some(vec![Slot::Bool]),
            Some(vec![]),
            Some(vec![Slot::Label]),
            Some(vec![Slot::Label]),
            Some(vec![]),
            None,
        ]
    );
}

#[test]
fn options_must_be_shown_on_the_stack_they_were_added_on() {
    let labels = [("A", 4)];
    assert_eq!(
        self::stacks(
            vec![option("A", false), one(), Instruction::ShowOptions, Instruction::Jump, Instruction::Pop],
            &labels,
            &[]
        ),
        None
    );
    assert_eq!(self::stacks(vec![option("Nowhere", false)], &labels, &[]), None);
    assert_eq!(self::stacks(vec![option("A", true)], &labels, &[]), None);
    assert_eq!(self::stacks(vec![text("yes"), option("A", true)], &labels, &[]), None);
    assert_eq!(self::stacks(vec![text("A"), Instruction::Jump], &labels, &[]), None);
    assert_eq!(
        self::stacks(vec![Instruction::ShowOptions, Instruction::Pop], &labels, &[]),
        Some(vec![Some(vec![]), None, None])
    );
}

#[test]
fn shapes_are_told_apart_by_stack_and_pending_options() {
    let start = Shape::start();
    assert!(start.same_as(&start.duplicate()));
    let number = Shape { stack: vec![Slot::Number], has_pending: false, pending: Vec::new() };
    let waiting = Shape { stack: Vec::new(), has_pending: true, pending: Vec::new() };
    let idle = Shape { stack: Vec::new(), has_pending: false, pending: vec![Slot::Bool] };
    assert!(!start.same_as(&number));
    assert!(!start.same_as(&waiting));
    assert!(start.same_as(&idle));
    assert!(number.same_as(&number.duplicate()));
}

#[test]
fn compiled_code_is_in_order() {
    let source = "title: Start
---
<<declare $gold = 2>>
-> Buy <<if $gold > 5>>
    Bought {$gold + 1}.
-> Beg
    -> Please
        <<set $gold to $gold + 10>>
    -> Never mind
        Fine.
<<if $gold > 3 and not visited(\"End\")>>
    Rich.
<<elseif $gold == 3>>
    <<pay {$gold} now>>
<<else>>
    Poor.
<<endif>>
<<jump End>>
===
title: End
---
Bye. <<stop>>
Never.
===
";
    let files = vec![SourceFile { file_name: "a.yarn".to_owned(), source: source.to_owned() }];
    let library = Library::standard_library()
        .with_function("visited", vec![Type::String], Type::Bool);
    let compilation = compile(&files, &library, &WholeNumbers);
    assert!(compilation.succeeded(), "{:?}", compilation.diagnostics);
    for node in &compilation.program.nodes {
        let shapes =
            check_node(node, &compilation.program, &library, &compilation.declarations).unwrap();
        assert_eq!(shapes.len(), node.instructions.len() + 1);
        assert!(shapes[0].as_ref().unwrap().same_as(&Shape::start()));
        for label in &node.labels {
            assert!(shapes[label.index].is_some(), "{}", label.name);
        }
    }
}

#[test]
fn values_of_any_type_fit_where_anything_fits() {
    let library = Library::new()
        .with_function("pick", vec![], Type::Any)
        .with_function("show", vec![Type::Any], Type::String)
        .with_function("double", vec![Type::Number], Type::Number)
        .with_function("visited", vec![Type::Any], Type::String)
        .with_function("bool", vec![Type::Any], Type::Bool)
        .with_function("String.Add", vec![Type::String, Type::String], Type::Number);
    let shapes = |instructions: Vec<Instruction>| {
        let node = node_of("Start", instructions, &[("L", 0)]);
        let program = Program { nodes: vec![node.clone()], initial_values: Vec::new() };
        check_node(&node, &program, &library, &Vec::new())
            .map(|shapes| shapes.into_iter().map(|shape| shape.map(|shape| shape.stack)).collect::<Vec<_>>())
    };
    assert_eq!(
        shapes(vec![call("pick"), call("show"), one(), call("show")]),
        Some(vec![
            Some(vec![]),
            Some(vec![Slot::Any]),
            Some(vec![Slot::Text]),
            Some(vec![Slot::Text, Slot::Number]),
            Some(vec![Slot::Text, Slot::Text]),
        ])
    );
    assert_eq!(
        shapes(vec![
            call("pick"),
            Instruction::RunLine { line_id: "line:1".to_owned(), substitution_count: 1 },
        ]),
        Some(vec![Some(vec![]), Some(vec![Slot::Any]), Some(vec![])])
    );
    assert_eq!(shapes(vec![call("pick"), call("double")]), None);
    assert_eq!(shapes(vec![call("pick"), Instruction::JumpIfFalse("L".to_owned())]), None);
    assert_eq!(shapes(vec![call("pick"), Instruction::RunNode]), None);
    // What the machine may answer itself must be declared as the machine answers it.
    assert_eq!(shapes(vec![one(), call("visited")]), None);
    assert_eq!(shapes(vec![text("a"), call("visited")]), None);
    assert_eq!(shapes(vec![call("pick"), call("visited")]), None);
    assert_eq!(shapes(vec![text("a"), text("b"), call("String.Add")]), None);
    assert_eq!(
        shapes(vec![call("pick"), call("bool")]),
        Some(vec![Some(vec![]), Some(vec![Slot::Any]), Some(vec![Slot::Bool])])
    );
}

#[test]
fn code_that_calls_what_the_library_lacks_does_not_compile() {
    let source = "title: Start\n---\n<<set $x to 1 + 2>>\n===\ntitle: End\n---\nBye.\n===\n";
    let files = vec![SourceFile { file_name: "a.yarn".to_owned(), source: source.to_owned() }];
    let compilation = compile(&files, &Library::new(), &WholeNumbers);
    let messages: Vec<&str> =
        compilation.diagnostics.iter().map(|diagnostic| diagnostic.message.as_str()).collect();
    assert_eq!(messages, vec!["The code of a node leaves its stack out of order"]);
    assert!(!compilation.succeeded());
    assert_eq!(compilation.program.nodes.len(), 2);

    let compilation = compile(&files, &Library::standard_library(), &WholeNumbers);
    assert_eq!(compilation.diagnostics, Vec::new());
    assert!(compilation.succeeded());
}
