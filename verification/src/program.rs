//! Compiled programs: nodes of instructions for the virtual machine.

use crate::text::{lemma_position_absent, lemma_position_is_first, position_of, str_eq};
use crate::value::{Number, YarnValue, YarnValueView};
use vstd::prelude::*;

verus! {

/// One instruction of the virtual machine.
#[derive(Debug, PartialEq, Eq)]
pub enum Instruction {
    /// Continues at the given label of the node.
    JumpTo(String),
    /// Continues at the label that the string on top of the stack names. The
    /// string stays on the stack.
    Jump,
    /// Delivers the line of the given id. Its substitutions are the topmost
    /// values of the stack, which are removed.
    RunLine { line_id: String, substitution_count: usize },
    /// Delivers a command to the host. Its arguments are the topmost values
    /// of the stack, which are removed.
    RunCommand { name: String, argument_count: usize },
    /// Adds an option to the options that will be shown next. Where it has a
    /// condition, the value on top of the stack says whether the option is
    /// available, and is removed.
    AddOption { line_id: String, destination: String, has_condition: bool },
    /// Presents the options gathered so far and waits for a selection.
    ShowOptions,
    /// Pushes a string.
    PushString(String),
    /// Pushes a number.
    PushFloat(Number),
    /// Pushes a truth value.
    PushBool(bool),
    /// Reserved. No value is null.
    PushNull,
    /// Continues at the given label if the value on top of the stack is
    /// false. The value stays on the stack.
    JumpIfFalse(String),
    /// Removes the value on top of the stack.
    Pop,
    /// Calls the function of the given name with as many of the topmost
    /// values of the stack as it has parameters, and pushes its result in
    /// their place.
    CallFunc(String),
    /// Pushes the value of the variable of the given name.
    PushVariable(String),
    /// Stores the value on top of the stack in the variable of the given
    /// name. The value stays on the stack.
    StoreVariable(String),
    /// Ends the dialogue.
    Stop,
    /// Ends the node and starts the node that the string on top of the stack
    /// names.
    RunNode,
}

/// The mathematical value of an [`Instruction`].
pub enum InstructionView {
    JumpTo(Seq<char>),
    Jump,
    RunLine { line_id: Seq<char>, substitution_count: usize },
    RunCommand { name: Seq<char>, argument_count: usize },
    AddOption { line_id: Seq<char>, destination: Seq<char>, has_condition: bool },
    ShowOptions,
    PushString(Seq<char>),
    PushFloat(Number),
    PushBool(bool),
    PushNull,
    JumpIfFalse(Seq<char>),
    Pop,
    CallFunc(Seq<char>),
    PushVariable(Seq<char>),
    StoreVariable(Seq<char>),
    Stop,
    RunNode,
}

impl View for Instruction {
    type V = InstructionView;

    open spec fn view(&self) -> InstructionView {
        match self {
            Instruction::JumpTo(label) => InstructionView::JumpTo(label@),
            Instruction::Jump => InstructionView::Jump,
            Instruction::RunLine { line_id, substitution_count } => InstructionView::RunLine {
                line_id: line_id@,
                substitution_count: *substitution_count,
            },
            Instruction::RunCommand { name, argument_count } => InstructionView::RunCommand {
                name: name@,
                argument_count: *argument_count,
            },
            Instruction::AddOption {
                line_id,
                destination,
                has_condition,
            } => InstructionView::AddOption {
                line_id: line_id@,
                destination: destination@,
                has_condition: *has_condition,
            },
            Instruction::ShowOptions => InstructionView::ShowOptions,
            Instruction::PushString(string) => InstructionView::PushString(string@),
            Instruction::PushFloat(number) => InstructionView::PushFloat(*number),
            Instruction::PushBool(truth) => InstructionView::PushBool(*truth),
            Instruction::PushNull => InstructionView::PushNull,
            Instruction::JumpIfFalse(label) => InstructionView::JumpIfFalse(label@),
            Instruction::Pop => InstructionView::Pop,
            Instruction::CallFunc(name) => InstructionView::CallFunc(name@),
            Instruction::PushVariable(name) => InstructionView::PushVariable(name@),
            Instruction::StoreVariable(name) => InstructionView::StoreVariable(name@),
            Instruction::Stop => InstructionView::Stop,
            Instruction::RunNode => InstructionView::RunNode,
        }
    }
}

impl DeepView for Instruction {
    type V = InstructionView;

    open spec fn deep_view(&self) -> InstructionView {
        self@
    }
}

impl Clone for Instruction {
    fn clone(&self) -> (r: Self)
        ensures
            r@ == self@,
    {
        match self {
            Instruction::JumpTo(label) => Instruction::JumpTo(label.clone()),
            Instruction::Jump => Instruction::Jump,
            Instruction::RunLine { line_id, substitution_count } => Instruction::RunLine {
                line_id: line_id.clone(),
                substitution_count: *substitution_count,
            },
            Instruction::RunCommand { name, argument_count } => Instruction::RunCommand {
                name: name.clone(),
                argument_count: *argument_count,
            },
            Instruction::AddOption { line_id, destination, has_condition } => {
                Instruction::AddOption {
                    line_id: line_id.clone(),
                    destination: destination.clone(),
                    has_condition: *has_condition,
                }
            },
            Instruction::ShowOptions => Instruction::ShowOptions,
            Instruction::PushString(string) => Instruction::PushString(string.clone()),
            Instruction::PushFloat(number) => Instruction::PushFloat(*number),
            Instruction::PushBool(truth) => Instruction::PushBool(*truth),
            Instruction::PushNull => Instruction::PushNull,
            Instruction::JumpIfFalse(label) => Instruction::JumpIfFalse(label.clone()),
            Instruction::Pop => Instruction::Pop,
            Instruction::CallFunc(name) => Instruction::CallFunc(name.clone()),
            Instruction::PushVariable(name) => Instruction::PushVariable(name.clone()),
            Instruction::StoreVariable(name) => Instruction::StoreVariable(name.clone()),
            Instruction::Stop => Instruction::Stop,
            Instruction::RunNode => Instruction::RunNode,
        }
    }
}

/// A copy of a list of strings.
pub fn clone_strings(strings: &Vec<String>) -> (r: Vec<String>)
    ensures
        r.deep_view() == strings.deep_view(),
{
    let mut copies: Vec<String> = Vec::new();
    let mut i: usize = 0;
    while i < strings.len()
        invariant
            i <= strings.len(),
            copies.len() == i,
            forall|j: int| 0 <= j < i ==> copies[j]@ == strings[j]@,
        decreases strings.len() - i,
    {
        copies.push(strings[i].clone());
        i = i + 1;
    }
    proof {
        assert(copies.deep_view() =~= strings.deep_view());
    }
    copies
}

/// A label of a node: a name for the index of an instruction.
#[derive(Debug, PartialEq, Eq)]
pub struct Label {
    pub name: String,
    pub index: usize,
}

/// The mathematical value of a [`Label`].
pub struct LabelView {
    pub name: Seq<char>,
    pub index: usize,
}

impl View for Label {
    type V = LabelView;

    open spec fn view(&self) -> LabelView {
        LabelView { name: self.name@, index: self.index }
    }
}

impl DeepView for Label {
    type V = LabelView;

    open spec fn deep_view(&self) -> LabelView {
        self@
    }
}

impl Clone for Label {
    fn clone(&self) -> (r: Self)
        ensures
            r@ == self@,
    {
        Label { name: self.name.clone(), index: self.index }
    }
}

/// A named, self-contained unit of dialogue.
#[derive(Debug, PartialEq, Eq)]
pub struct Node {
    pub name: String,
    pub instructions: Vec<Instruction>,
    /// The jump table. Where a name occurs twice, the first entry counts.
    pub labels: Vec<Label>,
    /// The tags of the node's header.
    pub tags: Vec<String>,
    /// The id of the string that holds the node's source text, where the
    /// node's header asks for it to be kept.
    pub source_text_string_id: Option<String>,
}

/// The mathematical value of a [`Node`].
pub struct NodeView {
    pub name: Seq<char>,
    pub instructions: Seq<InstructionView>,
    pub labels: Seq<LabelView>,
    pub tags: Seq<Seq<char>>,
    pub source_text_string_id: Option<Seq<char>>,
}

impl View for Node {
    type V = NodeView;

    open spec fn view(&self) -> NodeView {
        NodeView {
            name: self.name@,
            instructions: self.instructions.deep_view(),
            labels: self.labels.deep_view(),
            tags: self.tags.deep_view(),
            source_text_string_id: self.source_text_string_id.deep_view(),
        }
    }
}

impl DeepView for Node {
    type V = NodeView;

    open spec fn deep_view(&self) -> NodeView {
        self@
    }
}

/// The id of the line that an instruction refers to, if it refers to one.
pub open spec fn line_id_of(instruction: InstructionView) -> Option<Seq<char>> {
    match instruction {
        InstructionView::RunLine { line_id, .. } => Some(line_id),
        InstructionView::AddOption { line_id, .. } => Some(line_id),
        _ => None,
    }
}

/// The ids of the lines that the instructions refer to, in the order of the
/// instructions.
pub open spec fn line_ids_of(instructions: Seq<InstructionView>) -> Seq<Seq<char>>
    decreases instructions.len(),
{
    if instructions.len() == 0 {
        Seq::empty()
    } else {
        let before = line_ids_of(instructions.drop_last());
        match line_id_of(instructions.last()) {
            Some(line_id) => before.push(line_id),
            None => before,
        }
    }
}

/// The line ids of a list of instructions are exactly the ids of the lines
/// and options among the instructions.
pub proof fn lemma_line_ids_of(instructions: Seq<InstructionView>, line_id: Seq<char>)
    ensures
        line_ids_of(instructions).contains(line_id) <==> exists|i: int|
            0 <= i < instructions.len() && line_id_of(#[trigger] instructions[i]) == Some(
                line_id,
            ),
    decreases instructions.len(),
{
    if instructions.len() > 0 {
        let front = instructions.drop_last();
        let before = line_ids_of(front);
        lemma_line_ids_of(front, line_id);
        if line_ids_of(instructions).contains(line_id) {
            let at = choose|k: int|
                0 <= k < line_ids_of(instructions).len() && line_ids_of(instructions)[k]
                    == line_id;
            if at < before.len() {
                assert(before[at] == line_id);
                let i = choose|i: int|
                    0 <= i < front.len() && line_id_of(#[trigger] front[i]) == Some(line_id);
                assert(instructions[i] == front[i]);
            } else {
                assert(line_id_of(instructions[instructions.len() - 1]) == Some(line_id));
            }
        }
        if exists|i: int|
            0 <= i < instructions.len() && line_id_of(#[trigger] instructions[i]) == Some(
                line_id,
            ) {
            let i = choose|i: int|
                0 <= i < instructions.len() && line_id_of(#[trigger] instructions[i]) == Some(
                    line_id,
                );
            if i < front.len() {
                assert(front[i] == instructions[i]);
                let at = choose|k: int| 0 <= k < before.len() && before[k] == line_id;
                assert(line_ids_of(instructions)[at] == line_id);
            } else {
                assert(line_ids_of(instructions) == before.push(line_id));
                assert(before.push(line_id)[before.len() as int] == line_id);
            }
        }
    }
}

impl NodeView {
    /// The names of the labels, in the order of the jump table.
    pub open spec fn label_names(self) -> Seq<Seq<char>> {
        Seq::new(self.labels.len(), |i: int| self.labels[i].name)
    }

    /// The index of the instruction that a label names.
    pub open spec fn label_index(self, label: Seq<char>) -> Option<usize> {
        match position_of(self.label_names(), label) {
            Some(i) => Some(self.labels[i].index),
            None => None,
        }
    }

    /// The ids of the lines that the node may deliver: those of its lines
    /// and of its options.
    pub open spec fn line_ids(self) -> Seq<Seq<char>> {
        line_ids_of(self.instructions)
    }
}

impl Clone for Node {
    fn clone(&self) -> (r: Self)
        ensures
            r@ == self@,
    {
        let mut instructions: Vec<Instruction> = Vec::new();
        let mut i: usize = 0;
        while i < self.instructions.len()
            invariant
                i <= self.instructions.len(),
                instructions.len() == i,
                forall|j: int| 0 <= j < i ==> instructions[j]@ == self.instructions[j]@,
            decreases self.instructions.len() - i,
        {
            instructions.push(self.instructions[i].clone());
            i = i + 1;
        }
        let mut labels: Vec<Label> = Vec::new();
        let mut k: usize = 0;
        while k < self.labels.len()
            invariant
                k <= self.labels.len(),
                labels.len() == k,
                forall|j: int| 0 <= j < k ==> labels[j]@ == self.labels[j]@,
            decreases self.labels.len() - k,
        {
            labels.push(self.labels[k].clone());
            k = k + 1;
        }
        proof {
            assert(instructions.deep_view() =~= self.instructions.deep_view());
            assert(labels.deep_view() =~= self.labels.deep_view());
        }
        Node {
            name: self.name.clone(),
            instructions,
            labels,
            tags: clone_strings(&self.tags),
            source_text_string_id: match &self.source_text_string_id {
                Some(id) => Some(id.clone()),
                None => None,
            },
        }
    }
}

impl Node {
    /// The index of the instruction that a label names.
    pub fn label_index(&self, label: &str) -> (index: Option<usize>)
        ensures
            index == self@.label_index(label@),
    {
        let mut i: usize = 0;
        while i < self.labels.len()
            invariant
                i <= self.labels.len(),
                forall|j: int| 0 <= j < i ==> self@.label_names()[j] != label@,
            decreases self.labels.len() - i,
        {
            if str_eq(self.labels[i].name.as_str(), label) {
                proof {
                    lemma_position_is_first(self@.label_names(), label@, i as int);
                }
                return Some(self.labels[i].index);
            }
            i = i + 1;
        }
        proof {
            lemma_position_absent(self@.label_names(), label@);
        }
        None
    }

    /// The ids of the lines that the node may deliver.
    pub fn line_ids(&self) -> (line_ids: Vec<String>)
        ensures
            line_ids.deep_view() == self@.line_ids(),
    {
        let mut line_ids: Vec<String> = Vec::new();
        let mut i: usize = 0;
        proof {
            assert(self@.instructions.take(0) =~= Seq::empty());
            assert(line_ids.deep_view() =~= Seq::<Seq<char>>::empty());
        }
        while i < self.instructions.len()
            invariant
                i <= self.instructions.len(),
                line_ids.deep_view() == line_ids_of(self@.instructions.take(i as int)),
            decreases self.instructions.len() - i,
        {
            let ghost before = line_ids.deep_view();
            proof {
                assert(self@.instructions.take(i + 1).drop_last() =~= self@.instructions.take(
                    i as int,
                ));
            }
            match &self.instructions[i] {
                Instruction::RunLine { line_id, .. } => {
                    line_ids.push(line_id.clone());
                    proof {
                        assert(line_ids.deep_view() =~= before.push(line_id@));
                    }
                },
                Instruction::AddOption { line_id, .. } => {
                    line_ids.push(line_id.clone());
                    proof {
                        assert(line_ids.deep_view() =~= before.push(line_id@));
                    }
                },
                _ => {},
            }
            i = i + 1;
        }
        proof {
            assert(self@.instructions.take(i as int) =~= self@.instructions);
        }
        line_ids
    }
}

/// The value that a variable has before anything is stored in it.
#[derive(Debug, PartialEq, Eq)]
pub struct InitialValue {
    pub name: String,
    pub value: YarnValue,
}

/// The mathematical value of an [`InitialValue`].
pub struct InitialValueView {
    pub name: Seq<char>,
    pub value: YarnValueView,
}

impl View for InitialValue {
    type V = InitialValueView;

    open spec fn view(&self) -> InitialValueView {
        InitialValueView { name: self.name@, value: self.value@ }
    }
}

impl DeepView for InitialValue {
    type V = InitialValueView;

    open spec fn deep_view(&self) -> InitialValueView {
        self@
    }
}

impl Clone for InitialValue {
    fn clone(&self) -> (r: Self)
        ensures
            r@ == self@,
    {
        InitialValue { name: self.name.clone(), value: self.value.clone() }
    }
}

/// A compiled program: its nodes, and the initial values of the variables
/// whose default is known at compile time.
#[derive(Debug, PartialEq, Eq)]
pub struct Program {
    /// The nodes. A node is found by its name; where a name occurs twice,
    /// the first node of that name counts.
    pub nodes: Vec<Node>,
    pub initial_values: Vec<InitialValue>,
}

/// The mathematical value of a [`Program`].
pub struct ProgramView {
    pub nodes: Seq<NodeView>,
    pub initial_values: Seq<InitialValueView>,
}

impl View for Program {
    type V = ProgramView;

    open spec fn view(&self) -> ProgramView {
        ProgramView {
            nodes: self.nodes.deep_view(),
            initial_values: self.initial_values.deep_view(),
        }
    }
}

impl DeepView for Program {
    type V = ProgramView;

    open spec fn deep_view(&self) -> ProgramView {
        self@
    }
}

/// The names of the nodes, in their order.
pub open spec fn names_of(nodes: Seq<NodeView>) -> Seq<Seq<char>> {
    Seq::new(nodes.len(), |i: int| nodes[i].name)
}

/// No name occurs twice.
pub open spec fn names_distinct(names: Seq<Seq<char>>) -> bool {
    forall|i: int, j: int| 0 <= i < j < names.len() ==> names[i] != names[j]
}

/// The nodes of all the programs, in the order of the programs.
pub open spec fn all_nodes(programs: Seq<ProgramView>) -> Seq<NodeView>
    decreases programs.len(),
{
    if programs.len() == 0 {
        Seq::empty()
    } else {
        all_nodes(programs.drop_last()) + programs.last().nodes
    }
}

/// The initial values of all the programs, in the order of the programs.
pub open spec fn all_initial_values(programs: Seq<ProgramView>) -> Seq<InitialValueView>
    decreases programs.len(),
{
    if programs.len() == 0 {
        Seq::empty()
    } else {
        all_initial_values(programs.drop_last()) + programs.last().initial_values
    }
}

impl ProgramView {
    /// The names of the nodes, in their order.
    pub open spec fn node_names(self) -> Seq<Seq<char>> {
        names_of(self.nodes)
    }

    /// The index of the node of the given name.
    pub open spec fn node_index(self, name: Seq<char>) -> Option<int> {
        position_of(self.node_names(), name)
    }

    /// The node of the given name.
    pub open spec fn node(self, name: Seq<char>) -> Option<NodeView> {
        match self.node_index(name) {
            Some(i) => Some(self.nodes[i]),
            None => None,
        }
    }

    /// The names of the variables that have an initial value.
    pub open spec fn initial_value_names(self) -> Seq<Seq<char>> {
        Seq::new(self.initial_values.len(), |i: int| self.initial_values[i].name)
    }

    /// The initial value of the variable of the given name.
    pub open spec fn initial_value(self, name: Seq<char>) -> Option<YarnValueView> {
        match position_of(self.initial_value_names(), name) {
            Some(i) => Some(self.initial_values[i].value),
            None => None,
        }
    }
}

/// Why programs could not be combined.
#[derive(Debug, Clone, PartialEq, Eq)]
pub enum CombineError {
    /// Two nodes have this name.
    DuplicateNodeName(String),
}

/// The name at `index` is the first that repeats an earlier one.
pub open spec fn is_first_repeat(names: Seq<Seq<char>>, index: int) -> bool {
    &&& 0 <= index < names.len()
    &&& names_distinct(names.take(index))
    &&& position_of(names.take(index), names[index]) is Some
}

/// The index among the first `end` nodes of the first node of the given name.
fn find_node(nodes: &Vec<Node>, end: usize, name: &str) -> (index: Option<usize>)
    requires
        end <= nodes.len(),
    ensures
        match index {
            Some(i) => position_of(names_of(nodes.deep_view()).take(end as int), name@) == Some(
                i as int,
            ),
            None => position_of(names_of(nodes.deep_view()).take(end as int), name@) is None,
        },
{
    let ghost names = names_of(nodes.deep_view()).take(end as int);
    let mut i: usize = 0;
    while i < end
        invariant
            i <= end <= nodes.len(),
            names == names_of(nodes.deep_view()).take(end as int),
            forall|j: int| 0 <= j < i ==> names[j] != name@,
        decreases end - i,
    {
        if str_eq(nodes[i].name.as_str(), name) {
            proof {
                lemma_position_is_first(names, name@, i as int);
            }
            return Some(i);
        }
        i = i + 1;
    }
    proof {
        lemma_position_absent(names, name@);
    }
    None
}

impl Program {
    /// A program without nodes.
    pub fn new() -> (program: Program)
        ensures
            program@ == (ProgramView { nodes: Seq::empty(), initial_values: Seq::empty() }),
    {
        let program = Program { nodes: Vec::new(), initial_values: Vec::new() };
        proof {
            assert(program@.nodes =~= Seq::empty());
            assert(program@.initial_values =~= Seq::empty());
        }
        program
    }

    /// The index of the node of the given name.
    pub fn node_index(&self, name: &str) -> (index: Option<usize>)
        ensures
            match index {
                Some(i) => self@.node_index(name@) == Some(i as int),
                None => self@.node_index(name@) is None,
            },
    {
        proof {
            assert(self@.node_names().take(self.nodes.len() as int) =~= self@.node_names());
        }
        find_node(&self.nodes, self.nodes.len(), name)
    }

    /// The initial value of the variable of the given name.
    pub fn initial_value(&self, name: &str) -> (value: Option<&YarnValue>)
        ensures
            value.deep_view() == self@.initial_value(name@),
    {
        let mut i: usize = 0;
        while i < self.initial_values.len()
            invariant
                i <= self.initial_values.len(),
                forall|j: int| 0 <= j < i ==> self@.initial_value_names()[j] != name@,
            decreases self.initial_values.len() - i,
        {
            if str_eq(self.initial_values[i].name.as_str(), name) {
                proof {
                    lemma_position_is_first(self@.initial_value_names(), name@, i as int);
                }
                return Some(&self.initial_values[i].value);
            }
            i = i + 1;
        }
        proof {
            lemma_position_absent(self@.initial_value_names(), name@);
        }
        None
    }

    /// The names of the nodes, in their order.
    pub fn node_names(&self) -> (names: Vec<String>)
        ensures
            names.deep_view() == self@.node_names(),
    {
        let mut names: Vec<String> = Vec::new();
        let mut i: usize = 0;
        while i < self.nodes.len()
            invariant
                i <= self.nodes.len(),
                names.len() == i,
                forall|j: int| 0 <= j < i ==> names[j]@ == self.nodes[j].name@,
            decreases self.nodes.len() - i,
        {
            names.push(self.nodes[i].name.clone());
            i = i + 1;
        }
        proof {
            assert(names.deep_view() =~= self@.node_names());
        }
        names
    }

    /// Combines programs into one that holds the nodes and the initial
    /// values of all of them, in their order. Two nodes of one name are an
    /// error: it names the first node that repeats the name of an earlier
    /// one.
    pub fn combine(programs: Vec<Program>) -> (combined: Result<Program, CombineError>)
        ensures
            match combined {
                Ok(program) => {
                    &&& program@.nodes == all_nodes(programs.deep_view())
                    &&& program@.initial_values == all_initial_values(programs.deep_view())
                    &&& names_distinct(program@.node_names())
                },
                Err(CombineError::DuplicateNodeName(name)) => exists|index: int|
                    #![trigger names_of(all_nodes(programs.deep_view()))[index]]
                    {
                        &&& is_first_repeat(names_of(all_nodes(programs.deep_view())), index)
                        &&& names_of(all_nodes(programs.deep_view()))[index] == name@
                    },
            },
    {
        let ghost views = programs.deep_view();
        let mut nodes: Vec<Node> = Vec::new();
        let mut initial_values: Vec<InitialValue> = Vec::new();
        proof {
            assert(views.take(0) =~= Seq::empty());
            assert(nodes.deep_view() =~= all_nodes(views.take(0)));
            assert(initial_values.deep_view() =~= all_initial_values(views.take(0)));
        }
        for program in iter: programs
            invariant
                views == programs.deep_view(),
                iter.seq() == programs@,
                nodes.deep_view() == all_nodes(views.take(iter.index())),
                initial_values.deep_view() == all_initial_values(views.take(iter.index())),
        {
            let ghost nodes_before = nodes.deep_view();
            let ghost values_before = initial_values.deep_view();
            let mut program = program;
            proof {
                assert(program@ == views[iter.index()]);
                assert(views.take(iter.index() + 1).drop_last() =~= views.take(iter.index()));
            }
            nodes.append(&mut program.nodes);
            initial_values.append(&mut program.initial_values);
            proof {
                assert(nodes.deep_view() =~= nodes_before + views[iter.index()].nodes);
                assert(initial_values.deep_view() =~= values_before
                    + views[iter.index()].initial_values);
            }
        }
        proof {
            assert(views.take(views.len() as int) =~= views);
        }
        let ghost names = names_of(nodes.deep_view());
        let mut j: usize = 0;
        while j < nodes.len()
            invariant
                j <= nodes.len(),
                names == names_of(nodes.deep_view()),
                names == names_of(all_nodes(programs.deep_view())),
                names_distinct(names.take(j as int)),
            decreases nodes.len() - j,
        {
            match find_node(&nodes, j, nodes[j].name.as_str()) {
                Some(_) => {
                    let name = nodes[j].name.clone();
                    proof {
                        assert(is_first_repeat(names, j as int));
                        assert(names_of(all_nodes(programs.deep_view()))[j as int] == name@);
                    }
                    return Err(CombineError::DuplicateNodeName(name));
                },
                None => {
                    proof {
                        crate::text::lemma_position_of(names.take(j as int), names[j as int]);
                        let fewer = names.take(j as int);
                        let more = names.take(j + 1);
                        assert forall|a: int, b: int| 0 <= a < b < more.len() implies #[trigger] more[a]
                            != #[trigger] more[b] by {
                            if b < j {
                                assert(fewer[a] != fewer[b]);
                            } else {
                                assert(fewer[a] != names[j as int]);
                            }
                        }
                    }
                },
            }
            j = j + 1;
        }
        proof {
            assert(names.take(j as int) =~= names);
        }
        Ok(Program { nodes, initial_values })
    }
}

impl Clone for Program {
    fn clone(&self) -> (r: Self)
        ensures
            r@ == self@,
    {
        let mut nodes: Vec<Node> = Vec::new();
        let mut i: usize = 0;
        while i < self.nodes.len()
            invariant
                i <= self.nodes.len(),
                nodes.len() == i,
                forall|j: int| 0 <= j < i ==> nodes[j]@ == self.nodes[j]@,
            decreases self.nodes.len() - i,
        {
            nodes.push(self.nodes[i].clone());
            i = i + 1;
        }
        let mut initial_values: Vec<InitialValue> = Vec::new();
        let mut k: usize = 0;
        while k < self.initial_values.len()
            invariant
                k <= self.initial_values.len(),
                initial_values.len() == k,
                forall|j: int| 0 <= j < k ==> initial_values[j]@ == self.initial_values[j]@,
            decreases self.initial_values.len() - k,
        {
            initial_values.push(self.initial_values[k].clone());
            k = k + 1;
        }
        proof {
            assert(nodes.deep_view() =~= self.nodes.deep_view());
            assert(initial_values.deep_view() =~= self.initial_values.deep_view());
        }
        Program { nodes, initial_values }
    }
}

} // verus!
