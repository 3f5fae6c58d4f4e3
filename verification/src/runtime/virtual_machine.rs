//! The virtual machine: what one instruction does to the state of a
//! dialogue, and the machine that runs instructions until there is
//! something to tell the host.

use crate::collections::value_at;
use crate::program::{
    lemma_line_ids_of, line_id_of, names_distinct, CombineError, names_of, Instruction, InstructionView, Node, NodeView, Program, ProgramView,
};
use crate::runtime::events::{
    clone_options, clone_values, DialogueEvent, DialogueEventView, DialogueOption,
    DialogueOptionView, ExecutionState, Line, LineView, OptionId, RuntimeError, RuntimeErrorView,
};
use crate::runtime::library::{
    builtin_operator, lemma_operator_type, operator_result, operator_type, FunctionHost,
    FunctionSignatureView, Library,
};
use crate::runtime::variable_storage::VariableStorage;
use crate::text::str_eq;
use crate::types::{Type, TypeView};
use crate::value::{Number, YarnValue, YarnValueView};
use vstd::prelude::*;

verus! {

/// Whether a node counts as visited: the variables hold a number greater
/// than zero under its name.
pub open spec fn node_is_visited(
    variables: Map<Seq<char>, YarnValueView>,
    node_name: Seq<char>,
) -> bool {
    match value_at(variables, node_name) {
        Some(YarnValueView::Number(count)) => count.spec_is_positive(),
        _ => false,
    }
}

/// How often a node was visited: the number that the variables hold under
/// its name, and zero where they hold none.
pub open spec fn node_visit_count(
    variables: Map<Seq<char>, YarnValueView>,
    node_name: Seq<char>,
) -> Number {
    match value_at(variables, node_name) {
        Some(YarnValueView::Number(count)) => count,
        _ => Number { bits: 0 },
    }
}

/// Whether a value of type `actual` may stand where `expected` is asked
/// for: where anything may stand, or where the types are the same.
pub open spec fn type_fits(actual: TypeView, expected: TypeView) -> bool {
    expected == TypeView::Any || actual == expected
}

/// Whether the arguments are as many as the parameters and each has the
/// type of its parameter.
pub open spec fn arguments_fit(arguments: Seq<YarnValueView>, parameters: Seq<TypeView>) -> bool {
    &&& arguments.len() == parameters.len()
    &&& forall|i: int|
        0 <= i < arguments.len() ==> type_fits(
            (#[trigger] arguments[i]).type_of(),
            parameters[i],
        )
}

/// The result of a call that the machine answers itself: `visited` and
/// `visited_count`, called with the name of a node, and the operators on
/// strings and truth values and the conversion `bool`, called with what
/// they work on. `None` for every other call.
pub open spec fn builtin_result(
    name: Seq<char>,
    arguments: Seq<YarnValueView>,
    variables: Map<Seq<char>, YarnValueView>,
) -> Option<YarnValueView> {
    if arguments.len() == 1 && arguments[0] is String && name == "visited"@ {
        Some(YarnValueView::Bool(node_is_visited(variables, arguments[0]->String_0)))
    } else if arguments.len() == 1 && arguments[0] is String && name == "visited_count"@ {
        Some(YarnValueView::Number(node_visit_count(variables, arguments[0]->String_0)))
    } else {
        operator_result(name, arguments)
    }
}

/// The type of the answer to a call of a function that the machine may
/// answer itself; `None` for a function that it never answers.
pub open spec fn builtin_type(name: Seq<char>) -> Option<TypeView> {
    if name == "visited"@ {
        Some(TypeView::Bool)
    } else if name == "visited_count"@ {
        Some(TypeView::Number)
    } else {
        operator_type(name)
    }
}

/// What the machine answers is of the type of its answer to the function.
pub proof fn lemma_builtin_type(
    name: Seq<char>,
    arguments: Seq<YarnValueView>,
    variables: Map<Seq<char>, YarnValueView>,
)
    ensures
        match builtin_result(name, arguments, variables) {
            Some(value) => builtin_type(name) == Some(value.type_of()),
            None => true,
        },
{
    lemma_operator_type(name, arguments);
    reveal_strlit("visited");
    reveal_strlit("visited_count");
    reveal_strlit("String.Add");
    reveal_strlit("String.EqualTo");
    reveal_strlit("String.NotEqualTo");
    reveal_strlit("Bool.EqualTo");
    reveal_strlit("Bool.NotEqualTo");
    reveal_strlit("Bool.And");
    reveal_strlit("Bool.Or");
    reveal_strlit("Bool.Xor");
    reveal_strlit("Bool.Not");
    reveal_strlit("bool");
    assert("visited"@.len() == 7);
    assert("visited_count"@.len() == 13);
    assert("String.Add"@.len() == 10);
    assert("String.EqualTo"@.len() == 14);
    assert("String.NotEqualTo"@.len() == 17);
    assert("Bool.EqualTo"@.len() == 12);
    assert("Bool.NotEqualTo"@.len() == 15);
    assert("Bool.And"@.len() == 8);
    assert("Bool.Or"@.len() == 7);
    assert("Bool.Xor"@.len() == 8);
    assert("Bool.Not"@.len() == 8);
    assert("bool"@.len() == 4);
    assert("visited"@[0] == 'v');
    assert("Bool.Or"@[0] == 'B');
}

/// The state of a virtual machine.
pub struct MachineView {
    pub program: Option<ProgramView>,
    /// The signatures of the functions that may be called.
    pub library: Map<Seq<char>, FunctionSignatureView>,
    /// What the variable storage holds.
    pub variables: Map<Seq<char>, YarnValueView>,
    pub should_send_line_hints: bool,
    /// The index of the current node among the nodes of the program.
    pub current_node: Option<int>,
    /// The index of the next instruction in the current node.
    pub program_counter: usize,
    /// The operand stack, its top last.
    pub stack: Seq<YarnValueView>,
    /// The options added since options were last shown.
    pub options: Seq<DialogueOptionView>,
    pub state: ExecutionState,
    /// The events that the next step will hand to the host.
    pub events: Seq<DialogueEventView>,
}

impl MachineView {
    /// The invariant of the machine: the current node is a node of the
    /// program, there is one unless the machine is stopped, and each pending
    /// option is numbered by its place.
    pub open spec fn wf(self) -> bool {
        &&& self.current_node is Some ==> self.program is Some && 0 <= self.current_node.unwrap()
            < self.program.unwrap().nodes.len()
        &&& self.state != ExecutionState::Stopped ==> self.current_node is Some
        &&& forall|k: int|
            0 <= k < self.options.len() ==> (#[trigger] self.options[k]).id == OptionId(
                k as usize,
            )
    }

    /// The current node.
    pub open spec fn node(self) -> NodeView {
        self.program.unwrap().nodes[self.current_node.unwrap()]
    }

    /// The machine with one more event for the host.
    pub open spec fn emit(self, event: DialogueEventView) -> MachineView {
        MachineView { events: self.events.push(event), ..self }
    }

    /// The machine after an error of the script: the host is told, and the
    /// machine stops.
    pub open spec fn fail(self, error: RuntimeErrorView) -> MachineView {
        MachineView { state: ExecutionState::Stopped, ..self.emit(DialogueEventView::NodeError(error)) }
    }

    /// The machine at the next instruction.
    pub open spec fn advance(self) -> MachineView {
        MachineView { program_counter: (self.program_counter + 1) as usize, ..self }
    }

    /// The machine at the instruction that a label names.
    pub open spec fn jump(self, label: Seq<char>) -> MachineView {
        match self.node().label_index(label) {
            Some(index) => MachineView { program_counter: index, ..self },
            None => self.fail(RuntimeErrorView::UnknownLabel(label)),
        }
    }

    /// The machine at the end of the dialogue: the host is told that the
    /// node and the dialogue are over, and the machine stops.
    pub open spec fn complete(self) -> MachineView {
        MachineView {
            state: ExecutionState::Stopped,
            ..self.emit(DialogueEventView::NodeComplete(self.node().name)).emit(
                DialogueEventView::DialogueComplete,
            )
        }
    }

    /// The machine at the start of the node at `index`, in the given state:
    /// stack and options are empty, and the host is told that the node
    /// starts. Where line hints are wanted, the host is first told which
    /// lines the node may deliver.
    pub open spec fn enter_node(self, index: int, state: ExecutionState) -> MachineView {
        let node = self.program.unwrap().nodes[index];
        let hinted = if self.should_send_line_hints {
            self.emit(DialogueEventView::LineHints(node.line_ids()))
        } else {
            self
        };
        MachineView {
            current_node: Some(index),
            program_counter: 0,
            stack: Seq::empty(),
            options: Seq::empty(),
            state,
            ..hinted.emit(DialogueEventView::NodeStart(node.name))
        }
    }

    /// The value of a variable: what the storage holds under its name; else
    /// its initial value in the program; else the number zero.
    pub open spec fn variable(self, name: Seq<char>) -> YarnValueView {
        match value_at(self.variables, name) {
            Some(value) => value,
            None => match self.program.unwrap().initial_value(name) {
                Some(value) => value,
                None => YarnValueView::Number(Number { bits: 0 }),
            },
        }
    }

    /// The machine after the line of the given id has been delivered with
    /// the topmost `count` values of the stack as its substitutions.
    pub open spec fn run_line(self, line_id: Seq<char>, count: usize) -> MachineView {
        if self.stack.len() < count {
            self.fail(RuntimeErrorView::StackUnderflow)
        } else {
            let kept = self.stack.len() - count;
            MachineView {
                stack: self.stack.take(kept),
                state: ExecutionState::DeliveringContent,
                ..self.emit(
                    DialogueEventView::Line(
                        LineView { id: line_id, substitutions: self.stack.skip(kept) },
                    ),
                )
            }.advance()
        }
    }

    /// The machine after the command of the given name has been delivered
    /// with the topmost `count` values of the stack as its arguments.
    pub open spec fn run_command(self, name: Seq<char>, count: usize) -> MachineView {
        if self.stack.len() < count {
            self.fail(RuntimeErrorView::StackUnderflow)
        } else {
            let kept = self.stack.len() - count;
            MachineView {
                stack: self.stack.take(kept),
                state: ExecutionState::WaitingForContinue,
                ..self.emit(
                    DialogueEventView::Command { name, arguments: self.stack.skip(kept) },
                )
            }.advance()
        }
    }

    /// The machine with one more pending option.
    pub open spec fn with_option(
        self,
        line_id: Seq<char>,
        destination: Seq<char>,
        is_available: bool,
    ) -> MachineView {
        MachineView {
            options: self.options.push(
                DialogueOptionView {
                    line: LineView { id: line_id, substitutions: Seq::empty() },
                    id: OptionId(self.options.len() as usize),
                    destination,
                    is_available,
                },
            ),
            ..self
        }.advance()
    }

    /// The machine after an option has been added.
    pub open spec fn add_option(
        self,
        line_id: Seq<char>,
        destination: Seq<char>,
        has_condition: bool,
    ) -> MachineView {
        if !has_condition {
            self.with_option(line_id, destination, true)
        } else if self.stack.len() == 0 {
            self.fail(RuntimeErrorView::StackUnderflow)
        } else {
            match self.stack.last().as_bool() {
                Some(is_available) => MachineView {
                    stack: self.stack.drop_last(),
                    ..self
                }.with_option(line_id, destination, is_available),
                None => self.fail(RuntimeErrorView::TypeMismatch),
            }
        }
    }

    /// The machine after the pending options have been shown. Where there
    /// are none, the dialogue is over.
    pub open spec fn show_options(self) -> MachineView {
        if self.options.len() == 0 {
            self.complete()
        } else {
            MachineView {
                state: ExecutionState::WaitingOnOptionSelection,
                ..self.emit(DialogueEventView::Options(self.options))
            }.advance()
        }
    }

    /// The machine after a jump that the truth value on top of the stack
    /// decides.
    pub open spec fn jump_if_false(self, label: Seq<char>) -> MachineView {
        if self.stack.len() == 0 {
            self.fail(RuntimeErrorView::StackUnderflow)
        } else {
            match self.stack.last().as_bool() {
                Some(true) => self.advance(),
                Some(false) => self.jump(label),
                None => self.fail(RuntimeErrorView::TypeMismatch),
            }
        }
    }

    /// The machine after a jump to the label on top of the stack.
    pub open spec fn jump_to_top(self) -> MachineView {
        if self.stack.len() == 0 {
            self.fail(RuntimeErrorView::StackUnderflow)
        } else {
            match self.stack.last().as_string() {
                Some(label) => self.jump(label),
                None => self.fail(RuntimeErrorView::TypeMismatch),
            }
        }
    }

    /// The machine after the current node has ended and the node that the
    /// top of the stack names has started. The step ends there.
    pub open spec fn run_node(self) -> MachineView {
        if self.stack.len() == 0 {
            self.fail(RuntimeErrorView::StackUnderflow)
        } else {
            match self.stack.last().as_string() {
                Some(name) => {
                    let done = self.emit(DialogueEventView::NodeComplete(self.node().name));
                    match self.program.unwrap().node_index(name) {
                        Some(index) => done.enter_node(
                            index,
                            ExecutionState::WaitingForContinue,
                        ),
                        None => done.fail(RuntimeErrorView::UnknownNode(name)),
                    }
                },
                None => self.fail(RuntimeErrorView::TypeMismatch),
            }
        }
    }

    /// The machine after the value on top of the stack has been stored.
    pub open spec fn store_variable(self, name: Seq<char>) -> MachineView {
        if self.stack.len() == 0 {
            self.fail(RuntimeErrorView::StackUnderflow)
        } else {
            MachineView {
                variables: self.variables.insert(name, self.stack.last()),
                ..self
            }.advance()
        }
    }

    /// The machine with one more value on its stack.
    pub open spec fn push(self, value: YarnValueView) -> MachineView {
        MachineView { stack: self.stack.push(value), ..self }.advance()
    }

    /// The machine without the value on top of its stack.
    pub open spec fn pop(self) -> MachineView {
        if self.stack.len() == 0 {
            self.fail(RuntimeErrorView::StackUnderflow)
        } else {
            MachineView { stack: self.stack.drop_last(), ..self }.advance()
        }
    }

    /// The arguments of a call of the given function: as many of the topmost
    /// values of the stack as the function has parameters. An error where
    /// the function is unknown, the values are too few, or their types do
    /// not fit.
    pub open spec fn call_arguments(self, name: Seq<char>) -> Result<
        Seq<YarnValueView>,
        RuntimeErrorView,
    > {
        match value_at(self.library, name) {
            None => Err(RuntimeErrorView::UnknownFunction(name)),
            Some(signature) => {
                let count = signature.parameters.len();
                if self.stack.len() < count {
                    Err(RuntimeErrorView::StackUnderflow)
                } else {
                    let arguments = self.stack.skip(self.stack.len() - count);
                    if arguments_fit(arguments, signature.parameters) {
                        Ok(arguments)
                    } else {
                        Err(RuntimeErrorView::TypeMismatch)
                    }
                }
            },
        }
    }

    /// The machine after a call of the given function. `call_result` is
    /// what the host made of the call; it is read only where the machine
    /// does not answer the call itself.
    pub open spec fn call_function(
        self,
        name: Seq<char>,
        call_result: Option<YarnValueView>,
    ) -> MachineView {
        match self.call_arguments(name) {
            Err(error) => self.fail(error),
            Ok(arguments) => {
                let result = match builtin_result(name, arguments, self.variables) {
                    Some(value) => Some(value),
                    None => call_result,
                };
                match result {
                    None => self.fail(RuntimeErrorView::FunctionFailed(name)),
                    Some(value) => if type_fits(
                        value.type_of(),
                        self.library[name].return_type,
                    ) {
                        MachineView {
                            stack: self.stack.take(self.stack.len() - arguments.len()),
                            ..self
                        }.push(value)
                    } else {
                        self.fail(RuntimeErrorView::TypeMismatch)
                    },
                }
            },
        }
    }

    /// The machine after the given instruction.
    pub open spec fn execute(
        self,
        instruction: InstructionView,
        call_result: Option<YarnValueView>,
    ) -> MachineView {
        match instruction {
            InstructionView::JumpTo(label) => self.jump(label),
            InstructionView::Jump => self.jump_to_top(),
            InstructionView::RunLine { line_id, substitution_count } => self.run_line(
                line_id,
                substitution_count,
            ),
            InstructionView::RunCommand { name, argument_count } => self.run_command(
                name,
                argument_count,
            ),
            InstructionView::AddOption { line_id, destination, has_condition } => self.add_option(
                line_id,
                destination,
                has_condition,
            ),
            InstructionView::ShowOptions => self.show_options(),
            InstructionView::PushString(string) => self.push(YarnValueView::String(string)),
            InstructionView::PushFloat(number) => self.push(YarnValueView::Number(number)),
            InstructionView::PushBool(truth) => self.push(YarnValueView::Bool(truth)),
            InstructionView::PushNull => self.fail(RuntimeErrorView::ReservedInstruction),
            InstructionView::JumpIfFalse(label) => self.jump_if_false(label),
            InstructionView::Pop => self.pop(),
            InstructionView::CallFunc(name) => self.call_function(name, call_result),
            InstructionView::PushVariable(name) => self.push(self.variable(name)),
            InstructionView::StoreVariable(name) => self.store_variable(name),
            InstructionView::Stop => self.complete(),
            InstructionView::RunNode => self.run_node(),
        }
    }

    /// Whether the machine has run past the last instruction of its node.
    pub open spec fn at_end(self) -> bool {
        self.program_counter >= self.node().instructions.len()
    }

    /// The instruction that the machine is about to run.
    pub open spec fn instruction(self) -> InstructionView {
        self.node().instructions[self.program_counter as int]
    }

    /// The call that the next instruction asks of the host, if it asks for
    /// one: the name of the function and its arguments.
    pub open spec fn pending_call(self) -> Option<(Seq<char>, Seq<YarnValueView>)> {
        if self.state == ExecutionState::Running && !self.at_end()
            && self.instruction() is CallFunc {
            let name = self.instruction()->CallFunc_0;
            match self.call_arguments(name) {
                Ok(arguments) => if builtin_result(name, arguments, self.variables) is None {
                    Some((name, arguments))
                } else {
                    None
                },
                Err(_) => None,
            }
        } else {
            None
        }
    }

    /// The running machine one instruction later. A machine that has run
    /// past the last instruction of its node ends the dialogue.
    pub open spec fn step(self, call_result: Option<YarnValueView>) -> MachineView {
        if self.at_end() {
            self.complete()
        } else {
            self.execute(self.instruction(), call_result)
        }
    }

    /// The machine after `call_results.len()` instructions, for as long as
    /// it is running: the host's answer to the call of each instruction is
    /// the element of `call_results` at that instruction's place.
    pub open spec fn run(self, call_results: Seq<Option<YarnValueView>>) -> MachineView
        decreases call_results.len(),
    {
        if call_results.len() == 0 {
            self
        } else {
            let before = self.run(call_results.drop_last());
            if before.state == ExecutionState::Running {
                before.step(call_results.last())
            } else {
                before
            }
        }
    }

    /// The machine as it takes up work: running.
    pub open spec fn resumed(self) -> MachineView {
        MachineView { state: ExecutionState::Running, ..self }
    }

    /// The machine at the end of a call of `next` in which the host gave
    /// the answers `call_results`: a machine that waits for an option to be
    /// selected has not moved; any other has run for as many instructions
    /// as there are answers.
    pub open spec fn continued(self, call_results: Seq<Option<YarnValueView>>) -> MachineView {
        if self.state == ExecutionState::WaitingOnOptionSelection {
            self
        } else {
            self.resumed().run(call_results)
        }
    }

    /// The machine as a call of `next` leaves off: a machine that is still
    /// running is stopped, and the host is told that the script has run for
    /// too long; any other machine is left as it is.
    pub open spec fn rested(self) -> MachineView {
        if self.state == ExecutionState::Running {
            self.fail(RuntimeErrorView::TooManyInstructions)
        } else {
            self
        }
    }

    /// What a call of `next` in which the host gave the answers
    /// `call_results` does to the machine `self`: the machine runs on the
    /// answers and leaves off, its events are handed over, and none are left
    /// in the machine that stays behind. The run is over with the last
    /// answer; it is cut short, while the machine is still running, only
    /// after as many instructions as a machine integer can count.
    pub open spec fn next_result(
        self,
        call_results: Seq<Option<YarnValueView>>,
        events: Option<Seq<DialogueEventView>>,
        left: MachineView,
    ) -> bool {
        let run = self.continued(call_results);
        let end = run.rested();
        &&& events == Some(end.events)
        &&& left == MachineView { events: Seq::empty(), ..end }
        &&& run.state == ExecutionState::Running ==> call_results.len() == usize::MAX
    }

    /// The machine after the node at `index` has been set as the node to
    /// run.
    pub open spec fn set_node(self, index: int) -> MachineView {
        self.enter_node(index, ExecutionState::Running)
    }

    /// The machine after the option of the given number has been selected:
    /// its destination label lies on top of the stack, no option is pending,
    /// and the machine will run with the next step.
    pub open spec fn select_option(self, id: int) -> MachineView {
        MachineView {
            stack: self.stack.push(YarnValueView::String(self.options[id].destination)),
            options: Seq::empty(),
            state: ExecutionState::Running,
            ..self
        }
    }

    /// The machine with one more program: its nodes and initial values
    /// behind those of the program that is loaded. Where none is loaded, the
    /// program is loaded and the machine is reset.
    pub open spec fn with_program(self, program: ProgramView) -> MachineView {
        match self.program {
            Some(existing) => MachineView {
                program: Some(
                    ProgramView {
                        nodes: existing.nodes + program.nodes,
                        initial_values: existing.initial_values + program.initial_values,
                    },
                ),
                ..self
            },
            None => MachineView { program: Some(program), ..self.reset() },
        }
    }

    /// The machine without its program: nothing is left of its state.
    pub open spec fn reset(self) -> MachineView {
        MachineView {
            current_node: None,
            program_counter: 0,
            stack: Seq::empty(),
            options: Seq::empty(),
            state: ExecutionState::Stopped,
            ..self
        }
    }
}

/// Every step keeps the invariant of the machine.
pub proof fn lemma_step_keeps_wf(machine: MachineView, call_result: Option<YarnValueView>)
    requires
        machine.wf(),
        machine.state == ExecutionState::Running,
    ensures
        machine.step(call_result).wf(),
{
    let next = machine.step(call_result);
    if !machine.at_end() {
        match machine.instruction() {
            InstructionView::AddOption { line_id, destination, has_condition } => {
                assert(forall|k: int|
                    0 <= k < machine.options.len() ==> (#[trigger] next.options[k])
                        == machine.options[k]);
            },
            InstructionView::RunNode => {
                if machine.stack.len() > 0 && machine.stack.last().as_string() is Some {
                    let name = machine.stack.last().as_string().unwrap();
                    crate::text::lemma_position_of(machine.program.unwrap().node_names(), name);
                }
            },
            _ => {},
        }
    }
}

/// Line-hint completeness: where line hints are wanted, a node is entered
/// by telling the host first which lines the node may deliver and then that
/// the node starts. The lines named are exactly those that the node's
/// instructions refer to, as lines or as options.
pub proof fn lemma_line_hints_complete(machine: MachineView, index: int, state: ExecutionState)
    requires
        machine.program is Some,
        0 <= index < machine.program.unwrap().nodes.len(),
        machine.should_send_line_hints,
    ensures
        machine.enter_node(index, state).events == machine.events.push(
            DialogueEventView::LineHints(machine.program.unwrap().nodes[index].line_ids()),
        ).push(DialogueEventView::NodeStart(machine.program.unwrap().nodes[index].name)),
        forall|line_id: Seq<char>| #[trigger]
            machine.program.unwrap().nodes[index].line_ids().contains(line_id) <==> exists|
                i: int,
            |
                0 <= i < machine.program.unwrap().nodes[index].instructions.len() && line_id_of(
                    #[trigger] machine.program.unwrap().nodes[index].instructions[i],
                ) == Some(line_id),
{
    let node = machine.program.unwrap().nodes[index];
    assert forall|line_id: Seq<char>| #[trigger]
        node.line_ids().contains(line_id) <==> exists|i: int|
            0 <= i < node.instructions.len() && line_id_of(#[trigger] node.instructions[i])
                == Some(line_id) by {
        lemma_line_ids_of(node.instructions, line_id);
    }
}

/// Option-selection soundness: a machine that has shown options and stands
/// before the jump that follows them continues, once an option is
/// selected, at the instruction that the destination label of that option
/// names, and tells the host nothing on the way.
pub proof fn lemma_selected_option_is_taken(
    machine: MachineView,
    id: int,
    call_result: Option<YarnValueView>,
)
    requires
        machine.wf(),
        machine.state == ExecutionState::WaitingOnOptionSelection,
        0 <= id < machine.options.len(),
        !machine.at_end(),
        machine.instruction() is Jump,
    ensures
        machine.select_option(id).state == ExecutionState::Running,
        machine.select_option(id).step(call_result) == machine.select_option(id).jump(
            machine.options[id].destination,
        ),
        machine.node().label_index(machine.options[id].destination) is Some ==> {
            let after = machine.select_option(id).step(call_result);
            &&& after.program_counter == machine.node().label_index(
                machine.options[id].destination,
            ).unwrap()
            &&& after.events == machine.events
            &&& after.state == ExecutionState::Running
            &&& after.current_node == machine.current_node
        },
{
}

/// Whether a node counts as visited: the storage holds a number greater
/// than zero under its name.
pub fn is_node_visited<S: VariableStorage>(variable_storage: &S, node_name: &str) -> (visited:
    bool)
    ensures
        visited == node_is_visited(variable_storage.variables(), node_name@),
{
    match variable_storage.get(node_name) {
        Some(YarnValue::Number(count)) => count.is_positive(),
        _ => false,
    }
}

/// How often a node was visited: the number that the storage holds under
/// its name, and zero where it holds none.
pub fn get_node_visit_count<S: VariableStorage>(variable_storage: &S, node_name: &str) -> (count:
    Number)
    ensures
        count == node_visit_count(variable_storage.variables(), node_name@),
{
    match variable_storage.get(node_name) {
        Some(YarnValue::Number(count)) => count,
        _ => Number::zero(),
    }
}

/// Whether a value of type `actual` may stand where `expected` is asked for.
fn fits(actual: &Type, expected: &Type) -> (fit: bool)
    ensures
        fit == type_fits(actual@, expected@),
{
    match expected {
        Type::Any => true,
        _ => actual.same_as(expected),
    }
}

/// Whether the values are as many as the parameters and each has the type
/// of its parameter.
fn values_fit(arguments: &Vec<YarnValue>, parameters: &Vec<Type>) -> (fit: bool)
    ensures
        fit == arguments_fit(arguments.deep_view(), parameters.deep_view()),
{
    if arguments.len() != parameters.len() {
        return false;
    }
    let mut i: usize = 0;
    while i < arguments.len()
        invariant
            i <= arguments.len(),
            arguments.len() == parameters.len(),
            forall|j: int|
                0 <= j < i ==> type_fits(
                    (#[trigger] arguments.deep_view()[j]).type_of(),
                    parameters.deep_view()[j],
                ),
        decreases arguments.len() - i,
    {
        if !fits(&arguments[i].type_of(), &parameters[i]) {
            proof {
                assert(!type_fits(
                    arguments.deep_view()[i as int].type_of(),
                    parameters.deep_view()[i as int],
                ));
            }
            return false;
        }
        i = i + 1;
    }
    true
}

/// The result of a call that the machine answers itself.
fn builtin<S: VariableStorage>(
    name: &str,
    arguments: &Vec<YarnValue>,
    variable_storage: &S,
) -> (result: Option<YarnValue>)
    ensures
        result.deep_view() == builtin_result(
            name@,
            arguments.deep_view(),
            variable_storage.variables(),
        ),
{
    proof {
        if arguments.len() > 0 {
            assert(arguments.deep_view()[0] == arguments[0]@);
        }
    }
    if arguments.len() == 1 {
        match &arguments[0] {
            YarnValue::String(node_name) => {
                if str_eq(name, "visited") {
                    return Some(
                        YarnValue::Bool(is_node_visited(variable_storage, node_name.as_str())),
                    );
                } else if str_eq(name, "visited_count") {
                    return Some(
                        YarnValue::Number(
                            get_node_visit_count(variable_storage, node_name.as_str()),
                        ),
                    );
                }
            },
            _ => {},
        }
    }
    builtin_operator(name, arguments)
}

/// The machine that runs a program.
pub struct VirtualMachine<S: VariableStorage> {
    library: Library,
    program: Option<Program>,
    variable_storage: S,
    should_send_line_hints: bool,
    current_node: Option<usize>,
    program_counter: usize,
    stack: Vec<YarnValue>,
    current_options: Vec<DialogueOption>,
    execution_state: ExecutionState,
    batched_events: Vec<DialogueEvent>,
}

impl<S: VariableStorage> View for VirtualMachine<S> {
    type V = MachineView;

    closed spec fn view(&self) -> MachineView {
        MachineView {
            program: self.program.deep_view(),
            library: self.library.functions(),
            variables: self.variable_storage.variables(),
            should_send_line_hints: self.should_send_line_hints,
            current_node: match self.current_node {
                Some(index) => Some(index as int),
                None => None,
            },
            program_counter: self.program_counter,
            stack: self.stack.deep_view(),
            options: self.current_options.deep_view(),
            state: self.execution_state,
            events: self.batched_events.deep_view(),
        }
    }
}

/// The machine as it is made: without a program, stopped, with nothing on
/// its stack and nothing to tell.
pub open spec fn initial_machine(
    library: Map<Seq<char>, FunctionSignatureView>,
    variables: Map<Seq<char>, YarnValueView>,
) -> MachineView {
    MachineView {
        program: None,
        library,
        variables,
        should_send_line_hints: false,
        current_node: None,
        program_counter: 0,
        stack: Seq::empty(),
        options: Seq::empty(),
        state: ExecutionState::Stopped,
        events: Seq::empty(),
    }
}

impl<S: VariableStorage> VirtualMachine<S> {
    /// A machine with the given library and storage.
    pub fn new(library: Library, variable_storage: S) -> (machine: Self)
        ensures
            machine@ == initial_machine(library.functions(), variable_storage.variables()),
            machine@.wf(),
    {
        let machine = VirtualMachine {
            library,
            program: None,
            variable_storage,
            should_send_line_hints: false,
            current_node: None,
            program_counter: 0,
            stack: Vec::new(),
            current_options: Vec::new(),
            execution_state: ExecutionState::Stopped,
            batched_events: Vec::new(),
        };
        proof {
            assert(machine@.stack =~= Seq::empty());
            assert(machine@.options =~= Seq::empty());
            assert(machine@.events =~= Seq::empty());
        }
        machine
    }

    /// The program, if one is loaded.
    pub fn program(&self) -> (program: Option<&Program>)
        ensures
            program.deep_view() == self@.program,
    {
        self.program.as_ref()
    }

    /// The library.
    pub fn library(&self) -> (library: &Library)
        ensures
            library.functions() == self@.library,
    {
        &self.library
    }

    /// The variable storage.
    pub fn variable_storage(&self) -> (variable_storage: &S)
        ensures
            variable_storage.variables() == self@.variables,
    {
        &self.variable_storage
    }

    /// Whether the host is told which lines a node may deliver.
    pub fn should_send_line_hints(&self) -> (wanted: bool)
        ensures
            wanted == self@.should_send_line_hints,
    {
        self.should_send_line_hints
    }

    /// Says whether the host is to be told which lines a node may deliver.
    pub fn set_should_send_line_hints(&mut self, wanted: bool)
        ensures
            final(self)@ == (MachineView { should_send_line_hints: wanted, ..old(self)@ }),
    {
        self.should_send_line_hints = wanted;
    }

    /// The place that says whether the host is told which lines a node may
    /// deliver.
    pub fn should_send_line_hints_mut(&mut self) -> (wanted: &mut bool)
        ensures
            *wanted == old(self)@.should_send_line_hints,
            final(self)@ == (MachineView {
                should_send_line_hints: *final(wanted),
                ..old(self)@
            }),
    {
        &mut self.should_send_line_hints
    }

    /// The library, to be changed in place.
    pub fn library_mut(&mut self) -> (library: &mut Library)
        ensures
            library.functions() == old(self)@.library,
            final(self)@ == (MachineView {
                library: final(library).functions(),
                ..old(self)@
            }),
    {
        &mut self.library
    }

    /// Registers every function of another library.
    pub fn extend_library(&mut self, library: Library)
        ensures
            final(self)@ == (MachineView {
                library: old(self)@.library.union_prefer_right(library.functions()),
                ..old(self)@
            }),
    {
        self.library.extend(library);
    }

    /// Whether the machine is running a dialogue.
    pub fn is_active(&self) -> (active: bool)
        ensures
            active == (self@.state != ExecutionState::Stopped),
    {
        self.execution_state != ExecutionState::Stopped
    }

    /// The state of the machine.
    pub fn execution_state(&self) -> (state: ExecutionState)
        ensures
            state == self@.state,
    {
        self.execution_state
    }

    /// The name of the current node, if there is one.
    pub fn current_node(&self) -> (name: Option<String>)
        requires
            self@.wf(),
        ensures
            name.deep_view() == match self@.current_node {
                Some(_) => Some(self@.node().name),
                None => None,
            },
    {
        match self.current_node {
            Some(index) => Some(self.program.as_ref().unwrap().nodes[index].name.clone()),
            None => None,
        }
    }

    /// Forgets the current node, the stack and the pending options, and
    /// stops.
    pub fn reset_state(&mut self)
        ensures
            final(self)@ == old(self)@.reset(),
    {
        self.current_node = None;
        self.program_counter = 0;
        self.stack.clear();
        self.current_options.clear();
        self.execution_state = ExecutionState::Stopped;
        proof {
            assert(self@.stack =~= Seq::empty());
            assert(self@.options =~= Seq::empty());
        }
    }

    /// Loads a program in place of the one that was loaded.
    pub fn replace_program(&mut self, program: Program)
        ensures
            final(self)@ == (MachineView { program: Some(program@), ..old(self)@.reset() }),
            final(self)@.wf(),
    {
        self.program = Some(program);
        self.reset_state();
    }

    /// Unloads the program.
    pub fn unload_programs(&mut self)
        ensures
            final(self)@ == (MachineView { program: None, ..old(self)@.reset() }),
            final(self)@.wf(),
    {
        self.program = None;
        self.reset_state();
    }

    /// Stops the machine at once. The host is not told that the dialogue is
    /// over.
    pub fn stop(&mut self)
        ensures
            final(self)@ == (MachineView { state: ExecutionState::Stopped, ..old(self)@ }),
    {
        self.execution_state = ExecutionState::Stopped;
    }

    fn emit(&mut self, event: DialogueEvent)
        ensures
            final(self)@ == old(self)@.emit(event@),
    {
        self.batched_events.push(event);
        proof {
            assert(self@.events =~= old(self)@.events.push(event@));
        }
    }

    fn fail(&mut self, error: RuntimeError)
        ensures
            final(self)@ == old(self)@.fail(error@),
    {
        self.emit(DialogueEvent::NodeError(error));
        self.execution_state = ExecutionState::Stopped;
    }

    fn advance(&mut self)
        requires
            old(self)@.program_counter < usize::MAX,
        ensures
            final(self)@ == old(self)@.advance(),
    {
        self.program_counter = self.program_counter + 1;
    }

    /// The current node.
    fn node(&self) -> (node: &Node)
        requires
            self@.wf(),
            self@.current_node is Some,
        ensures
            node@ == self@.node(),
    {
        &self.program.as_ref().unwrap().nodes[self.current_node.unwrap()]
    }

    fn jump(&mut self, label: &str)
        requires
            old(self)@.wf(),
            old(self)@.current_node is Some,
        ensures
            final(self)@ == old(self)@.jump(label@),
    {
        match self.node().label_index(label) {
            Some(index) => {
                self.program_counter = index;
            },
            None => {
                self.fail(RuntimeError::UnknownLabel(label.to_owned()));
            },
        }
    }

    fn complete(&mut self)
        requires
            old(self)@.wf(),
            old(self)@.current_node is Some,
        ensures
            final(self)@ == old(self)@.complete(),
    {
        let name = self.node().name.clone();
        self.emit(DialogueEvent::NodeComplete(name));
        self.emit(DialogueEvent::DialogueComplete);
        self.execution_state = ExecutionState::Stopped;
    }

    fn enter_node(&mut self, index: usize, state: ExecutionState)
        requires
            old(self)@.program is Some,
            index < old(self)@.program.unwrap().nodes.len(),
        ensures
            final(self)@ == old(self)@.enter_node(index as int, state),
    {
        let node = &self.program.as_ref().unwrap().nodes[index];
        let name = node.name.clone();
        if self.should_send_line_hints {
            let line_ids = node.line_ids();
            self.emit(DialogueEvent::LineHints(line_ids));
        }
        self.emit(DialogueEvent::NodeStart(name));
        self.current_node = Some(index);
        self.program_counter = 0;
        self.stack.clear();
        self.current_options.clear();
        self.execution_state = state;
        proof {
            assert(self@.stack =~= Seq::empty());
            assert(self@.options =~= Seq::empty());
        }
    }

    /// Makes the node of the given name the node to run. The machine runs
    /// it from its first instruction with the next step.
    pub fn set_node(&mut self, node_name: &str)
        requires
            old(self)@.wf(),
            old(self)@.program is Some,
            old(self)@.program.unwrap().node_index(node_name@) is Some,
        ensures
            final(self)@ == old(self)@.set_node(
                old(self)@.program.unwrap().node_index(node_name@).unwrap(),
            ),
            final(self)@.wf(),
    {
        let index = self.program.as_ref().unwrap().node_index(node_name).unwrap();
        proof {
            crate::text::lemma_position_of(self@.program.unwrap().node_names(), node_name@);
        }
        self.enter_node(index, ExecutionState::Running);
    }

    /// Tells the machine which of the options shown was selected.
    pub fn set_selected_option(&mut self, selected_option_id: OptionId)
        requires
            old(self)@.wf(),
            old(self)@.state == ExecutionState::WaitingOnOptionSelection,
            selected_option_id.0 < old(self)@.options.len(),
        ensures
            final(self)@ == old(self)@.select_option(selected_option_id.0 as int),
            final(self)@.wf(),
    {
        let destination = self.current_options[selected_option_id.0].destination.clone();
        self.stack.push(YarnValue::String(destination));
        self.current_options.clear();
        self.execution_state = ExecutionState::Running;
        proof {
            assert(self@.stack =~= old(self)@.stack.push(
                YarnValueView::String(old(self)@.options[selected_option_id.0 as int].destination),
            ));
            assert(self@.options =~= Seq::empty());
        }
    }

    /// Makes the node of the given name the node to run, if the program has
    /// a node of that name; else leaves the machine as it is. The result
    /// says whether there is such a node.
    pub fn try_set_node(&mut self, node_name: &str) -> (found: bool)
        requires
            old(self)@.wf(),
        ensures
            found == (old(self)@.program is Some && old(self)@.program.unwrap().node_index(
                node_name@,
            ) is Some),
            found ==> final(self)@ == old(self)@.set_node(
                old(self)@.program.unwrap().node_index(node_name@).unwrap(),
            ),
            !found ==> final(self)@ == old(self)@,
            final(self)@.wf(),
    {
        let found = match &self.program {
            Some(program) => program.node_index(node_name).is_some(),
            None => false,
        };
        if found {
            self.set_node(node_name);
        }
        found
    }

    /// Selects the option of the given number, if the machine waits for a
    /// selection and has shown an option of that number; else leaves the
    /// machine as it is. The result says whether the option was selected.
    pub fn try_set_selected_option(&mut self, selected_option_id: OptionId) -> (selected: bool)
        requires
            old(self)@.wf(),
        ensures
            selected == (old(self)@.state == ExecutionState::WaitingOnOptionSelection
                && selected_option_id.0 < old(self)@.options.len()),
            selected ==> final(self)@ == old(self)@.select_option(selected_option_id.0 as int),
            !selected ==> final(self)@ == old(self)@,
            final(self)@.wf(),
    {
        if self.execution_state == ExecutionState::WaitingOnOptionSelection
            && selected_option_id.0 < self.current_options.len() {
            self.set_selected_option(selected_option_id);
            true
        } else {
            false
        }
    }

    /// Loads a program beside the one that is loaded: the machine then holds
    /// the nodes and the initial values of both. Where none is loaded, the
    /// program is loaded as by [`VirtualMachine::replace_program`]. Where
    /// two nodes would then have one name, the machine stays as it is, and
    /// the error names the first node that repeats a name.
    pub fn add_program(&mut self, program: Program) -> (added: Result<(), CombineError>)
        requires
            old(self)@.wf(),
        ensures
            final(self)@.wf(),
            match added {
                Ok(_) => {
                    &&& old(self)@.program is Some ==> names_distinct(
                        names_of(old(self)@.program.unwrap().nodes + program@.nodes),
                    )
                    &&& final(self)@ == old(self)@.with_program(program@)
                },
                Err(CombineError::DuplicateNodeName(name)) => {
                    &&& old(self)@.program is Some
                    &&& final(self)@ == old(self)@
                    &&& exists|index: int|
                        #![trigger names_of(old(self)@.program.unwrap().nodes + program@.nodes)[index]]
                        {
                            &&& crate::program::is_first_repeat(
                                names_of(old(self)@.program.unwrap().nodes + program@.nodes),
                                index,
                            )
                            &&& names_of(
                                old(self)@.program.unwrap().nodes + program@.nodes,
                            )[index] == name@
                        }
                },
            },
    {
        match &self.program {
            Some(existing) => {
                let ghost added = program@;
                let ghost held = existing@;
                let mut programs: Vec<Program> = Vec::new();
                programs.push(existing.clone());
                programs.push(program);
                proof {
                    let views = programs.deep_view();
                    let none = views.drop_last().drop_last();
                    assert(none.len() == 0);
                    assert(crate::program::all_nodes(none) =~= Seq::empty());
                    assert(crate::program::all_initial_values(none) =~= Seq::empty());
                    assert(views.drop_last().last() == held);
                    assert(views.last() == added);
                    assert(crate::program::all_nodes(views.drop_last()) =~= held.nodes);
                    assert(crate::program::all_nodes(views) =~= held.nodes + added.nodes);
                    assert(crate::program::all_initial_values(views.drop_last())
                        =~= held.initial_values);
                    assert(crate::program::all_initial_values(views) =~= held.initial_values
                        + added.initial_values);
                }
                match Program::combine(programs) {
                    Ok(combined) => {
                        self.program = Some(combined);
                        Ok(())
                    },
                    Err(error) => Err(error),
                }
            },
            None => {
                self.replace_program(program);
                Ok(())
            },
        }
    }

    /// The arguments of a call of the given function, taken off the top of
    /// the stack as copies.
    fn call_arguments(&self, name: &str) -> (arguments: Result<Vec<YarnValue>, RuntimeError>)
        ensures
            match arguments {
                Ok(values) => self@.call_arguments(name@) == Ok::<
                    Seq<YarnValueView>,
                    RuntimeErrorView,
                >(values.deep_view()),
                Err(error) => self@.call_arguments(name@) == Err::<
                    Seq<YarnValueView>,
                    RuntimeErrorView,
                >(error@),
            },
    {
        match self.library.get(name) {
            None => Err(RuntimeError::UnknownFunction(name.to_owned())),
            Some(signature) => {
                let count = signature.parameters.len();
                if self.stack.len() < count {
                    return Err(RuntimeError::StackUnderflow);
                }
                let kept = self.stack.len() - count;
                let mut values: Vec<YarnValue> = Vec::new();
                let mut i: usize = kept;
                while i < self.stack.len()
                    invariant
                        kept <= i <= self.stack.len(),
                        values.len() == i - kept,
                        forall|j: int|
                            0 <= j < values.len() ==> values[j]@ == self.stack[kept + j]@,
                    decreases self.stack.len() - i,
                {
                    values.push(self.stack[i].clone());
                    i = i + 1;
                }
                proof {
                    assert(values.deep_view() =~= self@.stack.skip(kept as int));
                }
                if values_fit(&values, &signature.parameters) {
                    Ok(values)
                } else {
                    Err(RuntimeError::TypeMismatch)
                }
            },
        }
    }

    /// The call that the next instruction asks of the host, if it asks for
    /// one: the name of the function and its arguments.
    pub fn pending_call(&self) -> (call: Option<(String, Vec<YarnValue>)>)
        requires
            self@.wf(),
        ensures
            call.deep_view() == self@.pending_call(),
    {
        if self.execution_state != ExecutionState::Running {
            return None;
        }
        let node = self.node();
        if self.program_counter >= node.instructions.len() {
            return None;
        }
        match &node.instructions[self.program_counter] {
            Instruction::CallFunc(name) => {
                match self.call_arguments(name.as_str()) {
                    Ok(arguments) => {
                        if builtin(name.as_str(), &arguments, &self.variable_storage).is_none() {
                            Some((name.clone(), arguments))
                        } else {
                            None
                        }
                    },
                    Err(_) => None,
                }
            },
            _ => None,
        }
    }

    fn push_value(&mut self, value: YarnValue)
        requires
            old(self)@.program_counter < usize::MAX,
        ensures
            final(self)@ == old(self)@.push(value@),
    {
        self.stack.push(value);
        proof {
            assert(self@.stack =~= old(self)@.stack.push(value@));
        }
        self.advance();
    }

    fn pop_value(&mut self)
        requires
            old(self)@.program_counter < usize::MAX,
        ensures
            final(self)@ == old(self)@.pop(),
    {
        if self.stack.len() == 0 {
            self.fail(RuntimeError::StackUnderflow);
        } else {
            self.stack.pop();
            proof {
                assert(self@.stack =~= old(self)@.stack.drop_last());
            }
            self.advance();
        }
    }

    fn run_line(&mut self, line_id: String, count: usize)
        requires
            old(self)@.program_counter < usize::MAX,
        ensures
            final(self)@ == old(self)@.run_line(line_id@, count),
    {
        if self.stack.len() < count {
            self.fail(RuntimeError::StackUnderflow);
        } else {
            let kept = self.stack.len() - count;
            let substitutions = self.stack.split_off(kept);
            proof {
                assert(self@.stack =~= old(self)@.stack.take(kept as int));
                assert(substitutions.deep_view() =~= old(self)@.stack.skip(kept as int));
            }
            self.emit(DialogueEvent::Line(Line { id: line_id, substitutions }));
            self.execution_state = ExecutionState::DeliveringContent;
            self.advance();
        }
    }

    fn run_command(&mut self, name: String, count: usize)
        requires
            old(self)@.program_counter < usize::MAX,
        ensures
            final(self)@ == old(self)@.run_command(name@, count),
    {
        if self.stack.len() < count {
            self.fail(RuntimeError::StackUnderflow);
        } else {
            let kept = self.stack.len() - count;
            let arguments = self.stack.split_off(kept);
            proof {
                assert(self@.stack =~= old(self)@.stack.take(kept as int));
                assert(arguments.deep_view() =~= old(self)@.stack.skip(kept as int));
            }
            self.emit(DialogueEvent::Command { name, arguments });
            self.execution_state = ExecutionState::WaitingForContinue;
            self.advance();
        }
    }

    fn with_option(&mut self, line_id: String, destination: String, is_available: bool)
        requires
            old(self)@.program_counter < usize::MAX,
        ensures
            final(self)@ == old(self)@.with_option(line_id@, destination@, is_available),
    {
        let option = DialogueOption {
            line: Line { id: line_id, substitutions: Vec::new() },
            id: OptionId(self.current_options.len()),
            destination,
            is_available,
        };
        proof {
            assert(option@.line.substitutions =~= Seq::empty());
        }
        self.current_options.push(option);
        proof {
            assert(self@.options =~= old(self)@.options.push(option@));
        }
        self.advance();
    }

    fn add_option(&mut self, line_id: String, destination: String, has_condition: bool)
        requires
            old(self)@.program_counter < usize::MAX,
        ensures
            final(self)@ == old(self)@.add_option(line_id@, destination@, has_condition),
    {
        if !has_condition {
            self.with_option(line_id, destination, true);
        } else if self.stack.len() == 0 {
            self.fail(RuntimeError::StackUnderflow);
        } else {
            match self.stack[self.stack.len() - 1].as_bool() {
                Some(is_available) => {
                    self.stack.pop();
                    proof {
                        assert(self@.stack =~= old(self)@.stack.drop_last());
                    }
                    self.with_option(line_id, destination, is_available);
                },
                None => {
                    self.fail(RuntimeError::TypeMismatch);
                },
            }
        }
    }

    fn show_options(&mut self)
        requires
            old(self)@.wf(),
            old(self)@.current_node is Some,
            old(self)@.program_counter < usize::MAX,
        ensures
            final(self)@ == old(self)@.show_options(),
    {
        if self.current_options.len() == 0 {
            self.complete();
        } else {
            let options = clone_options(&self.current_options);
            self.emit(DialogueEvent::Options(options));
            self.execution_state = ExecutionState::WaitingOnOptionSelection;
            self.advance();
        }
    }

    fn jump_if_false(&mut self, label: &str)
        requires
            old(self)@.wf(),
            old(self)@.current_node is Some,
            old(self)@.program_counter < usize::MAX,
        ensures
            final(self)@ == old(self)@.jump_if_false(label@),
    {
        if self.stack.len() == 0 {
            self.fail(RuntimeError::StackUnderflow);
        } else {
            match self.stack[self.stack.len() - 1].as_bool() {
                Some(true) => {
                    self.advance();
                },
                Some(false) => {
                    self.jump(label);
                },
                None => {
                    self.fail(RuntimeError::TypeMismatch);
                },
            }
        }
    }

    fn jump_to_top(&mut self)
        requires
            old(self)@.wf(),
            old(self)@.current_node is Some,
        ensures
            final(self)@ == old(self)@.jump_to_top(),
    {
        if self.stack.len() == 0 {
            self.fail(RuntimeError::StackUnderflow);
        } else {
            let label = match self.stack[self.stack.len() - 1].as_string() {
                Some(label) => Some(label.clone()),
                None => None,
            };
            match label {
                Some(label) => {
                    self.jump(label.as_str());
                },
                None => {
                    self.fail(RuntimeError::TypeMismatch);
                },
            }
        }
    }

    fn run_node(&mut self)
        requires
            old(self)@.wf(),
            old(self)@.current_node is Some,
        ensures
            final(self)@ == old(self)@.run_node(),
    {
        if self.stack.len() == 0 {
            self.fail(RuntimeError::StackUnderflow);
        } else {
            let name = match self.stack[self.stack.len() - 1].as_string() {
                Some(name) => Some(name.clone()),
                None => None,
            };
            match name {
                Some(name) => {
                    let finished = self.node().name.clone();
                    self.emit(DialogueEvent::NodeComplete(finished));
                    match self.program.as_ref().unwrap().node_index(name.as_str()) {
                        Some(index) => {
                            proof {
                                crate::text::lemma_position_of(
                                    self@.program.unwrap().node_names(),
                                    name@,
                                );
                            }
                            self.enter_node(index, ExecutionState::WaitingForContinue);
                        },
                        None => {
                            self.fail(RuntimeError::UnknownNode(name));
                        },
                    }
                },
                None => {
                    self.fail(RuntimeError::TypeMismatch);
                },
            }
        }
    }

    fn store_variable(&mut self, name: String)
        requires
            old(self)@.program_counter < usize::MAX,
        ensures
            final(self)@ == old(self)@.store_variable(name@),
    {
        if self.stack.len() == 0 {
            self.fail(RuntimeError::StackUnderflow);
        } else {
            let value = self.stack[self.stack.len() - 1].clone();
            self.variable_storage.set(name, value);
            self.advance();
        }
    }

    /// The value of a variable.
    fn variable(&self, name: &str) -> (value: YarnValue)
        requires
            self@.program is Some,
        ensures
            value@ == self@.variable(name@),
    {
        match self.variable_storage.get(name) {
            Some(value) => value,
            None => match self.program.as_ref().unwrap().initial_value(name) {
                Some(value) => value.clone(),
                None => YarnValue::Number(Number::zero()),
            },
        }
    }

    fn call_function(&mut self, name: String, call_result: Option<YarnValue>)
        requires
            old(self)@.program_counter < usize::MAX,
        ensures
            final(self)@ == old(self)@.call_function(name@, call_result.deep_view()),
    {
        match self.call_arguments(name.as_str()) {
            Err(error) => {
                self.fail(error);
            },
            Ok(arguments) => {
                let result = match builtin(name.as_str(), &arguments, &self.variable_storage) {
                    Some(value) => Some(value),
                    None => call_result,
                };
                match result {
                    None => {
                        self.fail(RuntimeError::FunctionFailed(name));
                    },
                    Some(value) => {
                        let fit = fits(
                            &value.type_of(),
                            &self.library.get(name.as_str()).unwrap().return_type,
                        );
                        if fit {
                            let kept = self.stack.len() - arguments.len();
                            self.stack.truncate(kept);
                            proof {
                                assert(self@.stack =~= old(self)@.stack.take(kept as int));
                            }
                            self.push_value(value);
                        } else {
                            self.fail(RuntimeError::TypeMismatch);
                        }
                    },
                }
            },
        }
    }

    /// Runs one instruction; where the machine has run past the last
    /// instruction of its node, ends the dialogue. `call_result` is the
    /// host's answer to the call that [`VirtualMachine::pending_call`]
    /// names; it is read only where there is such a call.
    pub fn step_with(&mut self, call_result: Option<YarnValue>)
        requires
            old(self)@.wf(),
            old(self)@.state == ExecutionState::Running,
        ensures
            final(self)@ == old(self)@.step(call_result.deep_view()),
            final(self)@.wf(),
    {
        proof {
            lemma_step_keeps_wf(self@, call_result.deep_view());
        }
        let node = self.node();
        if self.program_counter >= node.instructions.len() {
            self.complete();
            return ;
        }
        let instruction = node.instructions[self.program_counter].clone();
        match instruction {
            Instruction::JumpTo(label) => self.jump(label.as_str()),
            Instruction::Jump => self.jump_to_top(),
            Instruction::RunLine { line_id, substitution_count } => self.run_line(
                line_id,
                substitution_count,
            ),
            Instruction::RunCommand { name, argument_count } => self.run_command(
                name,
                argument_count,
            ),
            Instruction::AddOption { line_id, destination, has_condition } => self.add_option(
                line_id,
                destination,
                has_condition,
            ),
            Instruction::ShowOptions => self.show_options(),
            Instruction::PushString(string) => self.push_value(YarnValue::String(string)),
            Instruction::PushFloat(number) => self.push_value(YarnValue::Number(number)),
            Instruction::PushBool(truth) => self.push_value(YarnValue::Bool(truth)),
            Instruction::PushNull => self.fail(RuntimeError::ReservedInstruction),
            Instruction::JumpIfFalse(label) => self.jump_if_false(label.as_str()),
            Instruction::Pop => self.pop_value(),
            Instruction::CallFunc(name) => self.call_function(name, call_result),
            Instruction::PushVariable(name) => {
                let value = self.variable(name.as_str());
                self.push_value(value)
            },
            Instruction::StoreVariable(name) => self.store_variable(name),
            Instruction::Stop => self.complete(),
            Instruction::RunNode => self.run_node(),
        }
    }

    /// Runs one instruction and hands back, for the proof, what the host
    /// answered.
    fn step_answered<H: FunctionHost>(&mut self, host: &mut H) -> (call_result: Ghost<
        Option<YarnValueView>,
    >)
        requires
            old(self)@.wf(),
            old(self)@.state == ExecutionState::Running,
        ensures
            final(self)@ == old(self)@.step(call_result@),
            final(self)@.wf(),
    {
        let answer = match self.pending_call() {
            Some((name, arguments)) => host.call(name.as_str(), &arguments),
            None => None,
        };
        let ghost answered = answer.deep_view();
        self.step_with(answer);
        Ghost(answered)
    }

    /// Runs one instruction, asking the host where the instruction calls a
    /// function that the machine does not answer itself. Whatever the host
    /// answers, the machine is then where [`VirtualMachine::step_with`]
    /// takes it for that answer.
    pub fn step<H: FunctionHost>(&mut self, host: &mut H)
        requires
            old(self)@.wf(),
            old(self)@.state == ExecutionState::Running,
        ensures
            exists|call_result: Option<YarnValueView>| #[trigger]
                old(self)@.step(call_result) == final(self)@,
            final(self)@.wf(),
    {
        let answered = self.step_answered(host);
        proof {
            assert(old(self)@.step(answered@) == self@);
        }
    }

    /// Starts or continues the dialogue: runs instructions until there is
    /// something for the host to do, and hands over the events gathered.
    ///
    /// A stopped machine does nothing and hands over nothing. A machine
    /// that waits for an option to be selected stays as it is. Any other
    /// machine runs until it is no longer running: until a line, a command
    /// or options were delivered, a node or the dialogue was over, or an
    /// error occurred. A machine that has run for as many instructions as a
    /// machine integer can count without any of this is stopped with an
    /// error. So the machine is never left running.
    pub fn next<H: FunctionHost>(&mut self, host: &mut H) -> (events: Option<Vec<DialogueEvent>>)
        requires
            old(self)@.wf(),
        ensures
            final(self)@.wf(),
            final(self)@.state != ExecutionState::Running,
            old(self)@.state == ExecutionState::Stopped ==> events is None,
            old(self)@.state == ExecutionState::Stopped ==> final(self)@ == old(self)@,
            old(self)@.state != ExecutionState::Stopped ==> exists|
                call_results: Seq<Option<YarnValueView>>,
            | #[trigger]
                old(self)@.next_result(call_results, events.deep_view(), final(self)@),
    {
        if self.execution_state == ExecutionState::Stopped {
            return None;
        }
        let ghost mut call_results: Seq<Option<YarnValueView>> = Seq::empty();
        if self.execution_state != ExecutionState::WaitingOnOptionSelection {
            self.execution_state = ExecutionState::Running;
            let mut count: usize = 0;
            while self.execution_state == ExecutionState::Running && count < usize::MAX
                invariant
                    self@.wf(),
                    self@ == old(self)@.resumed().run(call_results),
                    call_results.len() == count,
                    self.execution_state == self@.state,
                decreases usize::MAX - count,
            {
                let answered = self.step_answered(host);
                proof {
                    assert(call_results.push(answered@).drop_last() =~= call_results);
                    call_results = call_results.push(answered@);
                }
                count = count + 1;
            }
            if self.execution_state == ExecutionState::Running {
                self.fail(RuntimeError::TooManyInstructions);
            }
        }
        let mut batch: Vec<DialogueEvent> = Vec::new();
        std::mem::swap(&mut batch, &mut self.batched_events);
        let events = Some(batch);
        proof {
            assert(self@.events =~= Seq::empty());
            assert(events.deep_view() == Some(batch.deep_view()));
            assert(old(self)@.next_result(call_results, events.deep_view(), self@));
        }
        events
    }
}

} // verus!
