//! What the check of compiled code promises of a running machine: a
//! machine that runs checked code with variables and answers of the right
//! types never comes to an error.

use crate::compiler::code_generator::Generation;
use crate::compiler::compile::{
    check_ids, check_jumps_in_units, check_names, check_titles, checked_diagnostics, compiled,
    declare_units, deferred_diagnostics, lemma_check_stacks, no_errors, node_of, nodes_of,
    parse_files, strings_of_units, SourceFileView,
};
use crate::compiler::declaration::DeclarationView;
use crate::compiler::declaration_pass::Declared;
use crate::compiler::option_code::lemma_generated_code_jumps;
use crate::compiler::stack_check::{
    describes, goes_on, holds_at, lemma_shapes_describe, shapes_of, slot_fits, slot_of_type,
    may_be_string, slot_type, slots_fit, start_shape, transfer, transfer_call, with_slot, Outcome, Setting,
    ShapeView, Slot,
};
use crate::compiler::type_checker::{check_units, is_known, solve, variable_type, Knowledge};
use crate::defaults::{lemma_compiled_is_settled, lemma_variables_are_typed, storage_is_typed};
use crate::program::{InstructionView, NodeView, ProgramView};
use crate::runtime::events::{
    DialogueEventView, DialogueOptionView, ExecutionState, RuntimeErrorView,
};
use crate::runtime::library::FunctionSignatureView;
use crate::runtime::virtual_machine::{
    arguments_fit, builtin_result, lemma_builtin_type, lemma_step_keeps_wf, type_fits,
    MachineView,
};
use crate::soundness::variables_typed;
use crate::text::lemma_position_of;
use crate::types::TypeView;
use crate::value::{Number, YarnValueView};
use vstd::prelude::*;

verus! {

/// What the nodes of a program are checked against: the functions that
/// may be called, the declarations of the variables, and the names of the
/// nodes.
pub open spec fn setting_of(
    program: ProgramView,
    library: Map<Seq<char>, FunctionSignatureView>,
    declarations: Seq<DeclarationView>,
) -> Setting {
    Setting { library, declarations, node_names: program.node_names() }
}

/// Whether the stack of every node of the program is in order.
pub open spec fn is_checked(
    program: ProgramView,
    library: Map<Seq<char>, FunctionSignatureView>,
    declarations: Seq<DeclarationView>,
) -> bool {
    forall|i: int|
        0 <= i < program.nodes.len() ==> shapes_of(
            #[trigger] program.nodes[i],
            setting_of(program, library, declarations),
        ) is Some
}

/// Whether the label names an instruction of the node that has the given
/// shape.
pub open spec fn leads_to(
    node: NodeView,
    shapes: Seq<Option<ShapeView>>,
    label: Seq<char>,
    shape: ShapeView,
) -> bool {
    match node.label_index(label) {
        Some(index) => index < shapes.len() && shapes[index as int] == Some(shape),
        None => false,
    }
}

/// Whether a value is what its slot says. `below` are the slots under it.
/// A label is the label of an instruction that is reached with the stack
/// as it is up to the label.
pub open spec fn value_fits(
    value: YarnValueView,
    slot: Slot,
    below: Seq<Slot>,
    node: NodeView,
    shapes: Seq<Option<ShapeView>>,
    program: ProgramView,
) -> bool {
    match slot {
        Slot::Number => value is Number,
        Slot::Bool => value is Bool,
        Slot::Text => value is String,
        Slot::NodeName => value is String && program.node_index(value->String_0) is Some,
        Slot::Label => value is String && leads_to(
            node,
            shapes,
            value->String_0,
            ShapeView { stack: below.push(Slot::Label), pending: None },
        ),
        Slot::Any => true,
    }
}

/// Whether the stack holds what the slots say.
pub open spec fn stack_fits(
    stack: Seq<YarnValueView>,
    slots: Seq<Slot>,
    node: NodeView,
    shapes: Seq<Option<ShapeView>>,
    program: ProgramView,
) -> bool {
    &&& stack.len() == slots.len()
    &&& forall|i: int|
        0 <= i < stack.len() ==> value_fits(
            #[trigger] stack[i],
            slots[i],
            slots.take(i),
            node,
            shapes,
            program,
        )
}

/// Whether the destination of every option is the label of an
/// instruction that has the given shape.
pub open spec fn options_lead(
    options: Seq<DialogueOptionView>,
    node: NodeView,
    shapes: Seq<Option<ShapeView>>,
    shape: ShapeView,
) -> bool {
    forall|k: int|
        0 <= k < options.len() ==> leads_to(
            node,
            shapes,
            (#[trigger] options[k]).destination,
            shape,
        )
}

/// Whether the machine is as the shape of its next instruction says. A
/// machine that waits for an option to be selected lacks the label that
/// the selection will push. Else the stack is as the shape says, and
/// options are pending if and only if the shape says so.
pub open spec fn fits_shape(
    machine: MachineView,
    shape: ShapeView,
    node: NodeView,
    shapes: Seq<Option<ShapeView>>,
) -> bool {
    let program = machine.program.unwrap();
    if machine.state == ExecutionState::WaitingOnOptionSelection {
        &&& shape.pending is None
        &&& shape.stack.len() > 0
        &&& shape.stack.last() == Slot::Label
        &&& stack_fits(machine.stack, shape.stack.drop_last(), node, shapes, program)
        &&& options_lead(machine.options, node, shapes, shape)
    } else {
        &&& stack_fits(machine.stack, shape.stack, node, shapes, program)
        &&& match shape.pending {
            None => machine.options.len() == 0,
            Some(below) => machine.options.len() > 0 && options_lead(
                machine.options,
                node,
                shapes,
                ShapeView { stack: below.push(Slot::Label), pending: None },
            ),
        }
    }
}

/// Whether no event tells of an error.
pub open spec fn is_clean(events: Seq<DialogueEventView>) -> bool {
    forall|i: int| 0 <= i < events.len() ==> !((#[trigger] events[i]) is NodeError)
}

/// What the current node of the machine is checked against.
pub open spec fn machine_setting(
    machine: MachineView,
    declarations: Seq<DeclarationView>,
) -> Setting {
    setting_of(machine.program.unwrap(), machine.library, declarations)
}

/// The shapes of the current node of the machine.
pub open spec fn machine_shapes(
    machine: MachineView,
    declarations: Seq<DeclarationView>,
) -> Seq<Option<ShapeView>> {
    shapes_of(machine.node(), machine_setting(machine, declarations)).unwrap()
}

/// Whether the machine stands behind an instruction that shows options.
pub open spec fn has_shown_options(machine: MachineView) -> bool {
    &&& machine.current_node is Some
    &&& 1 <= machine.program_counter <= machine.node().instructions.len()
    &&& machine.node().instructions[machine.program_counter - 1] is ShowOptions
}

/// Whether the machine is safe: it holds a program whose nodes are
/// checked, its variables hold values of their declared types, it has told
/// of no error, it waits for an option to be selected only behind an
/// instruction that shows options, and where it stands before an
/// instruction, that instruction may be reached and the machine is as the
/// shape of the instruction says.
pub open spec fn is_safe(machine: MachineView, declarations: Seq<DeclarationView>) -> bool {
    &&& machine.wf()
    &&& machine.program is Some
    &&& is_checked(machine.program.unwrap(), machine.library, declarations)
    &&& variables_typed(machine, declarations)
    &&& is_clean(machine.events)
    &&& machine.state == ExecutionState::WaitingOnOptionSelection ==> has_shown_options(machine)
    &&& machine.current_node is Some && machine.program_counter
        < machine.node().instructions.len() ==> {
        let shapes = machine_shapes(machine, declarations);
        match shapes[machine.program_counter as int] {
            None => false,
            Some(shape) => fits_shape(machine, shape, machine.node(), shapes),
        }
    }
}

/// Whether the answer of the host is of a type that may stand for the
/// type that the signature of the function gives as its result, where the
/// next instruction asks the host for an answer.
pub open spec fn answer_fits(machine: MachineView, answer: Option<YarnValueView>) -> bool {
    match machine.pending_call() {
        Some((name, _)) => answer is Some && type_fits(
            answer.unwrap().type_of(),
            machine.library[name].return_type,
        ),
        None => true,
    }
}

/// Whether the machine is safe, runs, and stands before an instruction
/// that has the given shape and leaves the given outcome.
pub open spec fn is_poised(
    machine: MachineView,
    declarations: Seq<DeclarationView>,
    shape: ShapeView,
    outcome: Outcome,
) -> bool {
    &&& is_safe(machine, declarations)
    &&& machine.state == ExecutionState::Running
    &&& machine.current_node is Some
    &&& machine.program_counter < machine.node().instructions.len()
    &&& describes(
        machine_shapes(machine, declarations),
        machine.node(),
        machine_setting(machine, declarations),
    )
    &&& machine_shapes(machine, declarations)[machine.program_counter as int] == Some(shape)
    &&& transfer(
        machine.instruction(),
        shape,
        machine.node(),
        machine_setting(machine, declarations),
    ) == Some(outcome)
}

/// Whether `after` is the machine `before` a little later, in the same
/// node of the same program: it keeps the invariant of the machine, its
/// variables hold values of their declared types, and it has told of no
/// error.
pub open spec fn is_later(
    before: MachineView,
    after: MachineView,
    declarations: Seq<DeclarationView>,
) -> bool {
    &&& after.program == before.program
    &&& after.library == before.library
    &&& after.current_node == before.current_node
    &&& after.wf()
    &&& variables_typed(after, declarations)
    &&& is_clean(after.events)
    &&& after.state == ExecutionState::WaitingOnOptionSelection ==> has_shown_options(after)
}

/// A machine with the variables of another holds values of the declared
/// types if the other does.
pub proof fn lemma_same_variables(
    before: MachineView,
    after: MachineView,
    declarations: Seq<DeclarationView>,
)
    requires
        variables_typed(before, declarations),
        after.program == before.program,
        after.variables == before.variables,
    ensures
        variables_typed(after, declarations),
{
    assert forall|name: Seq<char>|
        is_known(variable_type(declarations, name)) implies (#[trigger] after.variable(
        name,
    )).type_of() == variable_type(declarations, name) by {
        assert(after.variable(name) == before.variable(name));
    }
}

/// A stack that fits its slots fits them up to any height.
pub proof fn lemma_fits_below(
    stack: Seq<YarnValueView>,
    slots: Seq<Slot>,
    height: int,
    node: NodeView,
    shapes: Seq<Option<ShapeView>>,
    program: ProgramView,
)
    requires
        stack_fits(stack, slots, node, shapes, program),
        0 <= height <= stack.len(),
    ensures
        stack_fits(stack.take(height), slots.take(height), node, shapes, program),
{
    assert forall|i: int| 0 <= i < height implies value_fits(
        #[trigger] stack.take(height)[i],
        slots.take(height)[i],
        slots.take(height).take(i),
        node,
        shapes,
        program,
    ) by {
        assert(slots.take(height).take(i) =~= slots.take(i));
        assert(value_fits(stack[i], slots[i], slots.take(i), node, shapes, program));
    }
}

/// A stack that fits its slots still fits them with one more value that
/// fits its slot.
pub proof fn lemma_fits_with(
    stack: Seq<YarnValueView>,
    slots: Seq<Slot>,
    value: YarnValueView,
    slot: Slot,
    node: NodeView,
    shapes: Seq<Option<ShapeView>>,
    program: ProgramView,
)
    requires
        stack_fits(stack, slots, node, shapes, program),
        value_fits(value, slot, slots, node, shapes, program),
    ensures
        stack_fits(stack.push(value), slots.push(slot), node, shapes, program),
{
    assert forall|i: int| 0 <= i < stack.len() + 1 implies value_fits(
        #[trigger] stack.push(value)[i],
        slots.push(slot)[i],
        slots.push(slot).take(i),
        node,
        shapes,
        program,
    ) by {
        if i < stack.len() {
            assert(slots.push(slot).take(i) =~= slots.take(i));
            assert(value_fits(stack[i], slots[i], slots.take(i), node, shapes, program));
        } else {
            assert(slots.push(slot).take(i) =~= slots);
        }
    }
}

/// A machine that is a safe machine a little later is safe if it is as
/// the shape of its next instruction says.
pub proof fn lemma_later_is_safe(
    before: MachineView,
    after: MachineView,
    declarations: Seq<DeclarationView>,
)
    requires
        is_safe(before, declarations),
        before.current_node is Some,
        is_later(before, after, declarations),
        after.program_counter < before.node().instructions.len() ==> {
            let shapes = machine_shapes(before, declarations);
            match shapes[after.program_counter as int] {
                None => false,
                Some(shape) => fits_shape(after, shape, before.node(), shapes),
            }
        },
    ensures
        is_safe(after, declarations),
{
}

/// A safe machine is still safe when it has pushed a value that fits the
/// slot that the shapes foresee.
pub proof fn lemma_push_is_safe(
    machine: MachineView,
    declarations: Seq<DeclarationView>,
    shape: ShapeView,
    outcome: Outcome,
    value: YarnValueView,
    slot: Slot,
)
    requires
        is_poised(machine, declarations, shape, outcome),
        Some(outcome) == goes_on(with_slot(shape, slot)),
        value_fits(
            value,
            slot,
            shape.stack,
            machine.node(),
            machine_shapes(machine, declarations),
            machine.program.unwrap(),
        ),
    ensures
        is_safe(machine.push(value), declarations),
{
    let shapes = machine_shapes(machine, declarations);
    let node = machine.node();
    let after = machine.push(value);
    assert(holds_at(shapes, node, machine_setting(machine, declarations), machine.program_counter as int));
    lemma_fits_with(machine.stack, shape.stack, value, slot, node, shapes, machine.program.unwrap());
    lemma_same_variables(machine, after, declarations);
    lemma_later_is_safe(machine, after, declarations);
}

/// A safe machine is still safe when it has popped the topmost `count`
/// values of its stack, as the shapes foresee, and told the host of
/// something that is no error.
pub proof fn lemma_taken_is_safe(
    machine: MachineView,
    declarations: Seq<DeclarationView>,
    shape: ShapeView,
    outcome: Outcome,
    count: int,
    after: MachineView,
)
    requires
        is_poised(machine, declarations, shape, outcome),
        0 <= count <= shape.stack.len(),
        Some(outcome) == goes_on(
            ShapeView { stack: shape.stack.take(shape.stack.len() - count), ..shape },
        ),
        after.program == machine.program,
        after.library == machine.library,
        after.variables == machine.variables,
        after.current_node == machine.current_node,
        after.options == machine.options,
        after.state != ExecutionState::WaitingOnOptionSelection,
        after.stack == machine.stack.take(machine.stack.len() - count),
        after.program_counter == machine.program_counter + 1,
        is_clean(after.events),
    ensures
        is_safe(after, declarations),
{
    let shapes = machine_shapes(machine, declarations);
    let node = machine.node();
    assert(holds_at(shapes, node, machine_setting(machine, declarations), machine.program_counter as int));
    lemma_fits_below(
        machine.stack,
        shape.stack,
        machine.stack.len() - count,
        node,
        shapes,
        machine.program.unwrap(),
    );
    lemma_same_variables(machine, after, declarations);
    lemma_later_is_safe(machine, after, declarations);
}

/// A safe machine is still safe when it has stored the value on top of
/// its stack in a variable of the type of the value.
pub proof fn lemma_store_is_safe(
    machine: MachineView,
    declarations: Seq<DeclarationView>,
    shape: ShapeView,
    outcome: Outcome,
    name: Seq<char>,
)
    requires
        is_poised(machine, declarations, shape, outcome),
        machine.instruction() == InstructionView::StoreVariable(name),
    ensures
        is_safe(machine.store_variable(name), declarations),
{
    let shapes = machine_shapes(machine, declarations);
    let node = machine.node();
    let after = machine.store_variable(name);
    let top = machine.stack.len() - 1;
    assert(holds_at(shapes, node, machine_setting(machine, declarations), machine.program_counter as int));
    assert(value_fits(
        machine.stack[top],
        shape.stack[top],
        shape.stack.take(top),
        node,
        shapes,
        machine.program.unwrap(),
    ));
    assert forall|other: Seq<char>|
        is_known(variable_type(declarations, other)) implies (#[trigger] after.variable(
        other,
    )).type_of() == variable_type(declarations, other) by {
        if other != name {
            assert(after.variable(other) == machine.variable(other));
        }
    }
    lemma_later_is_safe(machine, after, declarations);
}

/// A safe machine is still safe when it has jumped to a label that leads
/// to an instruction with the shape of the machine.
pub proof fn lemma_jump_is_safe(
    machine: MachineView,
    declarations: Seq<DeclarationView>,
    shape: ShapeView,
    outcome: Outcome,
    label: Seq<char>,
)
    requires
        is_poised(machine, declarations, shape, outcome),
        leads_to(machine.node(), machine_shapes(machine, declarations), label, shape),
    ensures
        is_safe(machine.jump(label), declarations),
{
    let after = machine.jump(label);
    lemma_same_variables(machine, after, declarations);
    lemma_later_is_safe(machine, after, declarations);
}

/// A safe machine is still safe after a jump that the value on top of its
/// stack decides.
pub proof fn lemma_jump_if_false_is_safe(
    machine: MachineView,
    declarations: Seq<DeclarationView>,
    shape: ShapeView,
    outcome: Outcome,
    label: Seq<char>,
)
    requires
        is_poised(machine, declarations, shape, outcome),
        machine.instruction() == InstructionView::JumpIfFalse(label),
    ensures
        is_safe(machine.jump_if_false(label), declarations),
{
    let shapes = machine_shapes(machine, declarations);
    let node = machine.node();
    let top = machine.stack.len() - 1;
    assert(holds_at(shapes, node, machine_setting(machine, declarations), machine.program_counter as int));
    assert(value_fits(
        machine.stack[top],
        shape.stack[top],
        shape.stack.take(top),
        node,
        shapes,
        machine.program.unwrap(),
    ));
    if machine.stack.last().as_bool() == Some(false) {
        lemma_jump_is_safe(machine, declarations, shape, outcome, label);
    } else {
        let after = machine.advance();
        lemma_same_variables(machine, after, declarations);
        lemma_later_is_safe(machine, after, declarations);
    }
}

/// A safe machine is still safe after a jump to the label on top of its
/// stack.
pub proof fn lemma_jump_to_top_is_safe(
    machine: MachineView,
    declarations: Seq<DeclarationView>,
    shape: ShapeView,
    outcome: Outcome,
)
    requires
        is_poised(machine, declarations, shape, outcome),
        machine.instruction() == InstructionView::Jump,
    ensures
        is_safe(machine.jump_to_top(), declarations),
{
    let shapes = machine_shapes(machine, declarations);
    let node = machine.node();
    let top = machine.stack.len() - 1;
    assert(value_fits(
        machine.stack[top],
        shape.stack[top],
        shape.stack.take(top),
        node,
        shapes,
        machine.program.unwrap(),
    ));
    assert(shape.stack.take(top).push(Slot::Label) =~= shape.stack);
    let label = machine.stack.last()->String_0;
    lemma_jump_is_safe(machine, declarations, shape, outcome, label);
}

/// A safe machine is still safe when it has told the host that the
/// dialogue is over.
pub proof fn lemma_complete_is_safe(machine: MachineView, declarations: Seq<DeclarationView>)
    requires
        is_safe(machine, declarations),
        machine.current_node is Some,
        machine.state == ExecutionState::Running,
    ensures
        is_safe(machine.complete(), declarations),
{
    let after = machine.complete();
    lemma_same_variables(machine, after, declarations);
    lemma_later_is_safe(machine, after, declarations);
}

/// A safe machine is still safe when it has entered a node of its
/// program.
pub proof fn lemma_enter_is_safe(
    machine: MachineView,
    declarations: Seq<DeclarationView>,
    index: int,
    state: ExecutionState,
)
    requires
        machine.wf(),
        machine.program is Some,
        is_checked(machine.program.unwrap(), machine.library, declarations),
        variables_typed(machine, declarations),
        is_clean(machine.events),
        0 <= index < machine.program.unwrap().nodes.len(),
        state != ExecutionState::WaitingOnOptionSelection,
    ensures
        is_safe(machine.enter_node(index, state), declarations),
{
    let after = machine.enter_node(index, state);
    lemma_same_variables(machine, after, declarations);
    lemma_shapes_describe(after.node(), machine_setting(after, declarations));
    assert(stack_fits(
        after.stack,
        start_shape().stack,
        after.node(),
        machine_shapes(after, declarations),
        after.program.unwrap(),
    ));
}

/// A safe machine is still safe when it has gone over to the node that
/// the top of its stack names.
pub proof fn lemma_run_node_is_safe(
    machine: MachineView,
    declarations: Seq<DeclarationView>,
    shape: ShapeView,
    outcome: Outcome,
)
    requires
        is_poised(machine, declarations, shape, outcome),
        machine.instruction() == InstructionView::RunNode,
    ensures
        is_safe(machine.run_node(), declarations),
{
    let shapes = machine_shapes(machine, declarations);
    let node = machine.node();
    let top = machine.stack.len() - 1;
    assert(value_fits(
        machine.stack[top],
        shape.stack[top],
        shape.stack.take(top),
        node,
        shapes,
        machine.program.unwrap(),
    ));
    let name = machine.stack.last()->String_0;
    lemma_position_of(machine.program.unwrap().node_names(), name);
    let index = machine.program.unwrap().node_index(name).unwrap();
    let done = machine.emit(DialogueEventView::NodeComplete(node.name));
    lemma_same_variables(machine, done, declarations);
    lemma_enter_is_safe(done, declarations, index, ExecutionState::WaitingForContinue);
}

/// A safe machine is still safe when it has added an option.
pub proof fn lemma_add_option_is_safe(
    machine: MachineView,
    declarations: Seq<DeclarationView>,
    shape: ShapeView,
    outcome: Outcome,
    line_id: Seq<char>,
    destination: Seq<char>,
    has_condition: bool,
)
    requires
        is_poised(machine, declarations, shape, outcome),
        machine.instruction() == (InstructionView::AddOption {
            line_id,
            destination,
            has_condition,
        }),
    ensures
        is_safe(machine.add_option(line_id, destination, has_condition), declarations),
{
    let shapes = machine_shapes(machine, declarations);
    let node = machine.node();
    let program = machine.program.unwrap();
    let after = machine.add_option(line_id, destination, has_condition);
    let below = if has_condition {
        shape.stack.drop_last()
    } else {
        shape.stack
    };
    let target = ShapeView { stack: below.push(Slot::Label), pending: None };
    assert(holds_at(shapes, node, machine_setting(machine, declarations), machine.program_counter as int));
    assert(outcome.next == Some(ShapeView { stack: below, pending: Some(below) }));
    assert(outcome.jump == Some((node.label_index(destination).unwrap(), target)));
    assert(leads_to(node, shapes, destination, target));
    if has_condition {
        let top = machine.stack.len() - 1;
        assert(value_fits(
            machine.stack[top],
            shape.stack[top],
            shape.stack.take(top),
            node,
            shapes,
            program,
        ));
        lemma_fits_below(machine.stack, shape.stack, top, node, shapes, program);
        assert(machine.stack.take(top) =~= machine.stack.drop_last());
        assert(shape.stack.take(top) =~= shape.stack.drop_last());
    }
    lemma_step_keeps_wf(machine, None);
    assert(after == machine.step(None));
    assert(after.options.len() == machine.options.len() + 1);
    assert forall|k: int| 0 <= k < after.options.len() implies leads_to(
        node,
        shapes,
        (#[trigger] after.options[k]).destination,
        target,
    ) by {
        if k < machine.options.len() {
            assert(after.options[k] == machine.options[k]);
        }
    }
    lemma_same_variables(machine, after, declarations);
    lemma_later_is_safe(machine, after, declarations);
}

/// A safe machine is still safe when it has shown its options, or has
/// ended the dialogue for want of any.
pub proof fn lemma_show_options_is_safe(
    machine: MachineView,
    declarations: Seq<DeclarationView>,
    shape: ShapeView,
    outcome: Outcome,
)
    requires
        is_poised(machine, declarations, shape, outcome),
        machine.instruction() == InstructionView::ShowOptions,
    ensures
        is_safe(machine.show_options(), declarations),
{
    let shapes = machine_shapes(machine, declarations);
    let node = machine.node();
    let after = machine.show_options();
    assert(holds_at(shapes, node, machine_setting(machine, declarations), machine.program_counter as int));
    if machine.options.len() == 0 {
        lemma_complete_is_safe(machine, declarations);
    } else {
        let next = ShapeView { stack: shape.stack.push(Slot::Label), pending: None };
        assert(outcome.next == Some(next));
        assert(next.stack.drop_last() =~= shape.stack);
        lemma_same_variables(machine, after, declarations);
        lemma_later_is_safe(machine, after, declarations);
    }
}

/// The values on top of a stack that fits its slots fit the parameters
/// that the slots fit.
pub proof fn lemma_arguments_fit(
    stack: Seq<YarnValueView>,
    slots: Seq<Slot>,
    kept: int,
    parameters: Seq<TypeView>,
    node: NodeView,
    shapes: Seq<Option<ShapeView>>,
    program: ProgramView,
)
    requires
        stack_fits(stack, slots, node, shapes, program),
        0 <= kept <= stack.len(),
        slots_fit(slots.skip(kept), parameters),
    ensures
        arguments_fit(stack.skip(kept), parameters),
        forall|i: int|
            0 <= i < stack.len() - kept ==> type_fits(
                (#[trigger] stack.skip(kept)[i]).type_of(),
                slot_type(slots.skip(kept)[i]),
            ) && (stack.skip(kept)[i] is String ==> may_be_string(slots.skip(kept)[i])),
{
    assert forall|i: int| 0 <= i < stack.len() - kept implies type_fits(
        (#[trigger] stack.skip(kept)[i]).type_of(),
        slot_type(slots.skip(kept)[i]),
    ) && (stack.skip(kept)[i] is String ==> may_be_string(slots.skip(kept)[i])) by {
        assert(value_fits(
            stack[kept + i],
            slots[kept + i],
            slots.take(kept + i),
            node,
            shapes,
            program,
        ));
    }
    assert forall|i: int| 0 <= i < stack.skip(kept).len() implies type_fits(
        (#[trigger] stack.skip(kept)[i]).type_of(),
        parameters[i],
    ) by {
        assert(slot_fits(slots.skip(kept)[i], parameters[i]));
    }
}

/// A safe machine is still safe when it has called a function that the
/// host answers with a value of the right type.
pub proof fn lemma_call_is_safe(
    machine: MachineView,
    declarations: Seq<DeclarationView>,
    shape: ShapeView,
    outcome: Outcome,
    name: Seq<char>,
    answer: Option<YarnValueView>,
)
    requires
        is_poised(machine, declarations, shape, outcome),
        machine.instruction() == InstructionView::CallFunc(name),
        answer_fits(machine, answer),
    ensures
        is_safe(machine.call_function(name, answer), declarations),
{
    let shapes = machine_shapes(machine, declarations);
    let node = machine.node();
    let program = machine.program.unwrap();
    let after = machine.call_function(name, answer);
    let signature = machine.library[name];
    let count = signature.parameters.len();
    let kept = machine.stack.len() - count;
    let slot = slot_of_type(signature.return_type).unwrap();
    assert(holds_at(shapes, node, machine_setting(machine, declarations), machine.program_counter as int));
    assert(transfer_call(name, shape, machine.library) == Some(outcome));
    lemma_arguments_fit(machine.stack, shape.stack, kept, signature.parameters, node, shapes, program);
    let arguments = machine.stack.skip(kept);
    assert(machine.call_arguments(name) == Ok::<Seq<YarnValueView>, RuntimeErrorView>(arguments));
    lemma_builtin_type(name, arguments, machine.variables);
    let result = match builtin_result(name, arguments, machine.variables) {
        Some(value) => Some(value),
        None => answer,
    };
    assert(result is Some);
    let value = result.unwrap();
    assert(type_fits(value.type_of(), signature.return_type));
    lemma_fits_below(machine.stack, shape.stack, kept, node, shapes, program);
    lemma_fits_with(
        machine.stack.take(kept),
        shape.stack.take(kept),
        value,
        slot,
        node,
        shapes,
        program,
    );
    assert(outcome.next == Some(
        ShapeView { stack: shape.stack.take(kept).push(slot), ..shape },
    ));
    lemma_same_variables(machine, after, declarations);
    lemma_later_is_safe(machine, after, declarations);
}

/// A safe machine that runs is safe one instruction later, if the host
/// answers the call of the instruction, where it makes one, with a value
/// of the type that the signature of the function gives as its result. A
/// safe machine has told of no error, so no step of a safe machine ends in
/// one.
pub proof fn lemma_step_is_safe(
    machine: MachineView,
    declarations: Seq<DeclarationView>,
    answer: Option<YarnValueView>,
)
    requires
        is_safe(machine, declarations),
        machine.state == ExecutionState::Running,
        answer_fits(machine, answer),
    ensures
        is_safe(machine.step(answer), declarations),
{
    if machine.at_end() {
        lemma_complete_is_safe(machine, declarations);
    } else {
        let setting = machine_setting(machine, declarations);
        let shapes = machine_shapes(machine, declarations);
        let node = machine.node();
        let program = machine.program.unwrap();
        lemma_shapes_describe(node, setting);
        let shape = shapes[machine.program_counter as int].unwrap();
        assert(holds_at(shapes, node, setting, machine.program_counter as int));
        let outcome = transfer(machine.instruction(), shape, node, setting).unwrap();
        assert(is_poised(machine, declarations, shape, outcome));
        match machine.instruction() {
            InstructionView::JumpTo(label) => {
                lemma_jump_is_safe(machine, declarations, shape, outcome, label);
            },
            InstructionView::Jump => {
                lemma_jump_to_top_is_safe(machine, declarations, shape, outcome);
            },
            InstructionView::RunLine { line_id, substitution_count } => {
                lemma_taken_is_safe(
                    machine,
                    declarations,
                    shape,
                    outcome,
                    substitution_count as int,
                    machine.run_line(line_id, substitution_count),
                );
            },
            InstructionView::RunCommand { name, argument_count } => {
                lemma_taken_is_safe(
                    machine,
                    declarations,
                    shape,
                    outcome,
                    argument_count as int,
                    machine.run_command(name, argument_count),
                );
            },
            InstructionView::AddOption { line_id, destination, has_condition } => {
                lemma_add_option_is_safe(
                    machine,
                    declarations,
                    shape,
                    outcome,
                    line_id,
                    destination,
                    has_condition,
                );
            },
            InstructionView::ShowOptions => {
                lemma_show_options_is_safe(machine, declarations, shape, outcome);
            },
            InstructionView::PushString(string) => {
                let slot = if program.node_index(string) is Some {
                    Slot::NodeName
                } else {
                    Slot::Text
                };
                lemma_push_is_safe(
                    machine,
                    declarations,
                    shape,
                    outcome,
                    YarnValueView::String(string),
                    slot,
                );
            },
            InstructionView::PushFloat(number) => {
                lemma_push_is_safe(
                    machine,
                    declarations,
                    shape,
                    outcome,
                    YarnValueView::Number(number),
                    Slot::Number,
                );
            },
            InstructionView::PushBool(truth) => {
                lemma_push_is_safe(
                    machine,
                    declarations,
                    shape,
                    outcome,
                    YarnValueView::Bool(truth),
                    Slot::Bool,
                );
            },
            InstructionView::PushNull => {},
            InstructionView::JumpIfFalse(label) => {
                lemma_jump_if_false_is_safe(machine, declarations, shape, outcome, label);
            },
            InstructionView::Pop => {
                assert(shape.stack.take(shape.stack.len() - 1) =~= shape.stack.drop_last());
                assert(machine.stack.take(machine.stack.len() - 1) =~= machine.stack.drop_last());
                lemma_taken_is_safe(machine, declarations, shape, outcome, 1, machine.pop());
            },
            InstructionView::CallFunc(name) => {
                lemma_call_is_safe(machine, declarations, shape, outcome, name, answer);
            },
            InstructionView::PushVariable(name) => {
                let slot = slot_of_type(variable_type(declarations, name)).unwrap();
                if slot != Slot::Any {
                    assert(machine.variable(name).type_of() == variable_type(declarations, name));
                }
                lemma_push_is_safe(
                    machine,
                    declarations,
                    shape,
                    outcome,
                    machine.variable(name),
                    slot,
                );
            },
            InstructionView::StoreVariable(name) => {
                lemma_store_is_safe(machine, declarations, shape, outcome, name);
            },
            InstructionView::Stop => {
                lemma_complete_is_safe(machine, declarations);
            },
            InstructionView::RunNode => {
                lemma_run_node_is_safe(machine, declarations, shape, outcome);
            },
        }
    }
}

/// A safe machine that waits for an option to be selected is safe once
/// one of its options has been selected.
pub proof fn lemma_select_is_safe(
    machine: MachineView,
    declarations: Seq<DeclarationView>,
    id: int,
)
    requires
        is_safe(machine, declarations),
        machine.state == ExecutionState::WaitingOnOptionSelection,
        0 <= id < machine.options.len(),
    ensures
        is_safe(machine.select_option(id), declarations),
{
    let after = machine.select_option(id);
    lemma_same_variables(machine, after, declarations);
    if machine.program_counter < machine.node().instructions.len() {
        let shapes = machine_shapes(machine, declarations);
        let node = machine.node();
        let shape = shapes[machine.program_counter as int].unwrap();
        let label = YarnValueView::String(machine.options[id].destination);
        assert(shape.stack.drop_last().push(Slot::Label) =~= shape.stack);
        assert(leads_to(node, shapes, machine.options[id].destination, shape));
        lemma_fits_with(
            machine.stack,
            shape.stack.drop_last(),
            label,
            Slot::Label,
            node,
            shapes,
            machine.program.unwrap(),
        );
    }
    lemma_later_is_safe(machine, after, declarations);
}

/// A safe machine that stands in a node and does not wait for an option
/// to be selected is safe when it takes up work.
pub proof fn lemma_resumed_is_safe(machine: MachineView, declarations: Seq<DeclarationView>)
    requires
        is_safe(machine, declarations),
        machine.current_node is Some,
        machine.state != ExecutionState::WaitingOnOptionSelection,
    ensures
        is_safe(machine.resumed(), declarations),
{
    let after = machine.resumed();
    lemma_same_variables(machine, after, declarations);
    lemma_later_is_safe(machine, after, declarations);
}

/// A machine is safe when a node of its program has been set as the node
/// to run, if the nodes of the program are checked, the variables hold
/// values of their declared types, and the machine has told of no error.
pub proof fn lemma_set_node_is_safe(
    machine: MachineView,
    declarations: Seq<DeclarationView>,
    index: int,
)
    requires
        machine.wf(),
        machine.program is Some,
        is_checked(machine.program.unwrap(), machine.library, declarations),
        variables_typed(machine, declarations),
        is_clean(machine.events),
        0 <= index < machine.program.unwrap().nodes.len(),
    ensures
        is_safe(machine.set_node(index), declarations),
{
    lemma_enter_is_safe(machine, declarations, index, ExecutionState::Running);
}

/// Whether the host answers every call of a run with a value of the type
/// that the signature of the function gives as its result. There is one
/// answer for every instruction of the run; those for instructions that
/// ask the host nothing do not count.
pub open spec fn answers_are_typed(
    machine: MachineView,
    answers: Seq<Option<YarnValueView>>,
) -> bool
    decreases answers.len(),
{
    if answers.len() == 0 {
        true
    } else {
        let before = machine.run(answers.drop_last());
        &&& answers_are_typed(machine, answers.drop_last())
        &&& before.state == ExecutionState::Running ==> answer_fits(before, answers.last())
    }
}

/// A safe machine is safe after any run in which the host answers with
/// values of the right types.
pub proof fn lemma_run_is_safe(
    machine: MachineView,
    declarations: Seq<DeclarationView>,
    answers: Seq<Option<YarnValueView>>,
)
    requires
        is_safe(machine, declarations),
        answers_are_typed(machine, answers),
    ensures
        is_safe(machine.run(answers), declarations),
    decreases answers.len(),
{
    if answers.len() > 0 {
        lemma_run_is_safe(machine, declarations, answers.drop_last());
        let before = machine.run(answers.drop_last());
        if before.state == ExecutionState::Running {
            lemma_step_is_safe(before, declarations, answers.last());
        }
    }
}

/// A safe machine that stands in a node is safe at the end of every call
/// of `next` in which the host answers with values of the right types and
/// which is not cut short: the events that it hands over tell of no error,
/// and the machine that stays behind is safe again. A call is cut short
/// only after as many instructions as a machine integer can count.
pub proof fn lemma_next_is_safe(
    machine: MachineView,
    declarations: Seq<DeclarationView>,
    answers: Seq<Option<YarnValueView>>,
    events: Option<Seq<DialogueEventView>>,
    left: MachineView,
)
    requires
        is_safe(machine, declarations),
        machine.current_node is Some,
        machine.state != ExecutionState::WaitingOnOptionSelection ==> answers_are_typed(
            machine.resumed(),
            answers,
        ),
        machine.next_result(answers, events, left),
        answers.len() < usize::MAX,
    ensures
        events is Some,
        is_clean(events.unwrap()),
        is_safe(left, declarations),
        left.state != ExecutionState::Running,
{
    if machine.state != ExecutionState::WaitingOnOptionSelection {
        lemma_resumed_is_safe(machine, declarations);
        lemma_run_is_safe(machine.resumed(), declarations, answers);
    }
    let end = machine.continued(answers);
    assert(end.rested() == end);
    lemma_same_variables(end, left, declarations);
}

/// The stack of every node of a program that was compiled without an
/// error is in order.
pub proof fn lemma_compiled_is_checked(
    files: Seq<SourceFileView>,
    library: Map<Seq<char>, FunctionSignatureView>,
    numbers: spec_fn(Seq<char>) -> Option<Number>,
)
    requires
        no_errors(compiled(files, library, numbers).diagnostics),
    ensures
        is_checked(
            compiled(files, library, numbers).program,
            library,
            compiled(files, library, numbers).declarations,
        ),
{
    let compilation = compiled(files, library, numbers);
    let program = compilation.program;
    let setting = setting_of(program, library, compilation.declarations);
    let parse = parse_files(files);
    let units = parse.units;
    let named = check_names(units, units.len() as int, check_titles(units, parse.diagnostics));
    let written = declare_units(
        units,
        Declared { declarations: Seq::empty(), diagnostics: named },
        numbers,
    );
    let declarations = solve(units, written.declarations, library, usize::MAX as nat);
    let known = Knowledge { declarations, library, numbers };
    let strings = strings_of_units(units);
    let before = deferred_diagnostics(
        declarations,
        check_ids(
            strings,
            strings.len() as int,
            check_jumps_in_units(
                units,
                units.len() as int,
                check_units(units, known, written.diagnostics),
            ),
        ),
    );
    assert(compilation.diagnostics == checked_diagnostics(program, library, declarations, before));
    if no_errors(before) {
        lemma_check_stacks(program, program.nodes.len() as int, setting, before);
    }
}

/// Type soundness: a machine that holds a program that was compiled
/// without an error, with the library that the program was compiled
/// against and with a variable storage that holds nothing but values of
/// the declared types of their variables, is safe once a node of the
/// program has been set as the node to run. A safe machine stays safe
/// whatever it runs and whichever options are selected, as long as the
/// host answers its calls with values of the right types, and a safe
/// machine has told of no error.
pub proof fn lemma_compiled_program_is_safe(
    files: Seq<SourceFileView>,
    library: Map<Seq<char>, FunctionSignatureView>,
    numbers: spec_fn(Seq<char>) -> Option<Number>,
    machine: MachineView,
    index: int,
)
    requires
        no_errors(compiled(files, library, numbers).diagnostics),
        machine.wf(),
        machine.program == Some(compiled(files, library, numbers).program),
        machine.library == library,
        storage_is_typed(machine.variables, compiled(files, library, numbers).declarations),
        is_clean(machine.events),
        0 <= index < machine.program.unwrap().nodes.len(),
    ensures
        is_safe(machine.set_node(index), compiled(files, library, numbers).declarations),
{
    let declarations = compiled(files, library, numbers).declarations;
    lemma_compiled_is_checked(files, library, numbers);
    lemma_compiled_is_settled(files, library, numbers);
    lemma_variables_are_typed(machine, declarations);
    lemma_set_node_is_safe(machine, declarations, index);
}

/// The depth of the stack of a safe machine is a matter of the program
/// counter alone: before an instruction, the stack holds as many values as
/// the shape of the instruction has slots. A machine that waits for an
/// option to be selected lacks the one that the selection will push.
pub proof fn lemma_stack_depth(machine: MachineView, declarations: Seq<DeclarationView>)
    requires
        is_safe(machine, declarations),
        machine.current_node is Some,
        machine.program_counter < machine.node().instructions.len(),
    ensures
        machine_shapes(machine, declarations)[machine.program_counter as int] is Some,
        machine.stack.len() + (if machine.state == ExecutionState::WaitingOnOptionSelection {
            1int
        } else {
            0int
        }) == machine_shapes(
            machine,
            declarations,
        )[machine.program_counter as int].unwrap().stack.len(),
{
}

/// In a safe machine every option leads somewhere: a safe machine that
/// has shown options and stands before the jump that follows them
/// continues, once an option is selected, at the instruction that the
/// destination label of that option names, which the node has, and tells
/// the host nothing on the way.
pub proof fn lemma_selected_option_is_reached(
    machine: MachineView,
    declarations: Seq<DeclarationView>,
    id: int,
    answer: Option<YarnValueView>,
)
    requires
        is_safe(machine, declarations),
        machine.state == ExecutionState::WaitingOnOptionSelection,
        0 <= id < machine.options.len(),
        !machine.at_end(),
        machine.instruction() is Jump,
    ensures
        machine.node().label_index(machine.options[id].destination) is Some,
        machine.select_option(id).step(answer) == (MachineView {
            program_counter: machine.node().label_index(
                machine.options[id].destination,
            ).unwrap(),
            ..machine.select_option(id)
        }),
        is_safe(machine.select_option(id).step(answer), declarations),
{
    let shapes = machine_shapes(machine, declarations);
    let shape = shapes[machine.program_counter as int].unwrap();
    assert(leads_to(machine.node(), shapes, machine.options[id].destination, shape));
    lemma_select_is_safe(machine, declarations, id);
    let selected = machine.select_option(id);
    assert(answer_fits(selected, answer));
    lemma_step_is_safe(selected, declarations, answer);
}

/// Option-selection soundness: a safe machine that runs a compiled
/// program and waits for an option to be selected continues, once an
/// option is selected, at the instruction that the destination label of
/// that option names, and tells the host nothing on the way. What the host
/// is told next comes from the code at that label.
pub proof fn lemma_compiled_option_is_taken(
    files: Seq<SourceFileView>,
    library: Map<Seq<char>, FunctionSignatureView>,
    numbers: spec_fn(Seq<char>) -> Option<Number>,
    machine: MachineView,
    id: int,
    answer: Option<YarnValueView>,
)
    requires
        machine.program == Some(compiled(files, library, numbers).program),
        is_safe(machine, compiled(files, library, numbers).declarations),
        machine.state == ExecutionState::WaitingOnOptionSelection,
        0 <= id < machine.options.len(),
    ensures
        machine.node().label_index(machine.options[id].destination) is Some,
        machine.select_option(id).step(answer) == (MachineView {
            program_counter: machine.node().label_index(
                machine.options[id].destination,
            ).unwrap(),
            ..machine.select_option(id)
        }),
        is_safe(
            machine.select_option(id).step(answer),
            compiled(files, library, numbers).declarations,
        ),
{
    let compilation = compiled(files, library, numbers);
    let parse = parse_files(files);
    let units = parse.units;
    let named = check_names(units, units.len() as int, check_titles(units, parse.diagnostics));
    let written = declare_units(
        units,
        Declared { declarations: Seq::empty(), diagnostics: named },
        numbers,
    );
    let declarations = solve(units, written.declarations, library, usize::MAX as nat);
    let known = Knowledge { declarations, library, numbers };
    let index = machine.current_node.unwrap();
    assert(compilation.program.nodes == nodes_of(units, known));
    assert(machine.node() == node_of(units[index], known));
    lemma_generated_code_jumps(
        units[index].body,
        Generation { origin: units[index].origin, known },
    );
    let code = machine.node().instructions;
    assert(code[machine.program_counter - 1] is ShowOptions);
    lemma_selected_option_is_reached(machine, compilation.declarations, id, answer);
}

} // verus!
