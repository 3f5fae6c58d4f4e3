//! The check of compiled code: that the stack of a node is in order
//! wherever the node may be run.
//!
//! The check passes over the instructions of a node once, from the
//! first to the last, and notes for each instruction what the stack holds
//! when the instruction is reached. Code passes if every instruction finds
//! on the stack what it needs, and if every instruction that may be reached
//! in two ways finds the same on the stack either way.

use crate::collections::value_at;
use crate::compiler::declaration::{Declaration, DeclarationView};
use crate::compiler::type_checker::{type_of_variable, variable_type};
use crate::program::{Instruction, InstructionView, Node, NodeView, Program};
use crate::runtime::library::{FunctionSignatureView, Library};
use crate::runtime::virtual_machine::builtin_type;
use crate::text::{position_of, str_eq};
use crate::types::{Type, TypeView};
use vstd::prelude::*;

verus! {

/// What the check knows of a value on the stack.
#[derive(Debug, Clone, Copy, PartialEq, Eq, Hash, Structural)]
pub enum Slot {
    /// A number.
    Number,
    /// A truth value.
    Bool,
    /// A string.
    Text,
    /// A string that names a node of the program.
    NodeName,
    /// A string that names the label of an option that was selected.
    Label,
    /// A value of any type.
    Any,
}

/// What the check knows of the machine at an instruction.
#[derive(Debug, Clone, PartialEq, Eq)]
pub struct Shape {
    /// What the stack holds, its top last.
    pub stack: Vec<Slot>,
    /// Whether options are pending.
    pub has_pending: bool,
    /// If options are pending, what the stack held below the condition of
    /// each of them.
    pub pending: Vec<Slot>,
}

/// The mathematical value of a [`Shape`].
pub struct ShapeView {
    pub stack: Seq<Slot>,
    /// If options are pending, what the stack held below the condition of
    /// each of them.
    pub pending: Option<Seq<Slot>>,
}

impl View for Shape {
    type V = ShapeView;

    open spec fn view(&self) -> ShapeView {
        ShapeView {
            stack: self.stack@,
            pending: if self.has_pending {
                Some(self.pending@)
            } else {
                None
            },
        }
    }
}

impl DeepView for Shape {
    type V = ShapeView;

    open spec fn deep_view(&self) -> ShapeView {
        self@
    }
}

/// The type of the values of a slot.
pub open spec fn slot_type(slot: Slot) -> TypeView {
    match slot {
        Slot::Number => TypeView::Number,
        Slot::Bool => TypeView::Bool,
        Slot::Any => TypeView::Any,
        _ => TypeView::String,
    }
}

/// The slot of the values of a type, if values have the type.
pub open spec fn slot_of_type(ty: TypeView) -> Option<Slot> {
    match ty {
        TypeView::Number => Some(Slot::Number),
        TypeView::Bool => Some(Slot::Bool),
        TypeView::String => Some(Slot::Text),
        TypeView::Any => Some(Slot::Any),
        _ => None,
    }
}

/// Whether a value of the slot may be a string.
pub open spec fn may_be_string(slot: Slot) -> bool {
    slot != Slot::Number && slot != Slot::Bool
}

/// Whether a value of a slot may be handed to a parameter of a type.
pub open spec fn slot_fits(slot: Slot, parameter: TypeView) -> bool {
    parameter == TypeView::Any || slot_type(slot) == parameter
}

/// Whether a value of a slot always stands for a truth value: a truth
/// value and a number do, a string may not.
pub open spec fn is_truthy(slot: Slot) -> bool {
    slot == Slot::Bool || slot == Slot::Number
}

/// Whether the slots may be handed to the parameters, one to each.
pub open spec fn slots_fit(slots: Seq<Slot>, parameters: Seq<TypeView>) -> bool {
    &&& slots.len() == parameters.len()
    &&& forall|i: int| 0 <= i < slots.len() ==> slot_fits(#[trigger] slots[i], parameters[i])
}

/// What a node is checked against.
pub struct Setting {
    pub library: Map<Seq<char>, FunctionSignatureView>,
    pub declarations: Seq<DeclarationView>,
    /// The names of the nodes of the program.
    pub node_names: Seq<Seq<char>>,
}

/// What an instruction leaves behind: the shape at the next instruction,
/// if the machine may go on there, and the shape at the instruction that
/// it may jump to, if it may jump.
pub struct Outcome {
    pub next: Option<ShapeView>,
    pub jump: Option<(usize, ShapeView)>,
}

/// The shape with one more slot on the stack.
pub open spec fn with_slot(shape: ShapeView, slot: Slot) -> ShapeView {
    ShapeView { stack: shape.stack.push(slot), ..shape }
}

/// The outcome of going on to the next instruction.
pub open spec fn goes_on(shape: ShapeView) -> Option<Outcome> {
    Some(Outcome { next: Some(shape), jump: None })
}

/// What a call leaves behind: the result of the function in the place of
/// its arguments. The function must be known, its arguments must lie on the
/// stack and fit its parameters, and its result must be a value. The result
/// of a function that the machine may answer itself must be declared as
/// the machine gives it.
pub open spec fn transfer_call(
    name: Seq<char>,
    shape: ShapeView,
    library: Map<Seq<char>, FunctionSignatureView>,
) -> Option<Outcome> {
    match value_at(library, name) {
        None => None,
        Some(signature) => {
            let count = signature.parameters.len();
            if shape.stack.len() < count {
                None
            } else {
                let kept = shape.stack.len() - count;
                let arguments = shape.stack.skip(kept);
                if !slots_fit(arguments, signature.parameters) {
                    None
                } else if builtin_type(name) is Some && builtin_type(name) != Some(
                    signature.return_type,
                ) {
                    None
                } else {
                    match slot_of_type(signature.return_type) {
                        Some(slot) => goes_on(
                            ShapeView { stack: shape.stack.take(kept).push(slot), ..shape },
                        ),
                        None => None,
                    }
                }
            }
        },
    }
}

/// What adding an option leaves behind. The condition of the option, if it
/// has one, must stand for a truth value. The options that are pending must
/// all have found the same on the stack below their conditions. What
/// follows the option is reached with the label of the option on top of
/// that.
pub open spec fn transfer_option(
    has_condition: bool,
    target: Option<usize>,
    shape: ShapeView,
) -> Option<Outcome> {
    if has_condition && (shape.stack.len() == 0 || !is_truthy(shape.stack.last())) {
        None
    } else {
        let below = if has_condition {
            shape.stack.drop_last()
        } else {
            shape.stack
        };
        if shape.pending is Some && shape.pending != Some(below) {
            None
        } else {
            match target {
                Some(index) => Some(
                    Outcome {
                        next: Some(ShapeView { stack: below, pending: Some(below) }),
                        jump: Some(
                            (index, ShapeView { stack: below.push(Slot::Label), pending: None }),
                        ),
                    },
                ),
                None => None,
            }
        }
    }
}

/// What an instruction leaves behind where it finds the given shape;
/// `None` where the shape is not what the instruction needs.
pub open spec fn transfer(
    instruction: InstructionView,
    shape: ShapeView,
    node: NodeView,
    setting: Setting,
) -> Option<Outcome> {
    let stack = shape.stack;
    match instruction {
        InstructionView::JumpTo(label) => match node.label_index(label) {
            Some(index) => Some(Outcome { next: None, jump: Some((index, shape)) }),
            None => None,
        },
        InstructionView::Jump => if stack.len() > 0 && stack.last() == Slot::Label
            && shape.pending is None {
            Some(Outcome { next: None, jump: None })
        } else {
            None
        },
        InstructionView::RunLine { line_id, substitution_count } => if substitution_count
            <= stack.len() {
            goes_on(ShapeView { stack: stack.take(stack.len() - substitution_count), ..shape })
        } else {
            None
        },
        InstructionView::RunCommand { name, argument_count } => if argument_count <= stack.len() {
            goes_on(ShapeView { stack: stack.take(stack.len() - argument_count), ..shape })
        } else {
            None
        },
        InstructionView::AddOption { line_id, destination, has_condition } => transfer_option(
            has_condition,
            node.label_index(destination),
            shape,
        ),
        InstructionView::ShowOptions => match shape.pending {
            Some(below) => if stack == below {
                goes_on(ShapeView { stack: stack.push(Slot::Label), pending: None })
            } else {
                None
            },
            None => Some(Outcome { next: None, jump: None }),
        },
        InstructionView::PushString(string) => goes_on(
            with_slot(
                shape,
                if position_of(setting.node_names, string) is Some {
                    Slot::NodeName
                } else {
                    Slot::Text
                },
            ),
        ),
        InstructionView::PushFloat(_) => goes_on(with_slot(shape, Slot::Number)),
        InstructionView::PushBool(_) => goes_on(with_slot(shape, Slot::Bool)),
        InstructionView::PushNull => None,
        InstructionView::JumpIfFalse(label) => if stack.len() > 0 && is_truthy(stack.last()) {
            match node.label_index(label) {
                Some(index) => Some(Outcome { next: Some(shape), jump: Some((index, shape)) }),
                None => None,
            }
        } else {
            None
        },
        InstructionView::Pop => if stack.len() > 0 {
            goes_on(ShapeView { stack: stack.drop_last(), ..shape })
        } else {
            None
        },
        InstructionView::CallFunc(name) => transfer_call(name, shape, setting.library),
        InstructionView::PushVariable(name) => match slot_of_type(
            variable_type(setting.declarations, name),
        ) {
            Some(slot) => goes_on(with_slot(shape, slot)),
            None => None,
        },
        InstructionView::StoreVariable(name) => if stack.len() > 0 && slot_type(stack.last())
            == variable_type(setting.declarations, name) {
            goes_on(shape)
        } else {
            None
        },
        InstructionView::Stop => Some(Outcome { next: None, jump: None }),
        InstructionView::RunNode => if stack.len() > 0 && stack.last() == Slot::NodeName {
            Some(Outcome { next: None, jump: None })
        } else {
            None
        },
    }
}

/// The shapes with the given shape at an index. Where a shape is noted at
/// the index already, it must be the same.
pub open spec fn noted(
    shapes: Seq<Option<ShapeView>>,
    index: int,
    shape: ShapeView,
) -> Option<Seq<Option<ShapeView>>> {
    if index < 0 || index >= shapes.len() {
        None
    } else {
        match shapes[index] {
            None => Some(shapes.update(index, Some(shape))),
            Some(found) => if found == shape {
                Some(shapes)
            } else {
                None
            },
        }
    }
}

/// The shapes after the outcome of the instruction at `at` has been noted.
/// A jump back must lead to an instruction that was reached with the same
/// shape.
pub open spec fn noted_outcome(
    shapes: Seq<Option<ShapeView>>,
    at: int,
    outcome: Outcome,
) -> Option<Seq<Option<ShapeView>>> {
    let onward = match outcome.next {
        Some(shape) => noted(shapes, at + 1, shape),
        None => Some(shapes),
    };
    match onward {
        None => None,
        Some(onward) => match outcome.jump {
            None => Some(onward),
            Some((index, shape)) => if index > at {
                noted(onward, index as int, shape)
            } else if onward[index as int] == Some(shape) {
                Some(onward)
            } else {
                None
            },
        },
    }
}

/// The shapes of a node after the instructions from `at` on have been
/// passed over; `None` where one of them does not find what it needs. An
/// instruction without a shape cannot be reached and is passed by.
pub open spec fn scan(
    node: NodeView,
    setting: Setting,
    at: int,
    shapes: Seq<Option<ShapeView>>,
) -> Option<Seq<Option<ShapeView>>>
    decreases node.instructions.len() - at,
{
    if at < 0 || at >= node.instructions.len() || at >= shapes.len() {
        Some(shapes)
    } else {
        match shapes[at] {
            None => scan(node, setting, at + 1, shapes),
            Some(shape) => match transfer(node.instructions[at], shape, node, setting) {
                None => None,
                Some(outcome) => match noted_outcome(shapes, at, outcome) {
                    None => None,
                    Some(next) => scan(node, setting, at + 1, next),
                },
            },
        }
    }
}

/// The shape at the start of a node: nothing on the stack, no option
/// pending.
pub open spec fn start_shape() -> ShapeView {
    ShapeView { stack: Seq::empty(), pending: None }
}

/// The shapes before anything is passed over: the start shape at the first
/// instruction and none at any other. There is one more shape than there
/// are instructions: the last is that of the end of the node.
pub open spec fn start_shapes(length: nat) -> Seq<Option<ShapeView>> {
    Seq::new(
        length + 1,
        |i: int|
            if i == 0 {
                Some(start_shape())
            } else {
                None
            },
    )
}

/// The shapes of a node, if the stack of the node is in order. A node with
/// more instructions than a machine integer can count is not in order.
pub open spec fn shapes_of(node: NodeView, setting: Setting) -> Option<Seq<Option<ShapeView>>> {
    if node.instructions.len() >= usize::MAX {
        None
    } else {
        scan(node, setting, 0, start_shapes(node.instructions.len()))
    }
}

/// Whether the shapes are right at the instruction at `at`: if the
/// instruction has a shape, it finds there what it needs, and what it
/// leaves behind is the shape of each instruction that the machine may run
/// next.
pub open spec fn holds_at(
    shapes: Seq<Option<ShapeView>>,
    node: NodeView,
    setting: Setting,
    at: int,
) -> bool {
    match shapes[at] {
        None => true,
        Some(shape) => match transfer(node.instructions[at], shape, node, setting) {
            None => false,
            Some(outcome) => {
                &&& outcome.next is Some ==> shapes[at + 1] == outcome.next
                &&& outcome.jump is Some ==> {
                    &&& outcome.jump.unwrap().0 < shapes.len()
                    &&& shapes[outcome.jump.unwrap().0 as int] == Some(outcome.jump.unwrap().1)
                }
            },
        },
    }
}

/// Whether the shapes describe the node: there is one for each
/// instruction and one for the end, the node starts with the start shape,
/// and the shapes are right at every instruction.
pub open spec fn describes(shapes: Seq<Option<ShapeView>>, node: NodeView, setting: Setting) -> bool {
    &&& node.instructions.len() < usize::MAX
    &&& shapes.len() == node.instructions.len() + 1
    &&& shapes[0] == Some(start_shape())
    &&& forall|at: int| 0 <= at < node.instructions.len() ==> holds_at(shapes, node, setting, at)
}

/// Noting a shape changes nothing that was noted before.
pub proof fn lemma_noted(shapes: Seq<Option<ShapeView>>, index: int, shape: ShapeView)
    requires
        noted(shapes, index, shape) is Some,
    ensures
        noted(shapes, index, shape).unwrap().len() == shapes.len(),
        0 <= index < shapes.len(),
        noted(shapes, index, shape).unwrap()[index] == Some(shape),
        forall|j: int|
            0 <= j < shapes.len() && j != index ==> noted(shapes, index, shape).unwrap()[j]
                == shapes[j],
        forall|j: int|
            0 <= j < shapes.len() && shapes[j] is Some ==> noted(shapes, index, shape).unwrap()[j]
                == shapes[j],
{
}

/// Noting the outcome of an instruction changes no shape up to that
/// instruction and no shape that was noted before, and leaves the outcome
/// in the shapes.
pub proof fn lemma_noted_outcome(shapes: Seq<Option<ShapeView>>, at: int, outcome: Outcome)
    requires
        0 <= at < shapes.len(),
        noted_outcome(shapes, at, outcome) is Some,
    ensures
        ({
            let next = noted_outcome(shapes, at, outcome).unwrap();
            &&& next.len() == shapes.len()
            &&& forall|j: int| 0 <= j <= at ==> next[j] == shapes[j]
            &&& forall|j: int| 0 <= j < shapes.len() && shapes[j] is Some ==> next[j] == shapes[j]
            &&& outcome.next is Some ==> at + 1 < shapes.len() && next[at + 1] == outcome.next
            &&& outcome.jump is Some ==> {
                &&& outcome.jump.unwrap().0 < shapes.len()
                &&& next[outcome.jump.unwrap().0 as int] == Some(outcome.jump.unwrap().1)
            }
        }),
{
    let onward = match outcome.next {
        Some(shape) => noted(shapes, at + 1, shape),
        None => Some(shapes),
    };
    if outcome.next is Some {
        lemma_noted(shapes, at + 1, outcome.next.unwrap());
    }
    let onward = onward.unwrap();
    if outcome.jump is Some {
        let (index, shape) = outcome.jump.unwrap();
        if index > at {
            lemma_noted(onward, index as int, shape);
        }
    }
}

/// What passing over the instructions from `at` on leaves: no shape up to
/// `at` and no shape that was noted before is changed, and the shapes are
/// right at every instruction from `at` on.
pub proof fn lemma_scan(node: NodeView, setting: Setting, at: int, shapes: Seq<Option<ShapeView>>)
    requires
        0 <= at,
        shapes.len() == node.instructions.len() + 1,
        scan(node, setting, at, shapes) is Some,
    ensures
        ({
            let end = scan(node, setting, at, shapes).unwrap();
            &&& end.len() == shapes.len()
            &&& forall|j: int| 0 <= j <= at && j < shapes.len() ==> end[j] == shapes[j]
            &&& forall|j: int| 0 <= j < shapes.len() && shapes[j] is Some ==> end[j] == shapes[j]
            &&& forall|i: int|
                at <= i < node.instructions.len() ==> holds_at(end, node, setting, i)
        }),
    decreases node.instructions.len() - at,
{
    if at < node.instructions.len() {
        match shapes[at] {
            None => {
                lemma_scan(node, setting, at + 1, shapes);
            },
            Some(shape) => {
                let outcome = transfer(node.instructions[at], shape, node, setting).unwrap();
                let next = noted_outcome(shapes, at, outcome).unwrap();
                lemma_noted_outcome(shapes, at, outcome);
                lemma_scan(node, setting, at + 1, next);
            },
        }
    }
}

/// The shapes of a node describe it.
pub proof fn lemma_shapes_describe(node: NodeView, setting: Setting)
    requires
        shapes_of(node, setting) is Some,
    ensures
        describes(shapes_of(node, setting).unwrap(), node, setting),
{
    lemma_scan(node, setting, 0, start_shapes(node.instructions.len()));
}

/// What an instruction leaves behind, as the check holds it.
pub struct Left {
    /// The shape at the next instruction, if the machine may go on there.
    pub next: Option<Shape>,
    /// The instruction that the machine may jump to and the shape there, if
    /// it may jump.
    pub jump: Option<(usize, Shape)>,
}

impl View for Left {
    type V = Outcome;

    open spec fn view(&self) -> Outcome {
        Outcome {
            next: match self.next {
                Some(shape) => Some(shape@),
                None => None,
            },
            jump: match self.jump {
                Some((index, shape)) => Some((index, shape@)),
                None => None,
            },
        }
    }
}

/// The mathematical value of a list of shapes.
pub open spec fn shapes_view(shapes: Seq<Option<Shape>>) -> Seq<Option<ShapeView>> {
    Seq::new(
        shapes.len(),
        |i: int|
            match shapes[i] {
                Some(shape) => Some(shape@),
                None => None,
            },
    )
}

/// The setting of a check: the functions of the library, the
/// declarations, and the names of the nodes of the program.
pub open spec fn setting_for(
    program: &Program,
    library: &Library,
    declarations: &Vec<Declaration>,
) -> Setting {
    Setting {
        library: library.functions(),
        declarations: declarations.deep_view(),
        node_names: program@.node_names(),
    }
}

/// The first `count` of the slots.
fn first_slots(slots: &Vec<Slot>, count: usize) -> (copy: Vec<Slot>)
    requires
        count <= slots.len(),
    ensures
        copy@ == slots@.take(count as int),
{
    let mut copy: Vec<Slot> = Vec::new();
    let mut i: usize = 0;
    while i < count
        invariant
            i <= count <= slots.len(),
            copy@ == slots@.take(i as int),
        decreases count - i,
    {
        copy.push(slots[i]);
        proof {
            assert(copy@ =~= slots@.take(i + 1));
        }
        i = i + 1;
    }
    copy
}

/// The slots with one more.
fn slots_with(slots: &Vec<Slot>, slot: Slot) -> (copy: Vec<Slot>)
    ensures
        copy@ == slots@.push(slot),
{
    let mut copy = first_slots(slots, slots.len());
    proof {
        assert(slots@.take(slots.len() as int) =~= slots@);
    }
    copy.push(slot);
    copy
}

/// Whether the slots are the same.
fn same_slots(first: &Vec<Slot>, second: &Vec<Slot>) -> (same: bool)
    ensures
        same == (first@ == second@),
{
    if first.len() != second.len() {
        return false;
    }
    let mut i: usize = 0;
    while i < first.len()
        invariant
            i <= first.len(),
            first.len() == second.len(),
            forall|j: int| 0 <= j < i ==> first@[j] == second@[j],
        decreases first.len() - i,
    {
        if first[i] != second[i] {
            return false;
        }
        i = i + 1;
    }
    proof {
        assert(first@ =~= second@);
    }
    true
}

impl Shape {
    /// The shape at the start of a node.
    pub fn start() -> (shape: Shape)
        ensures
            shape@ == start_shape(),
    {
        Shape { stack: Vec::new(), has_pending: false, pending: Vec::new() }
    }

    /// A copy of the shape.
    pub fn duplicate(&self) -> (copy: Shape)
        ensures
            copy@ == self@,
    {
        let stack = first_slots(&self.stack, self.stack.len());
        let pending = first_slots(&self.pending, self.pending.len());
        proof {
            assert(self.stack@.take(self.stack.len() as int) =~= self.stack@);
            assert(self.pending@.take(self.pending.len() as int) =~= self.pending@);
        }
        Shape { stack, has_pending: self.has_pending, pending }
    }

    /// Whether two shapes are the same.
    pub fn same_as(&self, other: &Shape) -> (same: bool)
        ensures
            same == (self@ == other@),
    {
        if !same_slots(&self.stack, &other.stack) {
            return false;
        }
        if self.has_pending != other.has_pending {
            return false;
        }
        if self.has_pending {
            same_slots(&self.pending, &other.pending)
        } else {
            true
        }
    }

    /// The shape with the first `count` slots of the stack.
    fn cut(&self, count: usize) -> (shape: Shape)
        requires
            count <= self.stack.len(),
        ensures
            shape@ == (ShapeView { stack: self@.stack.take(count as int), ..self@ }),
    {
        let pending = first_slots(&self.pending, self.pending.len());
        proof {
            assert(self.pending@.take(self.pending.len() as int) =~= self.pending@);
        }
        Shape { stack: first_slots(&self.stack, count), has_pending: self.has_pending, pending }
    }

    /// The shape with one more slot on the stack.
    fn with(&self, slot: Slot) -> (shape: Shape)
        ensures
            shape@ == with_slot(self@, slot),
    {
        let pending = first_slots(&self.pending, self.pending.len());
        proof {
            assert(self.pending@.take(self.pending.len() as int) =~= self.pending@);
        }
        Shape { stack: slots_with(&self.stack, slot), has_pending: self.has_pending, pending }
    }
}

/// What goes on to the next instruction with the given shape.
fn onward(shape: Shape) -> (left: Option<Left>)
    ensures
        left is Some,
        Some(left.unwrap()@) == goes_on(shape@),
{
    Some(Left { next: Some(shape), jump: None })
}

/// The slot of the values of a type, if the type is the type of a value.
fn slot_for(ty: &Type) -> (slot: Option<Slot>)
    ensures
        slot == slot_of_type(ty@),
{
    match ty {
        Type::Number => Some(Slot::Number),
        Type::Bool => Some(Slot::Bool),
        Type::String => Some(Slot::Text),
        Type::Any => Some(Slot::Any),
        _ => None,
    }
}

/// Whether the values of a slot are of the given type.
fn is_of_type(slot: Slot, ty: &Type) -> (same: bool)
    ensures
        same == (slot_type(slot) == ty@),
{
    match ty {
        Type::Number => slot == Slot::Number,
        Type::Bool => slot == Slot::Bool,
        Type::String => slot != Slot::Number && slot != Slot::Bool && slot != Slot::Any,
        Type::Any => slot == Slot::Any,
        _ => false,
    }
}

/// Whether a value of a slot may be handed to a parameter of a type.
fn fits(slot: Slot, parameter: &Type) -> (fitting: bool)
    ensures
        fitting == slot_fits(slot, parameter@),
{
    match parameter {
        Type::Any => true,
        _ => is_of_type(slot, parameter),
    }
}

/// Whether the slots from `kept` on may be handed to the parameters.
fn all_fit(slots: &Vec<Slot>, kept: usize, parameters: &Vec<Type>) -> (fitting: bool)
    requires
        kept + parameters.len() == slots.len(),
    ensures
        fitting == slots_fit(slots@.skip(kept as int), parameters.deep_view()),
{
    let ghost arguments = slots@.skip(kept as int);
    let ghost types = parameters.deep_view();
    let mut i: usize = 0;
    while i < parameters.len()
        invariant
            i <= parameters.len(),
            kept + parameters.len() == slots.len(),
            arguments == slots@.skip(kept as int),
            types == parameters.deep_view(),
            forall|j: int| 0 <= j < i ==> slot_fits(#[trigger] arguments[j], types[j]),
        decreases parameters.len() - i,
    {
        if !fits(slots[kept + i], &parameters[i]) {
            proof {
                assert(types[i as int] == parameters[i as int]@);
                assert(!slot_fits(arguments[i as int], types[i as int]));
            }
            return false;
        }
        proof {
            assert(types[i as int] == parameters[i as int]@);
        }
        i = i + 1;
    }
    true
}

/// The type of the answer to a call of a function that the machine may
/// answer itself.
fn type_of_builtin(name: &str) -> (ty: Option<Type>)
    ensures
        match ty {
            Some(ty) => Some(ty@),
            None => None,
        } == builtin_type(name@),
{
    if str_eq(name, "visited") {
        Some(Type::Bool)
    } else if str_eq(name, "visited_count") {
        Some(Type::Number)
    } else if str_eq(name, "String.Add") {
        Some(Type::String)
    } else if str_eq(name, "String.EqualTo") || str_eq(name, "String.NotEqualTo") || str_eq(
        name,
        "Bool.EqualTo",
    ) || str_eq(name, "Bool.NotEqualTo") || str_eq(name, "Bool.And") || str_eq(name, "Bool.Or")
        || str_eq(name, "Bool.Xor") || str_eq(name, "Bool.Not") || str_eq(name, "bool") {
        Some(Type::Bool)
    } else {
        None
    }
}

/// What a call of the function of the given name leaves behind.
fn leave_call(name: &str, shape: &Shape, library: &Library) -> (left: Option<Left>)
    ensures
        match left {
            Some(left) => Some(left@),
            None => None,
        } == transfer_call(name@, shape@, library.functions()),
{
    let signature = match library.get(name) {
        Some(signature) => signature,
        None => {
            return None;
        },
    };
    let count = signature.parameters.len();
    if shape.stack.len() < count {
        return None;
    }
    let kept = shape.stack.len() - count;
    if !all_fit(&shape.stack, kept, &signature.parameters) {
        return None;
    }
    match type_of_builtin(name) {
        Some(ty) => {
            if !ty.same_as(&signature.return_type) {
                return None;
            }
        },
        None => {},
    }
    match slot_for(&signature.return_type) {
        Some(slot) => {
            let cut = shape.cut(kept);
            onward(cut.with(slot))
        },
        None => None,
    }
}

/// What adding an option leaves behind.
fn leave_option(has_condition: bool, target: Option<usize>, shape: &Shape) -> (left: Option<Left>)
    ensures
        match left {
            Some(left) => Some(left@),
            None => None,
        } == transfer_option(has_condition, target, shape@),
{
    let height = shape.stack.len();
    if has_condition && (height == 0 || !(shape.stack[height - 1] == Slot::Bool
        || shape.stack[height - 1] == Slot::Number)) {
        return None;
    }
    let below = if has_condition {
        first_slots(&shape.stack, height - 1)
    } else {
        first_slots(&shape.stack, height)
    };
    proof {
        assert(shape.stack@.take(height as int) =~= shape.stack@);
        assert(shape.stack@.take(height - 1) =~= shape.stack@.drop_last());
    }
    if shape.has_pending && !same_slots(&shape.pending, &below) {
        return None;
    }
    match target {
        Some(index) => {
            let next = Shape {
                stack: first_slots(&below, below.len()),
                has_pending: true,
                pending: first_slots(&below, below.len()),
            };
            let there = Shape {
                stack: slots_with(&below, Slot::Label),
                has_pending: false,
                pending: Vec::new(),
            };
            proof {
                assert(below@.take(below.len() as int) =~= below@);
            }
            Some(Left { next: Some(next), jump: Some((index, there)) })
        },
        None => None,
    }
}

/// What an instruction leaves behind where it finds the given shape;
/// `None` where the shape is not what the instruction needs.
pub fn leave(
    instruction: &Instruction,
    shape: &Shape,
    node: &Node,
    program: &Program,
    library: &Library,
    declarations: &Vec<Declaration>,
) -> (left: Option<Left>)
    ensures
        match left {
            Some(left) => Some(left@),
            None => None,
        } == transfer(instruction@, shape@, node@, setting_for(program, library, declarations)),
{
    let height = shape.stack.len();
    match instruction {
        Instruction::JumpTo(label) => match node.label_index(label.as_str()) {
            Some(index) => Some(Left { next: None, jump: Some((index, shape.duplicate())) }),
            None => None,
        },
        Instruction::Jump => if height > 0 && shape.stack[height - 1] == Slot::Label
            && !shape.has_pending {
            Some(Left { next: None, jump: None })
        } else {
            None
        },
        Instruction::RunLine { line_id, substitution_count } => if *substitution_count <= height {
            onward(shape.cut(height - *substitution_count))
        } else {
            None
        },
        Instruction::RunCommand { name, argument_count } => if *argument_count <= height {
            onward(shape.cut(height - *argument_count))
        } else {
            None
        },
        Instruction::AddOption { line_id, destination, has_condition } => leave_option(
            *has_condition,
            node.label_index(destination.as_str()),
            shape,
        ),
        Instruction::ShowOptions => if shape.has_pending {
            if same_slots(&shape.stack, &shape.pending) {
                onward(
                    Shape {
                        stack: slots_with(&shape.stack, Slot::Label),
                        has_pending: false,
                        pending: Vec::new(),
                    },
                )
            } else {
                None
            }
        } else {
            Some(Left { next: None, jump: None })
        },
        Instruction::PushString(string) => {
            let slot = match program.node_index(string.as_str()) {
                Some(_) => Slot::NodeName,
                None => Slot::Text,
            };
            onward(shape.with(slot))
        },
        Instruction::PushFloat(_) => onward(shape.with(Slot::Number)),
        Instruction::PushBool(_) => onward(shape.with(Slot::Bool)),
        Instruction::PushNull => None,
        Instruction::JumpIfFalse(label) => if height > 0 && (shape.stack[height - 1] == Slot::Bool
            || shape.stack[height - 1] == Slot::Number) {
            match node.label_index(label.as_str()) {
                Some(index) => Some(
                    Left { next: Some(shape.duplicate()), jump: Some((index, shape.duplicate())) },
                ),
                None => None,
            }
        } else {
            None
        },
        Instruction::Pop => if height > 0 {
            proof {
                assert(shape.stack@.take(height - 1) =~= shape.stack@.drop_last());
            }
            onward(shape.cut(height - 1))
        } else {
            None
        },
        Instruction::CallFunc(name) => leave_call(name.as_str(), shape, library),
        Instruction::PushVariable(name) => {
            let ty = type_of_variable(declarations, name.as_str());
            match slot_for(&ty) {
                Some(slot) => onward(shape.with(slot)),
                None => None,
            }
        },
        Instruction::StoreVariable(name) => {
            let ty = type_of_variable(declarations, name.as_str());
            if height > 0 && is_of_type(shape.stack[height - 1], &ty) {
                onward(shape.duplicate())
            } else {
                None
            }
        },
        Instruction::Stop => Some(Left { next: None, jump: None }),
        Instruction::RunNode => if height > 0 && shape.stack[height - 1] == Slot::NodeName {
            Some(Left { next: None, jump: None })
        } else {
            None
        },
    }
}

/// Notes a shape at an index. Says whether the shape could be noted: it
/// cannot where the index is no index of the shapes, or where another
/// shape is noted there.
fn note(shapes: &mut Vec<Option<Shape>>, index: usize, shape: Shape) -> (done: bool)
    ensures
        final(shapes).len() == old(shapes).len(),
        match noted(shapes_view(old(shapes)@), index as int, shape@) {
            Some(next) => done && shapes_view(final(shapes)@) == next,
            None => !done,
        },
{
    if index >= shapes.len() {
        return false;
    }
    let ghost before = shapes_view(shapes@);
    let fresh = match &shapes[index] {
        None => true,
        Some(found) => {
            if !found.same_as(&shape) {
                return false;
            }
            false
        },
    };
    if fresh {
        let ghost view = shape@;
        shapes.set(index, Some(shape));
        proof {
            assert(shapes_view(shapes@) =~= before.update(index as int, Some(view)));
        }
    }
    true
}

/// Notes what the instruction at `at` leaves behind.
fn note_outcome(shapes: &mut Vec<Option<Shape>>, at: usize, left: Left) -> (done: bool)
    requires
        at + 1 < old(shapes).len(),
    ensures
        final(shapes).len() == old(shapes).len(),
        match noted_outcome(shapes_view(old(shapes)@), at as int, left@) {
            Some(next) => done && shapes_view(final(shapes)@) == next,
            None => !done,
        },
{
    let Left { next, jump } = left;
    match next {
        Some(shape) => {
            if !note(shapes, at + 1, shape) {
                return false;
            }
        },
        None => {},
    }
    match jump {
        None => true,
        Some((index, shape)) => {
            if index > at {
                note(shapes, index, shape)
            } else {
                match &shapes[index] {
                    Some(found) => found.same_as(&shape),
                    None => false,
                }
            }
        },
    }
}

/// The shapes of a node: for each instruction, and for the end of the
/// node, what the stack holds when the machine comes there, if it may come
/// there. `None` where the stack of the node is not in order.
pub fn check_node(
    node: &Node,
    program: &Program,
    library: &Library,
    declarations: &Vec<Declaration>,
) -> (shapes: Option<Vec<Option<Shape>>>)
    ensures
        match shapes {
            Some(shapes) => Some(shapes_view(shapes@)),
            None => None,
        } == shapes_of(node@, setting_for(program, library, declarations)),
{
    let length = node.instructions.len();
    if length == usize::MAX {
        return None;
    }
    let ghost setting = setting_for(program, library, declarations);
    let mut shapes: Vec<Option<Shape>> = Vec::new();
    shapes.push(Some(Shape::start()));
    while shapes.len() <= length
        invariant
            length == node.instructions.len(),
            length < usize::MAX,
            1 <= shapes.len() <= length + 1,
            shapes_view(shapes@) =~= start_shapes(length as nat).take(shapes.len() as int),
        decreases length + 1 - shapes.len(),
    {
        shapes.push(None);
    }
    proof {
        assert(start_shapes(length as nat).take(shapes.len() as int) =~= start_shapes(
            length as nat,
        ));
    }
    let mut at: usize = 0;
    while at < length
        invariant
            at <= length,
            length == node.instructions.len(),
            length < usize::MAX,
            shapes.len() == length + 1,
            setting == setting_for(program, library, declarations),
            scan(node@, setting, at as int, shapes_view(shapes@)) == shapes_of(node@, setting),
        decreases length - at,
    {
        let found = match &shapes[at] {
            Some(shape) => Some(shape.duplicate()),
            None => None,
        };
        proof {
            assert(node@.instructions[at as int] == node.instructions[at as int]@);
        }
        match found {
            None => {},
            Some(shape) => {
                match leave(&node.instructions[at], &shape, node, program, library, declarations) {
                    None => {
                        return None;
                    },
                    Some(left) => {
                        if !note_outcome(&mut shapes, at, left) {
                            return None;
                        }
                    },
                }
            },
        }
        at = at + 1;
    }
    Some(shapes)
}

} // verus!
