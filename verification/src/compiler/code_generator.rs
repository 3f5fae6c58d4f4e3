//! The code generator: from the statements of a node to the instructions
//! of the virtual machine.

use crate::compiler::ast::{
    lemma_statements_view, Clause, ClauseView, Expression, ExpressionView, LinePart,
    LinePartView, ShortcutOption, ShortcutOptionView, Statement, StatementView,
};
use crate::compiler::declaration::{Declaration, Position};
use crate::compiler::numbers::{meaning_of, NumberParser};
use crate::compiler::string_table::{
    expression_count, line_id, line_id_for, line_text, origin_of, string_info,
    strings_of_clauses, strings_of_option_bodies, strings_of_option_lines, strings_of_statement,
    strings_of_statements, text_of_line, Origin, StringInfoView,
};
use crate::compiler::type_checker::{
    expression_type, knowledge_of, known_or, type_of, Knowledge,
};
use crate::program::{line_id_of, line_ids_of, Instruction, InstructionView, Label, LabelView};
use crate::runtime::library::Library;
use crate::text::{decimal, push_decimal};
use crate::types::{Operator, Type, TypeView};
use crate::value::Number;
use vstd::prelude::*;
use vstd::string::StringExecFns;

verus! {

/// The name of a type in the names of its operators.
pub open spec fn name_of_type(ty: TypeView) -> Seq<char> {
    match ty {
        TypeView::Number => "Number"@,
        TypeView::String => "String"@,
        TypeView::Bool => "Bool"@,
        _ => "Undefined"@,
    }
}

/// The name of the function that carries out an operator on operands of a
/// type.
pub open spec fn operator_function(ty: TypeView, operator: Operator) -> Seq<char> {
    name_of_type(ty).push('.') + operator.spec_name()
}

/// The name of the label of a number.
pub open spec fn label_name(number: usize) -> Seq<char> {
    seq!['L'] + decimal(number as nat)
}

/// The number behind a number, and zero behind the largest.
pub open spec fn next_number(number: usize) -> usize {
    if number < usize::MAX {
        (number + 1) as usize
    } else {
        0
    }
}

/// The number that lies `steps` behind a number, counted as by
/// [`next_number`].
pub open spec fn number_after(number: usize, steps: nat) -> usize
    decreases steps,
{
    if steps == 0 {
        number
    } else {
        next_number(number_after(number, (steps - 1) as nat))
    }
}

/// What the code generator has made of a part of a node.
pub struct Emitted {
    pub instructions: Seq<InstructionView>,
    pub labels: Seq<LabelView>,
    /// The number of the next label.
    pub next_label: usize,
}

impl Emitted {
    /// With one more instruction.
    pub open spec fn emit(self, instruction: InstructionView) -> Emitted {
        Emitted { instructions: self.instructions.push(instruction), ..self }
    }

    /// With more instructions.
    pub open spec fn emit_all(self, instructions: Seq<InstructionView>) -> Emitted {
        Emitted { instructions: self.instructions + instructions, ..self }
    }

    /// With the label of the given number at the next instruction.
    pub open spec fn place(self, number: usize) -> Emitted {
        Emitted {
            labels: self.labels.push(
                LabelView { name: label_name(number), index: self.instructions.len() as usize },
            ),
            ..self
        }
    }

    /// With `count` label numbers set aside.
    pub open spec fn reserve(self, count: nat) -> Emitted {
        Emitted { next_label: number_after(self.next_label, count), ..self }
    }
}

/// Where the code generator works, and what it knows.
pub struct Generation {
    pub origin: Origin,
    pub known: Knowledge,
}

/// The instructions that leave the value of an expression on the stack:
/// those of its operands from left to right, and behind them the call of
/// its function or operator. An operator is called by the name that it has
/// for the type of its operands.
pub open spec fn lower_expression(expression: ExpressionView, known: Knowledge) -> Seq<
    InstructionView,
>
    decreases expression, 0int,
{
    match expression {
        ExpressionView::Number(literal) => seq![
            InstructionView::PushFloat(
                match (known.numbers)(literal) {
                    Some(number) => number,
                    None => Number { bits: 0 },
                },
            ),
        ],
        ExpressionView::Text(text) => seq![InstructionView::PushString(text)],
        ExpressionView::Bool(truth) => seq![InstructionView::PushBool(truth)],
        ExpressionView::Variable(name) => seq![InstructionView::PushVariable(name)],
        ExpressionView::Call { function, arguments } => lower_arguments(arguments, known).push(
            InstructionView::CallFunc(function),
        ),
        ExpressionView::Unary { operator, operand } => lower_expression(*operand, known).push(
            InstructionView::CallFunc(
                operator_function(type_of(*operand, known.declarations, known.library), operator),
            ),
        ),
        ExpressionView::Binary { operator, left, right } => (lower_expression(*left, known)
            + lower_expression(*right, known)).push(
            InstructionView::CallFunc(
                operator_function(
                    known_or(
                        type_of(*left, known.declarations, known.library),
                        type_of(*right, known.declarations, known.library),
                    ),
                    operator,
                ),
            ),
        ),
        ExpressionView::Missing => seq![InstructionView::PushNull],
    }
}

/// The instructions that leave the values of the arguments of a call on
/// the stack, the first argument lowest.
pub open spec fn lower_arguments(arguments: Seq<ExpressionView>, known: Knowledge) -> Seq<
    InstructionView,
>
    decreases arguments, 1int,
{
    if arguments.len() == 0 {
        Seq::empty()
    } else {
        lower_arguments(arguments.drop_last(), known) + lower_expression(arguments.last(), known)
    }
}

/// The instructions that leave the values of the expressions of a line on
/// the stack, the first expression lowest.
pub open spec fn lower_parts(parts: Seq<LinePartView>, known: Knowledge) -> Seq<InstructionView>
    decreases parts.len(),
{
    if parts.len() == 0 {
        Seq::empty()
    } else {
        lower_parts(parts.drop_last(), known) + match parts.last() {
            LinePartView::Expression(expression) => lower_expression(expression, known),
            LinePartView::Text(_) => Seq::empty(),
        }
    }
}

/// The instructions that leave on the stack whether an option is
/// available: the value of its condition, or else `true`.
pub open spec fn lower_condition(condition: Option<ExpressionView>, known: Knowledge) -> Seq<
    InstructionView,
> {
    match condition {
        Some(condition) => lower_expression(condition, known),
        None => seq![InstructionView::PushBool(true)],
    }
}

/// The code of a list of statements, behind the code that is there.
pub open spec fn lower_statements(
    statements: Seq<StatementView>,
    emitted: Emitted,
    generation: Generation,
) -> Emitted
    decreases statements, 1int,
{
    if statements.len() == 0 {
        emitted
    } else {
        lower_statement(
            statements.last(),
            lower_statements(statements.drop_last(), emitted, generation),
            generation,
        )
    }
}

/// The code of a statement, behind the code that is there.
///
/// A line pushes its expressions and runs. A command for the host does the
/// same. `set` pushes its value, stores it and pops it. `jump` pushes the
/// name of the node and runs it. `call` pushes the value of the call and
/// pops it. `declare` leaves no code.
pub open spec fn lower_statement(
    statement: StatementView,
    emitted: Emitted,
    generation: Generation,
) -> Emitted
    decreases statement, 0int,
{
    let known = generation.known;
    match statement {
        StatementView::Line { parts, hashtags, start } => emitted.emit_all(
            lower_parts(parts, known),
        ).emit(
            InstructionView::RunLine {
                line_id: line_id_for(generation.origin, parts, hashtags, start),
                substitution_count: expression_count(parts) as usize,
            },
        ),
        StatementView::Command { parts, start } => emitted.emit_all(
            lower_parts(parts, known),
        ).emit(
            InstructionView::RunCommand {
                name: line_text(parts),
                argument_count: expression_count(parts) as usize,
            },
        ),
        StatementView::Assign { variable, value, start } => emitted.emit_all(
            lower_expression(value, known),
        ).emit(InstructionView::StoreVariable(variable)).emit(InstructionView::Pop),
        StatementView::Declare { variable, value, start } => emitted,
        StatementView::Jump { destination, start } => emitted.emit(
            InstructionView::PushString(destination),
        ).emit(InstructionView::RunNode),
        StatementView::Stop { start } => emitted.emit(InstructionView::Stop),
        StatementView::Call { call, start } => emitted.emit_all(
            lower_expression(call, known),
        ).emit(InstructionView::Pop),
        StatementView::If { clauses, otherwise, start } => {
            let end = emitted.next_label;
            let in_clauses = lower_clauses(clauses, emitted.reserve(1), end, generation);
            let in_otherwise = match otherwise {
                Some(body) => lower_statements(body, in_clauses, generation),
                None => in_clauses,
            };
            in_otherwise.place(end)
        },
        StatementView::Options { options, start } => {
            let end = emitted.next_label;
            let first = next_number(end);
            let in_lines = lower_option_lines(
                options,
                emitted.reserve(1 + options.len()),
                first,
                generation,
            );
            let shown = in_lines.emit(InstructionView::ShowOptions).emit(InstructionView::Jump);
            lower_option_bodies(options, shown, first, end, generation).place(end)
        },
    }
}

/// The code of the clauses of an `<<if>>`. A clause pushes its condition
/// and jumps to its own end if the condition is false; else it pops the
/// condition, runs its statements and jumps to the label `end`, the end of
/// the `<<if>>`. At its own end it pops the condition.
pub open spec fn lower_clauses(
    clauses: Seq<ClauseView>,
    emitted: Emitted,
    end: usize,
    generation: Generation,
) -> Emitted
    decreases clauses, 1int,
{
    if clauses.len() == 0 {
        emitted
    } else {
        let before = lower_clauses(clauses.drop_last(), emitted, end, generation);
        let skip = before.next_label;
        let tested = before.reserve(1).emit_all(
            lower_expression(clauses.last().condition, generation.known),
        ).emit(InstructionView::JumpIfFalse(label_name(skip))).emit(InstructionView::Pop);
        lower_statements(clauses.last().body, tested, generation).emit(
            InstructionView::JumpTo(label_name(end)),
        ).place(skip).emit(InstructionView::Pop)
    }
}

/// The code that adds the options of a group: each option pushes whether
/// it is available and is added with its line and with the label of what
/// follows it. The labels of the options are numbered from `first` on.
pub open spec fn lower_option_lines(
    options: Seq<ShortcutOptionView>,
    emitted: Emitted,
    first: usize,
    generation: Generation,
) -> Emitted
    decreases options.len(),
{
    if options.len() == 0 {
        emitted
    } else {
        let option = options.last();
        lower_option_lines(options.drop_last(), emitted, first, generation).emit_all(
            lower_condition(option.condition, generation.known),
        ).emit(
            InstructionView::AddOption {
                line_id: line_id_for(
                    generation.origin,
                    option.parts,
                    option.hashtags,
                    option.start,
                ),
                destination: label_name(number_after(first, (options.len() - 1) as nat)),
                has_condition: true,
            },
        )
    }
}

/// The code of what follows the options of a group: at the label of each
/// option, the label that the selection left on the stack is popped, the
/// statements of the option run, and a jump leads to the label `end`, the
/// end of the group.
pub open spec fn lower_option_bodies(
    options: Seq<ShortcutOptionView>,
    emitted: Emitted,
    first: usize,
    end: usize,
    generation: Generation,
) -> Emitted
    decreases options, 1int,
{
    if options.len() == 0 {
        emitted
    } else {
        let before = lower_option_bodies(options.drop_last(), emitted, first, end, generation);
        lower_statements(
            options.last().body,
            before.place(number_after(first, (options.len() - 1) as nat)).emit(
                InstructionView::Pop,
            ),
            generation,
        ).emit(InstructionView::JumpTo(label_name(end)))
    }
}

/// The code of the body of a node.
pub open spec fn generate(statements: Seq<StatementView>, generation: Generation) -> Emitted {
    lower_statements(
        statements,
        Emitted { instructions: Seq::empty(), labels: Seq::empty(), next_label: 0 },
        generation,
    )
}

fn function_of_operator(ty: &Type, operator: Operator) -> (name: String)
    ensures
        name@ == operator_function(ty@, operator),
{
    let mut name = match ty {
        Type::Number => "Number".to_owned(),
        Type::String => "String".to_owned(),
        Type::Bool => "Bool".to_owned(),
        _ => "Undefined".to_owned(),
    };
    name.push('.');
    name.append(operator.name());
    name
}

fn name_of_label(number: usize) -> (name: String)
    ensures
        name@ == label_name(number),
{
    let mut name = String::new();
    name.push('L');
    push_decimal(&mut name, number);
    proof {
        assert(name@ =~= label_name(number));
    }
    name
}

fn number_behind(number: usize) -> (next: usize)
    ensures
        next == next_number(number),
{
    if number < usize::MAX {
        number + 1
    } else {
        0
    }
}

fn count_expressions(parts: &Vec<LinePart>) -> (count: usize)
    ensures
        count == expression_count(parts.deep_view()),
{
    let mut count: usize = 0;
    let mut i: usize = 0;
    proof {
        assert(parts.deep_view().take(0) =~= Seq::empty());
    }
    while i < parts.len()
        invariant
            i <= parts.len(),
            count <= i,
            count == expression_count(parts.deep_view().take(i as int)),
        decreases parts.len() - i,
    {
        proof {
            assert(parts.deep_view().take(i + 1).drop_last() =~= parts.deep_view().take(
                i as int,
            ));
        }
        match &parts[i] {
            LinePart::Expression(_) => {
                count = count + 1;
            },
            LinePart::Text(_) => {},
        }
        i = i + 1;
    }
    proof {
        assert(parts.deep_view().take(i as int) =~= parts.deep_view());
    }
    count
}

/// Appends the instructions that leave the value of an expression on the
/// stack.
#[verifier::loop_isolation(false)]
pub fn push_expression<N: NumberParser>(
    expression: &Expression,
    declarations: &Vec<Declaration>,
    library: &Library,
    numbers: &N,
    instructions: &mut Vec<Instruction>,
)
    ensures
        final(instructions).deep_view() == old(instructions).deep_view() + lower_expression(
            expression@,
            knowledge_of(declarations, library, numbers),
        ),
    decreases expression,
{
    let ghost known = knowledge_of(declarations, library, numbers);
    let ghost before = instructions.deep_view();
    match expression {
        Expression::Number(literal) => {
            let number = match numbers.parse(literal.as_str()) {
                Some(number) => number,
                None => Number::zero(),
            };
            instructions.push(Instruction::PushFloat(number));
        },
        Expression::Text(text) => {
            instructions.push(Instruction::PushString(text.clone()));
        },
        Expression::Bool(truth) => {
            instructions.push(Instruction::PushBool(*truth));
        },
        Expression::Variable(name) => {
            instructions.push(Instruction::PushVariable(name.clone()));
        },
        Expression::Call { function, arguments } => {
            let ghost views = arguments.deep_view();
            proof {
                assert(expression@->Call_arguments =~= views);
                assert(views.take(0) =~= Seq::empty());
                assert(instructions.deep_view() =~= before + lower_arguments(
                    views.take(0),
                    known,
                ));
            }
            let mut i: usize = 0;
            while i < arguments.len()
                invariant
                    i <= arguments.len(),
                    instructions.deep_view() == before + lower_arguments(
                        views.take(i as int),
                        known,
                    ),
                decreases arguments.len() - i,
            {
                proof {
                    assert(views.take(i + 1).drop_last() =~= views.take(i as int));
                    vstd::std_specs::vec::axiom_vec_index_decreases(*arguments, i as int);
                }
                push_expression(&arguments[i], declarations, library, numbers, instructions);
                proof {
                    assert(instructions.deep_view() =~= before + lower_arguments(
                        views.take(i + 1),
                        known,
                    ));
                }
                i = i + 1;
            }
            proof {
                assert(views.take(i as int) =~= views);
            }
            let ghost pushed = instructions.deep_view();
            instructions.push(Instruction::CallFunc(function.clone()));
            proof {
                assert(instructions.deep_view() =~= pushed.push(
                    InstructionView::CallFunc(function@),
                ));
                assert(instructions.deep_view() =~= before + lower_expression(
                    expression@,
                    known,
                ));
            }
        },
        Expression::Unary { operator, operand } => {
            push_expression(operand, declarations, library, numbers, instructions);
            let ty = expression_type(operand, declarations, library);
            let ghost pushed = instructions.deep_view();
            let name = function_of_operator(&ty, *operator);
            instructions.push(Instruction::CallFunc(name));
            proof {
                assert(instructions.deep_view() =~= pushed.push(
                    InstructionView::CallFunc(name@),
                ));
                assert(instructions.deep_view() =~= before + lower_expression(
                    expression@,
                    known,
                ));
            }
        },
        Expression::Binary { operator, left, right } => {
            push_expression(left, declarations, library, numbers, instructions);
            push_expression(right, declarations, library, numbers, instructions);
            let of_left = expression_type(left, declarations, library);
            let ty = if crate::compiler::type_checker::is_of_value(&of_left) {
                of_left
            } else {
                expression_type(right, declarations, library)
            };
            let ghost pushed = instructions.deep_view();
            let name = function_of_operator(&ty, *operator);
            instructions.push(Instruction::CallFunc(name));
            proof {
                assert(instructions.deep_view() =~= pushed.push(
                    InstructionView::CallFunc(name@),
                ));
                assert(instructions.deep_view() =~= before + lower_expression(
                    expression@,
                    known,
                ));
            }
        },
        Expression::Missing => {
            instructions.push(Instruction::PushNull);
        },
    }
    proof {
        assert(instructions.deep_view() =~= before + lower_expression(expression@, known));
    }
}

fn push_parts<N: NumberParser>(
    parts: &Vec<LinePart>,
    declarations: &Vec<Declaration>,
    library: &Library,
    numbers: &N,
    instructions: &mut Vec<Instruction>,
)
    ensures
        final(instructions).deep_view() == old(instructions).deep_view() + lower_parts(
            parts.deep_view(),
            knowledge_of(declarations, library, numbers),
        ),
{
    let ghost known = knowledge_of(declarations, library, numbers);
    let ghost before = instructions.deep_view();
    let ghost views = parts.deep_view();
    let mut i: usize = 0;
    proof {
        assert(views.take(0) =~= Seq::empty());
        assert(instructions.deep_view() =~= before + lower_parts(views.take(0), known));
    }
    while i < parts.len()
        invariant
            i <= parts.len(),
            views == parts.deep_view(),
            known == knowledge_of(declarations, library, numbers),
            instructions.deep_view() == before + lower_parts(views.take(i as int), known),
        decreases parts.len() - i,
    {
        proof {
            assert(views.take(i + 1).drop_last() =~= views.take(i as int));
        }
        match &parts[i] {
            LinePart::Expression(expression) => {
                push_expression(expression, declarations, library, numbers, instructions);
            },
            LinePart::Text(_) => {},
        }
        proof {
            assert(instructions.deep_view() =~= before + lower_parts(views.take(i + 1), known));
        }
        i = i + 1;
    }
    proof {
        assert(views.take(i as int) =~= views);
    }
}

/// What the code generator has made of a part of a node.
#[derive(Debug, PartialEq, Eq)]
pub struct Emitter {
    pub instructions: Vec<Instruction>,
    pub labels: Vec<Label>,
    /// The number of the next label.
    pub next_label: usize,
}

impl View for Emitter {
    type V = Emitted;

    open spec fn view(&self) -> Emitted {
        Emitted {
            instructions: self.instructions.deep_view(),
            labels: self.labels.deep_view(),
            next_label: self.next_label,
        }
    }
}

/// The generation that the arguments of the executable functions stand
/// for.
pub open spec fn generation_of<N: NumberParser>(
    file_name: &str,
    node_name: &str,
    declarations: &Vec<Declaration>,
    library: &Library,
    numbers: &N,
) -> Generation {
    Generation {
        origin: origin_of(file_name, node_name),
        known: knowledge_of(declarations, library, numbers),
    }
}

/// What the code generator needs to know of the node that it works on.
pub struct Workplace<'a, N: NumberParser> {
    pub file_name: &'a str,
    pub node_name: &'a str,
    pub declarations: &'a Vec<Declaration>,
    pub library: &'a Library,
    pub numbers: &'a N,
}

impl<'a, N: NumberParser> Workplace<'a, N> {
    /// The generation that the workplace stands for.
    pub open spec fn generation(self) -> Generation {
        generation_of(
            self.file_name,
            self.node_name,
            self.declarations,
            self.library,
            self.numbers,
        )
    }
}

impl Emitter {
    /// An emitter that has emitted nothing.
    pub fn new() -> (emitter: Emitter)
        ensures
            emitter@ == (Emitted {
                instructions: Seq::empty(),
                labels: Seq::empty(),
                next_label: 0,
            }),
    {
        let emitter = Emitter { instructions: Vec::new(), labels: Vec::new(), next_label: 0 };
        proof {
            assert(emitter@.instructions =~= Seq::empty());
            assert(emitter@.labels =~= Seq::empty());
        }
        emitter
    }

    fn emit(&mut self, instruction: Instruction)
        ensures
            final(self)@ == old(self)@.emit(instruction@),
    {
        self.instructions.push(instruction);
        proof {
            assert(self@.instructions =~= old(self)@.instructions.push(instruction@));
        }
    }

    fn emit_expression<N: NumberParser>(&mut self, expression: &Expression, at: &Workplace<N>)
        ensures
            final(self)@ == old(self)@.emit_all(
                lower_expression(expression@, at.generation().known),
            ),
    {
        push_expression(
            expression,
            at.declarations,
            at.library,
            at.numbers,
            &mut self.instructions,
        );
    }

    fn emit_parts<N: NumberParser>(&mut self, parts: &Vec<LinePart>, at: &Workplace<N>)
        ensures
            final(self)@ == old(self)@.emit_all(
                lower_parts(parts.deep_view(), at.generation().known),
            ),
    {
        push_parts(parts, at.declarations, at.library, at.numbers, &mut self.instructions);
    }

    fn place(&mut self, number: usize)
        ensures
            final(self)@ == old(self)@.place(number),
    {
        let label = Label { name: name_of_label(number), index: self.instructions.len() };
        let ghost added = label@;
        self.labels.push(label);
        proof {
            assert(self@.labels =~= old(self)@.labels.push(added));
        }
    }

    fn reserve(&mut self, count: usize)
        ensures
            final(self)@ == old(self)@.reserve(count as nat),
    {
        let mut i: usize = 0;
        while i < count
            invariant
                i <= count,
                self.next_label == number_after(old(self).next_label, i as nat),
                self.instructions == old(self).instructions,
                self.labels == old(self).labels,
            decreases count - i,
        {
            self.next_label = number_behind(self.next_label);
            i = i + 1;
        }
    }

    /// Appends the code of a list of statements.
    #[verifier::loop_isolation(false)]
    pub fn lower_statements<N: NumberParser>(
        &mut self,
        statements: &Vec<Statement>,
        at: &Workplace<N>,
    )
        ensures
            final(self)@ == lower_statements(
                statements.deep_view(),
                old(self)@,
                at.generation(),
            ),
        decreases statements, 1int,
    {
        let ghost views = statements.deep_view();
        let mut i: usize = 0;
        proof {
            assert(views.take(0) =~= Seq::empty());
        }
        while i < statements.len()
            invariant
                i <= statements.len(),
                self@ == lower_statements(views.take(i as int), old(self)@, at.generation()),
            decreases statements.len() - i,
        {
            proof {
                assert(views.take(i + 1).drop_last() =~= views.take(i as int));
                vstd::std_specs::vec::axiom_vec_index_decreases(*statements, i as int);
            }
            self.lower_statement(&statements[i], at);
            i = i + 1;
        }
        proof {
            assert(views.take(i as int) =~= views);
        }
    }

    #[verifier::loop_isolation(false)]
    fn lower_statement<N: NumberParser>(&mut self, statement: &Statement, at: &Workplace<N>)
        ensures
            final(self)@ == lower_statement(statement@, old(self)@, at.generation()),
        decreases statement, 0int,
    {
        let ghost generation = at.generation();
        match statement {
            Statement::Line { parts, hashtags, start } => {
                self.emit_parts(parts, at);
                self.emit(
                    Instruction::RunLine {
                        line_id: line_id(at.file_name, at.node_name, parts, hashtags, *start),
                        substitution_count: count_expressions(parts),
                    },
                );
            },
            Statement::Command { parts, start: _ } => {
                self.emit_parts(parts, at);
                self.emit(
                    Instruction::RunCommand {
                        name: text_of_line(parts),
                        argument_count: count_expressions(parts),
                    },
                );
            },
            Statement::Assign { variable, value, start: _ } => {
                self.emit_expression(value, at);
                self.emit(Instruction::StoreVariable(variable.clone()));
                self.emit(Instruction::Pop);
            },
            Statement::Declare { variable: _, value: _, start: _ } => {},
            Statement::Jump { destination, start: _ } => {
                self.emit(Instruction::PushString(destination.clone()));
                self.emit(Instruction::RunNode);
            },
            Statement::Stop { start: _ } => {
                self.emit(Instruction::Stop);
            },
            Statement::Call { call, start: _ } => {
                self.emit_expression(call, at);
                self.emit(Instruction::Pop);
            },
            Statement::If { clauses, otherwise, start: _ } => {
                let end = self.next_label;
                self.reserve(1);
                let ghost reserved = self@;
                let ghost views = clauses.deep_view();
                proof {
                    assert(statement@->If_clauses =~= views);
                    assert(views.take(0) =~= Seq::empty());
                }
                let mut i: usize = 0;
                while i < clauses.len()
                    invariant
                        i <= clauses.len(),
                        self@ == lower_clauses(views.take(i as int), reserved, end, generation),
                    decreases clauses.len() - i,
                {
                    proof {
                        assert(views.take(i + 1).drop_last() =~= views.take(i as int));
                        vstd::std_specs::vec::axiom_vec_index_decreases(*clauses, i as int);
                        lemma_statements_view(clauses[i as int].body);
                    }
                    let skip = self.next_label;
                    self.reserve(1);
                    self.emit_expression(&clauses[i].condition, at);
                    self.emit(Instruction::JumpIfFalse(name_of_label(skip)));
                    self.emit(Instruction::Pop);
                    self.lower_statements(&clauses[i].body, at);
                    self.emit(Instruction::JumpTo(name_of_label(end)));
                    self.place(skip);
                    self.emit(Instruction::Pop);
                    i = i + 1;
                }
                proof {
                    assert(views.take(i as int) =~= views);
                }
                match otherwise {
                    Some(body) => {
                        proof {
                            lemma_statements_view(*body);
                        }
                        self.lower_statements(body, at);
                    },
                    None => {},
                }
                self.place(end);
            },
            Statement::Options { options, start: _ } => {
                let end = self.next_label;
                let first = number_behind(end);
                self.reserve(1);
                self.reserve(options.len());
                proof {
                    lemma_number_after_adds(old(self).next_label, 1, options.len() as nat);
                }
                let ghost reserved = self@;
                let ghost views = options.deep_view();
                proof {
                    assert(statement@->Options_options =~= views);
                    assert(views.take(0) =~= Seq::empty());
                }
                let mut label = first;
                let mut i: usize = 0;
                while i < options.len()
                    invariant
                        i <= options.len(),
                        label == number_after(first, i as nat),
                        self@ == lower_option_lines(views.take(i as int), reserved, first, generation),
                    decreases options.len() - i,
                {
                    proof {
                        assert(views.take(i + 1).drop_last() =~= views.take(i as int));
                    }
                    let option = &options[i];
                    match &option.condition {
                        Some(condition) => {
                            self.emit_expression(condition, at);
                        },
                        None => {
                            let ghost before = self@;
                            self.emit(Instruction::PushBool(true));
                            proof {
                                assert(self@.instructions =~= before.instructions + seq![
                                    InstructionView::PushBool(true),
                                ]);
                            }
                        },
                    }
                    self.emit(
                        Instruction::AddOption {
                            line_id: line_id(
                                at.file_name,
                                at.node_name,
                                &option.parts,
                                &option.hashtags,
                                option.start,
                            ),
                            destination: name_of_label(label),
                            has_condition: true,
                        },
                    );
                    label = number_behind(label);
                    i = i + 1;
                }
                proof {
                    assert(views.take(i as int) =~= views);
                }
                self.emit(Instruction::ShowOptions);
                self.emit(Instruction::Jump);
                let ghost shown = self@;
                proof {
                    assert(views.take(0) =~= Seq::empty());
                }
                let mut label = first;
                let mut k: usize = 0;
                while k < options.len()
                    invariant
                        k <= options.len(),
                        label == number_after(first, k as nat),
                        self@ == lower_option_bodies(
                            views.take(k as int),
                            shown,
                            first,
                            end,
                            generation,
                        ),
                    decreases options.len() - k,
                {
                    proof {
                        assert(views.take(k + 1).drop_last() =~= views.take(k as int));
                        vstd::std_specs::vec::axiom_vec_index_decreases(*options, k as int);
                        lemma_statements_view(options[k as int].body);
                    }
                    self.place(label);
                    self.emit(Instruction::Pop);
                    self.lower_statements(&options[k].body, at);
                    self.emit(Instruction::JumpTo(name_of_label(end)));
                    label = number_behind(label);
                    k = k + 1;
                }
                proof {
                    assert(views.take(k as int) =~= views);
                }
                self.place(end);
            },
        }
    }
}

/// The ids of the entries of a string table, in their order.
pub open spec fn ids_of(strings: Seq<StringInfoView>) -> Seq<Seq<char>> {
    Seq::new(strings.len(), |i: int| strings[i].line_id)
}

/// The lines that two stretches of code refer to are those of the first
/// followed by those of the second.
pub proof fn lemma_line_ids_of_concat(first: Seq<InstructionView>, second: Seq<InstructionView>)
    ensures
        line_ids_of(first + second) == line_ids_of(first) + line_ids_of(second),
    decreases second.len(),
{
    if second.len() == 0 {
        assert(first + second =~= first);
        assert(line_ids_of(first) + line_ids_of(second) =~= line_ids_of(first));
    } else {
        lemma_line_ids_of_concat(first, second.drop_last());
        assert((first + second).drop_last() =~= first + second.drop_last());
        assert((first + second).last() == second.last());
        assert(line_ids_of(first + second) =~= line_ids_of(first) + line_ids_of(second));
    }
}

/// One more instruction adds the line that it refers to, if it refers to
/// one.
pub proof fn lemma_line_ids_of_push(code: Seq<InstructionView>, instruction: InstructionView)
    ensures
        line_ids_of(code.push(instruction)) == match line_id_of(instruction) {
            Some(id) => line_ids_of(code).push(id),
            None => line_ids_of(code),
        },
{
    assert(code.push(instruction).drop_last() =~= code);
}

/// The code of an expression refers to no line.
pub proof fn lemma_expression_has_no_lines(expression: ExpressionView, known: Knowledge)
    ensures
        line_ids_of(lower_expression(expression, known)) == Seq::<Seq<char>>::empty(),
    decreases expression, 0int,
{
    let code = lower_expression(expression, known);
    match expression {
        ExpressionView::Call { function, arguments } => {
            lemma_arguments_have_no_lines(arguments, known);
            lemma_line_ids_of_push(
                lower_arguments(arguments, known),
                InstructionView::CallFunc(function),
            );
        },
        ExpressionView::Unary { operator, operand } => {
            lemma_expression_has_no_lines(*operand, known);
            lemma_line_ids_of_push(lower_expression(*operand, known), code.last());
        },
        ExpressionView::Binary { operator, left, right } => {
            lemma_expression_has_no_lines(*left, known);
            lemma_expression_has_no_lines(*right, known);
            lemma_line_ids_of_concat(
                lower_expression(*left, known),
                lower_expression(*right, known),
            );
            lemma_line_ids_of_push(
                lower_expression(*left, known) + lower_expression(*right, known),
                code.last(),
            );
        },
        _ => {
            assert(code.drop_last() =~= Seq::empty());
            assert(line_ids_of(code.drop_last()) =~= Seq::<Seq<char>>::empty());
        },
    }
}

/// The code of the arguments of a call refers to no line.
pub proof fn lemma_arguments_have_no_lines(arguments: Seq<ExpressionView>, known: Knowledge)
    ensures
        line_ids_of(lower_arguments(arguments, known)) == Seq::<Seq<char>>::empty(),
    decreases arguments, 1int,
{
    if arguments.len() > 0 {
        lemma_arguments_have_no_lines(arguments.drop_last(), known);
        lemma_expression_has_no_lines(arguments.last(), known);
        lemma_line_ids_of_concat(
            lower_arguments(arguments.drop_last(), known),
            lower_expression(arguments.last(), known),
        );
    }
}

/// The code of the expressions of a line refers to no line.
pub proof fn lemma_parts_have_no_lines(parts: Seq<LinePartView>, known: Knowledge)
    ensures
        line_ids_of(lower_parts(parts, known)) == Seq::<Seq<char>>::empty(),
    decreases parts.len(),
{
    if parts.len() > 0 {
        lemma_parts_have_no_lines(parts.drop_last(), known);
        match parts.last() {
            LinePartView::Expression(expression) => {
                lemma_expression_has_no_lines(expression, known);
                lemma_line_ids_of_concat(
                    lower_parts(parts.drop_last(), known),
                    lower_expression(expression, known),
                );
            },
            LinePartView::Text(_) => {
                assert(lower_parts(parts, known) =~= lower_parts(parts.drop_last(), known));
            },
        }
    }
}

/// More code that refers to no line leaves the lines referred to as they
/// are.
pub proof fn lemma_emit_all_without_lines(emitted: Emitted, code: Seq<InstructionView>)
    requires
        line_ids_of(code) == Seq::<Seq<char>>::empty(),
    ensures
        line_ids_of(emitted.emit_all(code).instructions) == line_ids_of(emitted.instructions),
{
    lemma_line_ids_of_concat(emitted.instructions, code);
    assert(line_ids_of(emitted.instructions) + line_ids_of(code) =~= line_ids_of(
        emitted.instructions,
    ));
}

/// The code of a list of statements refers to the lines of the entries
/// that the statements have in the string table, in the order of the
/// entries.
pub proof fn lemma_statements_lines(
    statements: Seq<StatementView>,
    emitted: Emitted,
    generation: Generation,
)
    ensures
        line_ids_of(lower_statements(statements, emitted, generation).instructions) == line_ids_of(
            emitted.instructions,
        ) + ids_of(strings_of_statements(generation.origin, statements)),
    decreases statements, 1int,
{
    if statements.len() == 0 {
        assert(line_ids_of(emitted.instructions) + ids_of(
            strings_of_statements(generation.origin, statements),
        ) =~= line_ids_of(emitted.instructions));
    } else {
        let before = lower_statements(statements.drop_last(), emitted, generation);
        lemma_statements_lines(statements.drop_last(), emitted, generation);
        lemma_statement_lines(statements.last(), before, generation);
        assert(ids_of(strings_of_statements(generation.origin, statements)) =~= ids_of(
            strings_of_statements(generation.origin, statements.drop_last()),
        ) + ids_of(strings_of_statement(generation.origin, statements.last())));
    }
}

/// The code of a statement refers to the lines of the entries that the
/// statement has in the string table, in the order of the entries.
pub proof fn lemma_statement_lines(
    statement: StatementView,
    emitted: Emitted,
    generation: Generation,
)
    ensures
        line_ids_of(lower_statement(statement, emitted, generation).instructions) == line_ids_of(
            emitted.instructions,
        ) + ids_of(strings_of_statement(generation.origin, statement)),
    decreases statement, 0int,
{
    let known = generation.known;
    let origin = generation.origin;
    let result = lower_statement(statement, emitted, generation);
    let given = line_ids_of(emitted.instructions);
    match statement {
        StatementView::Line { parts, hashtags, start } => {
            lemma_parts_have_no_lines(parts, known);
            lemma_emit_all_without_lines(emitted, lower_parts(parts, known));
            lemma_line_ids_of_push(
                emitted.emit_all(lower_parts(parts, known)).instructions,
                result.instructions.last(),
            );
            assert(ids_of(strings_of_statement(origin, statement)) =~= seq![
                line_id_for(origin, parts, hashtags, start),
            ]);
            assert(line_ids_of(result.instructions) =~= given + ids_of(
                strings_of_statement(origin, statement),
            ));
        },
        StatementView::Command { parts, start } => {
            lemma_parts_have_no_lines(parts, known);
            lemma_emit_all_without_lines(emitted, lower_parts(parts, known));
            lemma_line_ids_of_push(
                emitted.emit_all(lower_parts(parts, known)).instructions,
                result.instructions.last(),
            );
            assert(line_ids_of(result.instructions) =~= given + ids_of(
                strings_of_statement(origin, statement),
            ));
        },
        StatementView::Assign { variable, value, start } => {
            lemma_expression_has_no_lines(value, known);
            lemma_emit_all_without_lines(emitted, lower_expression(value, known));
            let pushed = emitted.emit_all(lower_expression(value, known));
            lemma_line_ids_of_push(pushed.instructions, InstructionView::StoreVariable(variable));
            lemma_line_ids_of_push(
                pushed.emit(InstructionView::StoreVariable(variable)).instructions,
                InstructionView::Pop,
            );
            assert(line_ids_of(result.instructions) =~= given + ids_of(
                strings_of_statement(origin, statement),
            ));
        },
        StatementView::Declare { variable, value, start } => {
            assert(line_ids_of(result.instructions) =~= given + ids_of(
                strings_of_statement(origin, statement),
            ));
        },
        StatementView::Jump { destination, start } => {
            lemma_line_ids_of_push(emitted.instructions, InstructionView::PushString(destination));
            lemma_line_ids_of_push(
                emitted.emit(InstructionView::PushString(destination)).instructions,
                InstructionView::RunNode,
            );
            assert(line_ids_of(result.instructions) =~= given + ids_of(
                strings_of_statement(origin, statement),
            ));
        },
        StatementView::Stop { start } => {
            lemma_line_ids_of_push(emitted.instructions, InstructionView::Stop);
            assert(line_ids_of(result.instructions) =~= given + ids_of(
                strings_of_statement(origin, statement),
            ));
        },
        StatementView::Call { call, start } => {
            lemma_expression_has_no_lines(call, known);
            lemma_emit_all_without_lines(emitted, lower_expression(call, known));
            lemma_line_ids_of_push(
                emitted.emit_all(lower_expression(call, known)).instructions,
                InstructionView::Pop,
            );
            assert(line_ids_of(result.instructions) =~= given + ids_of(
                strings_of_statement(origin, statement),
            ));
        },
        StatementView::If { clauses, otherwise, start } => {
            let end = emitted.next_label;
            let in_clauses = lower_clauses(clauses, emitted.reserve(1), end, generation);
            lemma_clauses_lines(clauses, emitted.reserve(1), end, generation);
            match otherwise {
                Some(body) => {
                    lemma_statements_lines(body, in_clauses, generation);
                    assert(ids_of(strings_of_statement(origin, statement)) =~= ids_of(
                        strings_of_clauses(origin, clauses),
                    ) + ids_of(strings_of_statements(origin, body)));
                },
                None => {
                    assert(ids_of(strings_of_statement(origin, statement)) =~= ids_of(
                        strings_of_clauses(origin, clauses),
                    ));
                },
            }
            assert(line_ids_of(result.instructions) =~= given + ids_of(
                strings_of_statement(origin, statement),
            ));
        },
        StatementView::Options { options, start } => {
            let end = emitted.next_label;
            let first = next_number(end);
            let reserved = emitted.reserve(1 + options.len());
            let in_lines = lower_option_lines(options, reserved, first, generation);
            lemma_option_lines(options, reserved, first, generation);
            lemma_line_ids_of_push(in_lines.instructions, InstructionView::ShowOptions);
            lemma_line_ids_of_push(
                in_lines.emit(InstructionView::ShowOptions).instructions,
                InstructionView::Jump,
            );
            let shown = in_lines.emit(InstructionView::ShowOptions).emit(InstructionView::Jump);
            lemma_option_bodies_lines(options, shown, first, end, generation);
            assert(ids_of(strings_of_statement(origin, statement)) =~= ids_of(
                strings_of_option_lines(origin, options),
            ) + ids_of(strings_of_option_bodies(origin, options)));
            assert(line_ids_of(result.instructions) =~= given + ids_of(
                strings_of_statement(origin, statement),
            ));
        },
    }
}

/// The code of the clauses of an `<<if>>` refers to the lines of their
/// statements.
pub proof fn lemma_clauses_lines(
    clauses: Seq<ClauseView>,
    emitted: Emitted,
    end: usize,
    generation: Generation,
)
    ensures
        line_ids_of(lower_clauses(clauses, emitted, end, generation).instructions) == line_ids_of(
            emitted.instructions,
        ) + ids_of(strings_of_clauses(generation.origin, clauses)),
    decreases clauses, 1int,
{
    let origin = generation.origin;
    if clauses.len() == 0 {
        assert(line_ids_of(emitted.instructions) + ids_of(strings_of_clauses(origin, clauses))
            =~= line_ids_of(emitted.instructions));
    } else {
        let before = lower_clauses(clauses.drop_last(), emitted, end, generation);
        lemma_clauses_lines(clauses.drop_last(), emitted, end, generation);
        let condition = lower_expression(clauses.last().condition, generation.known);
        lemma_expression_has_no_lines(clauses.last().condition, generation.known);
        lemma_emit_all_without_lines(before.reserve(1), condition);
        let pushed = before.reserve(1).emit_all(condition);
        let skip = before.next_label;
        lemma_line_ids_of_push(
            pushed.instructions,
            InstructionView::JumpIfFalse(label_name(skip)),
        );
        let jumped = pushed.emit(InstructionView::JumpIfFalse(label_name(skip)));
        lemma_line_ids_of_push(jumped.instructions, InstructionView::Pop);
        let tested = jumped.emit(InstructionView::Pop);
        lemma_statements_lines(clauses.last().body, tested, generation);
        let in_body = lower_statements(clauses.last().body, tested, generation);
        lemma_line_ids_of_push(in_body.instructions, InstructionView::JumpTo(label_name(end)));
        let left = in_body.emit(InstructionView::JumpTo(label_name(end))).place(skip);
        lemma_line_ids_of_push(left.instructions, InstructionView::Pop);
        assert(ids_of(strings_of_clauses(origin, clauses)) =~= ids_of(
            strings_of_clauses(origin, clauses.drop_last()),
        ) + ids_of(strings_of_statements(origin, clauses.last().body)));
        assert(line_ids_of(lower_clauses(clauses, emitted, end, generation).instructions)
            =~= line_ids_of(emitted.instructions) + ids_of(strings_of_clauses(origin, clauses)));
    }
}

/// The code that adds the options of a group refers to the lines of the
/// options.
pub proof fn lemma_option_lines(
    options: Seq<ShortcutOptionView>,
    emitted: Emitted,
    first: usize,
    generation: Generation,
)
    ensures
        line_ids_of(lower_option_lines(options, emitted, first, generation).instructions)
            == line_ids_of(emitted.instructions) + ids_of(
            strings_of_option_lines(generation.origin, options),
        ),
    decreases options.len(),
{
    let origin = generation.origin;
    if options.len() == 0 {
        assert(line_ids_of(emitted.instructions) + ids_of(
            strings_of_option_lines(origin, options),
        ) =~= line_ids_of(emitted.instructions));
    } else {
        let option = options.last();
        let before = lower_option_lines(options.drop_last(), emitted, first, generation);
        lemma_option_lines(options.drop_last(), emitted, first, generation);
        let condition = lower_condition(option.condition, generation.known);
        match option.condition {
            Some(expression) => {
                lemma_expression_has_no_lines(expression, generation.known);
            },
            None => {
                assert(condition.drop_last() =~= Seq::empty());
                assert(line_ids_of(condition.drop_last()) =~= Seq::<Seq<char>>::empty());
            },
        }
        lemma_emit_all_without_lines(before, condition);
        let result = lower_option_lines(options, emitted, first, generation);
        lemma_line_ids_of_push(before.emit_all(condition).instructions, result.instructions.last());
        assert(ids_of(strings_of_option_lines(origin, options)) =~= ids_of(
            strings_of_option_lines(origin, options.drop_last()),
        ).push(line_id_for(origin, option.parts, option.hashtags, option.start)));
        assert(line_ids_of(result.instructions) =~= line_ids_of(emitted.instructions) + ids_of(
            strings_of_option_lines(origin, options),
        ));
    }
}

/// The code of what follows the options of a group refers to the lines of
/// the statements that follow the options.
pub proof fn lemma_option_bodies_lines(
    options: Seq<ShortcutOptionView>,
    emitted: Emitted,
    first: usize,
    end: usize,
    generation: Generation,
)
    ensures
        line_ids_of(lower_option_bodies(options, emitted, first, end, generation).instructions)
            == line_ids_of(emitted.instructions) + ids_of(
            strings_of_option_bodies(generation.origin, options),
        ),
    decreases options, 1int,
{
    let origin = generation.origin;
    if options.len() == 0 {
        assert(line_ids_of(emitted.instructions) + ids_of(
            strings_of_option_bodies(origin, options),
        ) =~= line_ids_of(emitted.instructions));
    } else {
        let before = lower_option_bodies(options.drop_last(), emitted, first, end, generation);
        lemma_option_bodies_lines(options.drop_last(), emitted, first, end, generation);
        let placed = before.place(number_after(first, (options.len() - 1) as nat));
        lemma_line_ids_of_push(placed.instructions, InstructionView::Pop);
        let popped = placed.emit(InstructionView::Pop);
        lemma_statements_lines(options.last().body, popped, generation);
        let in_body = lower_statements(options.last().body, popped, generation);
        lemma_line_ids_of_push(in_body.instructions, InstructionView::JumpTo(label_name(end)));
        assert(ids_of(strings_of_option_bodies(origin, options)) =~= ids_of(
            strings_of_option_bodies(origin, options.drop_last()),
        ) + ids_of(strings_of_statements(origin, options.last().body)));
        assert(line_ids_of(
            lower_option_bodies(options, emitted, first, end, generation).instructions,
        ) =~= line_ids_of(emitted.instructions) + ids_of(
            strings_of_option_bodies(origin, options),
        ));
    }
}

/// Round trip: the lines that the code of a node refers to are exactly the
/// lines of the entries that the node has in the string table, in the
/// order of the entries. No line that may be delivered lacks an entry, and
/// no entry is of a line that cannot be delivered.
pub proof fn lemma_lines_round_trip(statements: Seq<StatementView>, generation: Generation)
    ensures
        line_ids_of(generate(statements, generation).instructions) == ids_of(
            strings_of_statements(generation.origin, statements),
        ),
{
    let nothing = Emitted { instructions: Seq::empty(), labels: Seq::empty(), next_label: 0 };
    lemma_statements_lines(statements, nothing, generation);
    assert(line_ids_of(nothing.instructions) + ids_of(
        strings_of_statements(generation.origin, statements),
    ) =~= ids_of(strings_of_statements(generation.origin, statements)));
}

/// Setting numbers aside twice sets aside as many as both times together.
pub proof fn lemma_number_after_adds(number: usize, first: nat, second: nat)
    ensures
        number_after(number_after(number, first), second) == number_after(number, first + second),
    decreases second,
{
    if second > 0 {
        lemma_number_after_adds(number, first, (second - 1) as nat);
    }
}

} // verus!
