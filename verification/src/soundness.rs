//! What type checking promises of running code: the code of an expression
//! whose types fit together leaves a value of the expression's type on the
//! stack, and no error comes of it.

use crate::collections::value_at;
use crate::compiler::ast::ExpressionView;
use crate::compiler::code_generator::{
    lower_arguments, lower_expression, operator_function,
};
use crate::compiler::declaration::DeclarationView;
use crate::compiler::declaration::Position;
use crate::compiler::diagnostic::DiagnosticView;
use crate::compiler::type_checker::{
    call_error, check_arguments, check_expression, is_comparison, is_equality,
    is_known, is_logical, known_or, operands_error, operator_defined, type_of,
    unary_operand_type, variable_type, with_error, Knowledge,
};
use crate::program::InstructionView;
use crate::runtime::events::{ExecutionState, RuntimeErrorView};
use crate::runtime::library::FunctionSignatureView;
use crate::runtime::virtual_machine::{
    arguments_fit, builtin_result, builtin_type, lemma_builtin_type, type_fits, MachineView,
};
use crate::types::{
    bool_methods, number_methods, string_methods, MethodView, Operator, TypeView,
};
use crate::value::YarnValueView;
use vstd::prelude::*;

verus! {

/// Whether an operator takes one operand.
pub open spec fn is_unary(operator: Operator) -> bool {
    operator == Operator::Not || operator == Operator::UnarySubtract
}

/// Whether the types of an expression fit together: every number literal
/// stands for a number, every variable has a type, every function is
/// called as its signature says, every operator is applied to operands on
/// which it is defined, and nothing is missing.
pub open spec fn well_typed(expression: ExpressionView, known: Knowledge) -> bool
    decreases expression, 0int,
{
    match expression {
        ExpressionView::Number(literal) => (known.numbers)(literal) is Some,
        ExpressionView::Text(_) => true,
        ExpressionView::Bool(_) => true,
        ExpressionView::Variable(name) => is_known(variable_type(known.declarations, name)),
        ExpressionView::Call { function, arguments } => {
            &&& all_well_typed(arguments, known)
            &&& call_error(function, arguments, known.declarations, known.library) is None
        },
        ExpressionView::Unary { operator, operand } => {
            &&& is_unary(operator)
            &&& well_typed(*operand, known)
            &&& type_of(*operand, known.declarations, known.library) == unary_operand_type(
                operator,
            )
        },
        ExpressionView::Binary { operator, left, right } => {
            &&& !is_unary(operator)
            &&& well_typed(*left, known)
            &&& well_typed(*right, known)
            &&& operands_error(
                operator,
                type_of(*left, known.declarations, known.library),
                type_of(*right, known.declarations, known.library),
            ) is None
        },
        ExpressionView::Missing => false,
    }
}

/// Whether the types of each of the expressions fit together.
pub open spec fn all_well_typed(expressions: Seq<ExpressionView>, known: Knowledge) -> bool
    decreases expressions, 1int,
{
    if expressions.len() == 0 {
        true
    } else {
        all_well_typed(expressions.drop_last(), known) && well_typed(expressions.last(), known)
    }
}

/// Whether a library has the operators of a type under the names by which
/// the code generator calls them, with the signatures of the dispatch
/// table of the type.
pub open spec fn has_operators(
    library: Map<Seq<char>, FunctionSignatureView>,
    owner: TypeView,
    methods: Seq<MethodView>,
) -> bool {
    forall|i: int|
        0 <= i < methods.len() ==> match (#[trigger] methods[i]).signature {
            TypeView::Function { parameters, return_type } => value_at(
                library,
                operator_function(owner, methods[i].operator),
            ) == Some(FunctionSignatureView { parameters, return_type: *return_type }),
            _ => true,
        }
}

/// Whether a library is fit to run checked code with: it has the operators
/// of numbers, strings and truth values, every function of it gives a
/// number, a string or a truth value, and the functions that the machine
/// may answer itself are declared as the machine answers them.
pub open spec fn is_sound_library(library: Map<Seq<char>, FunctionSignatureView>) -> bool {
    &&& has_operators(library, TypeView::Number, number_methods())
    &&& has_operators(library, TypeView::String, string_methods())
    &&& has_operators(library, TypeView::Bool, bool_methods())
    &&& forall|name: Seq<char>| #[trigger]
        library.contains_key(name) ==> is_known(library[name].return_type)
    &&& forall|name: Seq<char>| #[trigger]
        library.contains_key(name) && builtin_type(name) is Some ==> builtin_type(name) == Some(
            library[name].return_type,
        )
}

/// Whether the variables of a machine hold values of their declared
/// types.
pub open spec fn variables_typed(machine: MachineView, declarations: Seq<DeclarationView>) -> bool {
    forall|name: Seq<char>|
        is_known(variable_type(declarations, name)) ==> (#[trigger] machine.variable(
            name,
        )).type_of() == variable_type(declarations, name)
}

/// Whether the code lies in the current node of the machine, from the
/// program counter on.
pub open spec fn code_lies_ahead(machine: MachineView, code: Seq<InstructionView>) -> bool {
    &&& machine.current_node is Some
    &&& machine.node().instructions.len() <= usize::MAX
    &&& machine.program_counter + code.len() <= machine.node().instructions.len()
    &&& forall|i: int|
        0 <= i < code.len() ==> machine.node().instructions[machine.program_counter + i]
            == #[trigger] code[i]
}

/// Whether the host answers every call of the code with a value of the
/// type that the signature of the function gives as its result. There is
/// one answer for every instruction; those for instructions that call
/// nothing do not count.
pub open spec fn answers_fit(
    code: Seq<InstructionView>,
    answers: Seq<Option<YarnValueView>>,
    library: Map<Seq<char>, FunctionSignatureView>,
) -> bool {
    &&& answers.len() == code.len()
    &&& forall|i: int|
        0 <= i < code.len() && (#[trigger] code[i]) is CallFunc ==> {
            &&& answers[i] is Some
            &&& library.contains_key(code[i]->CallFunc_0) ==> answers[i].unwrap().type_of()
                == library[code[i]->CallFunc_0].return_type
        }
}

/// The machine with one more value on its stack, `steps` instructions
/// further on.
pub open spec fn pushed(machine: MachineView, value: YarnValueView, steps: nat) -> MachineView {
    MachineView {
        stack: machine.stack.push(value),
        program_counter: (machine.program_counter + steps) as usize,
        ..machine
    }
}

/// Running on the answers of two stretches is running on those of the
/// first and then on those of the second.
pub proof fn lemma_run_concat(
    machine: MachineView,
    first: Seq<Option<YarnValueView>>,
    second: Seq<Option<YarnValueView>>,
)
    ensures
        machine.run(first + second) == machine.run(first).run(second),
    decreases second.len(),
{
    if second.len() == 0 {
        assert(first + second =~= first);
    } else {
        lemma_run_concat(machine, first, second.drop_last());
        assert((first + second).drop_last() =~= first + second.drop_last());
        assert((first + second).last() == second.last());
    }
}

/// Running on one answer is one step.
pub proof fn lemma_run_one(machine: MachineView, answer: Option<YarnValueView>)
    requires
        machine.state == ExecutionState::Running,
    ensures
        machine.run(seq![answer]) == machine.step(answer),
{
    assert(seq![answer].drop_last() =~= Seq::<Option<YarnValueView>>::empty());
    assert(machine.run(Seq::<Option<YarnValueView>>::empty()) == machine);
}

/// The type of an expression whose types fit together is the type of a
/// value.
pub proof fn lemma_type_is_known(expression: ExpressionView, known: Knowledge)
    requires
        well_typed(expression, known),
        is_sound_library(known.library),
    ensures
        is_known(type_of(expression, known.declarations, known.library)),
    decreases expression,
{
    match expression {
        ExpressionView::Binary { operator, left, right } => {
            lemma_type_is_known(*left, known);
        },
        ExpressionView::Call { function, arguments } => {
            assert(known.library.contains_key(function));
        },
        _ => {},
    }
}

/// Whether a machine is ready to run checked code: it is running, it has
/// the library that the code was checked against, and its variables hold
/// values of their declared types.
pub open spec fn is_ready(machine: MachineView, known: Knowledge) -> bool {
    &&& machine.wf()
    &&& machine.state == ExecutionState::Running
    &&& machine.library == known.library
    &&& is_sound_library(known.library)
    &&& variables_typed(machine, known.declarations)
}

/// The machine with more values on its stack, `steps` instructions further
/// on.
pub open spec fn pushed_all(
    machine: MachineView,
    values: Seq<YarnValueView>,
    steps: nat,
) -> MachineView {
    MachineView {
        stack: machine.stack + values,
        program_counter: (machine.program_counter + steps) as usize,
        ..machine
    }
}

/// The result type of a binary operator on operands of a type: a truth
/// value for the connectives and the comparisons, and the type of the
/// operands for arithmetic.
pub open spec fn binary_result(operator: Operator, operands: TypeView) -> TypeView {
    if is_logical(operator) || is_equality(operator) || is_comparison(operator) {
        TypeView::Bool
    } else {
        operands
    }
}

/// A library that is fit to run checked code with has each binary operator
/// that is defined on a type under its name, with two parameters of the
/// type and with the result type of the operator.
pub proof fn lemma_binary_operator(
    library: Map<Seq<char>, FunctionSignatureView>,
    operator: Operator,
    operands: TypeView,
)
    requires
        is_sound_library(library),
        is_known(operands),
        !is_unary(operator),
        operator_defined(operator, operands),
    ensures
        value_at(library, operator_function(operands, operator)) == Some(
            FunctionSignatureView {
                parameters: seq![operands, operands],
                return_type: binary_result(operator, operands),
            },
        ),
{
    let methods = if operands == TypeView::Number {
        number_methods()
    } else if operands == TypeView::String {
        string_methods()
    } else {
        bool_methods()
    };
    let i = choose|i: int| 0 <= i < methods.len() && (#[trigger] methods[i]).operator == operator;
    assert(has_operators(library, operands, methods));
    if i == 0 {
        assert(methods[0].operator == operator);
    } else if i == 1 {
        assert(methods[1].operator == operator);
    } else if i == 2 {
        assert(methods[2].operator == operator);
    } else if i == 3 {
        assert(methods[3].operator == operator);
    } else if i == 4 {
        assert(methods[4].operator == operator);
    } else if i == 5 {
        assert(methods[5].operator == operator);
    } else if i == 6 {
        assert(methods[6].operator == operator);
    } else if i == 7 {
        assert(methods[7].operator == operator);
    } else if i == 8 {
        assert(methods[8].operator == operator);
    } else if i == 9 {
        assert(methods[9].operator == operator);
    } else if i == 10 {
        assert(methods[10].operator == operator);
    } else {
        assert(methods[11].operator == operator);
    }
}

/// A library that is fit to run checked code with has each unary operator
/// under its name, with one parameter of the type of its operand and with
/// that type as its result type.
pub proof fn lemma_unary_operator(library: Map<Seq<char>, FunctionSignatureView>, operator: Operator)
    requires
        is_sound_library(library),
        is_unary(operator),
    ensures
        value_at(library, operator_function(unary_operand_type(operator), operator)) == Some(
            FunctionSignatureView {
                parameters: seq![unary_operand_type(operator)],
                return_type: unary_operand_type(operator),
            },
        ),
{
    if operator == Operator::Not {
        assert(bool_methods()[5].operator == Operator::Not);
        assert(has_operators(library, TypeView::Bool, bool_methods()));
    } else {
        assert(number_methods()[7].operator == Operator::UnarySubtract);
        assert(has_operators(library, TypeView::Number, number_methods()));
    }
}

/// What a call does to a machine that is ready and has the arguments of
/// the call on top of its stack: where the arguments fit the parameters of
/// the function and the host answers with a value of the result type of
/// the function, the value takes the place of the arguments, and the
/// machine goes on to the next instruction.
pub proof fn lemma_call_runs(
    machine: MachineView,
    known: Knowledge,
    below: Seq<YarnValueView>,
    arguments: Seq<YarnValueView>,
    function: Seq<char>,
    answer: Option<YarnValueView>,
) -> (value: YarnValueView)
    requires
        is_ready(machine, known),
        machine.stack == below + arguments,
        code_lies_ahead(machine, seq![InstructionView::CallFunc(function)]),
        known.library.contains_key(function),
        arguments_fit(arguments, known.library[function].parameters),
        answer is Some,
        answer.unwrap().type_of() == known.library[function].return_type,
    ensures
        machine.step(answer) == (MachineView {
            stack: below.push(value),
            program_counter: (machine.program_counter + 1) as usize,
            ..machine
        }),
        value.type_of() == known.library[function].return_type,
{
    let code = seq![InstructionView::CallFunc(function)];
    assert(machine.node().instructions[machine.program_counter + 0] == code[0]);
    assert(!machine.at_end());
    assert(machine.instruction() == InstructionView::CallFunc(function));
    let signature = known.library[function];
    assert(machine.stack.skip(machine.stack.len() - arguments.len()) =~= arguments);
    assert(machine.call_arguments(function) == Ok::<Seq<YarnValueView>, RuntimeErrorView>(
        arguments,
    ));
    lemma_builtin_type(function, arguments, machine.variables);
    let result = match builtin_result(function, arguments, machine.variables) {
        Some(value) => value,
        None => answer.unwrap(),
    };
    assert(is_known(signature.return_type));
    assert(machine.stack.take(machine.stack.len() - arguments.len()) =~= below);
    result
}

/// A machine that has a push instruction ahead pushes its value and goes on
/// to the next instruction.
pub proof fn lemma_push_runs(
    machine: MachineView,
    known: Knowledge,
    instruction: InstructionView,
    value: YarnValueView,
    answer: Option<YarnValueView>,
)
    requires
        is_ready(machine, known),
        code_lies_ahead(machine, seq![instruction]),
        machine.execute(instruction, answer) == machine.push(value),
    ensures
        machine.step(answer) == pushed(machine, value, 1),
{
    let code = seq![instruction];
    assert(machine.node().instructions[machine.program_counter + 0] == code[0]);
}

/// Code that lies ahead of a machine lies ahead of it piece by piece: its
/// beginning lies ahead of the machine, and its rest lies ahead of a
/// machine that has gone on behind the beginning.
pub proof fn lemma_code_splits(
    machine: MachineView,
    further: MachineView,
    code: Seq<InstructionView>,
    steps: int,
)
    requires
        code_lies_ahead(machine, code),
        0 <= steps <= code.len(),
        further.program == machine.program,
        further.current_node == machine.current_node,
        further.program_counter == machine.program_counter + steps,
    ensures
        code_lies_ahead(machine, code.take(steps)),
        code_lies_ahead(further, code.skip(steps)),
{
    assert forall|i: int| 0 <= i < code.skip(steps).len() implies further.node().instructions[
        further.program_counter + i
    ] == #[trigger] code.skip(steps)[i] by {
        assert(code[steps + i] == code.skip(steps)[i]);
    }
    assert forall|i: int| 0 <= i < code.take(steps).len() implies machine.node().instructions[
        machine.program_counter + i
    ] == #[trigger] code.take(steps)[i] by {
        assert(code[i] == code.take(steps)[i]);
    }
}

/// Answers that fit a code fit it piece by piece.
pub proof fn lemma_answers_split(
    code: Seq<InstructionView>,
    answers: Seq<Option<YarnValueView>>,
    library: Map<Seq<char>, FunctionSignatureView>,
    steps: int,
)
    requires
        answers_fit(code, answers, library),
        0 <= steps <= code.len(),
    ensures
        answers_fit(code.take(steps), answers.take(steps), library),
        answers_fit(code.skip(steps), answers.skip(steps), library),
        answers == answers.take(steps) + answers.skip(steps),
{
    assert forall|i: int|
        0 <= i < code.skip(steps).len() && (#[trigger] code.skip(steps)[i]) is CallFunc implies {
        &&& answers.skip(steps)[i] is Some
        &&& library.contains_key(code.skip(steps)[i]->CallFunc_0) ==> answers.skip(
            steps,
        )[i].unwrap().type_of() == library[code.skip(steps)[i]->CallFunc_0].return_type
    } by {
        assert(code[steps + i] == code.skip(steps)[i]);
    }
    assert forall|i: int|
        0 <= i < code.take(steps).len() && (#[trigger] code.take(steps)[i]) is CallFunc implies {
        &&& answers.take(steps)[i] is Some
        &&& library.contains_key(code.take(steps)[i]->CallFunc_0) ==> answers.take(
            steps,
        )[i].unwrap().type_of() == library[code.take(steps)[i]->CallFunc_0].return_type
    } by {
        assert(code[i] == code.take(steps)[i]);
    }
    assert(answers =~= answers.take(steps) + answers.skip(steps));
}

/// A machine that is ready stays ready when values are pushed on its stack
/// and it goes on to a later instruction.
pub proof fn lemma_stays_ready(
    machine: MachineView,
    known: Knowledge,
    values: Seq<YarnValueView>,
    steps: nat,
)
    requires
        is_ready(machine, known),
    ensures
        is_ready(pushed_all(machine, values, steps), known),
{
    let further = pushed_all(machine, values, steps);
    assert forall|name: Seq<char>|
        is_known(variable_type(known.declarations, name)) implies (#[trigger] further.variable(
        name,
    )).type_of() == variable_type(known.declarations, name) by {
        assert(further.variable(name) == machine.variable(name));
    }
}

/// Pushing one value is pushing a list of one value.
pub proof fn lemma_pushed_is_pushed_all(machine: MachineView, value: YarnValueView, steps: nat)
    ensures
        pushed(machine, value, steps) == pushed_all(machine, seq![value], steps),
{
    assert(machine.stack.push(value) =~= machine.stack + seq![value]);
}

/// What the code of a unary or binary operator does behind the code of its
/// operands: the call of the operator puts its result in the place of the
/// operands.
pub proof fn lemma_operator_runs(
    machine: MachineView,
    known: Knowledge,
    operands: Seq<YarnValueView>,
    steps: nat,
    function: Seq<char>,
    signature: FunctionSignatureView,
    answer: Option<YarnValueView>,
) -> (value: YarnValueView)
    requires
        is_ready(machine, known),
        machine.program_counter + steps + 1 <= usize::MAX,
        code_lies_ahead(
            pushed_all(machine, operands, steps),
            seq![InstructionView::CallFunc(function)],
        ),
        value_at(known.library, function) == Some(signature),
        arguments_fit(operands, signature.parameters),
        answer is Some,
        answer.unwrap().type_of() == signature.return_type,
    ensures
        pushed_all(machine, operands, steps).step(answer) == pushed(machine, value, steps + 1),
        value.type_of() == signature.return_type,
{
    let ahead = pushed_all(machine, operands, steps);
    lemma_stays_ready(machine, known, operands, steps);
    lemma_call_runs(ahead, known, machine.stack, operands, function, answer)
}

/// The premises under which the code of an expression runs.
pub open spec fn may_run(
    expression: ExpressionView,
    known: Knowledge,
    machine: MachineView,
    answers: Seq<Option<YarnValueView>>,
) -> bool {
    &&& well_typed(expression, known)
    &&& is_ready(machine, known)
    &&& code_lies_ahead(machine, lower_expression(expression, known))
    &&& answers_fit(lower_expression(expression, known), answers, known.library)
}

/// What running the code of an expression comes to: one more value on the
/// stack, of the type of the expression, and the machine at the
/// instruction behind the code.
pub open spec fn has_run(
    expression: ExpressionView,
    known: Knowledge,
    machine: MachineView,
    answers: Seq<Option<YarnValueView>>,
    value: YarnValueView,
) -> bool {
    &&& machine.run(answers) == pushed(machine, value, lower_expression(expression, known).len())
    &&& value.type_of() == type_of(expression, known.declarations, known.library)
}

/// The code of a literal or of a variable runs.
pub proof fn lemma_leaf_runs(
    expression: ExpressionView,
    known: Knowledge,
    machine: MachineView,
    answers: Seq<Option<YarnValueView>>,
) -> (value: YarnValueView)
    requires
        may_run(expression, known, machine, answers),
        expression is Number || expression is Text || expression is Bool || expression
            is Variable,
    ensures
        has_run(expression, known, machine, answers, value),
{
    let code = lower_expression(expression, known);
    let value = match expression {
        ExpressionView::Variable(name) => machine.variable(name),
        ExpressionView::Number(literal) => YarnValueView::Number(
            (known.numbers)(literal).unwrap(),
        ),
        ExpressionView::Text(text) => YarnValueView::String(text),
        ExpressionView::Bool(truth) => YarnValueView::Bool(truth),
        _ => arbitrary(),
    };
    assert(code.len() == 1);
    assert(code =~= seq![code[0]]);
    assert(answers =~= seq![answers[0]]);
    lemma_run_one(machine, answers[0]);
    lemma_push_runs(machine, known, code[0], value, answers[0]);
    value
}

/// The premises under which the code of the operand of a unary operator
/// runs follow from those of the whole expression.
pub proof fn lemma_unary_operand_may_run(
    operator: Operator,
    operand: ExpressionView,
    known: Knowledge,
    machine: MachineView,
    answers: Seq<Option<YarnValueView>>,
)
    requires
        may_run(
            ExpressionView::Unary { operator, operand: Box::new(operand) },
            known,
            machine,
            answers,
        ),
    ensures
        may_run(
            operand,
            known,
            machine,
            answers.take(lower_expression(operand, known).len() as int),
        ),
{
    let expression = ExpressionView::Unary { operator, operand: Box::new(operand) };
    let code = lower_expression(expression, known);
    let n = lower_expression(operand, known).len();
    assert(code.take(n as int) =~= lower_expression(operand, known));
    lemma_answers_split(code, answers, known.library, n as int);
    lemma_code_prefix(machine, code, n as int);
}

/// The call of a unary operator behind the code of its operand runs.
pub proof fn lemma_unary_runs(
    operator: Operator,
    operand: ExpressionView,
    known: Knowledge,
    machine: MachineView,
    answers: Seq<Option<YarnValueView>>,
    first: YarnValueView,
) -> (value: YarnValueView)
    requires
        may_run(
            ExpressionView::Unary { operator, operand: Box::new(operand) },
            known,
            machine,
            answers,
        ),
        has_run(
            operand,
            known,
            machine,
            answers.take(lower_expression(operand, known).len() as int),
            first,
        ),
    ensures
        has_run(
            ExpressionView::Unary { operator, operand: Box::new(operand) },
            known,
            machine,
            answers,
            value,
        ),
{
    let expression = ExpressionView::Unary { operator, operand: Box::new(operand) };
    let library = known.library;
    let code = lower_expression(expression, known);
    let inner = lower_expression(operand, known);
    let n = inner.len();
    let function = operator_function(type_of(operand, known.declarations, library), operator);
    assert(code.skip(n as int) =~= seq![InstructionView::CallFunc(function)]);
    lemma_answers_split(code, answers, library, n as int);
    let ahead = pushed(machine, first, n);
    lemma_pushed_is_pushed_all(machine, first, n);
    lemma_code_splits(machine, ahead, code, n as int);
    lemma_unary_operator(library, operator);
    let answer = answers[n as int];
    assert(code[n as int] is CallFunc);
    assert(answers.skip(n as int) =~= seq![answer]);
    let value = lemma_operator_runs(
        machine,
        known,
        seq![first],
        n,
        function,
        library[function],
        answer,
    );
    lemma_stays_ready(machine, known, seq![first], n);
    lemma_run_one(ahead, answer);
    lemma_run_concat(machine, answers.take(n as int), answers.skip(n as int));
    value
}

/// The premises under which the code of the left operand of a binary
/// operator runs follow from those of the whole expression.
pub proof fn lemma_left_may_run(
    operator: Operator,
    left: ExpressionView,
    right: ExpressionView,
    known: Knowledge,
    machine: MachineView,
    answers: Seq<Option<YarnValueView>>,
)
    requires
        may_run(
            ExpressionView::Binary { operator, left: Box::new(left), right: Box::new(right) },
            known,
            machine,
            answers,
        ),
    ensures
        may_run(left, known, machine, answers.take(lower_expression(left, known).len() as int)),
{
    let expression = ExpressionView::Binary {
        operator,
        left: Box::new(left),
        right: Box::new(right),
    };
    let code = lower_expression(expression, known);
    let n = lower_expression(left, known).len();
    assert(code.take(n as int) =~= lower_expression(left, known));
    lemma_answers_split(code, answers, known.library, n as int);
    lemma_code_prefix(machine, code, n as int);
}

/// The answers to the code of the right operand of a binary operator.
pub open spec fn answers_to_right(
    left: ExpressionView,
    right: ExpressionView,
    known: Knowledge,
    answers: Seq<Option<YarnValueView>>,
) -> Seq<Option<YarnValueView>> {
    answers.skip(lower_expression(left, known).len() as int).take(
        lower_expression(right, known).len() as int,
    )
}

/// The premises under which the code of the right operand of a binary
/// operator runs behind the code of the left operand follow from those of
/// the whole expression.
pub proof fn lemma_right_may_run(
    operator: Operator,
    left: ExpressionView,
    right: ExpressionView,
    known: Knowledge,
    machine: MachineView,
    answers: Seq<Option<YarnValueView>>,
    first: YarnValueView,
)
    requires
        may_run(
            ExpressionView::Binary { operator, left: Box::new(left), right: Box::new(right) },
            known,
            machine,
            answers,
        ),
    ensures
        may_run(
            right,
            known,
            pushed(machine, first, lower_expression(left, known).len()),
            answers_to_right(left, right, known, answers),
        ),
{
    let expression = ExpressionView::Binary {
        operator,
        left: Box::new(left),
        right: Box::new(right),
    };
    let code = lower_expression(expression, known);
    let n = lower_expression(left, known).len();
    let k = lower_expression(right, known).len();
    let one = pushed(machine, first, n);
    lemma_pushed_is_pushed_all(machine, first, n);
    lemma_stays_ready(machine, known, seq![first], n);
    lemma_code_splits(machine, one, code, n as int);
    assert(code.skip(n as int).take(k as int) =~= lower_expression(right, known));
    lemma_answers_split(code, answers, known.library, n as int);
    lemma_answers_split(code.skip(n as int), answers.skip(n as int), known.library, k as int);
    lemma_code_prefix(one, code.skip(n as int), k as int);
}

/// The call of a binary operator behind the code of its operands runs.
pub proof fn lemma_binary_runs(
    operator: Operator,
    left: ExpressionView,
    right: ExpressionView,
    known: Knowledge,
    machine: MachineView,
    answers: Seq<Option<YarnValueView>>,
    first: YarnValueView,
    second: YarnValueView,
) -> (value: YarnValueView)
    requires
        may_run(
            ExpressionView::Binary { operator, left: Box::new(left), right: Box::new(right) },
            known,
            machine,
            answers,
        ),
        has_run(
            left,
            known,
            machine,
            answers.take(lower_expression(left, known).len() as int),
            first,
        ),
        has_run(
            right,
            known,
            pushed(machine, first, lower_expression(left, known).len()),
            answers_to_right(left, right, known, answers),
            second,
        ),
    ensures
        has_run(
            ExpressionView::Binary { operator, left: Box::new(left), right: Box::new(right) },
            known,
            machine,
            answers,
            value,
        ),
{
    let expression = ExpressionView::Binary {
        operator,
        left: Box::new(left),
        right: Box::new(right),
    };
    let library = known.library;
    let code = lower_expression(expression, known);
    let n = lower_expression(left, known).len();
    let k = lower_expression(right, known).len();
    let operands = known_or(
        type_of(left, known.declarations, library),
        type_of(right, known.declarations, library),
    );
    let function = operator_function(operands, operator);
    lemma_type_is_known(left, known);
    lemma_type_is_known(right, known);
    let one = pushed(machine, first, n);
    let two = pushed(one, second, k);
    assert(two == pushed_all(machine, seq![first, second], n + k)) by {
        assert(machine.stack.push(first).push(second) =~= machine.stack + seq![first, second]);
    }
    let rest = code.skip(n as int);
    let rest_answers = answers.skip(n as int);
    assert(rest.skip(k as int) =~= seq![InstructionView::CallFunc(function)]);
    lemma_answers_split(code, answers, library, n as int);
    lemma_answers_split(rest, rest_answers, library, k as int);
    lemma_code_splits(machine, one, code, n as int);
    lemma_code_splits(one, two, rest, k as int);
    lemma_stays_ready(machine, known, seq![first, second], n + k);
    lemma_binary_operator(library, operator, operands);
    let answer = rest_answers.skip(k as int)[0];
    assert(rest.skip(k as int)[0] is CallFunc);
    assert(rest_answers.skip(k as int) =~= seq![answer]);
    let value = lemma_operator_runs(
        machine,
        known,
        seq![first, second],
        n + k,
        function,
        library[function],
        answer,
    );
    lemma_run_one(two, answer);
    lemma_run_concat(one, rest_answers.take(k as int), rest_answers.skip(k as int));
    lemma_run_concat(machine, answers.take(n as int), answers.skip(n as int));
    value
}

/// The premises under which the code of the arguments of a call runs
/// follow from those of the whole expression.
pub proof fn lemma_arguments_may_run(
    function: Seq<char>,
    arguments: Seq<ExpressionView>,
    known: Knowledge,
    machine: MachineView,
    answers: Seq<Option<YarnValueView>>,
)
    requires
        may_run(ExpressionView::Call { function, arguments }, known, machine, answers),
    ensures
        all_well_typed(arguments, known),
        code_lies_ahead(machine, lower_arguments(arguments, known)),
        answers_fit(
            lower_arguments(arguments, known),
            answers.take(lower_arguments(arguments, known).len() as int),
            known.library,
        ),
{
    let code = lower_expression(ExpressionView::Call { function, arguments }, known);
    let n = lower_arguments(arguments, known).len();
    assert(code.take(n as int) =~= lower_arguments(arguments, known));
    lemma_answers_split(code, answers, known.library, n as int);
    lemma_code_prefix(machine, code, n as int);
}

/// The call of a function behind the code of its arguments runs.
pub proof fn lemma_call_expression_runs(
    function: Seq<char>,
    arguments: Seq<ExpressionView>,
    known: Knowledge,
    machine: MachineView,
    answers: Seq<Option<YarnValueView>>,
    values: Seq<YarnValueView>,
) -> (value: YarnValueView)
    requires
        may_run(ExpressionView::Call { function, arguments }, known, machine, answers),
        machine.run(answers.take(lower_arguments(arguments, known).len() as int)) == pushed_all(
            machine,
            values,
            lower_arguments(arguments, known).len(),
        ),
        values.len() == arguments.len(),
        forall|i: int|
            0 <= i < values.len() ==> (#[trigger] values[i]).type_of() == type_of(
                arguments[i],
                known.declarations,
                known.library,
            ),
    ensures
        has_run(ExpressionView::Call { function, arguments }, known, machine, answers, value),
{
    let library = known.library;
    let code = lower_expression(ExpressionView::Call { function, arguments }, known);
    let n = lower_arguments(arguments, known).len();
    assert(code.skip(n as int) =~= seq![InstructionView::CallFunc(function)]);
    lemma_answers_split(code, answers, library, n as int);
    let ahead = pushed_all(machine, values, n);
    lemma_stays_ready(machine, known, values, n);
    lemma_code_splits(machine, ahead, code, n as int);
    let answer = answers[n as int];
    assert(code[n as int] is CallFunc);
    assert(answers.skip(n as int) =~= seq![answer]);
    let signature = library[function];
    assert forall|i: int| 0 <= i < values.len() implies type_fits(
        (#[trigger] values[i]).type_of(),
        signature.parameters[i],
    ) by {
        lemma_each_well_typed(arguments, known, i);
        lemma_type_is_known(arguments[i], known);
    }
    let value = lemma_operator_runs(machine, known, values, n, function, signature, answer);
    lemma_run_one(ahead, answer);
    lemma_run_concat(machine, answers.take(n as int), answers.skip(n as int));
    value
}

/// Type soundness of expressions: on a machine that is ready, the code of
/// an expression whose types fit together runs without an error and leaves
/// one more value on the stack, which has the type of the expression. The
/// machine is then at the instruction behind the code, and nothing else of
/// it has changed: it has told the host nothing and has stored nothing.
pub proof fn lemma_expression_runs(
    expression: ExpressionView,
    known: Knowledge,
    machine: MachineView,
    answers: Seq<Option<YarnValueView>>,
) -> (value: YarnValueView)
    requires
        may_run(expression, known, machine, answers),
    ensures
        has_run(expression, known, machine, answers, value),
    decreases expression, 0int,
{
    match expression {
        ExpressionView::Unary { operator, operand } => {
            lemma_unary_operand_may_run(operator, *operand, known, machine, answers);
            let first = lemma_expression_runs(
                *operand,
                known,
                machine,
                answers.take(lower_expression(*operand, known).len() as int),
            );
            lemma_unary_runs(operator, *operand, known, machine, answers, first)
        },
        ExpressionView::Binary { operator, left, right } => {
            lemma_left_may_run(operator, *left, *right, known, machine, answers);
            let first = lemma_expression_runs(
                *left,
                known,
                machine,
                answers.take(lower_expression(*left, known).len() as int),
            );
            lemma_right_may_run(operator, *left, *right, known, machine, answers, first);
            let second = lemma_expression_runs(
                *right,
                known,
                pushed(machine, first, lower_expression(*left, known).len()),
                answers_to_right(*left, *right, known, answers),
            );
            lemma_binary_runs(operator, *left, *right, known, machine, answers, first, second)
        },
        ExpressionView::Call { function, arguments } => {
            lemma_arguments_may_run(function, arguments, known, machine, answers);
            let values = lemma_arguments_run(
                arguments,
                known,
                machine,
                answers.take(lower_arguments(arguments, known).len() as int),
            );
            lemma_call_expression_runs(function, arguments, known, machine, answers, values)
        },
        ExpressionView::Missing => arbitrary(),
        _ => lemma_leaf_runs(expression, known, machine, answers),
    }
}

/// The beginning of code that lies ahead of a machine lies ahead of it.
pub proof fn lemma_code_prefix(machine: MachineView, code: Seq<InstructionView>, steps: int)
    requires
        code_lies_ahead(machine, code),
        0 <= steps <= code.len(),
    ensures
        code_lies_ahead(machine, code.take(steps)),
{
    assert forall|i: int| 0 <= i < code.take(steps).len() implies machine.node().instructions[
        machine.program_counter + i
    ] == #[trigger] code.take(steps)[i] by {
        assert(code[i] == code.take(steps)[i]);
    }
}

/// Each of the expressions of a list whose types all fit together has
/// types that fit together.
pub proof fn lemma_each_well_typed(expressions: Seq<ExpressionView>, known: Knowledge, index: int)
    requires
        all_well_typed(expressions, known),
        0 <= index < expressions.len(),
    ensures
        well_typed(expressions[index], known),
    decreases expressions.len(),
{
    if index < expressions.len() - 1 {
        lemma_each_well_typed(expressions.drop_last(), known, index);
    }
}

/// On a machine that is ready, the code of the arguments of a call whose
/// types fit together runs without an error and leaves the values of the
/// arguments on the stack, the first lowest, each of the type of its
/// argument.
pub proof fn lemma_arguments_run(
    arguments: Seq<ExpressionView>,
    known: Knowledge,
    machine: MachineView,
    answers: Seq<Option<YarnValueView>>,
) -> (values: Seq<YarnValueView>)
    requires
        all_well_typed(arguments, known),
        is_ready(machine, known),
        code_lies_ahead(machine, lower_arguments(arguments, known)),
        answers_fit(lower_arguments(arguments, known), answers, known.library),
    ensures
        machine.run(answers) == pushed_all(
            machine,
            values,
            lower_arguments(arguments, known).len(),
        ),
        values.len() == arguments.len(),
        forall|i: int|
            0 <= i < values.len() ==> (#[trigger] values[i]).type_of() == type_of(
                arguments[i],
                known.declarations,
                known.library,
            ),
    decreases arguments, 1int,
{
    let code = lower_arguments(arguments, known);
    if arguments.len() == 0 {
        let values = Seq::<YarnValueView>::empty();
        assert(answers =~= Seq::empty());
        assert(machine.stack + values =~= machine.stack);
        assert(machine.run(answers) == pushed_all(machine, values, 0));
        values
    } else {
        let front = lower_arguments(arguments.drop_last(), known);
        let last = lower_expression(arguments.last(), known);
        let n = front.len();
        assert(code.take(n as int) =~= front);
        assert(code.skip(n as int) =~= last);
        lemma_answers_split(code, answers, known.library, n as int);
        lemma_code_prefix(machine, code, n as int);
        let before = lemma_arguments_run(
            arguments.drop_last(),
            known,
            machine,
            answers.take(n as int),
        );
        let ahead = pushed_all(machine, before, n);
        lemma_stays_ready(machine, known, before, n);
        lemma_code_splits(machine, ahead, code, n as int);
        lemma_each_well_typed(arguments, known, arguments.len() - 1);
        let value = lemma_expression_runs(
            arguments.last(),
            known,
            ahead,
            answers.skip(n as int),
        );
        lemma_run_concat(machine, answers.take(n as int), answers.skip(n as int));
        let values = before.push(value);
        assert(pushed(ahead, value, last.len()) == pushed_all(machine, values, code.len())) by {
            assert((machine.stack + before).push(value) =~= machine.stack + values);
        }
        values
    }
}

/// Whether an expression is whole: nothing of it is missing, each of its
/// operators has as many operands as it takes, and each of its variables
/// has a type.
pub open spec fn is_whole(expression: ExpressionView, known: Knowledge) -> bool
    decreases expression, 0int,
{
    match expression {
        ExpressionView::Variable(name) => is_known(variable_type(known.declarations, name)),
        ExpressionView::Call { function, arguments } => all_whole(arguments, known),
        ExpressionView::Unary { operator, operand } => is_unary(operator) && is_whole(
            *operand,
            known,
        ),
        ExpressionView::Binary { operator, left, right } => !is_unary(operator) && is_whole(
            *left,
            known,
        ) && is_whole(*right, known),
        ExpressionView::Missing => false,
        _ => true,
    }
}

/// Whether each of the expressions is whole.
pub open spec fn all_whole(expressions: Seq<ExpressionView>, known: Knowledge) -> bool
    decreases expressions, 1int,
{
    if expressions.len() == 0 {
        true
    } else {
        all_whole(expressions.drop_last(), known) && is_whole(expressions.last(), known)
    }
}

/// Checking an expression takes no diagnostic away: it may only add some.
pub proof fn lemma_check_adds(
    expression: ExpressionView,
    known: Knowledge,
    start: Position,
    diagnostics: Seq<DiagnosticView>,
)
    ensures
        check_expression(expression, known, start, diagnostics).len() >= diagnostics.len(),
    decreases expression, 0int,
{
    match expression {
        ExpressionView::Call { function, arguments } => {
            lemma_check_arguments_adds(arguments, known, start, diagnostics);
        },
        ExpressionView::Unary { operator, operand } => {
            lemma_check_adds(*operand, known, start, diagnostics);
        },
        ExpressionView::Binary { operator, left, right } => {
            lemma_check_adds(*left, known, start, diagnostics);
            lemma_check_adds(
                *right,
                known,
                start,
                check_expression(*left, known, start, diagnostics),
            );
        },
        _ => {},
    }
}

/// Checking the arguments of a call takes no diagnostic away.
pub proof fn lemma_check_arguments_adds(
    arguments: Seq<ExpressionView>,
    known: Knowledge,
    start: Position,
    diagnostics: Seq<DiagnosticView>,
)
    ensures
        check_arguments(arguments, known, start, diagnostics).len() >= diagnostics.len(),
    decreases arguments, 1int,
{
    if arguments.len() > 0 {
        lemma_check_arguments_adds(arguments.drop_last(), known, start, diagnostics);
        lemma_check_adds(
            arguments.last(),
            known,
            start,
            check_arguments(arguments.drop_last(), known, start, diagnostics),
        );
    }
}

/// The types of a whole expression fit together if the type checker has
/// nothing to say about it: if checking it adds no diagnostic.
pub proof fn lemma_checked_is_well_typed(
    expression: ExpressionView,
    known: Knowledge,
    start: Position,
    diagnostics: Seq<DiagnosticView>,
)
    requires
        is_whole(expression, known),
        is_sound_library(known.library),
        check_expression(expression, known, start, diagnostics).len() == diagnostics.len(),
    ensures
        well_typed(expression, known),
    decreases expression, 0int,
{
    match expression {
        ExpressionView::Call { function, arguments } => {
            let checked = check_arguments(arguments, known, start, diagnostics);
            lemma_check_arguments_adds(arguments, known, start, diagnostics);
            let error = call_error(function, arguments, known.declarations, known.library);
            assert(check_expression(expression, known, start, diagnostics) == with_error(
                checked,
                start,
                error,
            ));
            assert(error is None);
            assert(checked.len() == diagnostics.len());
            lemma_checked_are_well_typed(arguments, known, start, diagnostics);
        },
        ExpressionView::Unary { operator, operand } => {
            lemma_check_adds(*operand, known, start, diagnostics);
            lemma_checked_is_well_typed(*operand, known, start, diagnostics);
            lemma_type_is_known(*operand, known);
        },
        ExpressionView::Binary { operator, left, right } => {
            let after_left = check_expression(*left, known, start, diagnostics);
            lemma_check_adds(*left, known, start, diagnostics);
            lemma_check_adds(*right, known, start, after_left);
            lemma_checked_is_well_typed(*left, known, start, diagnostics);
            lemma_checked_is_well_typed(*right, known, start, after_left);
        },
        _ => {},
    }
}

/// The types of whole arguments fit together if checking them adds no
/// diagnostic.
pub proof fn lemma_checked_are_well_typed(
    arguments: Seq<ExpressionView>,
    known: Knowledge,
    start: Position,
    diagnostics: Seq<DiagnosticView>,
)
    requires
        all_whole(arguments, known),
        is_sound_library(known.library),
        check_arguments(arguments, known, start, diagnostics).len() == diagnostics.len(),
    ensures
        all_well_typed(arguments, known),
    decreases arguments, 1int,
{
    if arguments.len() > 0 {
        let before = check_arguments(arguments.drop_last(), known, start, diagnostics);
        lemma_check_arguments_adds(arguments.drop_last(), known, start, diagnostics);
        lemma_check_adds(arguments.last(), known, start, before);
        lemma_checked_are_well_typed(arguments.drop_last(), known, start, diagnostics);
        lemma_checked_is_well_typed(arguments.last(), known, start, before);
    }
}

} // verus!
