//! What holds of the code that shows options: behind every instruction
//! that shows options stands the jump that takes the selected option up.

use crate::compiler::ast::{
    ClauseView, ExpressionView, LinePartView, ShortcutOptionView, StatementView,
};
use crate::compiler::code_generator::{
    generate, label_name, lower_arguments, lower_clauses, lower_condition, lower_expression,
    lower_option_bodies, lower_option_lines, lower_parts, lower_statement, lower_statements,
    next_number, number_after, Emitted, Generation,
};
use crate::compiler::type_checker::Knowledge;
use crate::program::InstructionView;
use vstd::prelude::*;

verus! {

/// Whether no instruction of the code shows options.
pub open spec fn shows_nothing(code: Seq<InstructionView>) -> bool {
    forall|i: int| 0 <= i < code.len() ==> !((#[trigger] code[i]) is ShowOptions)
}

/// Whether a jump to the label on top of the stack stands behind every
/// instruction of the code that shows options.
pub open spec fn jumps_behind_options(code: Seq<InstructionView>) -> bool {
    forall|i: int|
        0 <= i < code.len() && (#[trigger] code[i]) is ShowOptions ==> i + 1 < code.len()
            && code[i + 1] is Jump
}

/// The code of an expression shows no options.
pub proof fn lemma_expression_shows_nothing(expression: ExpressionView, known: Knowledge)
    ensures
        shows_nothing(lower_expression(expression, known)),
    decreases expression, 0int,
{
    match expression {
        ExpressionView::Call { function, arguments } => {
            lemma_arguments_show_nothing(arguments, known);
        },
        ExpressionView::Unary { operator, operand } => {
            lemma_expression_shows_nothing(*operand, known);
        },
        ExpressionView::Binary { operator, left, right } => {
            lemma_expression_shows_nothing(*left, known);
            lemma_expression_shows_nothing(*right, known);
        },
        _ => {},
    }
}

/// The code of the arguments of a call shows no options.
pub proof fn lemma_arguments_show_nothing(arguments: Seq<ExpressionView>, known: Knowledge)
    ensures
        shows_nothing(lower_arguments(arguments, known)),
    decreases arguments, 1int,
{
    if arguments.len() > 0 {
        lemma_arguments_show_nothing(arguments.drop_last(), known);
        lemma_expression_shows_nothing(arguments.last(), known);
    }
}

/// The code of the expressions of a line shows no options.
pub proof fn lemma_parts_show_nothing(parts: Seq<LinePartView>, known: Knowledge)
    ensures
        shows_nothing(lower_parts(parts, known)),
    decreases parts.len(),
{
    if parts.len() > 0 {
        lemma_parts_show_nothing(parts.drop_last(), known);
        match parts.last() {
            LinePartView::Expression(expression) => {
                lemma_expression_shows_nothing(expression, known);
            },
            LinePartView::Text(_) => {},
        }
    }
}

/// Code that shows no options, and one more instruction that shows none,
/// behind code in which a jump stands behind every instruction that shows
/// options, leave it so.
pub proof fn lemma_more_code(emitted: Emitted, code: Seq<InstructionView>, last: InstructionView)
    requires
        jumps_behind_options(emitted.instructions),
        shows_nothing(code),
        !(last is ShowOptions),
    ensures
        jumps_behind_options(emitted.emit_all(code).instructions),
        jumps_behind_options(emitted.emit_all(code).emit(last).instructions),
        jumps_behind_options(emitted.emit(last).instructions),
{
    let first = emitted.instructions;
    assert forall|i: int| 0 <= i < (first + code).len() && (#[trigger] (first + code)[i])
        is ShowOptions implies i + 1 < (first + code).len() && (first + code)[i + 1] is Jump by {
        if i < first.len() {
            assert(first[i] is ShowOptions);
        } else {
            assert(code[i - first.len()] is ShowOptions);
        }
    }
    assert forall|i: int| 0 <= i < first.push(last).len() && (#[trigger] first.push(last)[i])
        is ShowOptions implies i + 1 < first.push(last).len() && first.push(last)[i + 1]
        is Jump by {
        assert(first[i] is ShowOptions);
    }
    let all = first + code;
    assert forall|i: int| 0 <= i < all.push(last).len() && (#[trigger] all.push(last)[i])
        is ShowOptions implies i + 1 < all.push(last).len() && all.push(last)[i + 1] is Jump by {
        assert(all[i] is ShowOptions);
    }
}

/// The code of a list of statements keeps a jump behind every instruction
/// that shows options.
pub proof fn lemma_statements_jump(
    statements: Seq<StatementView>,
    emitted: Emitted,
    generation: Generation,
)
    requires
        jumps_behind_options(emitted.instructions),
    ensures
        jumps_behind_options(lower_statements(statements, emitted, generation).instructions),
    decreases statements, 1int,
{
    if statements.len() > 0 {
        lemma_statements_jump(statements.drop_last(), emitted, generation);
        lemma_statement_jumps(
            statements.last(),
            lower_statements(statements.drop_last(), emitted, generation),
            generation,
        );
    }
}

/// The code of a statement keeps a jump behind every instruction that
/// shows options.
pub proof fn lemma_statement_jumps(
    statement: StatementView,
    emitted: Emitted,
    generation: Generation,
)
    requires
        jumps_behind_options(emitted.instructions),
    ensures
        jumps_behind_options(lower_statement(statement, emitted, generation).instructions),
    decreases statement, 0int,
{
    let known = generation.known;
    let after = lower_statement(statement, emitted, generation);
    match statement {
        StatementView::Line { parts, hashtags, start } => {
            lemma_parts_show_nothing(parts, known);
            lemma_more_code(emitted, lower_parts(parts, known), after.instructions.last());
        },
        StatementView::Command { parts, start } => {
            lemma_parts_show_nothing(parts, known);
            lemma_more_code(emitted, lower_parts(parts, known), after.instructions.last());
        },
        StatementView::Assign { variable, value, start } => {
            lemma_expression_shows_nothing(value, known);
            lemma_more_code(
                emitted,
                lower_expression(value, known),
                InstructionView::StoreVariable(variable),
            );
            lemma_more_code(
                emitted.emit_all(lower_expression(value, known)).emit(
                    InstructionView::StoreVariable(variable),
                ),
                Seq::empty(),
                InstructionView::Pop,
            );
        },
        StatementView::Declare { variable, value, start } => {},
        StatementView::Jump { destination, start } => {
            lemma_more_code(emitted, Seq::empty(), InstructionView::PushString(destination));
            lemma_more_code(
                emitted.emit(InstructionView::PushString(destination)),
                Seq::empty(),
                InstructionView::RunNode,
            );
        },
        StatementView::Stop { start } => {
            lemma_more_code(emitted, Seq::empty(), InstructionView::Stop);
        },
        StatementView::Call { call, start } => {
            lemma_expression_shows_nothing(call, known);
            lemma_more_code(emitted, lower_expression(call, known), InstructionView::Pop);
        },
        StatementView::If { clauses, otherwise, start } => {
            let end = emitted.next_label;
            lemma_clauses_jump(clauses, emitted.reserve(1), end, generation);
            match otherwise {
                Some(body) => {
                    lemma_statements_jump(
                        body,
                        lower_clauses(clauses, emitted.reserve(1), end, generation),
                        generation,
                    );
                },
                None => {},
            }
        },
        StatementView::Options { options, start } => {
            let end = emitted.next_label;
            let first = next_number(end);
            let reserved = emitted.reserve(1 + options.len());
            lemma_option_lines_jump(options, reserved, first, generation);
            let in_lines = lower_option_lines(options, reserved, first, generation);
            let shown = in_lines.emit(InstructionView::ShowOptions).emit(InstructionView::Jump);
            let code = in_lines.instructions;
            assert forall|i: int|
                0 <= i < shown.instructions.len() && (#[trigger] shown.instructions[i])
                    is ShowOptions implies i + 1 < shown.instructions.len()
                && shown.instructions[i + 1] is Jump by {
                if i < code.len() {
                    assert(code[i] is ShowOptions);
                }
            }
            lemma_option_bodies_jump(options, shown, first, end, generation);
        },
    }
}

/// The code of the clauses of an `<<if>>` keeps a jump behind every
/// instruction that shows options.
pub proof fn lemma_clauses_jump(
    clauses: Seq<ClauseView>,
    emitted: Emitted,
    end: usize,
    generation: Generation,
)
    requires
        jumps_behind_options(emitted.instructions),
    ensures
        jumps_behind_options(lower_clauses(clauses, emitted, end, generation).instructions),
    decreases clauses, 1int,
{
    if clauses.len() > 0 {
        lemma_clauses_jump(clauses.drop_last(), emitted, end, generation);
        let before = lower_clauses(clauses.drop_last(), emitted, end, generation);
        let skip = before.next_label;
        let condition = lower_expression(clauses.last().condition, generation.known);
        lemma_expression_shows_nothing(clauses.last().condition, generation.known);
        let jump = InstructionView::JumpIfFalse(
            label_name(skip),
        );
        lemma_more_code(before.reserve(1), condition, jump);
        let tested = before.reserve(1).emit_all(condition).emit(jump);
        lemma_more_code(tested, Seq::empty(), InstructionView::Pop);
        lemma_statements_jump(clauses.last().body, tested.emit(InstructionView::Pop), generation);
        let in_body = lower_statements(
            clauses.last().body,
            tested.emit(InstructionView::Pop),
            generation,
        );
        let away = InstructionView::JumpTo(label_name(end));
        lemma_more_code(in_body, Seq::empty(), away);
        lemma_more_code(in_body.emit(away).place(skip), Seq::empty(), InstructionView::Pop);
    }
}

/// The code that adds the options of a group keeps a jump behind every
/// instruction that shows options.
pub proof fn lemma_option_lines_jump(
    options: Seq<ShortcutOptionView>,
    emitted: Emitted,
    first: usize,
    generation: Generation,
)
    requires
        jumps_behind_options(emitted.instructions),
    ensures
        jumps_behind_options(
            lower_option_lines(options, emitted, first, generation).instructions,
        ),
    decreases options.len(),
{
    if options.len() > 0 {
        lemma_option_lines_jump(options.drop_last(), emitted, first, generation);
        let before = lower_option_lines(options.drop_last(), emitted, first, generation);
        let after = lower_option_lines(options, emitted, first, generation);
        match options.last().condition {
            Some(condition) => {
                lemma_expression_shows_nothing(condition, generation.known);
            },
            None => {},
        }
        lemma_more_code(
            before,
            lower_condition(options.last().condition, generation.known),
            after.instructions.last(),
        );
    }
}

/// The code of what follows the options of a group keeps a jump behind
/// every instruction that shows options.
pub proof fn lemma_option_bodies_jump(
    options: Seq<ShortcutOptionView>,
    emitted: Emitted,
    first: usize,
    end: usize,
    generation: Generation,
)
    requires
        jumps_behind_options(emitted.instructions),
    ensures
        jumps_behind_options(
            lower_option_bodies(options, emitted, first, end, generation).instructions,
        ),
    decreases options, 1int,
{
    if options.len() > 0 {
        lemma_option_bodies_jump(options.drop_last(), emitted, first, end, generation);
        let before = lower_option_bodies(options.drop_last(), emitted, first, end, generation);
        let placed = before.place(
            number_after(first, (options.len() - 1) as nat),
        );
        lemma_more_code(placed, Seq::empty(), InstructionView::Pop);
        lemma_statements_jump(options.last().body, placed.emit(InstructionView::Pop), generation);
        lemma_more_code(
            lower_statements(options.last().body, placed.emit(InstructionView::Pop), generation),
            Seq::empty(),
            InstructionView::JumpTo(label_name(end)),
        );
    }
}

/// In the code of the body of a node, a jump to the label on top of the
/// stack stands behind every instruction that shows options.
pub proof fn lemma_generated_code_jumps(statements: Seq<StatementView>, generation: Generation)
    ensures
        jumps_behind_options(generate(statements, generation).instructions),
{
    lemma_statements_jump(
        statements,
        Emitted { instructions: Seq::empty(), labels: Seq::empty(), next_label: 0 },
        generation,
    );
}

} // verus!
