//! What the compiler promises of the declarations that it gathers: every
//! variable is declared once, and every variable that has a type has a
//! default value of that type.

use crate::compiler::ast::{
    ClauseView, ExpressionView, LinePartView, ShortcutOptionView, StatementView,
};
use crate::compiler::compile::{
    check_names, check_titles, compiled, declare_units, initial_values_of, parse_files,
    SourceFileView,
};
use crate::compiler::declaration::{DeclarationView, Position};
use crate::compiler::declaration_pass::{
    declaration_index, declare, declare_clauses, declare_options, declare_statement,
    declare_statements, declared_names, explicit_declaration, literal_value, Declared,
};
use crate::compiler::string_table::Origin;
use crate::compiler::type_checker::{
    expect_arguments, expect_type, implicit_declaration, infer_clauses, infer_options,
    infer_parts, infer_statement, infer_statements, infer_units, is_comparison, is_equality,
    is_known, is_logical, known_or, note_variable, parameter_type, solve, type_of, typed_count,
    unary_operand_type, variable_type, Site, UnitView,
};
use crate::program::InitialValueView;
use crate::runtime::library::FunctionSignatureView;
use crate::runtime::virtual_machine::MachineView;
use crate::soundness::variables_typed;
use crate::text::{lemma_position_of, position_of};
use crate::types::TypeView;
use crate::value::{Number, YarnValueView};
use vstd::prelude::*;

verus! {

/// Whether a declaration is settled: it has a type of values and a
/// default value of that type, or neither.
pub open spec fn is_settled(declaration: DeclarationView) -> bool {
    match declaration.ty {
        Some(ty) => is_known(ty) && declaration.default_value is Some
            && declaration.default_value.unwrap().type_of() == ty,
        None => declaration.default_value is None,
    }
}

/// Whether no variable is declared twice and every declaration is
/// settled.
pub open spec fn are_settled(declarations: Seq<DeclarationView>) -> bool {
    &&& forall|i: int, j: int|
        0 <= i < j < declarations.len() ==> declarations[i].name != declarations[j].name
    &&& forall|i: int| 0 <= i < declarations.len() ==> is_settled(#[trigger] declarations[i])
}

/// Settled declarations with one more of a name that none of them has
/// are settled if the new one is.
pub proof fn lemma_settled_with(
    declarations: Seq<DeclarationView>,
    declaration: DeclarationView,
)
    requires
        are_settled(declarations),
        is_settled(declaration),
        declaration_index(declarations, declaration.name) is None,
    ensures
        are_settled(declarations.push(declaration)),
{
    lemma_position_of(declared_names(declarations), declaration.name);
    let after = declarations.push(declaration);
    assert forall|i: int, j: int| 0 <= i < j < after.len() implies after[i].name
        != after[j].name by {
        if j == declarations.len() {
            assert(declared_names(declarations)[i] != declaration.name);
        }
    }
}

/// Noting the type of a variable keeps the declarations settled.
pub proof fn lemma_note_keeps(
    declarations: Seq<DeclarationView>,
    origin: Origin,
    name: Seq<char>,
    ty: TypeView,
    start: Position,
)
    requires
        are_settled(declarations),
    ensures
        are_settled(note_variable(declarations, origin, name, ty, start)),
{
    match declaration_index(declarations, name) {
        None => {
            lemma_settled_with(
                declarations,
                implicit_declaration(origin, name, ty, start),
            );
        },
        Some(i) => {
            lemma_position_of(declared_names(declarations), name);
        },
    }
}

/// Looking at an expression keeps the declarations settled.
pub proof fn lemma_expect_type_keeps(
    expression: ExpressionView,
    expected: TypeView,
    declarations: Seq<DeclarationView>,
    site: Site,
)
    requires
        are_settled(declarations),
    ensures
        are_settled(expect_type(expression, expected, declarations, site)),
    decreases expression, 0int,
{
    match expression {
        ExpressionView::Variable(name) => {
            let target = known_or(
                expected,
                type_of(expression, declarations, site.library),
            );
            lemma_note_keeps(declarations, site.origin, name, target, site.start);
        },
        ExpressionView::Unary { operator, operand } => {
            lemma_expect_type_keeps(
                *operand,
                unary_operand_type(operator),
                declarations,
                site,
            );
        },
        ExpressionView::Binary { operator, left, right } => {
            let target = known_or(
                expected,
                type_of(expression, declarations, site.library),
            );
            let operands = if is_logical(operator) {
                TypeView::Bool
            } else if is_equality(operator)
                || is_comparison(operator) {
                known_or(
                    type_of(*left, declarations, site.library),
                    type_of(*right, declarations, site.library),
                )
            } else {
                target
            };
            lemma_expect_type_keeps(*left, operands, declarations, site);
            lemma_expect_type_keeps(
                *right,
                operands,
                expect_type(*left, operands, declarations, site),
                site,
            );
        },
        ExpressionView::Call { function, arguments } => {
            lemma_expect_arguments_keeps(arguments, function, declarations, site);
        },
        _ => {},
    }
}

/// Looking at the arguments of a call keeps the declarations settled.
pub proof fn lemma_expect_arguments_keeps(
    arguments: Seq<ExpressionView>,
    function: Seq<char>,
    declarations: Seq<DeclarationView>,
    site: Site,
)
    requires
        are_settled(declarations),
    ensures
        are_settled(expect_arguments(arguments, function, declarations, site)),
    decreases arguments, 1int,
{
    if arguments.len() > 0 {
        lemma_expect_arguments_keeps(arguments.drop_last(), function, declarations, site);
        lemma_expect_type_keeps(
            arguments.last(),
            parameter_type(
                site.library,
                function,
                arguments.len() - 1,
            ),
            expect_arguments(arguments.drop_last(), function, declarations, site),
            site,
        );
    }
}

/// Looking at the parts of a line keeps the declarations settled.
pub proof fn lemma_infer_parts_keeps(
    parts: Seq<LinePartView>,
    declarations: Seq<DeclarationView>,
    site: Site,
)
    requires
        are_settled(declarations),
    ensures
        are_settled(infer_parts(parts, declarations, site)),
    decreases parts.len(),
{
    if parts.len() > 0 {
        lemma_infer_parts_keeps(parts.drop_last(), declarations, site);
        match parts.last() {
            LinePartView::Expression(expression) => {
                lemma_expect_type_keeps(
                    expression,
                    TypeView::Undefined,
                    infer_parts(parts.drop_last(), declarations, site),
                    site,
                );
            },
            LinePartView::Text(_) => {},
        }
    }
}

/// Looking at the statements of a list keeps the declarations settled.
pub proof fn lemma_infer_statements_keeps(
    statements: Seq<StatementView>,
    declarations: Seq<DeclarationView>,
    origin: Origin,
    library: Map<Seq<char>, FunctionSignatureView>,
)
    requires
        are_settled(declarations),
    ensures
        are_settled(infer_statements(statements, declarations, origin, library)),
    decreases statements, 1int,
{
    if statements.len() > 0 {
        lemma_infer_statements_keeps(statements.drop_last(), declarations, origin, library);
        lemma_infer_statement_keeps(
            statements.last(),
            infer_statements(statements.drop_last(), declarations, origin, library),
            origin,
            library,
        );
    }
}

/// Looking at a statement keeps the declarations settled.
pub proof fn lemma_infer_statement_keeps(
    statement: StatementView,
    declarations: Seq<DeclarationView>,
    origin: Origin,
    library: Map<Seq<char>, FunctionSignatureView>,
)
    requires
        are_settled(declarations),
    ensures
        are_settled(infer_statement(statement, declarations, origin, library)),
    decreases statement, 0int,
{
    match statement {
        StatementView::Line { parts, hashtags, start } => {
            lemma_infer_parts_keeps(parts, declarations, Site { origin, start, library });
        },
        StatementView::Command { parts, start } => {
            lemma_infer_parts_keeps(parts, declarations, Site { origin, start, library });
        },
        StatementView::Options { options, start } => {
            lemma_infer_options_keeps(options, declarations, origin, library);
        },
        StatementView::If { clauses, otherwise, start } => {
            lemma_infer_clauses_keeps(clauses, declarations, origin, library, start);
            match otherwise {
                Some(body) => {
                    lemma_infer_statements_keeps(
                        body,
                        infer_clauses(clauses, declarations, origin, library, start),
                        origin,
                        library,
                    );
                },
                None => {},
            }
        },
        StatementView::Assign { variable, value, start } => {
            let site = Site { origin, start, library };
            let wanted = known_or(
                variable_type(declarations, variable),
                type_of(value, declarations, library),
            );
            lemma_expect_type_keeps(value, wanted, declarations, site);
            let after = expect_type(value, wanted, declarations, site);
            lemma_note_keeps(
                after,
                origin,
                variable,
                known_or(
                    wanted,
                    type_of(value, after, library),
                ),
                start,
            );
        },
        StatementView::Call { call, start } => {
            lemma_expect_type_keeps(
                call,
                TypeView::Undefined,
                declarations,
                Site { origin, start, library },
            );
        },
        _ => {},
    }
}

/// Looking at the options of a group keeps the declarations settled.
pub proof fn lemma_infer_options_keeps(
    options: Seq<ShortcutOptionView>,
    declarations: Seq<DeclarationView>,
    origin: Origin,
    library: Map<Seq<char>, FunctionSignatureView>,
)
    requires
        are_settled(declarations),
    ensures
        are_settled(infer_options(options, declarations, origin, library)),
    decreases options, 1int,
{
    if options.len() > 0 {
        let option = options.last();
        let site = Site { origin, start: option.start, library };
        lemma_infer_options_keeps(options.drop_last(), declarations, origin, library);
        let before = infer_options(options.drop_last(), declarations, origin, library);
        lemma_infer_parts_keeps(option.parts, before, site);
        let in_line = infer_parts(option.parts, before, site);
        let in_condition = match option.condition {
            Some(condition) => {
                lemma_expect_type_keeps(condition, TypeView::Bool, in_line, site);
                expect_type(condition, TypeView::Bool, in_line, site)
            },
            None => in_line,
        };
        lemma_infer_statements_keeps(option.body, in_condition, origin, library);
    }
}

/// Looking at the clauses of an `<<if>>` keeps the declarations settled.
pub proof fn lemma_infer_clauses_keeps(
    clauses: Seq<ClauseView>,
    declarations: Seq<DeclarationView>,
    origin: Origin,
    library: Map<Seq<char>, FunctionSignatureView>,
    start: Position,
)
    requires
        are_settled(declarations),
    ensures
        are_settled(infer_clauses(clauses, declarations, origin, library, start)),
    decreases clauses, 1int,
{
    if clauses.len() > 0 {
        lemma_infer_clauses_keeps(clauses.drop_last(), declarations, origin, library, start);
        let before = infer_clauses(clauses.drop_last(), declarations, origin, library, start);
        let site = Site { origin, start, library };
        lemma_expect_type_keeps(clauses.last().condition, TypeView::Bool, before, site);
        lemma_infer_statements_keeps(
            clauses.last().body,
            expect_type(clauses.last().condition, TypeView::Bool, before, site),
            origin,
            library,
        );
    }
}

/// A pass over all the nodes keeps the declarations settled.
pub proof fn lemma_infer_units_keeps(
    units: Seq<UnitView>,
    declarations: Seq<DeclarationView>,
    library: Map<Seq<char>, FunctionSignatureView>,
)
    requires
        are_settled(declarations),
    ensures
        are_settled(infer_units(units, declarations, library)),
    decreases units.len(),
{
    if units.len() > 0 {
        lemma_infer_units_keeps(units.drop_last(), declarations, library);
        lemma_infer_statements_keeps(
            units.last().body,
            infer_units(units.drop_last(), declarations, library),
            units.last().origin,
            library,
        );
    }
}

/// Finding the types of the variables keeps the declarations settled.
pub proof fn lemma_solve_keeps(
    units: Seq<UnitView>,
    declarations: Seq<DeclarationView>,
    library: Map<Seq<char>, FunctionSignatureView>,
    fuel: nat,
)
    requires
        are_settled(declarations),
    ensures
        are_settled(solve(units, declarations, library, fuel)),
    decreases fuel,
{
    lemma_infer_units_keeps(units, declarations, library);
    let next = infer_units(units, declarations, library);
    if !(fuel == 0 || (next.len() == declarations.len()
        && typed_count(next)
        == typed_count(declarations))) {
        lemma_solve_keeps(units, next, library, (fuel - 1) as nat);
    }
}

/// A `<<declare>>` keeps the declarations settled.
pub proof fn lemma_declare_keeps(
    declared: Declared,
    origin: Origin,
    variable: Seq<char>,
    value: ExpressionView,
    start: Position,
    numbers: spec_fn(Seq<char>) -> Option<Number>,
)
    requires
        are_settled(declared.declarations),
    ensures
        are_settled(declare(declared, origin, variable, value, start, numbers).declarations),
{
    match literal_value(value, numbers) {
        None => {},
        Some(literal) => {
            if declaration_index(declared.declarations, variable) is None {
                lemma_settled_with(
                    declared.declarations,
                    explicit_declaration(origin, variable, literal, start),
                );
            }
        },
    }
}

/// The declarations of a list of statements keep the declarations
/// settled.
pub proof fn lemma_declare_statements_keeps(
    declared: Declared,
    origin: Origin,
    statements: Seq<StatementView>,
    numbers: spec_fn(Seq<char>) -> Option<Number>,
)
    requires
        are_settled(declared.declarations),
    ensures
        are_settled(declare_statements(declared, origin, statements, numbers).declarations),
    decreases statements, 1int,
{
    if statements.len() > 0 {
        lemma_declare_statements_keeps(declared, origin, statements.drop_last(), numbers);
        lemma_declare_statement_keeps(
            declare_statements(declared, origin, statements.drop_last(), numbers),
            origin,
            statements.last(),
            numbers,
        );
    }
}

/// The declarations of a statement keep the declarations settled.
pub proof fn lemma_declare_statement_keeps(
    declared: Declared,
    origin: Origin,
    statement: StatementView,
    numbers: spec_fn(Seq<char>) -> Option<Number>,
)
    requires
        are_settled(declared.declarations),
    ensures
        are_settled(declare_statement(declared, origin, statement, numbers).declarations),
    decreases statement, 0int,
{
    match statement {
        StatementView::Declare { variable, value, start } => {
            lemma_declare_keeps(declared, origin, variable, value, start, numbers);
        },
        StatementView::Options { options, start } => {
            lemma_declare_options_keeps(declared, origin, options, numbers);
        },
        StatementView::If { clauses, otherwise, start } => {
            lemma_declare_clauses_keeps(declared, origin, clauses, numbers);
            match otherwise {
                Some(body) => {
                    lemma_declare_statements_keeps(
                        declare_clauses(declared, origin, clauses, numbers),
                        origin,
                        body,
                        numbers,
                    );
                },
                None => {},
            }
        },
        _ => {},
    }
}

/// The declarations in the bodies of options keep the declarations
/// settled.
pub proof fn lemma_declare_options_keeps(
    declared: Declared,
    origin: Origin,
    options: Seq<ShortcutOptionView>,
    numbers: spec_fn(Seq<char>) -> Option<Number>,
)
    requires
        are_settled(declared.declarations),
    ensures
        are_settled(declare_options(declared, origin, options, numbers).declarations),
    decreases options, 1int,
{
    if options.len() > 0 {
        lemma_declare_options_keeps(declared, origin, options.drop_last(), numbers);
        lemma_declare_statements_keeps(
            declare_options(declared, origin, options.drop_last(), numbers),
            origin,
            options.last().body,
            numbers,
        );
    }
}

/// The declarations in the bodies of clauses keep the declarations
/// settled.
pub proof fn lemma_declare_clauses_keeps(
    declared: Declared,
    origin: Origin,
    clauses: Seq<ClauseView>,
    numbers: spec_fn(Seq<char>) -> Option<Number>,
)
    requires
        are_settled(declared.declarations),
    ensures
        are_settled(declare_clauses(declared, origin, clauses, numbers).declarations),
    decreases clauses, 1int,
{
    if clauses.len() > 0 {
        lemma_declare_clauses_keeps(declared, origin, clauses.drop_last(), numbers);
        lemma_declare_statements_keeps(
            declare_clauses(declared, origin, clauses.drop_last(), numbers),
            origin,
            clauses.last().body,
            numbers,
        );
    }
}

/// The declarations in the nodes keep the declarations settled.
pub proof fn lemma_declare_units_keeps(
    units: Seq<UnitView>,
    declared: Declared,
    numbers: spec_fn(Seq<char>) -> Option<Number>,
)
    requires
        are_settled(declared.declarations),
    ensures
        are_settled(declare_units(units, declared, numbers).declarations),
    decreases units.len(),
{
    if units.len() > 0 {
        lemma_declare_units_keeps(units.drop_last(), declared, numbers);
        lemma_declare_statements_keeps(
            declare_units(units.drop_last(), declared, numbers),
            units.last().origin,
            units.last().body,
            numbers,
        );
    }
}

/// The declarations of a compilation are settled.
pub proof fn lemma_compiled_is_settled(
    files: Seq<SourceFileView>,
    library: Map<Seq<char>, FunctionSignatureView>,
    numbers: spec_fn(Seq<char>) -> Option<Number>,
)
    ensures
        are_settled(compiled(files, library, numbers).declarations),
{
    let parse = parse_files(files);
    let units = parse.units;
    let named = check_names(units, units.len() as int, check_titles(units, parse.diagnostics));
    let start = Declared { declarations: Seq::empty(), diagnostics: named };
    lemma_declare_units_keeps(units, start, numbers);
    let written = declare_units(units, start, numbers);
    lemma_solve_keeps(units, written.declarations, library, usize::MAX as nat);
}

/// The names of initial values.
pub open spec fn value_names(values: Seq<InitialValueView>) -> Seq<Seq<char>> {
    Seq::new(values.len(), |i: int| values[i].name)
}

/// The initial value of a variable among initial values.
pub open spec fn value_of(values: Seq<InitialValueView>, name: Seq<char>) -> Option<
    YarnValueView,
> {
    match position_of(value_names(values), name) {
        Some(i) => Some(values[i].value),
        None => None,
    }
}

/// Where no variable is declared twice, the initial value of a variable
/// is the default value of its declaration.
pub proof fn lemma_initial_value(declarations: Seq<DeclarationView>, name: Seq<char>)
    requires
        forall|i: int, j: int|
            0 <= i < j < declarations.len() ==> declarations[i].name != declarations[j].name,
    ensures
        value_of(initial_values_of(declarations), name) == match declaration_index(
            declarations,
            name,
        ) {
            Some(i) => declarations[i].default_value,
            None => None,
        },
    decreases declarations.len(),
{
    if declarations.len() > 0 {
        let front = declarations.drop_last();
        let last = declarations.last();
        lemma_initial_value(front, name);
        lemma_position_of(declared_names(front), name);
        let before = initial_values_of(front);
        let values = initial_values_of(declarations);
        assert(declared_names(declarations).drop_last() =~= declared_names(front));
        if last.default_value is Some {
            assert(value_names(values).drop_last() =~= value_names(before));
        }
        match declaration_index(front, name) {
            Some(i) => {
                assert(declared_names(front)[i] == name);
                assert(declarations[i].name == name);
                assert(last.name != name);
                if value_of(before, name) is Some {
                    let k = position_of(value_names(before), name).unwrap();
                    lemma_position_of(value_names(before), name);
                    assert(values[k] == before[k]);
                }
            },
            None => {},
        }
    }
}

/// Whether the variable storage holds nothing but values of the declared
/// types of their variables.
pub open spec fn storage_is_typed(
    variables: Map<Seq<char>, YarnValueView>,
    declarations: Seq<DeclarationView>,
) -> bool {
    forall|name: Seq<char>|
        #[trigger] variables.contains_key(name) && is_known(variable_type(declarations, name))
            ==> variables[name].type_of() == variable_type(declarations, name)
}

/// The variables of a machine hold values of their declared types if the
/// storage does, the declarations are settled, and the initial values of
/// the program are the default values of the declarations.
pub proof fn lemma_variables_are_typed(machine: MachineView, declarations: Seq<DeclarationView>)
    requires
        machine.program is Some,
        machine.program.unwrap().initial_values == initial_values_of(declarations),
        are_settled(declarations),
        storage_is_typed(machine.variables, declarations),
    ensures
        variables_typed(machine, declarations),
{
    assert forall|name: Seq<char>|
        is_known(variable_type(declarations, name)) implies (#[trigger] machine.variable(
        name,
    )).type_of() == variable_type(declarations, name) by {
        lemma_initial_value(declarations, name);
        lemma_position_of(declared_names(declarations), name);
        assert(machine.program.unwrap().initial_value_names() =~= value_names(
            initial_values_of(declarations),
        ));
        if !machine.variables.contains_key(name) {
            let i = declaration_index(declarations, name).unwrap();
            assert(is_settled(declarations[i]));
        }
    }
}

} // verus!
