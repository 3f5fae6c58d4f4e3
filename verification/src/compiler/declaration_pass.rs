//! The declaration pass: it gathers the variables that a program declares.

use crate::compiler::ast::{
    lemma_statements_view, ClauseView, Expression, ExpressionView, ShortcutOptionView, Statement,
    StatementView,
};
use crate::compiler::declaration::{
    Declaration, DeclarationSource, DeclarationSourceView, DeclarationView, Position,
};
use crate::compiler::diagnostic::{Diagnostic, DiagnosticSeverity, DiagnosticView};
use crate::compiler::lexer::characters;
use crate::compiler::numbers::{meaning_of, NumberParser};
use crate::compiler::string_table::{origin_of, Origin};
use crate::text::{lemma_position_absent, lemma_position_is_first, position_of, str_eq};
use crate::types::{Type, TypeView};
use crate::value::{Number, YarnValue, YarnValueView};
use std::ops::RangeInclusive;
use vstd::prelude::*;

verus! {

/// The error that the statement at a position gives rise to.
pub open spec fn error_in_statement(start: Position, message: Seq<char>) -> DiagnosticView {
    DiagnosticView {
        start,
        stop: start,
        severity: DiagnosticSeverity::Error,
        message,
        context: None,
    }
}

/// Reports an error of the statement at a position.
pub fn report_statement(start: Position, message: &str, diagnostics: &mut Vec<Diagnostic>)
    ensures
        final(diagnostics).deep_view() == old(diagnostics).deep_view().push(
            error_in_statement(start, message@),
        ),
{
    let diagnostic = Diagnostic::from_message(
        RangeInclusive::new(start, start),
        message.to_owned(),
    );
    diagnostics.push(diagnostic);
    proof {
        assert(diagnostics.deep_view() =~= old(diagnostics).deep_view().push(
            error_in_statement(start, message@),
        ));
    }
}

/// The names of the declarations, in their order.
pub open spec fn declared_names(declarations: Seq<DeclarationView>) -> Seq<Seq<char>> {
    Seq::new(declarations.len(), |i: int| declarations[i].name)
}

/// The index of the declaration of a variable.
pub open spec fn declaration_index(declarations: Seq<DeclarationView>, name: Seq<char>) -> Option<
    int,
> {
    position_of(declared_names(declarations), name)
}

/// The index of the declaration of a variable.
pub fn find_declaration(declarations: &Vec<Declaration>, name: &str) -> (index: Option<usize>)
    ensures
        match index {
            Some(i) => declaration_index(declarations.deep_view(), name@) == Some(i as int) && i
                < declarations.len(),
            None => declaration_index(declarations.deep_view(), name@) is None,
        },
{
    let ghost names = declared_names(declarations.deep_view());
    let mut i: usize = 0;
    while i < declarations.len()
        invariant
            i <= declarations.len(),
            names == declared_names(declarations.deep_view()),
            forall|j: int| 0 <= j < i ==> names[j] != name@,
        decreases declarations.len() - i,
    {
        if str_eq(declarations[i].name.as_str(), name) {
            proof {
                lemma_position_is_first(names, name@, i as int);
            }
            return Some(i);
        }
        i = i + 1;
    }
    proof {
        lemma_position_absent(names, name@);
    }
    None
}

/// The value that a literal stands for; `None` for an expression that is
/// no literal, and for a number literal that stands for no number.
pub open spec fn literal_value(
    expression: ExpressionView,
    numbers: spec_fn(Seq<char>) -> Option<Number>,
) -> Option<YarnValueView> {
    match expression {
        ExpressionView::Number(literal) => match numbers(literal) {
            Some(number) => Some(YarnValueView::Number(number)),
            None => None,
        },
        ExpressionView::Text(text) => Some(YarnValueView::String(text)),
        ExpressionView::Bool(truth) => Some(YarnValueView::Bool(truth)),
        _ => None,
    }
}

/// The value that a literal stands for.
pub fn value_of_literal<N: NumberParser>(expression: &Expression, numbers: &N) -> (value: Option<
    YarnValue,
>)
    ensures
        value.deep_view() == literal_value(
            expression@,
            meaning_of(numbers),
        ),
{
    match expression {
        Expression::Number(literal) => match numbers.parse(literal.as_str()) {
            Some(number) => Some(YarnValue::Number(number)),
            None => None,
        },
        Expression::Text(text) => Some(YarnValue::String(text.clone())),
        Expression::Bool(truth) => Some(YarnValue::Bool(*truth)),
        _ => None,
    }
}

/// Where a name ends that starts at `start`: at its last character, on the
/// same line. A name without characters ends where it starts.
pub open spec fn name_end(start: Position, name: Seq<char>) -> Position {
    if name.len() == 0 || start.character + name.len() - 1 > usize::MAX {
        start
    } else {
        Position { line: start.line, character: (start.character + name.len() - 1) as usize }
    }
}

/// Where a name ends that starts at `start`.
pub fn end_of_name(start: Position, name: &str) -> (end: Position)
    ensures
        end == name_end(start, name@),
{
    let length = characters(name).len();
    if length == 0 || start.character > usize::MAX - (length - 1) {
        start
    } else {
        Position { line: start.line, character: start.character + (length - 1) }
    }
}

/// The declaration that `<<declare>>` makes of a variable and its value.
/// Its range is that of the name of the variable, which starts at `start`.
pub open spec fn explicit_declaration(
    origin: Origin,
    variable: Seq<char>,
    value: YarnValueView,
    start: Position,
) -> DeclarationView {
    DeclarationView {
        name: variable,
        default_value: Some(value),
        description: None,
        source_file_name: DeclarationSourceView::File(origin.file_name),
        source_node_name: Some(origin.node_name),
        is_implicit: false,
        ty: Some(value.type_of()),
        range: Some((start, name_end(start, variable))),
    }
}

/// The declarations and the diagnostics that the pass has gathered.
pub struct Declared {
    pub declarations: Seq<DeclarationView>,
    pub diagnostics: Seq<DiagnosticView>,
}

/// What a `<<declare>>` adds. Its value must be a literal. A variable may
/// be declared again with a value of the same type, which changes nothing;
/// with a value of another type it is an error.
pub open spec fn declare(
    declared: Declared,
    origin: Origin,
    variable: Seq<char>,
    value: ExpressionView,
    start: Position,
    numbers: spec_fn(Seq<char>) -> Option<Number>,
) -> Declared {
    match literal_value(value, numbers) {
        None => Declared {
            diagnostics: declared.diagnostics.push(
                error_in_statement(start, "Expected a literal as the value of a declaration"@),
            ),
            ..declared
        },
        Some(literal) => match declaration_index(declared.declarations, variable) {
            None => Declared {
                declarations: declared.declarations.push(
                    explicit_declaration(origin, variable, literal, start),
                ),
                ..declared
            },
            Some(i) => if declared.declarations[i].ty == Some(literal.type_of()) {
                declared
            } else {
                Declared {
                    diagnostics: declared.diagnostics.push(
                        error_in_statement(
                            start,
                            "A variable is declared twice with values of different types"@,
                        ),
                    ),
                    ..declared
                }
            },
        },
    }
}

/// What the declarations in a list of statements add, those in the bodies
/// of options and clauses included.
pub open spec fn declare_statements(
    declared: Declared,
    origin: Origin,
    statements: Seq<StatementView>,
    numbers: spec_fn(Seq<char>) -> Option<Number>,
) -> Declared
    decreases statements, 1int,
{
    if statements.len() == 0 {
        declared
    } else {
        declare_statement(
            declare_statements(declared, origin, statements.drop_last(), numbers),
            origin,
            statements.last(),
            numbers,
        )
    }
}

/// What the declarations in a statement add.
pub open spec fn declare_statement(
    declared: Declared,
    origin: Origin,
    statement: StatementView,
    numbers: spec_fn(Seq<char>) -> Option<Number>,
) -> Declared
    decreases statement, 0int,
{
    match statement {
        StatementView::Declare { variable, value, start } => declare(
            declared,
            origin,
            variable,
            value,
            start,
            numbers,
        ),
        StatementView::Options { options, start } => declare_options(
            declared,
            origin,
            options,
            numbers,
        ),
        StatementView::If { clauses, otherwise, start } => {
            let in_clauses = declare_clauses(declared, origin, clauses, numbers);
            match otherwise {
                Some(body) => declare_statements(in_clauses, origin, body, numbers),
                None => in_clauses,
            }
        },
        _ => declared,
    }
}

/// What the declarations in the bodies of options add.
pub open spec fn declare_options(
    declared: Declared,
    origin: Origin,
    options: Seq<ShortcutOptionView>,
    numbers: spec_fn(Seq<char>) -> Option<Number>,
) -> Declared
    decreases options, 1int,
{
    if options.len() == 0 {
        declared
    } else {
        declare_statements(
            declare_options(declared, origin, options.drop_last(), numbers),
            origin,
            options.last().body,
            numbers,
        )
    }
}

/// What the declarations in the bodies of clauses add.
pub open spec fn declare_clauses(
    declared: Declared,
    origin: Origin,
    clauses: Seq<ClauseView>,
    numbers: spec_fn(Seq<char>) -> Option<Number>,
) -> Declared
    decreases clauses, 1int,
{
    if clauses.len() == 0 {
        declared
    } else {
        declare_statements(
            declare_clauses(declared, origin, clauses.drop_last(), numbers),
            origin,
            clauses.last().body,
            numbers,
        )
    }
}

/// What an executable part of the pass has gathered.
pub open spec fn declared(
    declarations: Vec<Declaration>,
    diagnostics: Vec<Diagnostic>,
) -> Declared {
    Declared {
        declarations: declarations.deep_view(),
        diagnostics: diagnostics.deep_view(),
    }
}

fn add_declaration<N: NumberParser>(
    file_name: &str,
    node_name: &str,
    variable: &String,
    value: &Expression,
    start: Position,
    numbers: &N,
    declarations: &mut Vec<Declaration>,
    diagnostics: &mut Vec<Diagnostic>,
)
    ensures
        declared(*final(declarations), *final(diagnostics)) == declare(
            declared(*old(declarations), *old(diagnostics)),
            origin_of(file_name, node_name),
            variable@,
            value@,
            start,
            meaning_of(numbers),
        ),
{
    match value_of_literal(value, numbers) {
        None => {
            report_statement(
                start,
                "Expected a literal as the value of a declaration",
                diagnostics,
            );
        },
        Some(literal) => {
            match find_declaration(declarations, variable.as_str()) {
                None => {
                    let ghost before = declarations.deep_view();
                    let ty = literal.type_of();
                    let declaration = Declaration::default().with_name(
                        variable.clone(),
                    ).with_type(Some(ty)).with_default_value(literal).with_source_file_name(
                        DeclarationSource::File(file_name.to_owned()),
                    ).with_source_node_name(node_name.to_owned()).with_range(
                        RangeInclusive::new(start, end_of_name(start, variable.as_str())),
                    );
                    let ghost added = declaration@;
                    declarations.push(declaration);
                    proof {
                        assert(declarations.deep_view() =~= before.push(added));
                    }
                },
                Some(i) => {
                    let same = match &declarations[i].ty {
                        Some(ty) => ty.same_as(&literal.type_of()),
                        None => false,
                    };
                    if !same {
                        report_statement(
                            start,
                            "A variable is declared twice with values of different types",
                            diagnostics,
                        );
                    }
                },
            }
        },
    }
}

/// Gathers the declarations in a list of statements.
#[verifier::loop_isolation(false)]
pub fn collect_declarations<N: NumberParser>(
    file_name: &str,
    node_name: &str,
    statements: &Vec<Statement>,
    numbers: &N,
    declarations: &mut Vec<Declaration>,
    diagnostics: &mut Vec<Diagnostic>,
)
    ensures
        declared(*final(declarations), *final(diagnostics)) == declare_statements(
            declared(*old(declarations), *old(diagnostics)),
            origin_of(file_name, node_name),
            statements.deep_view(),
            meaning_of(numbers),
        ),
    decreases statements,
{
    let ghost origin = origin_of(file_name, node_name);
    let ghost parser = meaning_of(numbers);
    let ghost start = declared(*declarations, *diagnostics);
    let ghost views = statements.deep_view();
    let mut i: usize = 0;
    proof {
        assert(views.take(0) =~= Seq::empty());
    }
    while i < statements.len()
        invariant
            i <= statements.len(),
            declared(*declarations, *diagnostics) == declare_statements(
                start,
                origin,
                views.take(i as int),
                parser,
            ),
        decreases statements.len() - i,
    {
        proof {
            assert(views.take(i + 1).drop_last() =~= views.take(i as int));
            vstd::std_specs::vec::axiom_vec_index_decreases(*statements, i as int);
        }
        collect_in_statement(
            file_name,
            node_name,
            &statements[i],
            numbers,
            declarations,
            diagnostics,
        );
        i = i + 1;
    }
    proof {
        assert(views.take(i as int) =~= views);
    }
}

#[verifier::loop_isolation(false)]
fn collect_in_statement<N: NumberParser>(
    file_name: &str,
    node_name: &str,
    statement: &Statement,
    numbers: &N,
    declarations: &mut Vec<Declaration>,
    diagnostics: &mut Vec<Diagnostic>,
)
    ensures
        declared(*final(declarations), *final(diagnostics)) == declare_statement(
            declared(*old(declarations), *old(diagnostics)),
            origin_of(file_name, node_name),
            statement@,
            meaning_of(numbers),
        ),
    decreases statement,
{
    let ghost origin = origin_of(file_name, node_name);
    let ghost parser = meaning_of(numbers);
    let ghost start = declared(*declarations, *diagnostics);
    match statement {
        Statement::Declare { variable, value, start } => {
            add_declaration(
                file_name,
                node_name,
                variable,
                value,
                *start,
                numbers,
                declarations,
                diagnostics,
            );
        },
        Statement::Options { options, start: _ } => {
            let ghost views = options.deep_view();
            proof {
                assert(statement@->Options_options =~= views);
                assert(views.take(0) =~= Seq::empty());
            }
            let mut i: usize = 0;
            while i < options.len()
                invariant
                    i <= options.len(),
                    declared(*declarations, *diagnostics) == declare_options(
                        start,
                        origin,
                        views.take(i as int),
                        parser,
                    ),
                decreases options.len() - i,
            {
                proof {
                    assert(views.take(i + 1).drop_last() =~= views.take(i as int));
                    vstd::std_specs::vec::axiom_vec_index_decreases(*options, i as int);
                    lemma_statements_view(options[i as int].body);
                }
                collect_declarations(
                    file_name,
                    node_name,
                    &options[i].body,
                    numbers,
                    declarations,
                    diagnostics,
                );
                i = i + 1;
            }
            proof {
                assert(views.take(i as int) =~= views);
            }
        },
        Statement::If { clauses, otherwise, start: _ } => {
            let ghost views = clauses.deep_view();
            proof {
                assert(statement@->If_clauses =~= views);
                assert(views.take(0) =~= Seq::empty());
            }
            let mut i: usize = 0;
            while i < clauses.len()
                invariant
                    i <= clauses.len(),
                    declared(*declarations, *diagnostics) == declare_clauses(
                        start,
                        origin,
                        views.take(i as int),
                        parser,
                    ),
                decreases clauses.len() - i,
            {
                proof {
                    assert(views.take(i + 1).drop_last() =~= views.take(i as int));
                    vstd::std_specs::vec::axiom_vec_index_decreases(*clauses, i as int);
                    lemma_statements_view(clauses[i as int].body);
                }
                collect_declarations(
                    file_name,
                    node_name,
                    &clauses[i].body,
                    numbers,
                    declarations,
                    diagnostics,
                );
                i = i + 1;
            }
            proof {
                assert(views.take(i as int) =~= views);
            }
            match otherwise {
                Some(body) => {
                    proof {
                        lemma_statements_view(*body);
                    }
                    collect_declarations(
                        file_name,
                        node_name,
                        body,
                        numbers,
                        declarations,
                        diagnostics,
                    );
                },
                None => {},
            }
        },
        _ => {},
    }
}

} // verus!
