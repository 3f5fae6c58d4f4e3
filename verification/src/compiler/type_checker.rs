//! The type checker: it finds the type of every variable, and says where
//! the types of a program do not fit together.
//!
//! Types are found by passing over the program again and again. Each pass
//! gives a type to every variable whose type follows from what is known:
//! from the value that is assigned to it, from the operand that it is
//! combined with, from the parameter that it is handed to. When a pass
//! finds nothing new, the types that are known are all that follow.

use crate::collections::value_at;
use crate::compiler::ast::{
    lemma_statements_view, Clause, ClauseView, Expression, ExpressionView, LinePart,
    LinePartView, ShortcutOption, ShortcutOptionView, Statement, StatementView,
};
use crate::compiler::declaration::{
    Declaration, DeclarationSource, DeclarationSourceView, DeclarationView, Position,
};
use crate::compiler::declaration_pass::{
    declaration_index, error_in_statement, find_declaration, report_statement,
};
use crate::compiler::diagnostic::{Diagnostic, DiagnosticView};
use crate::compiler::numbers::{meaning_of, NumberParser};
use crate::runtime::virtual_machine::type_fits;
use crate::compiler::string_table::{origin_of, Origin};
use crate::runtime::library::{FunctionSignatureView, Library};
use crate::types::{
    bool_methods, bool_type_properties, number_methods, number_type_properties, string_methods,
    string_type_properties, MethodView, Operator, Type, TypeProperties, TypeView,
};
use crate::value::{Number, YarnValue, YarnValueView};
use std::ops::RangeInclusive;
use vstd::prelude::*;

verus! {

/// Whether a type is the type of a value: a number, a string or a truth
/// value.
pub open spec fn is_known(ty: TypeView) -> bool {
    ty == TypeView::Number || ty == TypeView::String || ty == TypeView::Bool
}

/// The first type if it is known, else the second.
pub open spec fn known_or(first: TypeView, second: TypeView) -> TypeView {
    if is_known(first) {
        first
    } else {
        second
    }
}

/// The type of a variable as far as it is known.
pub open spec fn variable_type(declarations: Seq<DeclarationView>, name: Seq<char>) -> TypeView {
    match declaration_index(declarations, name) {
        Some(i) => match declarations[i].ty {
            Some(ty) => ty,
            None => TypeView::Undefined,
        },
        None => TypeView::Undefined,
    }
}

pub open spec fn is_logical(operator: Operator) -> bool {
    operator == Operator::And || operator == Operator::Or || operator == Operator::Xor
}

pub open spec fn is_equality(operator: Operator) -> bool {
    operator == Operator::EqualTo || operator == Operator::NotEqualTo
}

pub open spec fn is_comparison(operator: Operator) -> bool {
    operator == Operator::LessThan || operator == Operator::LessThanOrEqualTo || operator
        == Operator::GreaterThan || operator == Operator::GreaterThanOrEqualTo
}

/// The type that the operand of a unary operator must have.
pub open spec fn unary_operand_type(operator: Operator) -> TypeView {
    if operator == Operator::Not {
        TypeView::Bool
    } else {
        TypeView::Number
    }
}

/// The value that a variable of a type has where nothing says otherwise.
pub open spec fn zero_value(ty: TypeView) -> Option<YarnValueView> {
    match ty {
        TypeView::Number => Some(YarnValueView::Number(Number { bits: 0 })),
        TypeView::String => Some(YarnValueView::String(Seq::empty())),
        TypeView::Bool => Some(YarnValueView::Bool(false)),
        _ => None,
    }
}

/// The type of an expression as far as it follows from the types of its
/// parts: `Undefined` where it does not follow.
pub open spec fn type_of(
    expression: ExpressionView,
    declarations: Seq<DeclarationView>,
    library: Map<Seq<char>, FunctionSignatureView>,
) -> TypeView
    decreases expression,
{
    match expression {
        ExpressionView::Number(_) => TypeView::Number,
        ExpressionView::Text(_) => TypeView::String,
        ExpressionView::Bool(_) => TypeView::Bool,
        ExpressionView::Variable(name) => variable_type(declarations, name),
        ExpressionView::Call { function, arguments } => match value_at(library, function) {
            Some(signature) => signature.return_type,
            None => TypeView::Undefined,
        },
        ExpressionView::Unary { operator, operand } => unary_operand_type(operator),
        ExpressionView::Binary { operator, left, right } => if is_logical(operator) || is_equality(
            operator,
        ) || is_comparison(operator) {
            TypeView::Bool
        } else {
            known_or(
                type_of(*left, declarations, library),
                type_of(*right, declarations, library),
            )
        },
        ExpressionView::Missing => TypeView::Undefined,
    }
}

/// The declaration of a variable that the program uses without declaring
/// it. Its type is the type that its use has shown, if it has shown one.
pub open spec fn implicit_declaration(
    origin: Origin,
    name: Seq<char>,
    ty: TypeView,
    start: Position,
) -> DeclarationView {
    DeclarationView {
        name,
        default_value: zero_value(ty),
        description: None,
        source_file_name: DeclarationSourceView::File(origin.file_name),
        source_node_name: Some(origin.node_name),
        is_implicit: true,
        ty: if is_known(ty) {
            Some(ty)
        } else {
            None
        },
        range: Some((start, start)),
    }
}

/// The declarations after a use of a variable has shown `ty` to be its
/// type, or has shown nothing where `ty` is not known. A variable that
/// has no declaration gets an implicit one. A variable whose type is not
/// known gets the type. A variable whose type is known keeps it.
pub open spec fn note_variable(
    declarations: Seq<DeclarationView>,
    origin: Origin,
    name: Seq<char>,
    ty: TypeView,
    start: Position,
) -> Seq<DeclarationView> {
    match declaration_index(declarations, name) {
        None => declarations.push(implicit_declaration(origin, name, ty, start)),
        Some(i) => if declarations[i].ty is None && is_known(ty) {
            declarations.update(
                i,
                DeclarationView {
                    ty: Some(ty),
                    default_value: if declarations[i].default_value is None {
                        zero_value(ty)
                    } else {
                        declarations[i].default_value
                    },
                    ..declarations[i]
                },
            )
        } else {
            declarations
        },
    }
}

/// Where an expression stands: in which file and node, at which position,
/// and with which functions in reach.
pub struct Site {
    pub origin: Origin,
    pub start: Position,
    pub library: Map<Seq<char>, FunctionSignatureView>,
}

/// The type of the parameter of a function at an index; `Undefined` where
/// the function has no such parameter.
pub open spec fn parameter_type(
    library: Map<Seq<char>, FunctionSignatureView>,
    function: Seq<char>,
    index: int,
) -> TypeView {
    match value_at(library, function) {
        Some(signature) => if 0 <= index < signature.parameters.len() {
            signature.parameters[index]
        } else {
            TypeView::Undefined
        },
        None => TypeView::Undefined,
    }
}

/// The declarations after an expression that is to have the type
/// `expected` has been looked at. Where `expected` is not known, the
/// expression is to have the type that follows from its parts.
pub open spec fn expect_type(
    expression: ExpressionView,
    expected: TypeView,
    declarations: Seq<DeclarationView>,
    site: Site,
) -> Seq<DeclarationView>
    decreases expression, 0int,
{
    let target = known_or(expected, type_of(expression, declarations, site.library));
    match expression {
        ExpressionView::Variable(name) => note_variable(
            declarations,
            site.origin,
            name,
            target,
            site.start,
        ),
        ExpressionView::Unary { operator, operand } => expect_type(
            *operand,
            unary_operand_type(operator),
            declarations,
            site,
        ),
        ExpressionView::Binary { operator, left, right } => {
            let operands = if is_logical(operator) {
                TypeView::Bool
            } else if is_equality(operator) || is_comparison(operator) {
                known_or(
                    type_of(*left, declarations, site.library),
                    type_of(*right, declarations, site.library),
                )
            } else {
                target
            };
            expect_type(*right, operands, expect_type(*left, operands, declarations, site), site)
        },
        ExpressionView::Call { function, arguments } => expect_arguments(
            arguments,
            function,
            declarations,
            site,
        ),
        _ => declarations,
    }
}

/// The declarations after the arguments of a call have been looked at,
/// each of which is to have the type of its parameter.
pub open spec fn expect_arguments(
    arguments: Seq<ExpressionView>,
    function: Seq<char>,
    declarations: Seq<DeclarationView>,
    site: Site,
) -> Seq<DeclarationView>
    decreases arguments, 1int,
{
    if arguments.len() == 0 {
        declarations
    } else {
        expect_type(
            arguments.last(),
            parameter_type(site.library, function, arguments.len() - 1),
            expect_arguments(arguments.drop_last(), function, declarations, site),
            site,
        )
    }
}

/// The declarations after the expressions among the parts of a line have
/// been looked at.
pub open spec fn infer_parts(
    parts: Seq<LinePartView>,
    declarations: Seq<DeclarationView>,
    site: Site,
) -> Seq<DeclarationView>
    decreases parts.len(),
{
    if parts.len() == 0 {
        declarations
    } else {
        let before = infer_parts(parts.drop_last(), declarations, site);
        match parts.last() {
            LinePartView::Expression(expression) => expect_type(
                expression,
                TypeView::Undefined,
                before,
                site,
            ),
            LinePartView::Text(_) => before,
        }
    }
}

/// The declarations after an assignment has been looked at: the variable
/// and the value are to have one type.
pub open spec fn infer_assignment(
    variable: Seq<char>,
    value: ExpressionView,
    declarations: Seq<DeclarationView>,
    site: Site,
) -> Seq<DeclarationView> {
    let wanted = known_or(
        variable_type(declarations, variable),
        type_of(value, declarations, site.library),
    );
    let after = expect_type(value, wanted, declarations, site);
    note_variable(
        after,
        site.origin,
        variable,
        known_or(wanted, type_of(value, after, site.library)),
        site.start,
    )
}

/// The declarations after a list of statements has been looked at.
pub open spec fn infer_statements(
    statements: Seq<StatementView>,
    declarations: Seq<DeclarationView>,
    origin: Origin,
    library: Map<Seq<char>, FunctionSignatureView>,
) -> Seq<DeclarationView>
    decreases statements, 1int,
{
    if statements.len() == 0 {
        declarations
    } else {
        infer_statement(
            statements.last(),
            infer_statements(statements.drop_last(), declarations, origin, library),
            origin,
            library,
        )
    }
}

/// The declarations after a statement has been looked at.
pub open spec fn infer_statement(
    statement: StatementView,
    declarations: Seq<DeclarationView>,
    origin: Origin,
    library: Map<Seq<char>, FunctionSignatureView>,
) -> Seq<DeclarationView>
    decreases statement, 0int,
{
    match statement {
        StatementView::Line { parts, hashtags, start } => infer_parts(
            parts,
            declarations,
            Site { origin, start, library },
        ),
        StatementView::Command { parts, start } => infer_parts(
            parts,
            declarations,
            Site { origin, start, library },
        ),
        StatementView::Options { options, start } => infer_options(
            options,
            declarations,
            origin,
            library,
        ),
        StatementView::If { clauses, otherwise, start } => {
            let in_clauses = infer_clauses(clauses, declarations, origin, library, start);
            match otherwise {
                Some(body) => infer_statements(body, in_clauses, origin, library),
                None => in_clauses,
            }
        },
        StatementView::Assign { variable, value, start } => infer_assignment(
            variable,
            value,
            declarations,
            Site { origin, start, library },
        ),
        StatementView::Call { call, start } => expect_type(
            call,
            TypeView::Undefined,
            declarations,
            Site { origin, start, library },
        ),
        _ => declarations,
    }
}

/// The declarations after the options of a group have been looked at: of
/// each option its line, its condition, which is to be a truth value, and
/// what follows it.
pub open spec fn infer_options(
    options: Seq<ShortcutOptionView>,
    declarations: Seq<DeclarationView>,
    origin: Origin,
    library: Map<Seq<char>, FunctionSignatureView>,
) -> Seq<DeclarationView>
    decreases options, 1int,
{
    if options.len() == 0 {
        declarations
    } else {
        let option = options.last();
        let site = Site { origin, start: option.start, library };
        let before = infer_options(options.drop_last(), declarations, origin, library);
        let in_line = infer_parts(option.parts, before, site);
        let in_condition = match option.condition {
            Some(condition) => expect_type(condition, TypeView::Bool, in_line, site),
            None => in_line,
        };
        infer_statements(option.body, in_condition, origin, library)
    }
}

/// The declarations after the clauses of an `<<if>>` have been looked at:
/// of each clause its condition, which is to be a truth value, and its
/// statements.
pub open spec fn infer_clauses(
    clauses: Seq<ClauseView>,
    declarations: Seq<DeclarationView>,
    origin: Origin,
    library: Map<Seq<char>, FunctionSignatureView>,
    start: Position,
) -> Seq<DeclarationView>
    decreases clauses, 1int,
{
    if clauses.len() == 0 {
        declarations
    } else {
        let before = infer_clauses(clauses.drop_last(), declarations, origin, library, start);
        let in_condition = expect_type(
            clauses.last().condition,
            TypeView::Bool,
            before,
            Site { origin, start, library },
        );
        infer_statements(clauses.last().body, in_condition, origin, library)
    }
}

/// A node as the passes behind the parser see it: where it comes from, and
/// its statements.
pub struct UnitView {
    pub origin: Origin,
    /// Whether the node has a title. The name of a node without a title is
    /// empty.
    pub has_title: bool,
    /// The tags of the node's header.
    pub tags: Seq<Seq<char>>,
    pub body: Seq<StatementView>,
    pub start: Position,
}

/// The declarations after one pass over all the nodes.
pub open spec fn infer_units(
    units: Seq<UnitView>,
    declarations: Seq<DeclarationView>,
    library: Map<Seq<char>, FunctionSignatureView>,
) -> Seq<DeclarationView>
    decreases units.len(),
{
    if units.len() == 0 {
        declarations
    } else {
        infer_statements(
            units.last().body,
            infer_units(units.drop_last(), declarations, library),
            units.last().origin,
            library,
        )
    }
}

/// How many of the declarations have a type.
pub open spec fn typed_count(declarations: Seq<DeclarationView>) -> nat
    decreases declarations.len(),
{
    if declarations.len() == 0 {
        0
    } else {
        typed_count(declarations.drop_last()) + if declarations.last().ty is Some {
            1nat
        } else {
            0nat
        }
    }
}

/// The declarations after as many passes as it takes until a pass adds no
/// declaration and no type, and after `fuel` further passes at most.
pub open spec fn solve(
    units: Seq<UnitView>,
    declarations: Seq<DeclarationView>,
    library: Map<Seq<char>, FunctionSignatureView>,
    fuel: nat,
) -> Seq<DeclarationView>
    decreases fuel,
{
    let next = infer_units(units, declarations, library);
    if fuel == 0 || (next.len() == declarations.len() && typed_count(next) == typed_count(
        declarations,
    )) {
        next
    } else {
        solve(units, next, library, (fuel - 1) as nat)
    }
}

/// Whether an operator is among the operators of a dispatch table.
pub open spec fn has_method(methods: Seq<MethodView>, operator: Operator) -> bool {
    exists|i: int| 0 <= i < methods.len() && (#[trigger] methods[i]).operator == operator
}

/// Whether an operator is defined on operands of a type.
pub open spec fn operator_defined(operator: Operator, ty: TypeView) -> bool {
    match ty {
        TypeView::Number => has_method(number_methods(), operator),
        TypeView::String => has_method(string_methods(), operator),
        TypeView::Bool => has_method(bool_methods(), operator),
        _ => false,
    }
}

/// Whether a type is the type of a value.
pub fn is_of_value(ty: &Type) -> (r: bool)
    ensures
        r == is_known(ty@),
{
    known(ty)
}

fn known(ty: &Type) -> (r: bool)
    ensures
        r == is_known(ty@),
{
    match ty {
        Type::Number => true,
        Type::String => true,
        Type::Bool => true,
        _ => false,
    }
}

fn first_known(first: Type, second: Type) -> (r: Type)
    ensures
        r@ == known_or(first@, second@),
{
    if known(&first) {
        first
    } else {
        second
    }
}

fn logical(operator: Operator) -> (r: bool)
    ensures
        r == is_logical(operator),
{
    operator == Operator::And || operator == Operator::Or || operator == Operator::Xor
}

fn equality(operator: Operator) -> (r: bool)
    ensures
        r == is_equality(operator),
{
    operator == Operator::EqualTo || operator == Operator::NotEqualTo
}

fn comparison(operator: Operator) -> (r: bool)
    ensures
        r == is_comparison(operator),
{
    operator == Operator::LessThan || operator == Operator::LessThanOrEqualTo || operator
        == Operator::GreaterThan || operator == Operator::GreaterThanOrEqualTo
}

fn operand_type_of_unary(operator: Operator) -> (r: Type)
    ensures
        r@ == unary_operand_type(operator),
{
    if operator == Operator::Not {
        Type::Bool
    } else {
        Type::Number
    }
}

fn zero(ty: &Type) -> (r: Option<YarnValue>)
    ensures
        r.deep_view() == zero_value(ty@),
{
    match ty {
        Type::Number => Some(YarnValue::Number(Number::zero())),
        Type::String => Some(YarnValue::String(String::new())),
        Type::Bool => Some(YarnValue::Bool(false)),
        _ => None,
    }
}

/// The type of a variable as far as it is known.
pub fn type_of_variable(declarations: &Vec<Declaration>, name: &str) -> (ty: Type)
    ensures
        ty@ == variable_type(declarations.deep_view(), name@),
{
    match find_declaration(declarations, name) {
        Some(i) => match &declarations[i].ty {
            Some(ty) => ty.duplicate(),
            None => Type::Undefined,
        },
        None => Type::Undefined,
    }
}

/// The type of an expression as far as it follows from the types of its
/// parts.
pub fn expression_type(
    expression: &Expression,
    declarations: &Vec<Declaration>,
    library: &Library,
) -> (ty: Type)
    ensures
        ty@ == type_of(expression@, declarations.deep_view(), library.functions()),
    decreases expression,
{
    match expression {
        Expression::Number(_) => Type::Number,
        Expression::Text(_) => Type::String,
        Expression::Bool(_) => Type::Bool,
        Expression::Variable(name) => type_of_variable(declarations, name.as_str()),
        Expression::Call { function, arguments } => match library.get(function.as_str()) {
            Some(signature) => signature.return_type.duplicate(),
            None => Type::Undefined,
        },
        Expression::Unary { operator, operand } => operand_type_of_unary(*operator),
        Expression::Binary { operator, left, right } => {
            if logical(*operator) || equality(*operator) || comparison(*operator) {
                Type::Bool
            } else {
                first_known(
                    expression_type(left, declarations, library),
                    expression_type(right, declarations, library),
                )
            }
        },
        Expression::Missing => Type::Undefined,
    }
}

fn note(
    declarations: &mut Vec<Declaration>,
    file_name: &str,
    node_name: &str,
    name: &str,
    ty: Type,
    start: Position,
)
    ensures
        final(declarations).deep_view() == note_variable(
            old(declarations).deep_view(),
            origin_of(file_name, node_name),
            name@,
            ty@,
            start,
        ),
{
    let ghost before = declarations.deep_view();
    match find_declaration(declarations, name) {
        None => {
            let default_value = zero(&ty);
            let declaration = Declaration {
                name: name.to_owned(),
                default_value,
                description: None,
                source_file_name: DeclarationSource::File(file_name.to_owned()),
                source_node_name: Some(node_name.to_owned()),
                is_implicit: true,
                ty: if known(&ty) {
                    Some(ty)
                } else {
                    None
                },
                range: Some(RangeInclusive::new(start, start)),
            };
            let ghost added = declaration@;
            declarations.push(declaration);
            proof {
                assert(declarations.deep_view() =~= before.push(added));
            }
        },
        Some(i) => {
            if declarations[i].ty.is_none() && known(&ty) {
                if declarations[i].default_value.is_none() {
                    declarations[i].default_value = zero(&ty);
                }
                declarations[i].ty = Some(ty);
                proof {
                    assert(declarations.deep_view() =~= note_variable(
                        before,
                        origin_of(file_name, node_name),
                        name@,
                        ty@,
                        start,
                    ));
                }
            }
        },
    }
}

/// The site that the arguments of the executable functions stand for.
pub open spec fn site_of(file_name: &str, node_name: &str, start: Position, library: &Library) -> Site {
    Site { origin: origin_of(file_name, node_name), start, library: library.functions() }
}

fn type_of_parameter(library: &Library, function: &str, index: usize) -> (ty: Type)
    ensures
        ty@ == parameter_type(library.functions(), function@, index as int),
{
    match library.get(function) {
        Some(signature) => if index < signature.parameters.len() {
            signature.parameters[index].duplicate()
        } else {
            Type::Undefined
        },
        None => Type::Undefined,
    }
}

#[verifier::loop_isolation(false)]
fn expect(
    expression: &Expression,
    expected: Type,
    declarations: &mut Vec<Declaration>,
    file_name: &str,
    node_name: &str,
    start: Position,
    library: &Library,
)
    ensures
        final(declarations).deep_view() == expect_type(
            expression@,
            expected@,
            old(declarations).deep_view(),
            site_of(file_name, node_name, start, library),
        ),
    decreases expression,
{
    let ghost site = site_of(file_name, node_name, start, library);
    let target = first_known(expected, expression_type(expression, declarations, library));
    match expression {
        Expression::Variable(name) => {
            note(declarations, file_name, node_name, name.as_str(), target, start);
        },
        Expression::Unary { operator, operand } => {
            expect(
                operand,
                operand_type_of_unary(*operator),
                declarations,
                file_name,
                node_name,
                start,
                library,
            );
        },
        Expression::Binary { operator, left, right } => {
            let operands = if logical(*operator) {
                Type::Bool
            } else if equality(*operator) || comparison(*operator) {
                first_known(
                    expression_type(left, declarations, library),
                    expression_type(right, declarations, library),
                )
            } else {
                target
            };
            expect(
                left,
                operands.duplicate(),
                declarations,
                file_name,
                node_name,
                start,
                library,
            );
            expect(right, operands, declarations, file_name, node_name, start, library);
        },
        Expression::Call { function, arguments } => {
            let ghost views = arguments.deep_view();
            let ghost given = declarations.deep_view();
            proof {
                assert(expression@->Call_arguments =~= views);
                assert(views.take(0) =~= Seq::empty());
            }
            let mut i: usize = 0;
            while i < arguments.len()
                invariant
                    i <= arguments.len(),
                    declarations.deep_view() == expect_arguments(
                        views.take(i as int),
                        function@,
                        given,
                        site,
                    ),
                decreases arguments.len() - i,
            {
                proof {
                    assert(views.take(i + 1).drop_last() =~= views.take(i as int));
                    vstd::std_specs::vec::axiom_vec_index_decreases(*arguments, i as int);
                }
                expect(
                    &arguments[i],
                    type_of_parameter(library, function.as_str(), i),
                    declarations,
                    file_name,
                    node_name,
                    start,
                    library,
                );
                i = i + 1;
            }
            proof {
                assert(views.take(i as int) =~= views);
            }
        },
        _ => {},
    }
}

fn infer_in_parts(
    parts: &Vec<LinePart>,
    declarations: &mut Vec<Declaration>,
    file_name: &str,
    node_name: &str,
    start: Position,
    library: &Library,
)
    ensures
        final(declarations).deep_view() == infer_parts(
            parts.deep_view(),
            old(declarations).deep_view(),
            site_of(file_name, node_name, start, library),
        ),
{
    let ghost site = site_of(file_name, node_name, start, library);
    let ghost views = parts.deep_view();
    let mut i: usize = 0;
    proof {
        assert(views.take(0) =~= Seq::empty());
    }
    while i < parts.len()
        invariant
            i <= parts.len(),
            views == parts.deep_view(),
            site == site_of(file_name, node_name, start, library),
            declarations.deep_view() == infer_parts(
                views.take(i as int),
                old(declarations).deep_view(),
                site,
            ),
        decreases parts.len() - i,
    {
        proof {
            assert(views.take(i + 1).drop_last() =~= views.take(i as int));
        }
        match &parts[i] {
            LinePart::Expression(expression) => {
                expect(
                    expression,
                    Type::Undefined,
                    declarations,
                    file_name,
                    node_name,
                    start,
                    library,
                );
            },
            LinePart::Text(_) => {},
        }
        i = i + 1;
    }
    proof {
        assert(views.take(i as int) =~= views);
    }
}

fn infer_in_assignment(
    variable: &str,
    value: &Expression,
    declarations: &mut Vec<Declaration>,
    file_name: &str,
    node_name: &str,
    start: Position,
    library: &Library,
)
    ensures
        final(declarations).deep_view() == infer_assignment(
            variable@,
            value@,
            old(declarations).deep_view(),
            site_of(file_name, node_name, start, library),
        ),
{
    let wanted = first_known(
        type_of_variable(declarations, variable),
        expression_type(value, declarations, library),
    );
    expect(value, wanted.duplicate(), declarations, file_name, node_name, start, library);
    let found = first_known(wanted, expression_type(value, declarations, library));
    note(declarations, file_name, node_name, variable, found, start);
}

/// One pass over a list of statements.
#[verifier::loop_isolation(false)]
pub fn infer_in_statements(
    statements: &Vec<Statement>,
    declarations: &mut Vec<Declaration>,
    file_name: &str,
    node_name: &str,
    library: &Library,
)
    ensures
        final(declarations).deep_view() == infer_statements(
            statements.deep_view(),
            old(declarations).deep_view(),
            origin_of(file_name, node_name),
            library.functions(),
        ),
    decreases statements,
{
    let ghost views = statements.deep_view();
    let mut i: usize = 0;
    proof {
        assert(views.take(0) =~= Seq::empty());
    }
    while i < statements.len()
        invariant
            i <= statements.len(),
            declarations.deep_view() == infer_statements(
                views.take(i as int),
                old(declarations).deep_view(),
                origin_of(file_name, node_name),
                library.functions(),
            ),
        decreases statements.len() - i,
    {
        proof {
            assert(views.take(i + 1).drop_last() =~= views.take(i as int));
            vstd::std_specs::vec::axiom_vec_index_decreases(*statements, i as int);
        }
        infer_in_statement(&statements[i], declarations, file_name, node_name, library);
        i = i + 1;
    }
    proof {
        assert(views.take(i as int) =~= views);
    }
}

#[verifier::loop_isolation(false)]
fn infer_in_statement(
    statement: &Statement,
    declarations: &mut Vec<Declaration>,
    file_name: &str,
    node_name: &str,
    library: &Library,
)
    ensures
        final(declarations).deep_view() == infer_statement(
            statement@,
            old(declarations).deep_view(),
            origin_of(file_name, node_name),
            library.functions(),
        ),
    decreases statement,
{
    let ghost origin = origin_of(file_name, node_name);
    let ghost functions = library.functions();
    let ghost given = declarations.deep_view();
    match statement {
        Statement::Line { parts, hashtags: _, start } => {
            infer_in_parts(parts, declarations, file_name, node_name, *start, library);
        },
        Statement::Command { parts, start } => {
            infer_in_parts(parts, declarations, file_name, node_name, *start, library);
        },
        Statement::Options { options, start: _ } => {
            let ghost views = options.deep_view();
            proof {
                assert(statement@->Options_options =~= views);
                assert(views.take(0) =~= Seq::empty());
            }
            let mut i: usize = 0;
            while i < options.len()
                invariant
                    i <= options.len(),
                    declarations.deep_view() == infer_options(
                        views.take(i as int),
                        given,
                        origin,
                        functions,
                    ),
                decreases options.len() - i,
            {
                proof {
                    assert(views.take(i + 1).drop_last() =~= views.take(i as int));
                    vstd::std_specs::vec::axiom_vec_index_decreases(*options, i as int);
                    lemma_statements_view(options[i as int].body);
                }
                let option = &options[i];
                infer_in_parts(
                    &option.parts,
                    declarations,
                    file_name,
                    node_name,
                    option.start,
                    library,
                );
                match &option.condition {
                    Some(condition) => {
                        expect(
                            condition,
                            Type::Bool,
                            declarations,
                            file_name,
                            node_name,
                            option.start,
                            library,
                        );
                    },
                    None => {},
                }
                infer_in_statements(&option.body, declarations, file_name, node_name, library);
                i = i + 1;
            }
            proof {
                assert(views.take(i as int) =~= views);
            }
        },
        Statement::If { clauses, otherwise, start } => {
            let ghost views = clauses.deep_view();
            proof {
                assert(statement@->If_clauses =~= views);
                assert(views.take(0) =~= Seq::empty());
            }
            let mut i: usize = 0;
            while i < clauses.len()
                invariant
                    i <= clauses.len(),
                    declarations.deep_view() == infer_clauses(
                        views.take(i as int),
                        given,
                        origin,
                        functions,
                        *start,
                    ),
                decreases clauses.len() - i,
            {
                proof {
                    assert(views.take(i + 1).drop_last() =~= views.take(i as int));
                    vstd::std_specs::vec::axiom_vec_index_decreases(*clauses, i as int);
                    lemma_statements_view(clauses[i as int].body);
                }
                expect(
                    &clauses[i].condition,
                    Type::Bool,
                    declarations,
                    file_name,
                    node_name,
                    *start,
                    library,
                );
                infer_in_statements(
                    &clauses[i].body,
                    declarations,
                    file_name,
                    node_name,
                    library,
                );
                i = i + 1;
            }
            proof {
                assert(views.take(i as int) =~= views);
            }
            match otherwise {
                Some(body) => {
                    proof {
                        lemma_statements_view(*body);
                    }
                    infer_in_statements(body, declarations, file_name, node_name, library);
                },
                None => {},
            }
        },
        Statement::Assign { variable, value, start } => {
            infer_in_assignment(
                variable.as_str(),
                value,
                declarations,
                file_name,
                node_name,
                *start,
                library,
            );
        },
        Statement::Call { call, start } => {
            expect(call, Type::Undefined, declarations, file_name, node_name, *start, library);
        },
        _ => {},
    }
}

/// A node as the passes behind the parser see it: where it comes from, and
/// its statements.
#[derive(Debug, PartialEq, Eq)]
pub struct Unit {
    pub file_name: String,
    pub node_name: String,
    /// Whether the node has a title. The name of a node without a title is
    /// empty.
    pub has_title: bool,
    /// The tags of the node's header.
    pub tags: Vec<String>,
    pub body: Vec<Statement>,
    pub start: Position,
}

impl View for Unit {
    type V = UnitView;

    open spec fn view(&self) -> UnitView {
        UnitView {
            origin: Origin { file_name: self.file_name@, node_name: self.node_name@ },
            has_title: self.has_title,
            tags: self.tags.deep_view(),
            body: self.body.deep_view(),
            start: self.start,
        }
    }
}

impl DeepView for Unit {
    type V = UnitView;

    open spec fn deep_view(&self) -> UnitView {
        self@
    }
}

fn count_typed(declarations: &Vec<Declaration>) -> (count: usize)
    ensures
        count == typed_count(declarations.deep_view()),
{
    let mut count: usize = 0;
    let mut i: usize = 0;
    proof {
        assert(declarations.deep_view().take(0) =~= Seq::empty());
    }
    while i < declarations.len()
        invariant
            i <= declarations.len(),
            count <= i,
            count == typed_count(declarations.deep_view().take(i as int)),
        decreases declarations.len() - i,
    {
        proof {
            assert(declarations.deep_view().take(i + 1).drop_last()
                =~= declarations.deep_view().take(i as int));
        }
        if declarations[i].ty.is_some() {
            count = count + 1;
        }
        i = i + 1;
    }
    proof {
        assert(declarations.deep_view().take(i as int) =~= declarations.deep_view());
    }
    count
}

fn infer_in_units(units: &Vec<Unit>, declarations: &mut Vec<Declaration>, library: &Library)
    ensures
        final(declarations).deep_view() == infer_units(
            units.deep_view(),
            old(declarations).deep_view(),
            library.functions(),
        ),
{
    let ghost views = units.deep_view();
    let mut i: usize = 0;
    proof {
        assert(views.take(0) =~= Seq::empty());
    }
    while i < units.len()
        invariant
            i <= units.len(),
            views == units.deep_view(),
            declarations.deep_view() == infer_units(
                views.take(i as int),
                old(declarations).deep_view(),
                library.functions(),
            ),
        decreases units.len() - i,
    {
        proof {
            assert(views.take(i + 1).drop_last() =~= views.take(i as int));
        }
        infer_in_statements(
            &units[i].body,
            declarations,
            units[i].file_name.as_str(),
            units[i].node_name.as_str(),
            library,
        );
        i = i + 1;
    }
    proof {
        assert(views.take(i as int) =~= views);
    }
}

/// Finds the types of the variables of a program: passes over its nodes
/// until a pass finds nothing new.
pub fn infer_types(units: &Vec<Unit>, declarations: &mut Vec<Declaration>, library: &Library)
    ensures
        final(declarations).deep_view() == solve(
            units.deep_view(),
            old(declarations).deep_view(),
            library.functions(),
            usize::MAX as nat,
        ),
{
    let mut fuel: usize = usize::MAX;
    loop
        invariant_except_break
            solve(
                units.deep_view(),
                old(declarations).deep_view(),
                library.functions(),
                usize::MAX as nat,
            ) == solve(units.deep_view(), declarations.deep_view(), library.functions(), fuel as nat),
        ensures
            declarations.deep_view() == solve(
                units.deep_view(),
                old(declarations).deep_view(),
                library.functions(),
                usize::MAX as nat,
            ),
        decreases fuel,
    {
        let length = declarations.len();
        let typed = count_typed(declarations);
        infer_in_units(units, declarations, library);
        if fuel == 0 || (declarations.len() == length && count_typed(declarations) == typed) {
            break ;
        }
        fuel = fuel - 1;
    }
}

/// Whether each argument whose type is known may stand where its
/// parameter asks for a type. There are as many arguments as parameters.
pub open spec fn arguments_agree(
    arguments: Seq<ExpressionView>,
    parameters: Seq<TypeView>,
    declarations: Seq<DeclarationView>,
    library: Map<Seq<char>, FunctionSignatureView>,
) -> bool {
    forall|i: int|
        0 <= i < arguments.len() ==> {
            let ty = type_of(#[trigger] arguments[i], declarations, library);
            !is_known(ty) || type_fits(ty, parameters[i])
        }
}

/// What is wrong with a call, its arguments aside: the function is not
/// known, or it has not as many parameters as the call has arguments, or
/// an argument has not the type of its parameter.
pub open spec fn call_error(
    function: Seq<char>,
    arguments: Seq<ExpressionView>,
    declarations: Seq<DeclarationView>,
    library: Map<Seq<char>, FunctionSignatureView>,
) -> Option<Seq<char>> {
    match value_at(library, function) {
        None => Some("A function is called that the library does not have"@),
        Some(signature) => if signature.parameters.len() != arguments.len() {
            Some("A function is called with the wrong number of arguments"@)
        } else if !arguments_agree(arguments, signature.parameters, declarations, library) {
            Some("An argument has not the type of its parameter"@)
        } else {
            None
        },
    }
}

/// What is wrong with the operands of a binary operator: their types
/// differ, or the operator is not defined on operands of their type.
pub open spec fn operands_error(operator: Operator, left: TypeView, right: TypeView) -> Option<
    Seq<char>,
> {
    if is_known(left) && is_known(right) && left != right {
        Some("The operands of an operator have different types"@)
    } else if is_known(known_or(left, right)) && !operator_defined(
        operator,
        known_or(left, right),
    ) {
        Some("An operator is applied to operands on which it is not defined"@)
    } else {
        None
    }
}

/// The diagnostics with one more error of the statement at `start`, if
/// there is an error.
pub open spec fn with_error(
    diagnostics: Seq<DiagnosticView>,
    start: Position,
    error: Option<Seq<char>>,
) -> Seq<DiagnosticView> {
    match error {
        Some(message) => diagnostics.push(error_in_statement(start, message)),
        None => diagnostics,
    }
}

/// What type checking needs to know of a place in the program, besides
/// the place itself.
pub struct Knowledge {
    pub declarations: Seq<DeclarationView>,
    pub library: Map<Seq<char>, FunctionSignatureView>,
    pub numbers: spec_fn(Seq<char>) -> Option<Number>,
}

/// The diagnostics after an expression has been checked: its parts first,
/// from left to right, then the expression itself.
pub open spec fn check_expression(
    expression: ExpressionView,
    known: Knowledge,
    start: Position,
    diagnostics: Seq<DiagnosticView>,
) -> Seq<DiagnosticView>
    decreases expression, 0int,
{
    match expression {
        ExpressionView::Number(literal) => with_error(
            diagnostics,
            start,
            if (known.numbers)(literal) is None {
                Some("A number literal stands for no number"@)
            } else {
                None
            },
        ),
        ExpressionView::Call { function, arguments } => with_error(
            check_arguments(arguments, known, start, diagnostics),
            start,
            call_error(function, arguments, known.declarations, known.library),
        ),
        ExpressionView::Unary { operator, operand } => {
            let ty = type_of(*operand, known.declarations, known.library);
            with_error(
                check_expression(*operand, known, start, diagnostics),
                start,
                if is_known(ty) && ty != unary_operand_type(operator) {
                    Some("An operator is applied to an operand on which it is not defined"@)
                } else {
                    None
                },
            )
        },
        ExpressionView::Binary { operator, left, right } => with_error(
            check_expression(
                *right,
                known,
                start,
                check_expression(*left, known, start, diagnostics),
            ),
            start,
            operands_error(
                operator,
                type_of(*left, known.declarations, known.library),
                type_of(*right, known.declarations, known.library),
            ),
        ),
        _ => diagnostics,
    }
}

/// The diagnostics after the arguments of a call have been checked.
pub open spec fn check_arguments(
    arguments: Seq<ExpressionView>,
    known: Knowledge,
    start: Position,
    diagnostics: Seq<DiagnosticView>,
) -> Seq<DiagnosticView>
    decreases arguments, 1int,
{
    if arguments.len() == 0 {
        diagnostics
    } else {
        check_expression(
            arguments.last(),
            known,
            start,
            check_arguments(arguments.drop_last(), known, start, diagnostics),
        )
    }
}

/// The diagnostics after a condition has been checked: it must be a truth
/// value.
pub open spec fn check_condition(
    condition: ExpressionView,
    known: Knowledge,
    start: Position,
    diagnostics: Seq<DiagnosticView>,
) -> Seq<DiagnosticView> {
    let ty = type_of(condition, known.declarations, known.library);
    with_error(
        check_expression(condition, known, start, diagnostics),
        start,
        if is_known(ty) && ty != TypeView::Bool {
            Some("A condition is no truth value"@)
        } else {
            None
        },
    )
}

/// The diagnostics after the expressions among the parts of a line have
/// been checked.
pub open spec fn check_parts(
    parts: Seq<LinePartView>,
    known: Knowledge,
    start: Position,
    diagnostics: Seq<DiagnosticView>,
) -> Seq<DiagnosticView>
    decreases parts.len(),
{
    if parts.len() == 0 {
        diagnostics
    } else {
        let before = check_parts(parts.drop_last(), known, start, diagnostics);
        match parts.last() {
            LinePartView::Expression(expression) => check_expression(
                expression,
                known,
                start,
                before,
            ),
            LinePartView::Text(_) => before,
        }
    }
}

/// The diagnostics after a list of statements has been checked.
pub open spec fn check_statements(
    statements: Seq<StatementView>,
    known: Knowledge,
    diagnostics: Seq<DiagnosticView>,
) -> Seq<DiagnosticView>
    decreases statements, 1int,
{
    if statements.len() == 0 {
        diagnostics
    } else {
        check_statement(
            statements.last(),
            known,
            check_statements(statements.drop_last(), known, diagnostics),
        )
    }
}

/// The diagnostics after a statement has been checked.
pub open spec fn check_statement(
    statement: StatementView,
    known: Knowledge,
    diagnostics: Seq<DiagnosticView>,
) -> Seq<DiagnosticView>
    decreases statement, 0int,
{
    match statement {
        StatementView::Line { parts, hashtags, start } => check_parts(
            parts,
            known,
            start,
            diagnostics,
        ),
        StatementView::Command { parts, start } => check_parts(parts, known, start, diagnostics),
        StatementView::Options { options, start } => check_options(options, known, diagnostics),
        StatementView::If { clauses, otherwise, start } => {
            let in_clauses = check_clauses(clauses, known, start, diagnostics);
            match otherwise {
                Some(body) => check_statements(body, known, in_clauses),
                None => in_clauses,
            }
        },
        StatementView::Assign { variable, value, start } => {
            let of_variable = variable_type(known.declarations, variable);
            let of_value = type_of(value, known.declarations, known.library);
            with_error(
                check_expression(value, known, start, diagnostics),
                start,
                if is_known(of_variable) && is_known(of_value) && of_variable != of_value {
                    Some("A value is assigned to a variable of another type"@)
                } else {
                    None
                },
            )
        },
        StatementView::Call { call, start } => check_expression(call, known, start, diagnostics),
        _ => diagnostics,
    }
}

/// The diagnostics after the options of a group have been checked.
pub open spec fn check_options(
    options: Seq<ShortcutOptionView>,
    known: Knowledge,
    diagnostics: Seq<DiagnosticView>,
) -> Seq<DiagnosticView>
    decreases options, 1int,
{
    if options.len() == 0 {
        diagnostics
    } else {
        let option = options.last();
        let before = check_options(options.drop_last(), known, diagnostics);
        let in_line = check_parts(option.parts, known, option.start, before);
        let in_condition = match option.condition {
            Some(condition) => check_condition(condition, known, option.start, in_line),
            None => in_line,
        };
        check_statements(option.body, known, in_condition)
    }
}

/// The diagnostics after the clauses of an `<<if>>` have been checked.
pub open spec fn check_clauses(
    clauses: Seq<ClauseView>,
    known: Knowledge,
    start: Position,
    diagnostics: Seq<DiagnosticView>,
) -> Seq<DiagnosticView>
    decreases clauses, 1int,
{
    if clauses.len() == 0 {
        diagnostics
    } else {
        let before = check_clauses(clauses.drop_last(), known, start, diagnostics);
        check_statements(
            clauses.last().body,
            known,
            check_condition(clauses.last().condition, known, start, before),
        )
    }
}

/// The diagnostics after all the nodes have been checked.
pub open spec fn check_units(
    units: Seq<UnitView>,
    known: Knowledge,
    diagnostics: Seq<DiagnosticView>,
) -> Seq<DiagnosticView>
    decreases units.len(),
{
    if units.len() == 0 {
        diagnostics
    } else {
        check_statements(
            units.last().body,
            known,
            check_units(units.drop_last(), known, diagnostics),
        )
    }
}

/// The knowledge that the arguments of the executable functions stand
/// for.
pub open spec fn knowledge_of<N: NumberParser>(
    declarations: &Vec<Declaration>,
    library: &Library,
    numbers: &N,
) -> Knowledge {
    Knowledge {
        declarations: declarations.deep_view(),
        library: library.functions(),
        numbers: meaning_of(numbers),
    }
}

fn fits(actual: &Type, expected: &Type) -> (fit: bool)
    ensures
        fit == type_fits(actual@, expected@),
{
    match expected {
        Type::Any => true,
        _ => actual.same_as(expected),
    }
}

fn defines(properties: &TypeProperties, operator: Operator) -> (r: bool)
    ensures
        r == has_method(properties@.methods, operator),
{
    let mut i: usize = 0;
    while i < properties.methods.len()
        invariant
            i <= properties.methods.len(),
            forall|j: int| 0 <= j < i ==> (#[trigger] properties@.methods[j]).operator != operator,
        decreases properties.methods.len() - i,
    {
        if properties.methods[i].operator == operator {
            proof {
                assert(properties@.methods[i as int].operator == operator);
            }
            return true;
        }
        i = i + 1;
    }
    false
}

fn is_defined(operator: Operator, ty: &Type) -> (r: bool)
    ensures
        r == operator_defined(operator, ty@),
{
    match ty {
        Type::Number => defines(&number_type_properties(), operator),
        Type::String => defines(&string_type_properties(), operator),
        Type::Bool => defines(&bool_type_properties(), operator),
        _ => false,
    }
}

fn report_if(start: Position, error: Option<&str>, diagnostics: &mut Vec<Diagnostic>)
    ensures
        final(diagnostics).deep_view() == with_error(
            old(diagnostics).deep_view(),
            start,
            error.deep_view(),
        ),
{
    match error {
        Some(message) => report_statement(start, message, diagnostics),
        None => {},
    }
}

#[verifier::loop_isolation(false)]
fn error_of_call(
    function: &str,
    arguments: &Vec<Expression>,
    declarations: &Vec<Declaration>,
    library: &Library,
) -> (error: Option<&'static str>)
    ensures
        error.deep_view() == call_error(
            function@,
            arguments.deep_view(),
            declarations.deep_view(),
            library.functions(),
        ),
{
    match library.get(function) {
        None => Some("A function is called that the library does not have"),
        Some(signature) => {
            if signature.parameters.len() != arguments.len() {
                return Some("A function is called with the wrong number of arguments");
            }
            let mut i: usize = 0;
            while i < arguments.len()
                invariant
                    i <= arguments.len(),
                    signature.parameters.len() == arguments.len(),
                    forall|j: int|
                        0 <= j < i ==> {
                            let ty = type_of(
                                #[trigger] arguments.deep_view()[j],
                                declarations.deep_view(),
                                library.functions(),
                            );
                            !is_known(ty) || type_fits(ty, signature@.parameters[j])
                        },
                decreases arguments.len() - i,
            {
                let ty = expression_type(&arguments[i], declarations, library);
                if known(&ty) && !fits(&ty, &signature.parameters[i]) {
                    proof {
                        let views = arguments.deep_view();
                        let found = type_of(
                            views[i as int],
                            declarations.deep_view(),
                            library.functions(),
                        );
                        assert(found == ty@);
                        assert(is_known(found));
                        assert(!type_fits(found, signature@.parameters[i as int]));
                        assert(signature@.parameters[i as int] == signature.parameters[i as int]@);
                        assert(!arguments_agree(
                            views,
                            signature@.parameters,
                            declarations.deep_view(),
                            library.functions(),
                        ));
                    }
                    return Some("An argument has not the type of its parameter");
                }
                i = i + 1;
            }
            None
        },
    }
}

fn error_of_operands(operator: Operator, left: &Type, right: &Type) -> (error: Option<
    &'static str,
>)
    ensures
        error.deep_view() == operands_error(operator, left@, right@),
{
    if known(left) && known(right) && !left.same_as(right) {
        Some("The operands of an operator have different types")
    } else {
        let operands = if known(left) {
            left
        } else {
            right
        };
        if known(operands) && !is_defined(operator, operands) {
            Some("An operator is applied to operands on which it is not defined")
        } else {
            None
        }
    }
}

#[verifier::loop_isolation(false)]
fn check<N: NumberParser>(
    expression: &Expression,
    declarations: &Vec<Declaration>,
    library: &Library,
    numbers: &N,
    start: Position,
    diagnostics: &mut Vec<Diagnostic>,
)
    ensures
        final(diagnostics).deep_view() == check_expression(
            expression@,
            knowledge_of(declarations, library, numbers),
            start,
            old(diagnostics).deep_view(),
        ),
    decreases expression,
{
    let ghost known_here = knowledge_of(declarations, library, numbers);
    match expression {
        Expression::Number(literal) => {
            let error = if numbers.parse(literal.as_str()).is_none() {
                Some("A number literal stands for no number")
            } else {
                None
            };
            report_if(start, error, diagnostics);
        },
        Expression::Call { function, arguments } => {
            let ghost views = arguments.deep_view();
            let ghost given = diagnostics.deep_view();
            proof {
                assert(expression@->Call_arguments =~= views);
                assert(views.take(0) =~= Seq::empty());
            }
            let mut i: usize = 0;
            while i < arguments.len()
                invariant
                    i <= arguments.len(),
                    diagnostics.deep_view() == check_arguments(
                        views.take(i as int),
                        known_here,
                        start,
                        given,
                    ),
                decreases arguments.len() - i,
            {
                proof {
                    assert(views.take(i + 1).drop_last() =~= views.take(i as int));
                    vstd::std_specs::vec::axiom_vec_index_decreases(*arguments, i as int);
                }
                check(&arguments[i], declarations, library, numbers, start, diagnostics);
                i = i + 1;
            }
            proof {
                assert(views.take(i as int) =~= views);
            }
            report_if(
                start,
                error_of_call(function.as_str(), arguments, declarations, library),
                diagnostics,
            );
        },
        Expression::Unary { operator, operand } => {
            check(operand, declarations, library, numbers, start, diagnostics);
            let ty = expression_type(operand, declarations, library);
            let error = if known(&ty) && !ty.same_as(&operand_type_of_unary(*operator)) {
                Some("An operator is applied to an operand on which it is not defined")
            } else {
                None
            };
            report_if(start, error, diagnostics);
        },
        Expression::Binary { operator, left, right } => {
            check(left, declarations, library, numbers, start, diagnostics);
            check(right, declarations, library, numbers, start, diagnostics);
            report_if(
                start,
                error_of_operands(
                    *operator,
                    &expression_type(left, declarations, library),
                    &expression_type(right, declarations, library),
                ),
                diagnostics,
            );
        },
        _ => {},
    }
}

fn check_the_condition<N: NumberParser>(
    condition: &Expression,
    declarations: &Vec<Declaration>,
    library: &Library,
    numbers: &N,
    start: Position,
    diagnostics: &mut Vec<Diagnostic>,
)
    ensures
        final(diagnostics).deep_view() == check_condition(
            condition@,
            knowledge_of(declarations, library, numbers),
            start,
            old(diagnostics).deep_view(),
        ),
{
    check(condition, declarations, library, numbers, start, diagnostics);
    let ty = expression_type(condition, declarations, library);
    let error = if known(&ty) && !ty.same_as(&Type::Bool) {
        Some("A condition is no truth value")
    } else {
        None
    };
    report_if(start, error, diagnostics);
}

fn check_the_parts<N: NumberParser>(
    parts: &Vec<LinePart>,
    declarations: &Vec<Declaration>,
    library: &Library,
    numbers: &N,
    start: Position,
    diagnostics: &mut Vec<Diagnostic>,
)
    ensures
        final(diagnostics).deep_view() == check_parts(
            parts.deep_view(),
            knowledge_of(declarations, library, numbers),
            start,
            old(diagnostics).deep_view(),
        ),
{
    let ghost known_here = knowledge_of(declarations, library, numbers);
    let ghost views = parts.deep_view();
    let mut i: usize = 0;
    proof {
        assert(views.take(0) =~= Seq::empty());
    }
    while i < parts.len()
        invariant
            i <= parts.len(),
            views == parts.deep_view(),
            known_here == knowledge_of(declarations, library, numbers),
            diagnostics.deep_view() == check_parts(
                views.take(i as int),
                known_here,
                start,
                old(diagnostics).deep_view(),
            ),
        decreases parts.len() - i,
    {
        proof {
            assert(views.take(i + 1).drop_last() =~= views.take(i as int));
        }
        match &parts[i] {
            LinePart::Expression(expression) => {
                check(expression, declarations, library, numbers, start, diagnostics);
            },
            LinePart::Text(_) => {},
        }
        i = i + 1;
    }
    proof {
        assert(views.take(i as int) =~= views);
    }
}

/// Checks a list of statements against the types that are known.
#[verifier::loop_isolation(false)]
pub fn check_the_statements<N: NumberParser>(
    statements: &Vec<Statement>,
    declarations: &Vec<Declaration>,
    library: &Library,
    numbers: &N,
    diagnostics: &mut Vec<Diagnostic>,
)
    ensures
        final(diagnostics).deep_view() == check_statements(
            statements.deep_view(),
            knowledge_of(declarations, library, numbers),
            old(diagnostics).deep_view(),
        ),
    decreases statements,
{
    let ghost known_here = knowledge_of(declarations, library, numbers);
    let ghost views = statements.deep_view();
    let mut i: usize = 0;
    proof {
        assert(views.take(0) =~= Seq::empty());
    }
    while i < statements.len()
        invariant
            i <= statements.len(),
            diagnostics.deep_view() == check_statements(
                views.take(i as int),
                known_here,
                old(diagnostics).deep_view(),
            ),
        decreases statements.len() - i,
    {
        proof {
            assert(views.take(i + 1).drop_last() =~= views.take(i as int));
            vstd::std_specs::vec::axiom_vec_index_decreases(*statements, i as int);
        }
        check_the_statement(&statements[i], declarations, library, numbers, diagnostics);
        i = i + 1;
    }
    proof {
        assert(views.take(i as int) =~= views);
    }
}

#[verifier::loop_isolation(false)]
fn check_the_statement<N: NumberParser>(
    statement: &Statement,
    declarations: &Vec<Declaration>,
    library: &Library,
    numbers: &N,
    diagnostics: &mut Vec<Diagnostic>,
)
    ensures
        final(diagnostics).deep_view() == check_statement(
            statement@,
            knowledge_of(declarations, library, numbers),
            old(diagnostics).deep_view(),
        ),
    decreases statement,
{
    let ghost known_here = knowledge_of(declarations, library, numbers);
    let ghost given = diagnostics.deep_view();
    match statement {
        Statement::Line { parts, hashtags: _, start } => {
            check_the_parts(parts, declarations, library, numbers, *start, diagnostics);
        },
        Statement::Command { parts, start } => {
            check_the_parts(parts, declarations, library, numbers, *start, diagnostics);
        },
        Statement::Options { options, start: _ } => {
            let ghost views = options.deep_view();
            proof {
                assert(statement@->Options_options =~= views);
                assert(views.take(0) =~= Seq::empty());
            }
            let mut i: usize = 0;
            while i < options.len()
                invariant
                    i <= options.len(),
                    diagnostics.deep_view() == check_options(
                        views.take(i as int),
                        known_here,
                        given,
                    ),
                decreases options.len() - i,
            {
                proof {
                    assert(views.take(i + 1).drop_last() =~= views.take(i as int));
                    vstd::std_specs::vec::axiom_vec_index_decreases(*options, i as int);
                    lemma_statements_view(options[i as int].body);
                }
                let option = &options[i];
                check_the_parts(
                    &option.parts,
                    declarations,
                    library,
                    numbers,
                    option.start,
                    diagnostics,
                );
                match &option.condition {
                    Some(condition) => {
                        check_the_condition(
                            condition,
                            declarations,
                            library,
                            numbers,
                            option.start,
                            diagnostics,
                        );
                    },
                    None => {},
                }
                check_the_statements(&option.body, declarations, library, numbers, diagnostics);
                i = i + 1;
            }
            proof {
                assert(views.take(i as int) =~= views);
            }
        },
        Statement::If { clauses, otherwise, start } => {
            let ghost views = clauses.deep_view();
            proof {
                assert(statement@->If_clauses =~= views);
                assert(views.take(0) =~= Seq::empty());
            }
            let mut i: usize = 0;
            while i < clauses.len()
                invariant
                    i <= clauses.len(),
                    diagnostics.deep_view() == check_clauses(
                        views.take(i as int),
                        known_here,
                        *start,
                        given,
                    ),
                decreases clauses.len() - i,
            {
                proof {
                    assert(views.take(i + 1).drop_last() =~= views.take(i as int));
                    vstd::std_specs::vec::axiom_vec_index_decreases(*clauses, i as int);
                    lemma_statements_view(clauses[i as int].body);
                }
                check_the_condition(
                    &clauses[i].condition,
                    declarations,
                    library,
                    numbers,
                    *start,
                    diagnostics,
                );
                check_the_statements(
                    &clauses[i].body,
                    declarations,
                    library,
                    numbers,
                    diagnostics,
                );
                i = i + 1;
            }
            proof {
                assert(views.take(i as int) =~= views);
            }
            match otherwise {
                Some(body) => {
                    proof {
                        lemma_statements_view(*body);
                    }
                    check_the_statements(body, declarations, library, numbers, diagnostics);
                },
                None => {},
            }
        },
        Statement::Assign { variable, value, start } => {
            check(value, declarations, library, numbers, *start, diagnostics);
            let of_variable = type_of_variable(declarations, variable.as_str());
            let of_value = expression_type(value, declarations, library);
            let error = if known(&of_variable) && known(&of_value) && !of_variable.same_as(
                &of_value,
            ) {
                Some("A value is assigned to a variable of another type")
            } else {
                None
            };
            report_if(*start, error, diagnostics);
        },
        Statement::Call { call, start } => {
            check(call, declarations, library, numbers, *start, diagnostics);
        },
        _ => {},
    }
}

/// Checks all the nodes of a program against the types that are known.
pub fn check_types<N: NumberParser>(
    units: &Vec<Unit>,
    declarations: &Vec<Declaration>,
    library: &Library,
    numbers: &N,
    diagnostics: &mut Vec<Diagnostic>,
)
    ensures
        final(diagnostics).deep_view() == check_units(
            units.deep_view(),
            knowledge_of(declarations, library, numbers),
            old(diagnostics).deep_view(),
        ),
{
    let ghost known_here = knowledge_of(declarations, library, numbers);
    let ghost views = units.deep_view();
    let mut i: usize = 0;
    proof {
        assert(views.take(0) =~= Seq::empty());
    }
    while i < units.len()
        invariant
            i <= units.len(),
            views == units.deep_view(),
            known_here == knowledge_of(declarations, library, numbers),
            diagnostics.deep_view() == check_units(
                views.take(i as int),
                known_here,
                old(diagnostics).deep_view(),
            ),
        decreases units.len() - i,
    {
        proof {
            assert(views.take(i + 1).drop_last() =~= views.take(i as int));
        }
        check_the_statements(&units[i].body, declarations, library, numbers, diagnostics);
        i = i + 1;
    }
    proof {
        assert(views.take(i as int) =~= views);
    }
}

} // verus!
