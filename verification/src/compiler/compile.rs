//! The compiler: from source files to a program, with its string table, its
//! declarations and its diagnostics.

use crate::compiler::ast::{
    lemma_statements_view, ClauseView, Header, HeaderView, NodeTree, NodeTreeView,
    ShortcutOptionView, Statement, StatementView,
};
use crate::compiler::code_generator::{
    generate, ids_of, lemma_lines_round_trip, Emitter, Generation, Workplace,
};
use crate::compiler::declaration::{Declaration, DeclarationView, Position};
use crate::compiler::declaration_pass::{
    collect_declarations, declare_statements, declared, error_in_statement, report_statement,
    Declared,
};
use crate::compiler::diagnostic::{Diagnostic, DiagnosticSeverity, DiagnosticView};
use crate::compiler::file_parse_result::{parsed_file, FileParseResult};
use crate::compiler::lexer::{characters, is_blank};
use crate::compiler::numbers::{meaning_of, NumberParser};
use crate::compiler::stack_check::{check_node, setting_for, shapes_of, Setting};
use crate::compiler::string_table::{
    extract_strings, strings_of_statements, Origin, StringInfo, StringInfoView,
};
use crate::compiler::type_checker::{
    check_types, check_units, infer_types, knowledge_of, solve, Knowledge, Unit, UnitView,
};
use crate::program::{
    clone_strings, names_distinct, InitialValue, InitialValueView, Node, NodeView, Program,
    ProgramView,
};
use crate::runtime::library::{FunctionSignatureView, Library};
use crate::text::{lemma_position_absent, lemma_position_is_first, position_of, str_eq};
use crate::value::Number;
use vstd::prelude::*;
use vstd::string::StringExecFns;

verus! {

/// A source file: its name and its text.
#[derive(Debug, Clone, PartialEq, Eq)]
pub struct SourceFile {
    pub file_name: String,
    pub source: String,
}

/// The mathematical value of a [`SourceFile`].
pub struct SourceFileView {
    pub file_name: Seq<char>,
    pub source: Seq<char>,
}

impl View for SourceFile {
    type V = SourceFileView;

    open spec fn view(&self) -> SourceFileView {
        SourceFileView { file_name: self.file_name@, source: self.source@ }
    }
}

impl DeepView for SourceFile {
    type V = SourceFileView;

    open spec fn deep_view(&self) -> SourceFileView {
        self@
    }
}

/// The words of a text from index `at` on: the stretches between blanks.
/// `word` is the part of a word that lies before `at`, and `words` are the
/// words before that.
pub open spec fn words_from(
    text: Seq<char>,
    at: int,
    word: Seq<char>,
    words: Seq<Seq<char>>,
) -> Seq<Seq<char>>
    decreases text.len() - at,
{
    let closed = if word.len() > 0 {
        words.push(word)
    } else {
        words
    };
    if at < 0 || at >= text.len() {
        closed
    } else if is_blank(text[at]) {
        words_from(text, at + 1, Seq::empty(), closed)
    } else {
        words_from(text, at + 1, word.push(text[at]), words)
    }
}

/// The words of a text: the stretches between blanks.
pub open spec fn words_of(text: Seq<char>) -> Seq<Seq<char>> {
    words_from(text, 0, Seq::empty(), Seq::empty())
}

/// The words of a text.
pub fn split_words(text: &str) -> (words: Vec<String>)
    ensures
        words.deep_view() == words_of(text@),
{
    let chars = characters(text);
    let mut words: Vec<String> = Vec::new();
    let mut word = String::new();
    let mut i: usize = 0;
    proof {
        assert(words.deep_view() =~= Seq::empty());
    }
    while i < chars.len()
        invariant
            i <= chars.len(),
            chars@ == text@,
            words_of(text@) == words_from(chars@, i as int, word@, words.deep_view()),
        decreases chars.len() - i,
    {
        let ghost before = words.deep_view();
        if chars[i] == ' ' || chars[i] == '\t' {
            if word.as_str().unicode_len() > 0 {
                let ghost added = word@;
                words.push(word);
                proof {
                    assert(words.deep_view() =~= before.push(added));
                }
            }
            word = String::new();
        } else {
            word.push(chars[i]);
        }
        i = i + 1;
    }
    let ghost before = words.deep_view();
    if word.as_str().unicode_len() > 0 {
        let ghost added = word@;
        words.push(word);
        proof {
            assert(words.deep_view() =~= before.push(added));
        }
    }
    words
}

/// The keys of the headers, in their order.
pub open spec fn header_keys(headers: Seq<HeaderView>) -> Seq<Seq<char>> {
    Seq::new(headers.len(), |i: int| headers[i].key)
}

/// The value of the first header of the given key.
pub open spec fn header_value(headers: Seq<HeaderView>, key: Seq<char>) -> Option<Seq<char>> {
    match position_of(header_keys(headers), key) {
        Some(i) => Some(headers[i].value),
        None => None,
    }
}

/// The value of the first header of the given key.
pub fn value_of_header<'a>(headers: &'a Vec<Header>, key: &str) -> (value: Option<&'a String>)
    ensures
        value.deep_view() == header_value(headers.deep_view(), key@),
{
    let ghost keys = header_keys(headers.deep_view());
    let mut i: usize = 0;
    while i < headers.len()
        invariant
            i <= headers.len(),
            keys == header_keys(headers.deep_view()),
            forall|j: int| 0 <= j < i ==> keys[j] != key@,
        decreases headers.len() - i,
    {
        if str_eq(headers[i].key.as_str(), key) {
            proof {
                lemma_position_is_first(keys, key@, i as int);
            }
            return Some(&headers[i].value);
        }
        i = i + 1;
    }
    proof {
        lemma_position_absent(keys, key@);
    }
    None
}

/// What the passes behind the parser make of a node of a file: its name is
/// the value of its header `title`, its tags are the words of its header
/// `tags`.
pub open spec fn unit_of(file_name: Seq<char>, node: NodeTreeView) -> UnitView {
    UnitView {
        origin: Origin {
            file_name,
            node_name: match header_value(node.headers, "title"@) {
                Some(title) => title,
                None => Seq::empty(),
            },
        },
        has_title: header_value(node.headers, "title"@) is Some,
        tags: match header_value(node.headers, "tags"@) {
            Some(tags) => words_of(tags),
            None => Seq::empty(),
        },
        body: node.body,
        start: node.start,
    }
}

fn make_unit(file_name: &str, node: NodeTree) -> (unit: Unit)
    ensures
        unit@ == unit_of(file_name@, node@),
{
    let title = value_of_header(&node.headers, "title");
    let has_title = title.is_some();
    let node_name = match title {
        Some(title) => title.clone(),
        None => String::new(),
    };
    let tags = match value_of_header(&node.headers, "tags") {
        Some(tags) => split_words(tags.as_str()),
        None => {
            let none: Vec<String> = Vec::new();
            proof {
                assert(none.deep_view() =~= Seq::empty());
            }
            none
        },
    };
    Unit {
        file_name: file_name.to_owned(),
        node_name,
        has_title,
        tags,
        body: node.body,
        start: node.start,
    }
}

/// The units of the nodes of a file, behind those that are there.
pub open spec fn units_of_nodes(
    file_name: Seq<char>,
    nodes: Seq<NodeTreeView>,
    units: Seq<UnitView>,
) -> Seq<UnitView>
    decreases nodes.len(),
{
    if nodes.len() == 0 {
        units
    } else {
        units_of_nodes(file_name, nodes.drop_last(), units).push(unit_of(file_name, nodes.last()))
    }
}

/// The units and the diagnostics that parsing has given.
pub struct Parse {
    pub units: Seq<UnitView>,
    pub diagnostics: Seq<DiagnosticView>,
}

/// What parsing the files gives: the units of their nodes and the
/// diagnostics of their lexers and parsers, in the order of the files.
pub open spec fn parse_files(files: Seq<SourceFileView>) -> Parse
    decreases files.len(),
{
    if files.len() == 0 {
        Parse { units: Seq::empty(), diagnostics: Seq::empty() }
    } else {
        let before = parse_files(files.drop_last());
        let file = parsed_file(files.last().file_name, files.last().source);
        Parse {
            units: units_of_nodes(files.last().file_name, file.tree.nodes, before.units),
            diagnostics: before.diagnostics + file.diagnostics,
        }
    }
}

/// The diagnostics with an error for every node that has no title.
pub open spec fn check_titles(units: Seq<UnitView>, diagnostics: Seq<DiagnosticView>) -> Seq<
    DiagnosticView,
>
    decreases units.len(),
{
    if units.len() == 0 {
        diagnostics
    } else {
        let before = check_titles(units.drop_last(), diagnostics);
        if units.last().has_title {
            before
        } else {
            before.push(error_in_statement(units.last().start, "A node has no title"@))
        }
    }
}

/// The names of the units, in their order.
pub open spec fn unit_names(units: Seq<UnitView>) -> Seq<Seq<char>> {
    Seq::new(units.len(), |i: int| units[i].origin.node_name)
}

/// The diagnostics with an error for every node among the first `count`
/// whose name an earlier node has.
pub open spec fn check_names(
    units: Seq<UnitView>,
    count: int,
    diagnostics: Seq<DiagnosticView>,
) -> Seq<DiagnosticView>
    decreases count,
{
    if count <= 0 || count > units.len() {
        diagnostics
    } else {
        let before = check_names(units, count - 1, diagnostics);
        if position_of(unit_names(units).take(count - 1), unit_names(units)[count - 1]) is Some {
            before.push(
                error_in_statement(units[count - 1].start, "Two nodes have the same name"@),
            )
        } else {
            before
        }
    }
}

/// The diagnostics with an error for every jump, among the statements and
/// in the bodies of their options and clauses, to a node that is none of
/// the nodes of the given names.
pub open spec fn check_jumps(
    statements: Seq<StatementView>,
    names: Seq<Seq<char>>,
    diagnostics: Seq<DiagnosticView>,
) -> Seq<DiagnosticView>
    decreases statements, 1int,
{
    if statements.len() == 0 {
        diagnostics
    } else {
        check_jump(
            statements.last(),
            names,
            check_jumps(statements.drop_last(), names, diagnostics),
        )
    }
}

/// The diagnostics with an error for every jump in a statement to a node
/// that is none of the nodes of the given names.
pub open spec fn check_jump(
    statement: StatementView,
    names: Seq<Seq<char>>,
    diagnostics: Seq<DiagnosticView>,
) -> Seq<DiagnosticView>
    decreases statement, 0int,
{
    match statement {
        StatementView::Jump { destination, start } => if position_of(names, destination)
            is None {
            diagnostics.push(error_in_statement(start, "A jump leads to no node"@))
        } else {
            diagnostics
        },
        StatementView::Options { options, start } => check_jumps_in_options(
            options,
            names,
            diagnostics,
        ),
        StatementView::If { clauses, otherwise, start } => {
            let in_clauses = check_jumps_in_clauses(clauses, names, diagnostics);
            match otherwise {
                Some(body) => check_jumps(body, names, in_clauses),
                None => in_clauses,
            }
        },
        _ => diagnostics,
    }
}

/// The diagnostics with an error for every jump to no node in the bodies
/// of options.
pub open spec fn check_jumps_in_options(
    options: Seq<ShortcutOptionView>,
    names: Seq<Seq<char>>,
    diagnostics: Seq<DiagnosticView>,
) -> Seq<DiagnosticView>
    decreases options, 1int,
{
    if options.len() == 0 {
        diagnostics
    } else {
        check_jumps(
            options.last().body,
            names,
            check_jumps_in_options(options.drop_last(), names, diagnostics),
        )
    }
}

/// The diagnostics with an error for every jump to no node in the bodies
/// of clauses.
pub open spec fn check_jumps_in_clauses(
    clauses: Seq<ClauseView>,
    names: Seq<Seq<char>>,
    diagnostics: Seq<DiagnosticView>,
) -> Seq<DiagnosticView>
    decreases clauses, 1int,
{
    if clauses.len() == 0 {
        diagnostics
    } else {
        check_jumps(
            clauses.last().body,
            names,
            check_jumps_in_clauses(clauses.drop_last(), names, diagnostics),
        )
    }
}

/// The diagnostics with an error for every jump in the first `count` nodes
/// that leads to none of the nodes.
pub open spec fn check_jumps_in_units(
    units: Seq<UnitView>,
    count: int,
    diagnostics: Seq<DiagnosticView>,
) -> Seq<DiagnosticView>
    decreases count,
{
    if count <= 0 || count > units.len() {
        diagnostics
    } else {
        check_jumps(
            units[count - 1].body,
            unit_names(units),
            check_jumps_in_units(units, count - 1, diagnostics),
        )
    }
}

/// What the declarations in the nodes add.
pub open spec fn declare_units(
    units: Seq<UnitView>,
    declared: Declared,
    numbers: spec_fn(Seq<char>) -> Option<Number>,
) -> Declared
    decreases units.len(),
{
    if units.len() == 0 {
        declared
    } else {
        declare_statements(
            declare_units(units.drop_last(), declared, numbers),
            units.last().origin,
            units.last().body,
            numbers,
        )
    }
}

/// The string table of the nodes: the entries of each node, in the order
/// of the nodes.
pub open spec fn strings_of_units(units: Seq<UnitView>) -> Seq<StringInfoView>
    decreases units.len(),
{
    if units.len() == 0 {
        Seq::empty()
    } else {
        strings_of_units(units.drop_last()) + strings_of_statements(
            units.last().origin,
            units.last().body,
        )
    }
}

/// Whether a tag asks for the source text of its node to be kept.
pub open spec fn keeps_source(tags: Seq<Seq<char>>) -> bool {
    position_of(tags, "rawText"@) is Some
}

/// The compiled node of a unit.
pub open spec fn node_of(unit: UnitView, known: Knowledge) -> NodeView {
    let code = generate(unit.body, Generation { origin: unit.origin, known });
    NodeView {
        name: unit.origin.node_name,
        instructions: code.instructions,
        labels: code.labels,
        tags: unit.tags,
        source_text_string_id: if keeps_source(unit.tags) {
            Some("line:"@ + unit.origin.node_name)
        } else {
            None
        },
    }
}

/// The compiled nodes of the units.
pub open spec fn nodes_of(units: Seq<UnitView>, known: Knowledge) -> Seq<NodeView> {
    Seq::new(units.len(), |i: int| node_of(units[i], known))
}

/// The initial values that the declarations give: one for every variable
/// that has a default value.
pub open spec fn initial_values_of(declarations: Seq<DeclarationView>) -> Seq<InitialValueView>
    decreases declarations.len(),
{
    if declarations.len() == 0 {
        Seq::empty()
    } else {
        let before = initial_values_of(declarations.drop_last());
        match declarations.last().default_value {
            Some(value) => before.push(InitialValueView { name: declarations.last().name, value }),
            None => before,
        }
    }
}

/// Where a declaration stands; the start of the file where it does not
/// say.
pub open spec fn declaration_start(declaration: DeclarationView) -> Position {
    match declaration.range {
        Some((start, _)) => start,
        None => Position { line: 0, character: 0 },
    }
}

/// The diagnostics that had to wait for the end of the compilation: an
/// error for every variable whose type nothing has shown.
pub open spec fn deferred_diagnostics(
    declarations: Seq<DeclarationView>,
    diagnostics: Seq<DiagnosticView>,
) -> Seq<DiagnosticView>
    decreases declarations.len(),
{
    if declarations.len() == 0 {
        diagnostics
    } else {
        let before = deferred_diagnostics(declarations.drop_last(), diagnostics);
        if declarations.last().ty is None {
            before.push(
                error_in_statement(
                    declaration_start(declarations.last()),
                    "The type of a variable cannot be determined"@,
                ),
            )
        } else {
            before
        }
    }
}

/// What a compilation gives.
#[derive(Debug, PartialEq, Eq)]
pub struct Compilation {
    /// The program. Where the diagnostics hold an error, it may be partial.
    pub program: Program,
    pub string_table: Vec<StringInfo>,
    /// The declarations of all the variables of the program, those that
    /// the program does not write out included.
    pub declarations: Vec<Declaration>,
    pub diagnostics: Vec<Diagnostic>,
}

/// The mathematical value of a [`Compilation`].
pub struct CompilationView {
    pub program: ProgramView,
    pub string_table: Seq<StringInfoView>,
    pub declarations: Seq<DeclarationView>,
    pub diagnostics: Seq<DiagnosticView>,
}

impl View for Compilation {
    type V = CompilationView;

    open spec fn view(&self) -> CompilationView {
        CompilationView {
            program: self.program@,
            string_table: self.string_table.deep_view(),
            declarations: self.declarations.deep_view(),
            diagnostics: self.diagnostics.deep_view(),
        }
    }
}

/// Whether the diagnostics hold no error.
pub open spec fn no_errors(diagnostics: Seq<DiagnosticView>) -> bool {
    forall|i: int|
        0 <= i < diagnostics.len() ==> (#[trigger] diagnostics[i]).severity
            != DiagnosticSeverity::Error
}

/// Where a line of the string table stands: at the start of its line of
/// the file.
pub open spec fn line_start(info: StringInfoView) -> Position {
    Position {
        line: if info.line_number > 0 {
            (info.line_number - 1) as usize
        } else {
            0
        },
        character: 0,
    }
}

/// The diagnostics with an error for every line among the first `count`
/// of the string table whose id an earlier line has.
pub open spec fn check_ids(
    strings: Seq<StringInfoView>,
    count: int,
    diagnostics: Seq<DiagnosticView>,
) -> Seq<DiagnosticView>
    decreases count,
{
    if count <= 0 || count > strings.len() {
        diagnostics
    } else {
        let before = check_ids(strings, count - 1, diagnostics);
        if position_of(ids_of(strings).take(count - 1), ids_of(strings)[count - 1]) is Some {
            before.push(
                error_in_statement(line_start(strings[count - 1]), "Two lines have the same id"@),
            )
        } else {
            before
        }
    }
}

/// Diagnostics without an error held none before the ids were looked at,
/// and no two of the lines that were looked at have one id.
pub proof fn lemma_check_ids(
    strings: Seq<StringInfoView>,
    count: int,
    diagnostics: Seq<DiagnosticView>,
)
    requires
        0 <= count <= strings.len(),
        no_errors(check_ids(strings, count, diagnostics)),
    ensures
        no_errors(diagnostics),
        names_distinct(ids_of(strings).take(count)),
    decreases count,
{
    if count > 0 {
        let before = check_ids(strings, count - 1, diagnostics);
        let after = check_ids(strings, count, diagnostics);
        let ids = ids_of(strings);
        if position_of(ids.take(count - 1), ids[count - 1]) is Some {
            assert(after[before.len() as int].severity == DiagnosticSeverity::Error);
        }
        lemma_check_ids(strings, count - 1, diagnostics);
        crate::text::lemma_position_of(ids.take(count - 1), ids[count - 1]);
        assert forall|i: int, j: int| 0 <= i < j < count implies ids.take(count)[i] != ids.take(
            count,
        )[j] by {
            if j < count - 1 {
                assert(ids.take(count - 1)[i] != ids.take(count - 1)[j]);
            } else {
                assert(ids.take(count - 1)[i] != ids[count - 1]);
            }
        }
    }
}

/// The diagnostics with an error for each of the first `upto` nodes of
/// the program whose stack is not in order.
pub open spec fn check_stacks(
    program: ProgramView,
    upto: int,
    setting: Setting,
    diagnostics: Seq<DiagnosticView>,
) -> Seq<DiagnosticView>
    decreases upto,
{
    if upto <= 0 || upto > program.nodes.len() {
        diagnostics
    } else {
        let before = check_stacks(program, upto - 1, setting, diagnostics);
        if shapes_of(program.nodes[upto - 1], setting) is None {
            before.push(
                error_in_statement(
                    Position { line: 0, character: 0 },
                    "The code of a node leaves its stack out of order"@,
                ),
            )
        } else {
            before
        }
    }
}

/// Diagnostics without an error held none before the nodes were checked,
/// and the stack of every node that was checked is in order.
pub proof fn lemma_check_stacks(
    program: ProgramView,
    upto: int,
    setting: Setting,
    diagnostics: Seq<DiagnosticView>,
)
    requires
        0 <= upto <= program.nodes.len(),
        no_errors(check_stacks(program, upto, setting, diagnostics)),
    ensures
        no_errors(diagnostics),
        forall|i: int| 0 <= i < upto ==> shapes_of(#[trigger] program.nodes[i], setting) is Some,
    decreases upto,
{
    if upto > 0 {
        let before = check_stacks(program, upto - 1, setting, diagnostics);
        let after = check_stacks(program, upto, setting, diagnostics);
        if shapes_of(program.nodes[upto - 1], setting) is None {
            assert(after[before.len() as int].severity == DiagnosticSeverity::Error);
        }
        lemma_check_stacks(program, upto - 1, setting, diagnostics);
    }
}

/// The diagnostics of a compilation once its code has been looked at: if
/// they hold no error so far, the code of every node is checked.
pub open spec fn checked_diagnostics(
    program: ProgramView,
    library: Map<Seq<char>, FunctionSignatureView>,
    declarations: Seq<DeclarationView>,
    diagnostics: Seq<DiagnosticView>,
) -> Seq<DiagnosticView> {
    if no_errors(diagnostics) {
        check_stacks(
            program,
            program.nodes.len() as int,
            Setting { library, declarations, node_names: program.node_names() },
            diagnostics,
        )
    } else {
        diagnostics
    }
}

/// What compiling the files gives.
///
/// The files are parsed. The declaration pass gathers the variables that
/// the files declare; the type checker finds the types of the others and
/// checks the program against the types. The string table holds the lines
/// of all nodes, the program their code, and the initial values of the
/// variables that have a default. The diagnostics come in the order of the
/// passes: parsing, titles and names of nodes, declarations, types, jumps,
/// lines that share an id. Those of variables without a type come last.
/// Where all this has given
/// no error, the code of each node is checked: that every instruction finds
/// on the stack what it needs.
pub open spec fn compiled(
    files: Seq<SourceFileView>,
    library: Map<Seq<char>, FunctionSignatureView>,
    numbers: spec_fn(Seq<char>) -> Option<Number>,
) -> CompilationView {
    let parse = parse_files(files);
    let units = parse.units;
    let named = check_names(units, units.len() as int, check_titles(units, parse.diagnostics));
    let written = declare_units(
        units,
        Declared { declarations: Seq::empty(), diagnostics: named },
        numbers,
    );
    let declarations = solve(units, written.declarations, library, usize::MAX as nat);
    let known = Knowledge { declarations, library, numbers };
    let program = ProgramView {
        nodes: nodes_of(units, known),
        initial_values: initial_values_of(declarations),
    };
    let strings = strings_of_units(units);
    CompilationView {
        program,
        string_table: strings,
        declarations,
        diagnostics: checked_diagnostics(
            program,
            library,
            declarations,
            deferred_diagnostics(
                declarations,
                check_ids(
                    strings,
                    strings.len() as int,
                    check_jumps_in_units(
                        units,
                        units.len() as int,
                        check_units(units, known, written.diagnostics),
                    ),
                ),
            ),
        ),
    }
}

fn parse_all(files: &Vec<SourceFile>) -> (r: (Vec<Unit>, Vec<Diagnostic>))
    ensures
        (Parse { units: r.0.deep_view(), diagnostics: r.1.deep_view() }) == parse_files(
            files.deep_view(),
        ),
{
    let ghost views = files.deep_view();
    let mut units: Vec<Unit> = Vec::new();
    let mut diagnostics: Vec<Diagnostic> = Vec::new();
    let mut i: usize = 0;
    proof {
        assert(views.take(0) =~= Seq::empty());
        assert(units.deep_view() =~= Seq::empty());
        assert(diagnostics.deep_view() =~= Seq::empty());
    }
    while i < files.len()
        invariant
            i <= files.len(),
            views == files.deep_view(),
            (Parse { units: units.deep_view(), diagnostics: diagnostics.deep_view() })
                == parse_files(views.take(i as int)),
        decreases files.len() - i,
    {
        let ghost units_before = units.deep_view();
        let ghost diagnostics_before = diagnostics.deep_view();
        proof {
            assert(views.take(i + 1).drop_last() =~= views.take(i as int));
        }
        let file = &files[i];
        let parsed = FileParseResult::new(file.file_name.clone(), file.source.as_str());
        let ghost nodes = parsed.tree@.nodes;
        let mut found = parsed.diagnostics;
        let ghost added = found.deep_view();
        diagnostics.append(&mut found);
        proof {
            assert(diagnostics.deep_view() =~= diagnostics_before + added);
            assert(nodes.take(0) =~= Seq::empty());
        }
        for node in iter: parsed.tree.nodes
            invariant
                nodes == parsed.tree.nodes.deep_view(),
                iter.seq() == parsed.tree.nodes@,
                units.deep_view() == units_of_nodes(
                    file.file_name@,
                    nodes.take(iter.index()),
                    units_before,
                ),
        {
            let ghost before = units.deep_view();
            proof {
                assert(nodes.take(iter.index() + 1).drop_last() =~= nodes.take(iter.index()));
                assert(node@ == nodes[iter.index()]);
            }
            let unit = make_unit(file.file_name.as_str(), node);
            let ghost made = unit@;
            units.push(unit);
            proof {
                assert(units.deep_view() =~= before.push(made));
            }
        }
        proof {
            assert(nodes.take(nodes.len() as int) =~= nodes);
        }
        i = i + 1;
    }
    proof {
        assert(views.take(i as int) =~= views);
    }
    (units, diagnostics)
}

fn report_untitled(units: &Vec<Unit>, diagnostics: &mut Vec<Diagnostic>)
    ensures
        final(diagnostics).deep_view() == check_titles(
            units.deep_view(),
            old(diagnostics).deep_view(),
        ),
{
    let ghost views = units.deep_view();
    let mut i: usize = 0;
    proof {
        assert(views.take(0) =~= Seq::empty());
    }
    while i < units.len()
        invariant
            i <= units.len(),
            views == units.deep_view(),
            diagnostics.deep_view() == check_titles(
                views.take(i as int),
                old(diagnostics).deep_view(),
            ),
        decreases units.len() - i,
    {
        proof {
            assert(views.take(i + 1).drop_last() =~= views.take(i as int));
        }
        if !units[i].has_title {
            report_statement(units[i].start, "A node has no title", diagnostics);
        }
        i = i + 1;
    }
    proof {
        assert(views.take(i as int) =~= views);
    }
}

/// Whether one of the first `end` units has the given name.
fn is_name_taken(units: &Vec<Unit>, end: usize, name: &str) -> (taken: bool)
    requires
        end <= units.len(),
    ensures
        taken == (position_of(unit_names(units.deep_view()).take(end as int), name@) is Some),
{
    let ghost names = unit_names(units.deep_view()).take(end as int);
    let mut i: usize = 0;
    while i < end
        invariant
            i <= end <= units.len(),
            names == unit_names(units.deep_view()).take(end as int),
            forall|j: int| 0 <= j < i ==> names[j] != name@,
        decreases end - i,
    {
        if str_eq(units[i].node_name.as_str(), name) {
            proof {
                lemma_position_is_first(names, name@, i as int);
            }
            return true;
        }
        i = i + 1;
    }
    proof {
        lemma_position_absent(names, name@);
    }
    false
}

fn report_repeated_names(units: &Vec<Unit>, diagnostics: &mut Vec<Diagnostic>)
    ensures
        final(diagnostics).deep_view() == check_names(
            units.deep_view(),
            units.len() as int,
            old(diagnostics).deep_view(),
        ),
{
    let mut i: usize = 0;
    while i < units.len()
        invariant
            i <= units.len(),
            diagnostics.deep_view() == check_names(
                units.deep_view(),
                i as int,
                old(diagnostics).deep_view(),
            ),
        decreases units.len() - i,
    {
        if is_name_taken(units, i, units[i].node_name.as_str()) {
            report_statement(units[i].start, "Two nodes have the same name", diagnostics);
        }
        i = i + 1;
    }
}

#[verifier::loop_isolation(false)]
fn report_jumps(
    statements: &Vec<Statement>,
    units: &Vec<Unit>,
    diagnostics: &mut Vec<Diagnostic>,
)
    ensures
        final(diagnostics).deep_view() == check_jumps(
            statements.deep_view(),
            unit_names(units.deep_view()),
            old(diagnostics).deep_view(),
        ),
    decreases statements,
{
    let ghost names = unit_names(units.deep_view());
    let ghost views = statements.deep_view();
    let mut i: usize = 0;
    proof {
        assert(views.take(0) =~= Seq::empty());
    }
    while i < statements.len()
        invariant
            i <= statements.len(),
            diagnostics.deep_view() == check_jumps(
                views.take(i as int),
                names,
                old(diagnostics).deep_view(),
            ),
        decreases statements.len() - i,
    {
        proof {
            assert(views.take(i + 1).drop_last() =~= views.take(i as int));
            vstd::std_specs::vec::axiom_vec_index_decreases(*statements, i as int);
        }
        report_jump(&statements[i], units, diagnostics);
        i = i + 1;
    }
    proof {
        assert(views.take(i as int) =~= views);
    }
}

#[verifier::loop_isolation(false)]
fn report_jump(statement: &Statement, units: &Vec<Unit>, diagnostics: &mut Vec<Diagnostic>)
    ensures
        final(diagnostics).deep_view() == check_jump(
            statement@,
            unit_names(units.deep_view()),
            old(diagnostics).deep_view(),
        ),
    decreases statement,
{
    let ghost names = unit_names(units.deep_view());
    let ghost given = diagnostics.deep_view();
    match statement {
        Statement::Jump { destination, start } => {
            proof {
                assert(names.take(units.len() as int) =~= names);
            }
            if !is_name_taken(units, units.len(), destination.as_str()) {
                report_statement(*start, "A jump leads to no node", diagnostics);
            }
        },
        Statement::Options { options, start: _ } => {
            let ghost views = options.deep_view();
            proof {
                assert(statement@->Options_options =~= views);
                assert(views.take(0) =~= Seq::empty());
            }
            let mut i: usize = 0;
            while i < options.len()
                invariant
                    i <= options.len(),
                    diagnostics.deep_view() == check_jumps_in_options(
                        views.take(i as int),
                        names,
                        given,
                    ),
                decreases options.len() - i,
            {
                proof {
                    assert(views.take(i + 1).drop_last() =~= views.take(i as int));
                    vstd::std_specs::vec::axiom_vec_index_decreases(*options, i as int);
                    lemma_statements_view(options[i as int].body);
                }
                report_jumps(&options[i].body, units, diagnostics);
                i = i + 1;
            }
            proof {
                assert(views.take(i as int) =~= views);
            }
        },
        Statement::If { clauses, otherwise, start: _ } => {
            let ghost views = clauses.deep_view();
            proof {
                assert(statement@->If_clauses =~= views);
                assert(views.take(0) =~= Seq::empty());
            }
            let mut i: usize = 0;
            while i < clauses.len()
                invariant
                    i <= clauses.len(),
                    diagnostics.deep_view() == check_jumps_in_clauses(
                        views.take(i as int),
                        names,
                        given,
                    ),
                decreases clauses.len() - i,
            {
                proof {
                    assert(views.take(i + 1).drop_last() =~= views.take(i as int));
                    vstd::std_specs::vec::axiom_vec_index_decreases(*clauses, i as int);
                    lemma_statements_view(clauses[i as int].body);
                }
                report_jumps(&clauses[i].body, units, diagnostics);
                i = i + 1;
            }
            proof {
                assert(views.take(i as int) =~= views);
            }
            match otherwise {
                Some(body) => {
                    proof {
                        lemma_statements_view(*body);
                    }
                    report_jumps(body, units, diagnostics);
                },
                None => {},
            }
        },
        _ => {},
    }
}

fn report_all_jumps(units: &Vec<Unit>, diagnostics: &mut Vec<Diagnostic>)
    ensures
        final(diagnostics).deep_view() == check_jumps_in_units(
            units.deep_view(),
            units.len() as int,
            old(diagnostics).deep_view(),
        ),
{
    let mut i: usize = 0;
    while i < units.len()
        invariant
            i <= units.len(),
            diagnostics.deep_view() == check_jumps_in_units(
                units.deep_view(),
                i as int,
                old(diagnostics).deep_view(),
            ),
        decreases units.len() - i,
    {
        report_jumps(&units[i].body, units, diagnostics);
        i = i + 1;
    }
}

fn declare_all<N: NumberParser>(
    units: &Vec<Unit>,
    numbers: &N,
    declarations: &mut Vec<Declaration>,
    diagnostics: &mut Vec<Diagnostic>,
)
    ensures
        declared(*final(declarations), *final(diagnostics)) == declare_units(
            units.deep_view(),
            declared(*old(declarations), *old(diagnostics)),
            meaning_of(numbers),
        ),
{
    let ghost views = units.deep_view();
    let ghost parser = meaning_of(numbers);
    let ghost given = declared(*declarations, *diagnostics);
    let mut i: usize = 0;
    proof {
        assert(views.take(0) =~= Seq::empty());
    }
    while i < units.len()
        invariant
            i <= units.len(),
            views == units.deep_view(),
            parser == meaning_of(numbers),
            declared(*declarations, *diagnostics) == declare_units(
                views.take(i as int),
                given,
                parser,
            ),
        decreases units.len() - i,
    {
        proof {
            assert(views.take(i + 1).drop_last() =~= views.take(i as int));
        }
        collect_declarations(
            units[i].file_name.as_str(),
            units[i].node_name.as_str(),
            &units[i].body,
            numbers,
            declarations,
            diagnostics,
        );
        i = i + 1;
    }
    proof {
        assert(views.take(i as int) =~= views);
    }
}

fn extract_all(units: &Vec<Unit>) -> (table: Vec<StringInfo>)
    ensures
        table.deep_view() == strings_of_units(units.deep_view()),
{
    let ghost views = units.deep_view();
    let mut table: Vec<StringInfo> = Vec::new();
    let mut i: usize = 0;
    proof {
        assert(views.take(0) =~= Seq::empty());
        assert(table.deep_view() =~= Seq::empty());
    }
    while i < units.len()
        invariant
            i <= units.len(),
            views == units.deep_view(),
            table.deep_view() == strings_of_units(views.take(i as int)),
        decreases units.len() - i,
    {
        proof {
            assert(views.take(i + 1).drop_last() =~= views.take(i as int));
        }
        extract_strings(
            units[i].file_name.as_str(),
            units[i].node_name.as_str(),
            &units[i].body,
            &mut table,
        );
        i = i + 1;
    }
    proof {
        assert(views.take(i as int) =~= views);
    }
    table
}

fn has_tag(tags: &Vec<String>, tag: &str) -> (found: bool)
    ensures
        found == (position_of(tags.deep_view(), tag@) is Some),
{
    let mut i: usize = 0;
    while i < tags.len()
        invariant
            i <= tags.len(),
            forall|j: int| 0 <= j < i ==> tags.deep_view()[j] != tag@,
        decreases tags.len() - i,
    {
        if str_eq(tags[i].as_str(), tag) {
            proof {
                lemma_position_is_first(tags.deep_view(), tag@, i as int);
            }
            return true;
        }
        i = i + 1;
    }
    proof {
        lemma_position_absent(tags.deep_view(), tag@);
    }
    false
}

fn compile_unit<N: NumberParser>(
    unit: &Unit,
    declarations: &Vec<Declaration>,
    library: &Library,
    numbers: &N,
) -> (node: Node)
    ensures
        node@ == node_of(unit@, knowledge_of(declarations, library, numbers)),
{
    let at = Workplace {
        file_name: unit.file_name.as_str(),
        node_name: unit.node_name.as_str(),
        declarations,
        library,
        numbers,
    };
    let mut emitter = Emitter::new();
    emitter.lower_statements(&unit.body, &at);
    let source_text_string_id = if has_tag(&unit.tags, "rawText") {
        let mut id = "line:".to_owned();
        id.append(unit.node_name.as_str());
        Some(id)
    } else {
        None
    };
    Node {
        name: unit.node_name.clone(),
        instructions: emitter.instructions,
        labels: emitter.labels,
        tags: clone_strings(&unit.tags),
        source_text_string_id,
    }
}

fn generate_all<N: NumberParser>(
    units: &Vec<Unit>,
    declarations: &Vec<Declaration>,
    library: &Library,
    numbers: &N,
) -> (nodes: Vec<Node>)
    ensures
        nodes.deep_view() == nodes_of(
            units.deep_view(),
            knowledge_of(declarations, library, numbers),
        ),
{
    let mut nodes: Vec<Node> = Vec::new();
    let mut i: usize = 0;
    while i < units.len()
        invariant
            i <= units.len(),
            nodes.len() == i,
            forall|j: int|
                0 <= j < i ==> (#[trigger] nodes[j])@ == node_of(
                    units[j]@,
                    knowledge_of(declarations, library, numbers),
                ),
        decreases units.len() - i,
    {
        nodes.push(compile_unit(&units[i], declarations, library, numbers));
        i = i + 1;
    }
    proof {
        assert(nodes.deep_view() =~= nodes_of(
            units.deep_view(),
            knowledge_of(declarations, library, numbers),
        ));
    }
    nodes
}

fn initial_values(declarations: &Vec<Declaration>) -> (values: Vec<InitialValue>)
    ensures
        values.deep_view() == initial_values_of(declarations.deep_view()),
{
    let ghost views = declarations.deep_view();
    let mut values: Vec<InitialValue> = Vec::new();
    let mut i: usize = 0;
    proof {
        assert(views.take(0) =~= Seq::empty());
        assert(values.deep_view() =~= Seq::empty());
    }
    while i < declarations.len()
        invariant
            i <= declarations.len(),
            views == declarations.deep_view(),
            values.deep_view() == initial_values_of(views.take(i as int)),
        decreases declarations.len() - i,
    {
        let ghost before = values.deep_view();
        proof {
            assert(views.take(i + 1).drop_last() =~= views.take(i as int));
        }
        match &declarations[i].default_value {
            Some(value) => {
                let initial = InitialValue {
                    name: declarations[i].name.clone(),
                    value: value.clone(),
                };
                let ghost added = initial@;
                values.push(initial);
                proof {
                    assert(values.deep_view() =~= before.push(added));
                }
            },
            None => {},
        }
        i = i + 1;
    }
    proof {
        assert(views.take(i as int) =~= views);
    }
    values
}

fn report_deferred(declarations: &Vec<Declaration>, diagnostics: &mut Vec<Diagnostic>)
    ensures
        final(diagnostics).deep_view() == deferred_diagnostics(
            declarations.deep_view(),
            old(diagnostics).deep_view(),
        ),
{
    let ghost views = declarations.deep_view();
    let mut i: usize = 0;
    proof {
        assert(views.take(0) =~= Seq::empty());
    }
    while i < declarations.len()
        invariant
            i <= declarations.len(),
            views == declarations.deep_view(),
            diagnostics.deep_view() == deferred_diagnostics(
                views.take(i as int),
                old(diagnostics).deep_view(),
            ),
        decreases declarations.len() - i,
    {
        proof {
            assert(views.take(i + 1).drop_last() =~= views.take(i as int));
        }
        if declarations[i].ty.is_none() {
            let start = match &declarations[i].range {
                Some(range) => *range.start(),
                None => Position { line: 0, character: 0 },
            };
            report_statement(start, "The type of a variable cannot be determined", diagnostics);
        }
        i = i + 1;
    }
    proof {
        assert(views.take(i as int) =~= views);
    }
}

/// Compiles source files into a program. `library` holds the functions
/// that the program may call, and `numbers` says what the number literals
/// of the program stand for.
pub fn compile<N: NumberParser>(files: &Vec<SourceFile>, library: &Library, numbers: &N) -> (result:
    Compilation)
    ensures
        result@ == compiled(
            files.deep_view(),
            library.functions(),
            meaning_of(numbers),
        ),
{
    let (units, mut diagnostics) = parse_all(files);
    report_untitled(&units, &mut diagnostics);
    report_repeated_names(&units, &mut diagnostics);
    let mut declarations: Vec<Declaration> = Vec::new();
    proof {
        assert(declarations.deep_view() =~= Seq::empty());
    }
    declare_all(&units, numbers, &mut declarations, &mut diagnostics);
    infer_types(&units, &mut declarations, library);
    check_types(&units, &declarations, library, numbers, &mut diagnostics);
    report_all_jumps(&units, &mut diagnostics);
    let string_table = extract_all(&units);
    report_repeated_ids(&string_table, &mut diagnostics);
    report_deferred(&declarations, &mut diagnostics);
    let nodes = generate_all(&units, &declarations, library, numbers);
    let initial_values = initial_values(&declarations);
    let program = Program { nodes, initial_values };
    report_stacks(&program, library, &declarations, &mut diagnostics);
    Compilation { program, string_table, declarations, diagnostics }
}

/// Whether one of the first `end` lines of the string table has the given
/// id.
fn is_id_taken(strings: &Vec<StringInfo>, end: usize, id: &str) -> (taken: bool)
    requires
        end <= strings.len(),
    ensures
        taken == (position_of(ids_of(strings.deep_view()).take(end as int), id@) is Some),
{
    let ghost ids = ids_of(strings.deep_view()).take(end as int);
    let mut i: usize = 0;
    while i < end
        invariant
            i <= end <= strings.len(),
            ids == ids_of(strings.deep_view()).take(end as int),
            forall|j: int| 0 <= j < i ==> ids[j] != id@,
        decreases end - i,
    {
        proof {
            assert(ids[i as int] == strings[i as int]@.line_id);
        }
        if str_eq(strings[i].line_id.as_str(), id) {
            proof {
                lemma_position_is_first(ids, id@, i as int);
            }
            return true;
        }
        i = i + 1;
    }
    proof {
        lemma_position_absent(ids, id@);
    }
    false
}

fn report_repeated_ids(strings: &Vec<StringInfo>, diagnostics: &mut Vec<Diagnostic>)
    ensures
        final(diagnostics).deep_view() == check_ids(
            strings.deep_view(),
            strings.len() as int,
            old(diagnostics).deep_view(),
        ),
{
    let mut i: usize = 0;
    while i < strings.len()
        invariant
            i <= strings.len(),
            diagnostics.deep_view() == check_ids(
                strings.deep_view(),
                i as int,
                old(diagnostics).deep_view(),
            ),
        decreases strings.len() - i,
    {
        proof {
            assert(ids_of(strings.deep_view())[i as int] == strings[i as int]@.line_id);
            assert(strings.deep_view()[i as int] == strings[i as int]@);
        }
        if is_id_taken(strings, i, strings[i].line_id.as_str()) {
            let line = if strings[i].line_number > 0 {
                strings[i].line_number - 1
            } else {
                0
            };
            report_statement(
                Position { line, character: 0 },
                "Two lines have the same id",
                diagnostics,
            );
        }
        i = i + 1;
    }
}

/// Whether the diagnostics hold no error.
pub fn is_free_of_errors(diagnostics: &Vec<Diagnostic>) -> (free: bool)
    ensures
        free == no_errors(diagnostics.deep_view()),
{
    let mut i: usize = 0;
    while i < diagnostics.len()
        invariant
            i <= diagnostics.len(),
            forall|j: int|
                0 <= j < i ==> (#[trigger] diagnostics.deep_view()[j]).severity
                    != DiagnosticSeverity::Error,
        decreases diagnostics.len() - i,
    {
        if diagnostics[i].severity == DiagnosticSeverity::Error {
            proof {
                assert(diagnostics.deep_view()[i as int].severity == DiagnosticSeverity::Error);
            }
            return false;
        }
        i = i + 1;
    }
    true
}

fn report_stacks(
    program: &Program,
    library: &Library,
    declarations: &Vec<Declaration>,
    diagnostics: &mut Vec<Diagnostic>,
)
    ensures
        final(diagnostics).deep_view() == checked_diagnostics(
            program@,
            library.functions(),
            declarations.deep_view(),
            old(diagnostics).deep_view(),
        ),
{
    if !is_free_of_errors(diagnostics) {
        return ;
    }
    let ghost setting = setting_for(program, library, declarations);
    let mut i: usize = 0;
    while i < program.nodes.len()
        invariant
            i <= program.nodes.len(),
            setting == setting_for(program, library, declarations),
            diagnostics.deep_view() == check_stacks(
                program@,
                i as int,
                setting,
                old(diagnostics).deep_view(),
            ),
        decreases program.nodes.len() - i,
    {
        proof {
            assert(program@.nodes[i as int] == program.nodes[i as int]@);
        }
        if check_node(&program.nodes[i], program, library, declarations).is_none() {
            report_statement(
                Position { line: 0, character: 0 },
                "The code of a node leaves its stack out of order",
                diagnostics,
            );
        }
        i = i + 1;
    }
}

impl Compilation {
    /// Whether the compilation has succeeded: whether it has produced no
    /// error.
    pub fn succeeded(&self) -> (success: bool)
        ensures
            success == no_errors(self@.diagnostics),
    {
        is_free_of_errors(&self.diagnostics)
    }
}

/// The lines that the nodes refer to, node by node.
pub open spec fn lines_of_nodes(nodes: Seq<NodeView>) -> Seq<Seq<char>>
    decreases nodes.len(),
{
    if nodes.len() == 0 {
        Seq::empty()
    } else {
        lines_of_nodes(nodes.drop_last()) + nodes.last().line_ids()
    }
}

/// The ids of the entries of two string tables, one behind the other.
pub proof fn lemma_ids_of_concat(first: Seq<StringInfoView>, second: Seq<StringInfoView>)
    ensures
        ids_of(first + second) == ids_of(first) + ids_of(second),
{
    assert(ids_of(first + second) =~= ids_of(first) + ids_of(second));
}

/// The string table of some nodes holds exactly the lines that the code of
/// the nodes refers to.
pub proof fn lemma_units_round_trip(units: Seq<UnitView>, known: Knowledge)
    ensures
        ids_of(strings_of_units(units)) == lines_of_nodes(nodes_of(units, known)),
    decreases units.len(),
{
    if units.len() == 0 {
        assert(ids_of(strings_of_units(units)) =~= Seq::empty());
    } else {
        lemma_units_round_trip(units.drop_last(), known);
        lemma_lines_round_trip(
            units.last().body,
            Generation { origin: units.last().origin, known },
        );
        lemma_ids_of_concat(
            strings_of_units(units.drop_last()),
            strings_of_statements(units.last().origin, units.last().body),
        );
        assert(nodes_of(units, known).drop_last() =~= nodes_of(units.drop_last(), known));
    }
}

/// Round trip: the string table of a compilation holds exactly the lines
/// that the nodes of its program refer to, node by node and within a node
/// in the order of the code. Every line that a node may deliver has its
/// entry, and every entry is of a line that a node may deliver.
pub proof fn lemma_compilation_round_trip(
    files: Seq<SourceFileView>,
    library: Map<Seq<char>, FunctionSignatureView>,
    numbers: spec_fn(Seq<char>) -> Option<Number>,
)
    ensures
        ids_of(compiled(files, library, numbers).string_table) == lines_of_nodes(
            compiled(files, library, numbers).program.nodes,
        ),
{
    let result = compiled(files, library, numbers);
    let units = parse_files(files).units;
    lemma_units_round_trip(
        units,
        Knowledge { declarations: result.declarations, library, numbers },
    );
}

/// Compile idempotence: what compiling gives is a function of the files,
/// the library and the meaning of the number literals. Two compilations of
/// the same files give the same program, string table, declarations and
/// diagnostics.
pub proof fn lemma_compile_idempotent(
    files: Seq<SourceFileView>,
    library: Map<Seq<char>, FunctionSignatureView>,
    numbers: spec_fn(Seq<char>) -> Option<Number>,
    first: CompilationView,
    second: CompilationView,
)
    requires
        first == compiled(files, library, numbers),
        second == compiled(files, library, numbers),
    ensures
        first == second,
        first.program.nodes == second.program.nodes,
{
}

/// Diagnostics without an error held none before the deferred ones were
/// added, and every declaration has a type.
pub proof fn lemma_deferred_diagnostics(
    declarations: Seq<DeclarationView>,
    diagnostics: Seq<DiagnosticView>,
)
    requires
        no_errors(deferred_diagnostics(declarations, diagnostics)),
    ensures
        no_errors(diagnostics),
        forall|i: int| 0 <= i < declarations.len() ==> (#[trigger] declarations[i]).ty is Some,
    decreases declarations.len(),
{
    if declarations.len() > 0 {
        let before = deferred_diagnostics(declarations.drop_last(), diagnostics);
        let after = deferred_diagnostics(declarations, diagnostics);
        if declarations.last().ty is None {
            assert(after[before.len() as int].severity == DiagnosticSeverity::Error);
        }
        lemma_deferred_diagnostics(declarations.drop_last(), diagnostics);
        assert forall|i: int| 0 <= i < declarations.len() implies (
        #[trigger] declarations[i]).ty is Some by {
            if i < declarations.len() - 1 {
                assert(declarations.drop_last()[i] == declarations[i]);
            }
        }
    }
}

/// The types of the declarations are total: where a compilation gives no
/// error, every variable of its declarations has a type.
pub proof fn lemma_types_are_total(
    files: Seq<SourceFileView>,
    library: Map<Seq<char>, FunctionSignatureView>,
    numbers: spec_fn(Seq<char>) -> Option<Number>,
)
    requires
        no_errors(compiled(files, library, numbers).diagnostics),
    ensures
        forall|i: int|
            0 <= i < compiled(files, library, numbers).declarations.len() ==> (
            #[trigger] compiled(files, library, numbers).declarations[i]).ty is Some,
{
    let compilation = compiled(files, library, numbers);
    let parse = parse_files(files);
    let units = parse.units;
    let named = check_names(units, units.len() as int, check_titles(units, parse.diagnostics));
    let written = declare_units(
        units,
        Declared { declarations: Seq::empty(), diagnostics: named },
        numbers,
    );
    let declarations = solve(units, written.declarations, library, usize::MAX as nat);
    let known = Knowledge { declarations, library, numbers };
    let strings = strings_of_units(units);
    let checked = check_ids(
        strings,
        strings.len() as int,
        check_jumps_in_units(
            units,
            units.len() as int,
            check_units(units, known, written.diagnostics),
        ),
    );
    let before = deferred_diagnostics(declarations, checked);
    let program = compilation.program;
    if no_errors(before) {
        lemma_deferred_diagnostics(declarations, checked);
    } else {
        assert(compilation.diagnostics == before);
    }
}

/// No two lines share an id: where a compilation gives no error, every
/// entry of its string table has an id of its own.
pub proof fn lemma_line_ids_are_distinct(
    files: Seq<SourceFileView>,
    library: Map<Seq<char>, FunctionSignatureView>,
    numbers: spec_fn(Seq<char>) -> Option<Number>,
)
    requires
        no_errors(compiled(files, library, numbers).diagnostics),
    ensures
        names_distinct(ids_of(compiled(files, library, numbers).string_table)),
{
    let compilation = compiled(files, library, numbers);
    let parse = parse_files(files);
    let units = parse.units;
    let named = check_names(units, units.len() as int, check_titles(units, parse.diagnostics));
    let written = declare_units(
        units,
        Declared { declarations: Seq::empty(), diagnostics: named },
        numbers,
    );
    let declarations = solve(units, written.declarations, library, usize::MAX as nat);
    let known = Knowledge { declarations, library, numbers };
    let strings = strings_of_units(units);
    let jumps = check_jumps_in_units(
        units,
        units.len() as int,
        check_units(units, known, written.diagnostics),
    );
    let checked = check_ids(strings, strings.len() as int, jumps);
    let before = deferred_diagnostics(declarations, checked);
    if no_errors(before) {
        lemma_deferred_diagnostics(declarations, checked);
        lemma_check_ids(strings, strings.len() as int, jumps);
        assert(ids_of(strings).take(strings.len() as int) =~= ids_of(strings));
    } else {
        assert(compilation.diagnostics == before);
    }
}

} // verus!
