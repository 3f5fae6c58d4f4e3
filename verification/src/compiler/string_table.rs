//! The string table: the lines of a program, by their ids.

use crate::compiler::ast::{
    lemma_statements_view, Clause, ClauseView, LinePart, LinePartView, ShortcutOption,
    ShortcutOptionView, Statement, StatementView,
};
use crate::compiler::declaration::Position;
use crate::compiler::lexer::characters;
use crate::program::clone_strings;
use crate::text::{decimal, marker_of, push_decimal, substitution_marker};
use vstd::prelude::*;
use vstd::string::{StringExecFns, StringSliceAdditionalSpecFns};
use vstd::utf8::encode_utf8;

verus! {

/// An entry of the string table.
#[derive(Debug, Clone, PartialEq, Eq)]
pub struct StringInfo {
    /// The id of the line.
    pub line_id: String,
    /// The text of the line; where a value is to stand, the marker of its
    /// index.
    pub text: String,
    /// The file that the line comes from.
    pub file_name: String,
    /// The node that the line belongs to.
    pub node_name: String,
    /// The line of the file at which the line stands, counted from one.
    pub line_number: usize,
    /// Whether the id was made up because the author gave none.
    pub is_implicit_tag: bool,
    /// The hashtags of the line besides its id.
    pub metadata: Vec<String>,
}

/// The mathematical value of a [`StringInfo`].
pub struct StringInfoView {
    pub line_id: Seq<char>,
    pub text: Seq<char>,
    pub file_name: Seq<char>,
    pub node_name: Seq<char>,
    pub line_number: usize,
    pub is_implicit_tag: bool,
    pub metadata: Seq<Seq<char>>,
}

impl View for StringInfo {
    type V = StringInfoView;

    open spec fn view(&self) -> StringInfoView {
        StringInfoView {
            line_id: self.line_id@,
            text: self.text@,
            file_name: self.file_name@,
            node_name: self.node_name@,
            line_number: self.line_number,
            is_implicit_tag: self.is_implicit_tag,
            metadata: self.metadata.deep_view(),
        }
    }
}

impl DeepView for StringInfo {
    type V = StringInfoView;

    open spec fn deep_view(&self) -> StringInfoView {
        self@
    }
}

/// One step of the hash: the byte is mixed in, and the result multiplied
/// by the prime of the hash.
pub open spec fn hash_step(hash: u32, byte: u8) -> u32 {
    (((hash ^ (byte as u32)) * 0x0100_0193) % 0x1_0000_0000) as u32
}

/// The 32-bit FNV-1a hash of a sequence of bytes.
pub open spec fn fnv1a(bytes: Seq<u8>) -> u32
    decreases bytes.len(),
{
    if bytes.len() == 0 {
        0x811c_9dc5
    } else {
        hash_step(fnv1a(bytes.drop_last()), bytes.last())
    }
}

/// The hexadecimal digit of a value below sixteen.
pub open spec fn hex_digit(value: u32) -> char {
    if value == 0 {
        '0'
    } else if value == 1 {
        '1'
    } else if value == 2 {
        '2'
    } else if value == 3 {
        '3'
    } else if value == 4 {
        '4'
    } else if value == 5 {
        '5'
    } else if value == 6 {
        '6'
    } else if value == 7 {
        '7'
    } else if value == 8 {
        '8'
    } else if value == 9 {
        '9'
    } else if value == 10 {
        'a'
    } else if value == 11 {
        'b'
    } else if value == 12 {
        'c'
    } else if value == 13 {
        'd'
    } else if value == 14 {
        'e'
    } else {
        'f'
    }
}

/// The digit of a value at a place, the places counted from the highest,
/// which is place 0, to the lowest, which is place 7.
pub open spec fn hex_digit_at(value: u32, place: int) -> char {
    let shifted: u32 = if place == 0 {
        value / 0x1000_0000
    } else if place == 1 {
        value / 0x100_0000
    } else if place == 2 {
        value / 0x10_0000
    } else if place == 3 {
        value / 0x1_0000
    } else if place == 4 {
        value / 0x1000
    } else if place == 5 {
        value / 0x100
    } else if place == 6 {
        value / 0x10
    } else {
        value
    };
    hex_digit(shifted % 16)
}

/// A value in eight hexadecimal digits.
pub open spec fn hex(value: u32) -> Seq<char> {
    Seq::new(8, |place: int| hex_digit_at(value, place))
}

/// What the id of a line without a line tag is derived from: the names of
/// its file and its node, the number of its line and its text, with a null
/// character between each two of them.
pub open spec fn line_key(
    file_name: Seq<char>,
    node_name: Seq<char>,
    line_number: usize,
    text: Seq<char>,
) -> Seq<char> {
    file_name.push('\0') + node_name.push('\0') + decimal(line_number as nat).push('\0') + text
}

/// The id that is made up for a line whose author gave it none.
pub open spec fn generated_line_id(
    file_name: Seq<char>,
    node_name: Seq<char>,
    line_number: usize,
    text: Seq<char>,
) -> Seq<char> {
    "line:"@ + hex(fnv1a(encode_utf8(line_key(file_name, node_name, line_number, text))))
}

/// Whether a hashtag gives the id of its line: whether it starts with
/// `line:`.
pub open spec fn is_line_tag(hashtag: Seq<char>) -> bool {
    hashtag.len() >= 5 && hashtag[0] == 'l' && hashtag[1] == 'i' && hashtag[2] == 'n'
        && hashtag[3] == 'e' && hashtag[4] == ':'
}

/// The first hashtag that gives the id of its line, if there is one.
pub open spec fn line_tag(hashtags: Seq<Seq<char>>) -> Option<Seq<char>>
    decreases hashtags.len(),
{
    if hashtags.len() == 0 {
        None
    } else {
        match line_tag(hashtags.drop_last()) {
            Some(tag) => Some(tag),
            None => if is_line_tag(hashtags.last()) {
                Some(hashtags.last())
            } else {
                None
            },
        }
    }
}

/// The hashtags that do not give the id of their line.
pub open spec fn metadata_of(hashtags: Seq<Seq<char>>) -> Seq<Seq<char>>
    decreases hashtags.len(),
{
    if hashtags.len() == 0 {
        Seq::empty()
    } else if is_line_tag(hashtags.last()) {
        metadata_of(hashtags.drop_last())
    } else {
        metadata_of(hashtags.drop_last()).push(hashtags.last())
    }
}

/// How many of the parts are expressions.
pub open spec fn expression_count(parts: Seq<LinePartView>) -> nat
    decreases parts.len(),
{
    if parts.len() == 0 {
        0
    } else {
        expression_count(parts.drop_last()) + if parts.last() is Expression {
            1nat
        } else {
            0nat
        }
    }
}

/// The text of a line: its text parts, and in the place of each
/// expression the marker of its index among the expressions.
pub open spec fn line_text(parts: Seq<LinePartView>) -> Seq<char>
    decreases parts.len(),
{
    if parts.len() == 0 {
        Seq::empty()
    } else {
        line_text(parts.drop_last()) + match parts.last() {
            LinePartView::Text(text) => text,
            LinePartView::Expression(_) => substitution_marker(
                expression_count(parts.drop_last()),
            ),
        }
    }
}

/// The file and the node that lines come from.
pub struct Origin {
    pub file_name: Seq<char>,
    pub node_name: Seq<char>,
}

/// The number of the line at which a position lies, counted from one.
pub open spec fn line_number_of(position: Position) -> usize {
    if position.line < usize::MAX {
        (position.line + 1) as usize
    } else {
        usize::MAX
    }
}

/// The id of a line: the hashtag that gives it, or else the id that is made
/// up from where the line stands and what it says.
pub open spec fn line_id_for(
    origin: Origin,
    parts: Seq<LinePartView>,
    hashtags: Seq<Seq<char>>,
    start: Position,
) -> Seq<char> {
    match line_tag(hashtags) {
        Some(tag) => tag,
        None => generated_line_id(
            origin.file_name,
            origin.node_name,
            line_number_of(start),
            line_text(parts),
        ),
    }
}

/// The entry of the string table for a line.
pub open spec fn string_info(
    origin: Origin,
    parts: Seq<LinePartView>,
    hashtags: Seq<Seq<char>>,
    start: Position,
) -> StringInfoView {
    StringInfoView {
        line_id: line_id_for(origin, parts, hashtags, start),
        text: line_text(parts),
        file_name: origin.file_name,
        node_name: origin.node_name,
        line_number: line_number_of(start),
        is_implicit_tag: line_tag(hashtags) is None,
        metadata: metadata_of(hashtags),
    }
}

/// The entries for the lines of the options of a group, in the order of
/// the options.
pub open spec fn strings_of_option_lines(
    origin: Origin,
    options: Seq<ShortcutOptionView>,
) -> Seq<StringInfoView> {
    Seq::new(
        options.len(),
        |i: int| string_info(origin, options[i].parts, options[i].hashtags, options[i].start),
    )
}

/// The entries for the lines of a list of statements, in the order in
/// which the code generator refers to them: with a group of options, the
/// lines of the options come before the lines of what follows the options.
pub open spec fn strings_of_statements(
    origin: Origin,
    statements: Seq<StatementView>,
) -> Seq<StringInfoView>
    decreases statements, 1int,
{
    if statements.len() == 0 {
        Seq::empty()
    } else {
        strings_of_statements(origin, statements.drop_last()) + strings_of_statement(
            origin,
            statements.last(),
        )
    }
}

/// The entries for the lines of a statement.
pub open spec fn strings_of_statement(origin: Origin, statement: StatementView) -> Seq<
    StringInfoView,
>
    decreases statement, 0int,
{
    match statement {
        StatementView::Line { parts, hashtags, start } => seq![
            string_info(origin, parts, hashtags, start),
        ],
        StatementView::Options { options, start } => strings_of_option_lines(origin, options)
            + strings_of_option_bodies(origin, options),
        StatementView::If { clauses, otherwise, start } => strings_of_clauses(origin, clauses)
            + match otherwise {
            Some(body) => strings_of_statements(origin, body),
            None => Seq::empty(),
        },
        _ => Seq::empty(),
    }
}

/// The entries for the lines of what follows the options of a group.
pub open spec fn strings_of_option_bodies(
    origin: Origin,
    options: Seq<ShortcutOptionView>,
) -> Seq<StringInfoView>
    decreases options, 1int,
{
    if options.len() == 0 {
        Seq::empty()
    } else {
        strings_of_option_bodies(origin, options.drop_last()) + strings_of_statements(
            origin,
            options.last().body,
        )
    }
}

/// The entries for the lines of the clauses of an `<<if>>`.
pub open spec fn strings_of_clauses(
    origin: Origin,
    clauses: Seq<ClauseView>,
) -> Seq<StringInfoView>
    decreases clauses, 1int,
{
    if clauses.len() == 0 {
        Seq::empty()
    } else {
        strings_of_clauses(origin, clauses.drop_last()) + strings_of_statements(
            origin,
            clauses.last().body,
        )
    }
}

/// The 32-bit FNV-1a hash of a text in UTF-8.
pub fn hash(text: &str) -> (hash: u32)
    ensures
        hash == fnv1a(encode_utf8(text@)),
{
    let bytes = text.as_bytes();
    let mut hash: u32 = 0x811c_9dc5;
    let mut i: usize = 0;
    proof {
        assert(bytes@.take(0) =~= Seq::empty());
    }
    while i < bytes.len()
        invariant
            i <= bytes.len(),
            bytes@ == encode_utf8(text@),
            hash == fnv1a(bytes@.take(i as int)),
        decreases bytes.len() - i,
    {
        proof {
            assert(bytes@.take(i + 1).drop_last() =~= bytes@.take(i as int));
        }
        let mixed: u64 = (hash ^ (bytes[i] as u32)) as u64;
        hash = ((mixed * 0x0100_0193u64) % 0x1_0000_0000u64) as u32;
        i = i + 1;
    }
    proof {
        assert(bytes@.take(i as int) =~= bytes@);
    }
    hash
}

fn digit_of(value: u32) -> (c: char)
    ensures
        c == hex_digit(value),
{
    if value == 0 {
        '0'
    } else if value == 1 {
        '1'
    } else if value == 2 {
        '2'
    } else if value == 3 {
        '3'
    } else if value == 4 {
        '4'
    } else if value == 5 {
        '5'
    } else if value == 6 {
        '6'
    } else if value == 7 {
        '7'
    } else if value == 8 {
        '8'
    } else if value == 9 {
        '9'
    } else if value == 10 {
        'a'
    } else if value == 11 {
        'b'
    } else if value == 12 {
        'c'
    } else if value == 13 {
        'd'
    } else if value == 14 {
        'e'
    } else {
        'f'
    }
}

/// Appends a value in eight hexadecimal digits.
pub fn push_hex(text: &mut String, value: u32)
    ensures
        final(text)@ == old(text)@ + hex(value),
{
    text.push(digit_of(value / 0x1000_0000 % 16));
    text.push(digit_of(value / 0x100_0000 % 16));
    text.push(digit_of(value / 0x10_0000 % 16));
    text.push(digit_of(value / 0x1_0000 % 16));
    text.push(digit_of(value / 0x1000 % 16));
    text.push(digit_of(value / 0x100 % 16));
    text.push(digit_of(value / 0x10 % 16));
    text.push(digit_of(value % 16));
    proof {
        assert(text@ =~= old(text)@ + hex(value));
    }
}

/// The lock of a text: eight hexadecimal digits that change when the text
/// changes, by which a translation can tell that it has fallen behind.
pub open spec fn lock_of(text: Seq<char>) -> Seq<char> {
    hex(fnv1a(encode_utf8(text)))
}

/// The lock of a text.
pub fn lock(text: &str) -> (lock: String)
    ensures
        lock@ == lock_of(text@),
{
    let mut lock = String::new();
    push_hex(&mut lock, hash(text));
    proof {
        assert(lock@ =~= lock_of(text@));
    }
    lock
}

/// The id that is made up for a line whose author gave it none.
pub fn generate_line_id(file_name: &str, node_name: &str, line_number: usize, text: &str) -> (id:
    String)
    ensures
        id@ == generated_line_id(file_name@, node_name@, line_number, text@),
{
    let mut key = file_name.to_owned();
    key.push('\0');
    key.append(node_name);
    key.push('\0');
    push_decimal(&mut key, line_number);
    key.push('\0');
    key.append(text);
    proof {
        assert(key@ =~= line_key(file_name@, node_name@, line_number, text@));
    }
    let mut id = "line:".to_owned();
    push_hex(&mut id, hash(key.as_str()));
    id
}

fn gives_line_id(hashtag: &str) -> (r: bool)
    ensures
        r == is_line_tag(hashtag@),
{
    let chars = characters(hashtag);
    chars.len() >= 5 && chars[0] == 'l' && chars[1] == 'i' && chars[2] == 'n' && chars[3] == 'e'
        && chars[4] == ':'
}

fn find_line_tag(hashtags: &Vec<String>) -> (tag: Option<String>)
    ensures
        tag.deep_view() == line_tag(hashtags.deep_view()),
{
    let mut i: usize = 0;
    proof {
        assert(hashtags.deep_view().take(0) =~= Seq::empty());
    }
    while i < hashtags.len()
        invariant
            i <= hashtags.len(),
            line_tag(hashtags.deep_view().take(i as int)) is None,
        decreases hashtags.len() - i,
    {
        proof {
            assert(hashtags.deep_view().take(i + 1).drop_last() =~= hashtags.deep_view().take(
                i as int,
            ));
        }
        if gives_line_id(hashtags[i].as_str()) {
            proof {
                lemma_line_tag_stays(hashtags.deep_view(), i + 1);
            }
            return Some(hashtags[i].clone());
        }
        i = i + 1;
    }
    proof {
        assert(hashtags.deep_view().take(i as int) =~= hashtags.deep_view());
    }
    None
}

/// The first line tag among the first hashtags is the first line tag among
/// all of them.
pub proof fn lemma_line_tag_stays(hashtags: Seq<Seq<char>>, length: int)
    requires
        0 <= length <= hashtags.len(),
        line_tag(hashtags.take(length)) is Some,
    ensures
        line_tag(hashtags) == line_tag(hashtags.take(length)),
    decreases hashtags.len() - length,
{
    if length < hashtags.len() {
        assert(hashtags.take(length + 1).drop_last() =~= hashtags.take(length));
        lemma_line_tag_stays(hashtags, length + 1);
    } else {
        assert(hashtags.take(length) =~= hashtags);
    }
}

fn metadata(hashtags: &Vec<String>) -> (kept: Vec<String>)
    ensures
        kept.deep_view() == metadata_of(hashtags.deep_view()),
{
    let mut kept: Vec<String> = Vec::new();
    let mut i: usize = 0;
    proof {
        assert(hashtags.deep_view().take(0) =~= Seq::empty());
        assert(kept.deep_view() =~= Seq::empty());
    }
    while i < hashtags.len()
        invariant
            i <= hashtags.len(),
            kept.deep_view() == metadata_of(hashtags.deep_view().take(i as int)),
        decreases hashtags.len() - i,
    {
        let ghost before = kept.deep_view();
        proof {
            assert(hashtags.deep_view().take(i + 1).drop_last() =~= hashtags.deep_view().take(
                i as int,
            ));
        }
        if !gives_line_id(hashtags[i].as_str()) {
            kept.push(hashtags[i].clone());
            proof {
                assert(kept.deep_view() =~= before.push(hashtags[i as int]@));
            }
        }
        i = i + 1;
    }
    proof {
        assert(hashtags.deep_view().take(i as int) =~= hashtags.deep_view());
    }
    kept
}

/// The text of a line: its text parts, and in the place of each expression
/// the marker of its index among the expressions.
pub fn text_of_line(parts: &Vec<LinePart>) -> (text: String)
    ensures
        text@ == line_text(parts.deep_view()),
{
    let mut text = String::new();
    let mut expressions: usize = 0;
    let mut i: usize = 0;
    proof {
        assert(parts.deep_view().take(0) =~= Seq::empty());
    }
    while i < parts.len()
        invariant
            i <= parts.len(),
            expressions <= i,
            expressions == expression_count(parts.deep_view().take(i as int)),
            text@ == line_text(parts.deep_view().take(i as int)),
        decreases parts.len() - i,
    {
        proof {
            assert(parts.deep_view().take(i + 1).drop_last() =~= parts.deep_view().take(
                i as int,
            ));
        }
        match &parts[i] {
            LinePart::Text(piece) => {
                text.append(piece.as_str());
            },
            LinePart::Expression(_) => {
                text.append(marker_of(expressions).as_str());
                expressions = expressions + 1;
            },
        }
        i = i + 1;
    }
    proof {
        assert(parts.deep_view().take(i as int) =~= parts.deep_view());
    }
    text
}

fn number_of_line(position: Position) -> (number: usize)
    ensures
        number == line_number_of(position),
{
    if position.line < usize::MAX {
        position.line + 1
    } else {
        usize::MAX
    }
}

/// The origin that two names stand for.
pub open spec fn origin_of(file_name: &str, node_name: &str) -> Origin {
    Origin { file_name: file_name@, node_name: node_name@ }
}

/// The id of a line.
pub fn line_id(
    file_name: &str,
    node_name: &str,
    parts: &Vec<LinePart>,
    hashtags: &Vec<String>,
    start: Position,
) -> (id: String)
    ensures
        id@ == line_id_for(
            origin_of(file_name, node_name),
            parts.deep_view(),
            hashtags.deep_view(),
            start,
        ),
{
    match find_line_tag(hashtags) {
        Some(tag) => tag,
        None => generate_line_id(
            file_name,
            node_name,
            number_of_line(start),
            text_of_line(parts).as_str(),
        ),
    }
}

/// The entry of the string table for a line.
pub fn info_of_line(
    file_name: &str,
    node_name: &str,
    parts: &Vec<LinePart>,
    hashtags: &Vec<String>,
    start: Position,
) -> (info: StringInfo)
    ensures
        info@ == string_info(
            origin_of(file_name, node_name),
            parts.deep_view(),
            hashtags.deep_view(),
            start,
        ),
{
    StringInfo {
        line_id: line_id(file_name, node_name, parts, hashtags, start),
        text: text_of_line(parts),
        file_name: file_name.to_owned(),
        node_name: node_name.to_owned(),
        line_number: number_of_line(start),
        is_implicit_tag: find_line_tag(hashtags).is_none(),
        metadata: metadata(hashtags),
    }
}

/// Adds the entries for the lines of a list of statements to a string
/// table.
#[verifier::loop_isolation(false)]
pub fn extract_strings(
    file_name: &str,
    node_name: &str,
    statements: &Vec<Statement>,
    table: &mut Vec<StringInfo>,
)
    ensures
        final(table).deep_view() == old(table).deep_view() + strings_of_statements(
            origin_of(file_name, node_name),
            statements.deep_view(),
        ),
    decreases statements,
{
    let ghost origin = origin_of(file_name, node_name);
    let ghost views = statements.deep_view();
    let mut i: usize = 0;
    proof {
        assert(views.take(0) =~= Seq::empty());
        assert(table.deep_view() =~= old(table).deep_view() + strings_of_statements(
            origin,
            views.take(0),
        ));
    }
    while i < statements.len()
        invariant
            i <= statements.len(),
            table.deep_view() == old(table).deep_view() + strings_of_statements(
                origin,
                views.take(i as int),
            ),
        decreases statements.len() - i,
    {
        let ghost before = table.deep_view();
        proof {
            assert(views.take(i + 1).drop_last() =~= views.take(i as int));
            vstd::std_specs::vec::axiom_vec_index_decreases(*statements, i as int);
        }
        extract_statement(file_name, node_name, &statements[i], table);
        proof {
            assert(table.deep_view() =~= old(table).deep_view() + strings_of_statements(
                origin,
                views.take(i + 1),
            ));
        }
        i = i + 1;
    }
    proof {
        assert(views.take(i as int) =~= views);
    }
}

#[verifier::loop_isolation(false)]
fn extract_statement(
    file_name: &str,
    node_name: &str,
    statement: &Statement,
    table: &mut Vec<StringInfo>,
)
    ensures
        final(table).deep_view() == old(table).deep_view() + strings_of_statement(
            origin_of(file_name, node_name),
            statement@,
        ),
    decreases statement,
{
    let ghost origin = origin_of(file_name, node_name);
    match statement {
        Statement::Line { parts, hashtags, start } => {
            let info = info_of_line(file_name, node_name, parts, hashtags, *start);
            let ghost added = info@;
            table.push(info);
            proof {
                assert(table.deep_view() =~= old(table).deep_view() + seq![added]);
            }
        },
        Statement::Options { options, start } => {
            let ghost views = options.deep_view();
            proof {
                assert(statement@->Options_options =~= views);
            }
            let mut i: usize = 0;
            while i < options.len()
                invariant
                    i <= options.len(),
                    table.deep_view() == old(table).deep_view() + strings_of_option_lines(
                        origin,
                        views,
                    ).take(i as int),
                decreases options.len() - i,
            {
                let ghost before = table.deep_view();
                let info = info_of_line(
                    file_name,
                    node_name,
                    &options[i].parts,
                    &options[i].hashtags,
                    options[i].start,
                );
                let ghost added = info@;
                table.push(info);
                proof {
                    assert(table.deep_view() =~= before.push(added));
                    assert(table.deep_view() =~= old(table).deep_view() + strings_of_option_lines(
                        origin,
                        views,
                    ).take(i + 1));
                }
                i = i + 1;
            }
            let ghost lines = table.deep_view();
            proof {
                assert(strings_of_option_lines(origin, views).take(i as int)
                    =~= strings_of_option_lines(origin, views));
                assert(views.take(0) =~= Seq::empty());
                assert(table.deep_view() =~= lines + strings_of_option_bodies(
                    origin,
                    views.take(0),
                ));
            }
            let mut k: usize = 0;
            while k < options.len()
                invariant
                    k <= options.len(),
                    table.deep_view() == lines + strings_of_option_bodies(
                        origin,
                        views.take(k as int),
                    ),
                decreases options.len() - k,
            {
                proof {
                    assert(views.take(k + 1).drop_last() =~= views.take(k as int));
                    vstd::std_specs::vec::axiom_vec_index_decreases(*options, k as int);
                    lemma_statements_view(options[k as int].body);
                }
                extract_strings(file_name, node_name, &options[k].body, table);
                proof {
                    assert(table.deep_view() =~= lines + strings_of_option_bodies(
                        origin,
                        views.take(k + 1),
                    ));
                }
                k = k + 1;
            }
            proof {
                assert(views.take(k as int) =~= views);
                assert(table.deep_view() =~= old(table).deep_view() + strings_of_statement(
                    origin,
                    statement@,
                ));
            }
        },
        Statement::If { clauses, otherwise, start } => {
            let ghost views = clauses.deep_view();
            proof {
                assert(statement@->If_clauses =~= views);
                assert(views.take(0) =~= Seq::empty());
                assert(table.deep_view() =~= old(table).deep_view() + strings_of_clauses(
                    origin,
                    views.take(0),
                ));
            }
            let mut i: usize = 0;
            while i < clauses.len()
                invariant
                    i <= clauses.len(),
                    table.deep_view() == old(table).deep_view() + strings_of_clauses(
                        origin,
                        views.take(i as int),
                    ),
                decreases clauses.len() - i,
            {
                proof {
                    assert(views.take(i + 1).drop_last() =~= views.take(i as int));
                    vstd::std_specs::vec::axiom_vec_index_decreases(*clauses, i as int);
                    lemma_statements_view(clauses[i as int].body);
                }
                extract_strings(file_name, node_name, &clauses[i].body, table);
                proof {
                    assert(table.deep_view() =~= old(table).deep_view() + strings_of_clauses(
                        origin,
                        views.take(i + 1),
                    ));
                }
                i = i + 1;
            }
            proof {
                assert(views.take(i as int) =~= views);
            }
            match otherwise {
                Some(body) => {
                    proof {
                        lemma_statements_view(*body);
                    }
                    extract_strings(file_name, node_name, body, table);
                },
                None => {},
            }
            proof {
                assert(table.deep_view() =~= old(table).deep_view() + strings_of_statement(
                    origin,
                    statement@,
                ));
            }
        },
        _ => {
            proof {
                assert(table.deep_view() =~= old(table).deep_view() + strings_of_statement(
                    origin,
                    statement@,
                ));
            }
        },
    }
}

} // verus!
