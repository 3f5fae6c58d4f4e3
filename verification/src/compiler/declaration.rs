//! Declarations of variables and the places in source text they come from.

use crate::compiler::lexer::characters;
use crate::compiler::token::Token;
use crate::types::{Type, TypeView};
use crate::value::{YarnValue, YarnValueView};
use std::ops::RangeInclusive;
use vstd::prelude::*;
use vstd::std_specs::cmp::PartialEqSpecImpl;
use vstd::std_specs::convert::FromSpecImpl;

verus! {

/// Represents a position in a multi-line string.
#[derive(Debug, Clone, Copy, Eq, PartialEq, Hash, Structural)]
pub struct Position {
    /// The zero-indexed line of this position.
    pub line: usize,
    /// The zero-indexed character number of this position.
    pub character: usize,
}

/// `RangeInclusive::start` hands out the lower bound that the range was made
/// with.
pub assume_specification<Idx>[ RangeInclusive::<Idx>::start ](
    range: &RangeInclusive<Idx>,
) -> (start: &Idx)
    ensures
        *start == range@.start,
;

/// `RangeInclusive::end` hands out the upper bound that the range was made
/// with.
pub assume_specification<Idx>[ RangeInclusive::<Idx>::end ](range: &RangeInclusive<Idx>) -> (end:
    &Idx)
    ensures
        *end == range@.end,
;

/// A copy of a range of positions, with the same bounds.
pub fn clone_range(range: &RangeInclusive<Position>) -> (r: RangeInclusive<Position>)
    ensures
        r@.start == range@.start,
        r@.end == range@.end,
{
    RangeInclusive::new(*range.start(), *range.end())
}

/// The source of a declaration.
#[derive(Debug, Eq)]
pub enum DeclarationSource {
    /// The declaration was supplied by the host rather than found in a file.
    External,
    /// The declaration was found in the file of this name.
    File(String),
}

/// The mathematical value of a [`DeclarationSource`].
pub enum DeclarationSourceView {
    External,
    File(Seq<char>),
}

impl View for DeclarationSource {
    type V = DeclarationSourceView;

    open spec fn view(&self) -> DeclarationSourceView {
        match self {
            DeclarationSource::External => DeclarationSourceView::External,
            DeclarationSource::File(name) => DeclarationSourceView::File(name@),
        }
    }
}

impl PartialEq for DeclarationSource {
    fn eq(&self, other: &Self) -> (r: bool) {
        match (self, other) {
            (DeclarationSource::External, DeclarationSource::External) => true,
            (DeclarationSource::File(a), DeclarationSource::File(b)) => *a == *b,
            _ => false,
        }
    }
}

impl PartialEqSpecImpl for DeclarationSource {
    open spec fn obeys_eq_spec() -> bool {
        true
    }

    open spec fn eq_spec(&self, other: &Self) -> bool {
        self@ == other@
    }
}

impl Clone for DeclarationSource {
    fn clone(&self) -> (r: Self)
        ensures
            r@ == self@,
    {
        match self {
            DeclarationSource::External => DeclarationSource::External,
            DeclarationSource::File(file_name) => DeclarationSource::File(file_name.clone()),
        }
    }
}

impl Default for DeclarationSource {
    fn default() -> (r: Self)
        ensures
            r == DeclarationSource::External,
    {
        DeclarationSource::External
    }
}

impl From<String> for DeclarationSource {
    fn from(file_name: String) -> (r: Self) {
        DeclarationSource::File(file_name)
    }
}

impl FromSpecImpl<String> for DeclarationSource {
    open spec fn obeys_from_spec() -> bool {
        true
    }

    open spec fn from_spec(file_name: String) -> Self {
        DeclarationSource::File(file_name)
    }
}

impl<'a> From<&'a str> for DeclarationSource {
    fn from(file_name: &'a str) -> (r: Self)
        ensures
            r@ == DeclarationSourceView::File(file_name@),
    {
        DeclarationSource::File(file_name.to_owned())
    }
}

/// What `from` gives is stated by its view, on `from` itself: the verifier
/// does not take two strings of the same characters for one value.
impl<'a> FromSpecImpl<&'a str> for DeclarationSource {
    open spec fn obeys_from_spec() -> bool {
        false
    }

    open spec fn from_spec(file_name: &'a str) -> Self {
        choose|source: DeclarationSource| source@ == DeclarationSourceView::File(file_name@)
    }
}

impl DeclarationSource {
    /// The name under which the source is shown: the file's name, or
    /// `(External)` for a declaration that comes from no file.
    pub fn to_string(&self) -> (r: String)
        ensures
            r@ == match self@ {
                DeclarationSourceView::External => "(External)"@,
                DeclarationSourceView::File(name) => name,
            },
    {
        match self {
            DeclarationSource::External => "(External)".to_owned(),
            DeclarationSource::File(file_name) => file_name.clone(),
        }
    }
}

/// Information about a declaration of a variable, as held in the
/// declaration table that a compilation produces.
#[derive(Debug, PartialEq, Eq)]
pub struct Declaration {
    /// The name of this declaration.
    pub name: String,
    /// The value that the variable has where nothing has set it.
    pub default_value: Option<YarnValue>,
    /// A string describing the purpose of this declaration.
    pub description: Option<String>,
    /// The file in which this declaration was found, if it was found in one.
    pub source_file_name: DeclarationSource,
    /// The name of the node in which this declaration was found.
    pub source_node_name: Option<String>,
    /// Whether this declaration was inferred from usage rather than written
    /// in the source.
    pub is_implicit: bool,
    /// The type of the variable, once it is known.
    pub ty: Option<Type>,
    /// The range of text at which the declared symbol stands.
    pub range: Option<RangeInclusive<Position>>,
}

/// The mathematical value of a [`Declaration`].
pub struct DeclarationView {
    pub name: Seq<char>,
    pub default_value: Option<YarnValueView>,
    pub description: Option<Seq<char>>,
    pub source_file_name: DeclarationSourceView,
    pub source_node_name: Option<Seq<char>>,
    pub is_implicit: bool,
    pub ty: Option<TypeView>,
    /// The first and the last position of the range.
    pub range: Option<(Position, Position)>,
}

/// The bounds of a range, if there is one.
pub open spec fn range_bounds(range: Option<RangeInclusive<Position>>) -> Option<
    (Position, Position),
> {
    match range {
        Some(range) => Some((range@.start, range@.end)),
        None => None,
    }
}

impl View for Declaration {
    type V = DeclarationView;

    open spec fn view(&self) -> DeclarationView {
        DeclarationView {
            name: self.name@,
            default_value: self.default_value.deep_view(),
            description: self.description.deep_view(),
            source_file_name: self.source_file_name@,
            source_node_name: self.source_node_name.deep_view(),
            is_implicit: self.is_implicit,
            ty: self.ty.deep_view(),
            range: range_bounds(self.range),
        }
    }
}

impl DeepView for Declaration {
    type V = DeclarationView;

    open spec fn deep_view(&self) -> DeclarationView {
        self@
    }
}

/// A copy of an optional string.
pub fn clone_optional_string(string: &Option<String>) -> (r: Option<String>)
    ensures
        r.deep_view() == string.deep_view(),
{
    match string {
        Some(string) => Some(string.clone()),
        None => None,
    }
}

/// Whether two optional strings are both absent or hold the same characters.
pub fn optional_strings_equal(a: &Option<String>, b: &Option<String>) -> (r: bool)
    ensures
        r == (a.deep_view() == b.deep_view()),
{
    match (a, b) {
        (Some(a), Some(b)) => *a == *b,
        (None, None) => true,
        _ => false,
    }
}

impl Clone for Declaration {
    fn clone(&self) -> (r: Self)
        ensures
            r@ == self@,
    {
        Declaration {
            name: self.name.clone(),
            default_value: match &self.default_value {
                Some(value) => Some(value.clone()),
                None => None,
            },
            description: clone_optional_string(&self.description),
            source_file_name: self.source_file_name.clone(),
            source_node_name: clone_optional_string(&self.source_node_name),
            is_implicit: self.is_implicit,
            ty: match &self.ty {
                Some(ty) => Some(ty.duplicate()),
                None => None,
            },
            range: match &self.range {
                Some(range) => Some(clone_range(range)),
                None => None,
            },
        }
    }
}

impl Default for Declaration {
    fn default() -> (r: Self)
        ensures
            r@ == (DeclarationView {
                name: Seq::empty(),
                default_value: None,
                description: None,
                source_file_name: DeclarationSourceView::External,
                source_node_name: None,
                is_implicit: false,
                ty: None,
                range: None,
            }),
    {
        Declaration {
            name: String::new(),
            default_value: None,
            description: None,
            source_file_name: DeclarationSource::External,
            source_node_name: None,
            is_implicit: false,
            ty: None,
            range: None,
        }
    }
}

/// Whether two default values count as the same. Two numbers are the same
/// when the caller has found them close enough; any other two values, when
/// they are equal.
pub open spec fn default_values_match(
    a: Option<YarnValueView>,
    b: Option<YarnValueView>,
    numbers_are_close: bool,
) -> bool {
    match (a, b) {
        (Some(YarnValueView::Number(_)), Some(YarnValueView::Number(_))) => numbers_are_close,
        (Some(a), Some(b)) => a == b,
        (None, None) => true,
        _ => false,
    }
}

impl DeclarationView {
    /// The line of the first position of the range, if there is a range.
    pub open spec fn source_file_line(self) -> Option<usize> {
        match self.range {
            Some((start, _)) => Some(start.line),
            None => None,
        }
    }

    /// Whether two declarations say the same: all their fields are equal,
    /// but for the default values, which need only match.
    pub open spec fn agrees_with(self, other: DeclarationView, numbers_are_close: bool) -> bool {
        &&& self.name == other.name
        &&& self.description == other.description
        &&& self.source_file_name == other.source_file_name
        &&& self.source_node_name == other.source_node_name
        &&& self.is_implicit == other.is_implicit
        &&& self.ty == other.ty
        &&& self.range == other.range
        &&& default_values_match(self.default_value, other.default_value, numbers_are_close)
    }
}

impl Declaration {
    /// The line at which this declaration was found in its source file, if it
    /// was found in one.
    pub fn source_file_line(&self) -> (line: Option<usize>)
        ensures
            line == self@.source_file_line(),
    {
        match &self.range {
            Some(range) => Some(range.start().line),
            None => None,
        }
    }

    pub fn with_type(self, ty: Option<Type>) -> (r: Self)
        ensures
            r@ == (DeclarationView { ty: ty.deep_view(), ..self@ }),
    {
        Declaration { ty, ..self }
    }

    pub fn with_default_value(self, default_value: YarnValue) -> (r: Self)
        ensures
            r@ == (DeclarationView { default_value: Some(default_value@), ..self@ }),
    {
        Declaration { default_value: Some(default_value), ..self }
    }

    pub fn with_name(self, name: String) -> (r: Self)
        ensures
            r@ == (DeclarationView { name: name@, ..self@ }),
    {
        Declaration { name, ..self }
    }

    pub fn with_description(self, description: String) -> (r: Self)
        ensures
            r@ == (DeclarationView { description: Some(description@), ..self@ }),
    {
        Declaration { description: Some(description), ..self }
    }

    pub fn with_description_optional(self, description: Option<String>) -> (r: Self)
        ensures
            r@ == (DeclarationView { description: description.deep_view(), ..self@ }),
    {
        Declaration { description, ..self }
    }

    pub fn with_source_file_name(self, source_file_name: DeclarationSource) -> (r: Self)
        ensures
            r@ == (DeclarationView { source_file_name: source_file_name@, ..self@ }),
    {
        Declaration { source_file_name, ..self }
    }

    pub fn with_source_node_name(self, source_node_name: String) -> (r: Self)
        ensures
            r@ == (DeclarationView { source_node_name: Some(source_node_name@), ..self@ }),
    {
        Declaration { source_node_name: Some(source_node_name), ..self }
    }

    pub fn with_source_node_name_optional(self, source_node_name: Option<String>) -> (r: Self)
        ensures
            r@ == (DeclarationView { source_node_name: source_node_name.deep_view(), ..self@ }),
    {
        Declaration { source_node_name, ..self }
    }

    pub fn with_implicit(self) -> (r: Self)
        ensures
            r@ == (DeclarationView { is_implicit: true, ..self@ }),
    {
        Declaration { is_implicit: true, ..self }
    }

    pub fn with_range(self, range: RangeInclusive<Position>) -> (r: Self)
        ensures
            r@ == (DeclarationView { range: Some((range@.start, range@.end)), ..self@ }),
    {
        Declaration { range: Some(range), ..self }
    }

    /// Whether two declarations say the same, with a tolerance for numeric
    /// default values. Whether two numbers are within the tolerance is for
    /// the caller to say: `numbers_are_close` is read only where both
    /// declarations have a number as their default value.
    pub fn eq(&self, other: &Self, numbers_are_close: bool) -> (r: bool)
        ensures
            r == self@.agrees_with(other@, numbers_are_close),
    {
        let types_equal = match (&self.ty, &other.ty) {
            (Some(a), Some(b)) => a.same_as(b),
            (None, None) => true,
            _ => false,
        };
        let ranges_equal = match (&self.range, &other.range) {
            (Some(a), Some(b)) => *a.start() == *b.start() && *a.end() == *b.end(),
            (None, None) => true,
            _ => false,
        };
        self.name == other.name && optional_strings_equal(&self.description, &other.description)
            && self.source_file_name == other.source_file_name && optional_strings_equal(
            &self.source_node_name,
            &other.source_node_name,
        ) && self.is_implicit == other.is_implicit && types_equal && ranges_equal && match (
            &self.default_value,
            &other.default_value,
        ) {
            (Some(YarnValue::Number(_)), Some(YarnValue::Number(_))) => numbers_are_close,
            (Some(a), Some(b)) => *a == *b,
            (None, None) => true,
            _ => false,
        }
    }
}

/// The column of the last character of a text whose first character
/// stands at the column `first`. A character stands one column behind the
/// one before it, and at column 0 behind a line feed. A text without
/// characters ends where it starts.
pub open spec fn last_column(first: int, text: Seq<char>) -> int
    decreases text.len(),
{
    if text.len() <= 1 {
        first
    } else if text[text.len() - 2] == '\n' {
        0
    } else {
        last_column(first, text.drop_last()) + 1
    }
}

/// The last character of a text stands no further to the right than the
/// text is long.
pub proof fn lemma_last_column(first: int, text: Seq<char>)
    requires
        0 <= first,
    ensures
        0 <= last_column(first, text) <= first + text.len(),
        text.len() > 0 ==> last_column(first, text) < first + text.len(),
        (forall|i: int| 0 <= i < text.len() ==> text[i] != '\n') ==> last_column(first, text)
            == if text.len() == 0 {
            first
        } else {
            first + text.len() - 1
        },
    decreases text.len(),
{
    if text.len() > 1 {
        lemma_last_column(first, text.drop_last());
        if forall|i: int| 0 <= i < text.len() ==> text[i] != '\n' {
            assert(forall|i: int|
                0 <= i < text.drop_last().len() ==> text.drop_last()[i] == text[i]);
        }
    }
}

/// The column of the last character of a text whose first character
/// stands at the column `first`.
pub fn column_of_last(first: usize, text: &str) -> (column: usize)
    requires
        first + text@.len() <= usize::MAX,
    ensures
        column == last_column(first as int, text@),
{
    let chars = characters(text);
    if chars.len() == 0 {
        return first;
    }
    let mut column = first;
    let mut i: usize = 1;
    while i < chars.len()
        invariant
            1 <= i <= chars.len(),
            chars@ == text@,
            first + chars.len() <= usize::MAX,
            column == last_column(first as int, chars@.take(i as int)),
            column < first + i,
        decreases chars.len() - i,
    {
        proof {
            assert(chars@.take(i + 1).drop_last() =~= chars@.take(i as int));
            assert(chars@.take(i + 1)[i - 1] == chars@[i - 1]);
        }
        if chars[i - 1] == '\n' {
            column = 0;
        } else {
            column = column + 1;
        }
        i = i + 1;
    }
    proof {
        assert(chars@.take(i as int) =~= chars@);
    }
    column
}

/// Something that spans a stretch of source text: a rule of the grammar, from
/// its first token to its last.
pub trait RangeSource {
    /// Where the first token starts.
    spec fn first_position(&self) -> Position;

    /// Where the last token starts.
    spec fn last_position(&self) -> Position;

    /// The text of the whole stretch, whitespace included.
    spec fn spanned_text(&self) -> Seq<char>;

    /// The first token.
    fn first_token(&self) -> (token: &Token)
        ensures
            token.start == self.first_position(),
    ;

    /// The last token.
    fn last_token(&self) -> (token: &Token)
        ensures
            token.start == self.last_position(),
    ;

    /// The text of the whole stretch, whitespace included.
    fn text_with_whitespace(&self) -> (text: String)
        ensures
            text@ == self.spanned_text(),
    ;

    /// The range of the stretch, both ends included: it starts where the
    /// first token starts, and it ends at the last character of the stretch,
    /// on the line of the last token.
    fn range(&self) -> (range: RangeInclusive<Position>)
        requires
            self.first_position().character + self.spanned_text().len() <= usize::MAX,
        ensures
            range@.start == self.first_position(),
            range@.end == (Position {
                line: self.last_position().line,
                character: last_column(
                    self.first_position().character as int,
                    self.spanned_text(),
                ) as usize,
            }),
    {
        let first = self.first_token().start;
        let text = self.text_with_whitespace();
        let to = Position {
            line: self.last_token().start.line,
            character: column_of_last(first.character, text.as_str()),
        };
        RangeInclusive::new(first, to)
    }
}

/// A stretch of source text given by its first token, its last token and
/// its text.
#[derive(Debug, Clone, PartialEq, Eq)]
pub struct TokenSpan {
    pub first: Token,
    pub last: Token,
    pub text: String,
}

impl RangeSource for TokenSpan {
    open spec fn first_position(&self) -> Position {
        self.first.start
    }

    open spec fn last_position(&self) -> Position {
        self.last.start
    }

    open spec fn spanned_text(&self) -> Seq<char> {
        self.text@
    }

    fn first_token(&self) -> (token: &Token) {
        &self.first
    }

    fn last_token(&self) -> (token: &Token) {
        &self.last
    }

    fn text_with_whitespace(&self) -> (text: String) {
        self.text.clone()
    }
}

} // verus!
