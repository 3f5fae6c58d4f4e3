//! Markup: tags in square brackets within the text of a line.
//!
//! `[name key=value]` opens an attribute at the place where it stands,
//! `[/name]` closes the attribute of that name that was opened last, `[/]`
//! closes all that are open, and `[name/]` is an attribute without text.
//! `[name=value]` is short for `[name name=value]`. A value may stand in
//! double quotes. A backslash before a bracket makes it a bracket of the
//! text. The tags are taken out of the text, and each attribute says which
//! stretch of the remaining text it spans.
//!
//! Three markers are replaced by text. `[select value=v a="…" b="…"/]`
//! becomes the text whose key is the value. `[plural …]` and `[ordinal …]`
//! become the text whose key is the name of the plural case of the value;
//! the caller says which case that is, who knows the rules of the language.
//! In the text that is chosen, `%` stands for the value.

use crate::compiler::lexer::{characters, is_blank, slice};
use crate::text::{
    lemma_position_absent, lemma_position_is_first, position_of, replace, replaced, str_eq,
};
use vstd::prelude::*;

verus! {

/// A property of an attribute.
#[derive(Debug, Clone, PartialEq, Eq)]
pub struct MarkupProperty {
    pub name: String,
    pub value: String,
}

/// The mathematical value of a [`MarkupProperty`].
pub struct MarkupPropertyView {
    pub name: Seq<char>,
    pub value: Seq<char>,
}

impl View for MarkupProperty {
    type V = MarkupPropertyView;

    open spec fn view(&self) -> MarkupPropertyView {
        MarkupPropertyView { name: self.name@, value: self.value@ }
    }
}

impl DeepView for MarkupProperty {
    type V = MarkupPropertyView;

    open spec fn deep_view(&self) -> MarkupPropertyView {
        self@
    }
}

/// An attribute of a stretch of text.
#[derive(Debug, Clone, PartialEq, Eq)]
pub struct MarkupAttribute {
    pub name: String,
    /// The index of the first character of the stretch.
    pub position: usize,
    /// The number of characters of the stretch.
    pub length: usize,
    pub properties: Vec<MarkupProperty>,
}

/// The mathematical value of a [`MarkupAttribute`].
pub struct MarkupAttributeView {
    pub name: Seq<char>,
    pub position: int,
    pub length: int,
    pub properties: Seq<MarkupPropertyView>,
}

impl View for MarkupAttribute {
    type V = MarkupAttributeView;

    open spec fn view(&self) -> MarkupAttributeView {
        MarkupAttributeView {
            name: self.name@,
            position: self.position as int,
            length: self.length as int,
            properties: self.properties.deep_view(),
        }
    }
}

impl DeepView for MarkupAttribute {
    type V = MarkupAttributeView;

    open spec fn deep_view(&self) -> MarkupAttributeView {
        self@
    }
}

/// The plural case of a number in a language.
#[derive(Debug, Clone, Copy, PartialEq, Eq, Hash, Structural)]
pub enum PluralCase {
    Zero,
    One,
    Two,
    Few,
    Many,
    Other,
}

impl PluralCase {
    /// The name of the case, by which the texts of a marker are keyed.
    pub open spec fn spec_name(self) -> Seq<char> {
        match self {
            PluralCase::Zero => "zero"@,
            PluralCase::One => "one"@,
            PluralCase::Two => "two"@,
            PluralCase::Few => "few"@,
            PluralCase::Many => "many"@,
            PluralCase::Other => "other"@,
        }
    }

    /// The name of the case, by which the texts of a marker are keyed.
    pub fn name(self) -> (name: &'static str)
        ensures
            name@ == self.spec_name(),
    {
        match self {
            PluralCase::Zero => "zero",
            PluralCase::One => "one",
            PluralCase::Two => "two",
            PluralCase::Few => "few",
            PluralCase::Many => "many",
            PluralCase::Other => "other",
        }
    }
}

/// What ends a search for a character.
#[derive(Debug, Clone, Copy, PartialEq, Eq, Structural)]
pub enum Stop {
    /// A space or a tab.
    Blank,
    /// Anything but a space or a tab.
    Word,
    /// A space, a tab or an equals sign: the end of a name.
    NameEnd,
    /// A double quote.
    Quote,
    /// A colon.
    Colon,
}

impl Stop {
    /// Whether the search ends at the character.
    pub open spec fn spec_at(self, c: char) -> bool {
        match self {
            Stop::Blank => is_blank(c),
            Stop::Word => !is_blank(c),
            Stop::NameEnd => is_blank(c) || c == '=',
            Stop::Quote => c == '"',
            Stop::Colon => c == ':',
        }
    }

    /// Whether the search ends at the character.
    #[verifier::when_used_as_spec(spec_at)]
    pub fn at(self, c: char) -> (ends: bool)
        ensures
            ends == self.spec_at(c),
    {
        let blank = c == ' ' || c == '\t';
        match self {
            Stop::Blank => blank,
            Stop::Word => !blank,
            Stop::NameEnd => blank || c == '=',
            Stop::Quote => c == '"',
            Stop::Colon => c == ':',
        }
    }
}

/// The index of the first character from `from` on and before `to` at
/// which the search ends; `to` where there is none.
pub open spec fn found(text: Seq<char>, from: int, to: int, stop: Stop) -> int
    decreases to - from,
{
    if from >= to || from < 0 || from >= text.len() {
        from
    } else if stop.spec_at(text[from]) {
        from
    } else {
        found(text, from + 1, to, stop)
    }
}

/// What a search finds lies between its bounds.
pub proof fn lemma_found(text: Seq<char>, from: int, to: int, stop: Stop)
    requires
        0 <= from <= to <= text.len(),
    ensures
        from <= found(text, from, to, stop) <= to,
    decreases to - from,
{
    if from < to && !stop.spec_at(text[from]) {
        lemma_found(text, from + 1, to, stop);
    }
}

/// The index of the first character from `from` on and before `to` at
/// which the search ends; `to` where there is none.
pub fn find(text: &Vec<char>, from: usize, to: usize, stop: Stop) -> (index: usize)
    requires
        from <= to <= text.len(),
    ensures
        index == found(text@, from as int, to as int, stop),
        from <= index <= to,
{
    let mut i = from;
    while i < to && !stop.at(text[i])
        invariant
            from <= i <= to <= text.len(),
            found(text@, i as int, to as int, stop) == found(text@, from as int, to as int, stop),
        decreases to - i,
    {
        i = i + 1;
    }
    i
}

/// The index of the bracket that closes a tag, in a search from `from`
/// on: the first closing bracket that does not stand in double quotes.
pub open spec fn tag_close(text: Seq<char>, from: int, quoted: bool) -> Option<int>
    decreases text.len() - from,
{
    if from < 0 || from >= text.len() {
        None
    } else if text[from] == '"' {
        tag_close(text, from + 1, !quoted)
    } else if text[from] == ']' && !quoted {
        Some(from)
    } else {
        tag_close(text, from + 1, quoted)
    }
}

/// The index of the bracket that closes the tag that opens before `from`.
pub fn find_close(text: &Vec<char>, from: usize) -> (close: Option<usize>)
    requires
        from <= text.len(),
    ensures
        match close {
            Some(close) => tag_close(text@, from as int, false) == Some(close as int) && from
                <= close < text.len(),
            None => tag_close(text@, from as int, false) is None,
        },
{
    let mut i = from;
    let mut quoted = false;
    while i < text.len()
        invariant
            from <= i <= text.len(),
            tag_close(text@, i as int, quoted) == tag_close(text@, from as int, false),
        decreases text.len() - i,
    {
        if text[i] == '"' {
            quoted = !quoted;
        } else if text[i] == ']' && !quoted {
            return Some(i);
        }
        i = i + 1;
    }
    None
}

/// A value and the index behind it.
pub struct Valued {
    pub value: Seq<char>,
    pub next: int,
}

/// The value that starts at `from` and ends before `to`. A value in
/// double quotes ends at the next double quote; any other ends at the next
/// space or tab.
pub open spec fn value_from(text: Seq<char>, from: int, to: int) -> Valued {
    if from < to && text[from] == '"' {
        let end = found(text, from + 1, to, Stop::Quote);
        Valued {
            value: text.subrange(from + 1, end),
            next: if end < to {
                end + 1
            } else {
                end
            },
        }
    } else {
        let end = found(text, from, to, Stop::Blank);
        Valued { value: text.subrange(from, end), next: end }
    }
}

/// The value that starts at `from` and ends before `to`, and the index
/// behind it.
pub fn read_value(text: &Vec<char>, from: usize, to: usize) -> (r: (String, usize))
    requires
        from <= to <= text.len(),
    ensures
        r.0@ == value_from(text@, from as int, to as int).value,
        r.1 == value_from(text@, from as int, to as int).next,
        from <= r.1 <= to,
{
    if from < to && text[from] == '"' {
        let end = find(text, from + 1, to, Stop::Quote);
        let next = if end < to {
            end + 1
        } else {
            end
        };
        (slice(text, from + 1, end), next)
    } else {
        let end = find(text, from, to, Stop::Blank);
        (slice(text, from, end), end)
    }
}

/// The larger of two indices.
pub open spec fn at_least(index: int, floor: int) -> int {
    if index < floor {
        floor
    } else {
        index
    }
}

/// How many indices lie from `from` on and before `to`.
pub open spec fn distance(from: int, to: int) -> nat {
    if from < to {
        (to - from) as nat
    } else {
        0
    }
}

/// The properties that are written from `from` on and before `to`: names
/// with a value behind an equals sign, and names alone, which have the
/// value `true`.
pub open spec fn properties_from(text: Seq<char>, from: int, to: int) -> Seq<MarkupPropertyView>
    decreases distance(from, to),
{
    let start = at_least(found(text, from, to, Stop::Word), from);
    if from < 0 || start >= to || to > text.len() {
        Seq::empty()
    } else {
        let end = found(text, start, to, Stop::NameEnd);
        let name = text.subrange(start, end);
        if end < to && text[end] == '=' {
            let valued = value_from(text, end + 1, to);
            seq![MarkupPropertyView { name, value: valued.value }] + properties_from(
                text,
                at_least(valued.next, start + 1),
                to,
            )
        } else {
            seq![MarkupPropertyView { name, value: "true"@ }] + properties_from(
                text,
                at_least(end, start + 1),
                to,
            )
        }
    }
}

/// The properties that are written from `from` on and before `to`.
pub fn read_properties(text: &Vec<char>, from: usize, to: usize) -> (properties: Vec<
    MarkupProperty,
>)
    requires
        from <= to <= text.len(),
    ensures
        properties.deep_view() == properties_from(text@, from as int, to as int),
{
    let mut properties: Vec<MarkupProperty> = Vec::new();
    let mut at = from;
    proof {
        assert(properties.deep_view() =~= Seq::empty());
    }
    loop
        invariant
            from <= at <= to <= text.len(),
            properties.deep_view() + properties_from(text@, at as int, to as int)
                == properties_from(text@, from as int, to as int),
        ensures
            properties.deep_view() == properties_from(text@, from as int, to as int),
        decreases to - at,
    {
        let start = find(text, at, to, Stop::Word);
        if start >= to {
            proof {
                assert(properties.deep_view() + Seq::<MarkupPropertyView>::empty()
                    =~= properties.deep_view());
            }
            break ;
        }
        let end = find(text, start, to, Stop::NameEnd);
        let name = slice(text, start, end);
        let ghost before = properties.deep_view();
        let ghost rest = properties_from(text@, at as int, to as int);
        let (value, next) = if end < to && text[end] == '=' {
            read_value(text, end + 1, to)
        } else {
            ("true".to_owned(), end)
        };
        let next = if next < start + 1 {
            start + 1
        } else {
            next
        };
        let property = MarkupProperty { name, value };
        properties.push(property);
        proof {
            let tail = properties_from(text@, next as int, to as int);
            assert(rest == seq![property@] + tail);
            assert(properties.deep_view() =~= before.push(property@));
            assert(before.push(property@) + tail =~= before + rest);
        }
        at = next;
    }
    properties
}

/// A tag.
#[derive(Debug, Clone, PartialEq, Eq)]
pub enum Tag {
    /// `[/name]`, or `[/]` where the name is empty.
    Close { name: String },
    /// `[name …]`, or `[name …/]` where it closes itself.
    Open { name: String, properties: Vec<MarkupProperty>, self_closing: bool },
}

/// The mathematical value of a [`Tag`].
pub enum TagView {
    Close { name: Seq<char> },
    Open { name: Seq<char>, properties: Seq<MarkupPropertyView>, self_closing: bool },
}

impl View for Tag {
    type V = TagView;

    open spec fn view(&self) -> TagView {
        match self {
            Tag::Close { name } => TagView::Close { name: name@ },
            Tag::Open { name, properties, self_closing } => TagView::Open {
                name: name@,
                properties: properties.deep_view(),
                self_closing: *self_closing,
            },
        }
    }
}

/// A tag and the index behind it.
pub struct TagAt {
    pub tag: TagView,
    pub next: int,
}

/// The properties of a tag whose name ends at `end`: the value of the
/// name, where an equals sign follows the name, and the properties behind
/// it.
pub open spec fn tag_properties(text: Seq<char>, name: Seq<char>, end: int, to: int) -> Seq<
    MarkupPropertyView,
> {
    if end < to && text[end] == '=' {
        let valued = value_from(text, end + 1, to);
        seq![MarkupPropertyView { name, value: valued.value }] + properties_from(
            text,
            valued.next,
            to,
        )
    } else {
        properties_from(text, end, to)
    }
}

/// The tag whose opening bracket stands at `at`. There is none where no
/// bracket closes it or where it has no name.
pub open spec fn tag_at(text: Seq<char>, at: int) -> Option<TagAt> {
    match tag_close(text, at + 1, false) {
        None => None,
        Some(close) => {
            let first = found(text, at + 1, close, Stop::Word);
            if first < close && text[first] == '/' {
                let start = found(text, first + 1, close, Stop::Word);
                let end = found(text, start, close, Stop::NameEnd);
                Some(
                    TagAt {
                        tag: TagView::Close { name: text.subrange(start, end) },
                        next: close + 1,
                    },
                )
            } else {
                let self_closing = first < close && text[close - 1] == '/';
                let to = if self_closing {
                    close - 1
                } else {
                    close
                };
                let end = found(text, first, to, Stop::NameEnd);
                if end <= first {
                    None
                } else {
                    let name = text.subrange(first, end);
                    Some(
                        TagAt {
                            tag: TagView::Open {
                                name,
                                properties: tag_properties(text, name, end, to),
                                self_closing,
                            },
                            next: close + 1,
                        },
                    )
                }
            }
        },
    }
}

/// The tag whose opening bracket stands at `at`, and the index behind it.
pub fn read_tag(text: &Vec<char>, at: usize) -> (r: Option<(Tag, usize)>)
    requires
        at < text.len(),
    ensures
        match r {
            Some((tag, next)) => tag_at(text@, at as int) == Some(
                TagAt { tag: tag@, next: next as int },
            ) && at < next <= text.len(),
            None => tag_at(text@, at as int) is None,
        },
{
    let close = match find_close(text, at + 1) {
        Some(close) => close,
        None => {
            return None;
        },
    };
    let first = find(text, at + 1, close, Stop::Word);
    if first < close && text[first] == '/' {
        let start = find(text, first + 1, close, Stop::Word);
        let end = find(text, start, close, Stop::NameEnd);
        return Some((Tag::Close { name: slice(text, start, end) }, close + 1));
    }
    let self_closing = first < close && text[close - 1] == '/';
    let to = if self_closing {
        close - 1
    } else {
        close
    };
    let end = find(text, first, to, Stop::NameEnd);
    if end <= first {
        return None;
    }
    let name = slice(text, first, end);
    let properties = if end < to && text[end] == '=' {
        let (value, next) = read_value(text, end + 1, to);
        let mut properties: Vec<MarkupProperty> = Vec::new();
        let property = MarkupProperty { name: slice(text, first, end), value };
        properties.push(property);
        let mut rest = read_properties(text, next, to);
        let ghost head = properties.deep_view();
        let ghost tail = rest.deep_view();
        properties.append(&mut rest);
        proof {
            assert(head =~= seq![property@]);
            assert(properties.deep_view() =~= head + tail);
        }
        properties
    } else {
        read_properties(text, end, to)
    };
    Some((Tag::Open { name, properties, self_closing }, close + 1))
}

/// A marker that asks for the plural case of a value.
#[derive(Debug, Clone, PartialEq, Eq)]
pub struct PluralRequest {
    /// Whether the value counts a place in an order, as in "the 3rd", and
    /// not a quantity.
    pub ordinal: bool,
    pub value: String,
}

/// The mathematical value of a [`PluralRequest`].
pub struct PluralRequestView {
    pub ordinal: bool,
    pub value: Seq<char>,
}

impl View for PluralRequest {
    type V = PluralRequestView;

    open spec fn view(&self) -> PluralRequestView {
        PluralRequestView { ordinal: self.ordinal, value: self.value@ }
    }
}

impl DeepView for PluralRequest {
    type V = PluralRequestView;

    open spec fn deep_view(&self) -> PluralRequestView {
        self@
    }
}

/// What has been read of a text with markup.
pub struct ScanView {
    /// The text without its tags.
    pub text: Seq<char>,
    pub attributes: Seq<MarkupAttributeView>,
    /// For each attribute, whether it is still open.
    pub open: Seq<bool>,
    /// The markers that asked for a plural case, in their order.
    pub requests: Seq<PluralRequestView>,
}

/// The names of properties.
pub open spec fn property_names(properties: Seq<MarkupPropertyView>) -> Seq<Seq<char>> {
    Seq::new(properties.len(), |i: int| properties[i].name)
}

/// The value of the first property of the given name.
pub open spec fn property_of(properties: Seq<MarkupPropertyView>, name: Seq<char>) -> Option<
    Seq<char>,
> {
    match position_of(property_names(properties), name) {
        Some(i) => Some(properties[i].value),
        None => None,
    }
}

/// The names of attributes.
pub open spec fn attribute_names(attributes: Seq<MarkupAttributeView>) -> Seq<Seq<char>> {
    Seq::new(attributes.len(), |i: int| attributes[i].name)
}

/// Whether a tag of the name is a marker: a tag that text takes the place
/// of.
pub open spec fn is_marker(name: Seq<char>) -> bool {
    name == "select"@ || name == "plural"@ || name == "ordinal"@
}

/// The value of a marker: its property `value`; empty where it has none.
pub open spec fn marker_value(properties: Seq<MarkupPropertyView>) -> Seq<char> {
    match property_of(properties, "value"@) {
        Some(value) => value,
        None => Seq::empty(),
    }
}

/// The text that takes the place of a marker: the property whose name is
/// the value, for `select`, or the name of the plural case, for the others,
/// with the value in the place of every `%`. Nothing where the marker has
/// no such property.
pub open spec fn marker_text(
    name: Seq<char>,
    properties: Seq<MarkupPropertyView>,
    case: PluralCase,
) -> Seq<char> {
    let value = marker_value(properties);
    let key = if name == "select"@ {
        value
    } else {
        case.spec_name()
    };
    match property_of(properties, key) {
        Some(text) => replaced(text, "%"@, value),
        None => Seq::empty(),
    }
}

/// The plural case of the marker that asks next: the case at its place
/// among the cases that the caller gave, and `Other` where the caller gave
/// none for it.
pub open spec fn case_for(cases: Seq<PluralCase>, asked: int) -> PluralCase {
    if 0 <= asked < cases.len() {
        cases[asked]
    } else {
        PluralCase::Other
    }
}

impl ScanView {
    /// The scan with one more character of text.
    pub open spec fn with_char(self, c: char) -> ScanView {
        ScanView { text: self.text.push(c), ..self }
    }

    /// The index of the attribute of the given name that was opened last
    /// among the first `upto` and is still open.
    pub open spec fn last_open(self, name: Seq<char>, upto: int) -> Option<int>
        decreases upto,
    {
        if upto <= 0 {
            None
        } else if self.open[upto - 1] && self.attributes[upto - 1].name == name {
            Some(upto - 1)
        } else {
            self.last_open(name, upto - 1)
        }
    }

    /// The attribute at an index as it is once closed: it spans the text
    /// from its position on.
    pub open spec fn closed_attribute(self, index: int) -> MarkupAttributeView {
        MarkupAttributeView {
            length: self.text.len() - self.attributes[index].position,
            ..self.attributes[index]
        }
    }

    /// The scan with the attribute at an index closed.
    pub open spec fn closed_at(self, index: int) -> ScanView {
        ScanView {
            attributes: self.attributes.update(index, self.closed_attribute(index)),
            open: self.open.update(index, false),
            ..self
        }
    }

    /// The scan with the first `upto` attributes closed.
    pub open spec fn closed_upto(self, upto: int) -> ScanView
        decreases upto,
    {
        if upto <= 0 {
            self
        } else {
            let before = self.closed_upto(upto - 1);
            if self.open[upto - 1] {
                before.closed_at(upto - 1)
            } else {
                before
            }
        }
    }

    /// The scan with all attributes closed.
    pub open spec fn closed(self) -> ScanView {
        self.closed_upto(self.attributes.len() as int)
    }

    /// The scan after a tag.
    pub open spec fn applied(self, tag: TagView, cases: Seq<PluralCase>) -> ScanView {
        match tag {
            TagView::Close { name } => if name.len() == 0 {
                self.closed()
            } else {
                match self.last_open(name, self.attributes.len() as int) {
                    Some(index) => self.closed_at(index),
                    None => self,
                }
            },
            TagView::Open { name, properties, self_closing } => if is_marker(name) {
                let case = case_for(cases, self.requests.len() as int);
                ScanView {
                    text: self.text + marker_text(name, properties, case),
                    requests: if name == "select"@ {
                        self.requests
                    } else {
                        self.requests.push(
                            PluralRequestView {
                                ordinal: name == "ordinal"@,
                                value: marker_value(properties),
                            },
                        )
                    },
                    ..self
                }
            } else {
                ScanView {
                    attributes: self.attributes.push(
                        MarkupAttributeView {
                            name,
                            position: self.text.len() as int,
                            length: 0,
                            properties,
                        },
                    ),
                    open: self.open.push(!self_closing),
                    ..self
                }
            },
        }
    }
}

/// A scan and the index at which it goes on.
pub struct Step {
    pub scan: ScanView,
    pub next: int,
}

/// The scan after what stands at `at`: a bracket behind a backslash, a
/// tag, or a character of the text.
pub open spec fn stepped(text: Seq<char>, at: int, scan: ScanView, cases: Seq<PluralCase>) -> Step {
    if text[at] == '\\' && at + 1 < text.len() && (text[at + 1] == '[' || text[at + 1] == ']') {
        Step { scan: scan.with_char(text[at + 1]), next: at + 2 }
    } else if text[at] == '[' {
        match tag_at(text, at) {
            Some(found) => Step { scan: scan.applied(found.tag, cases), next: found.next },
            None => Step { scan: scan.with_char('['), next: at + 1 },
        }
    } else {
        Step { scan: scan.with_char(text[at]), next: at + 1 }
    }
}

/// The scan after the text from `at` on.
pub open spec fn scanned(text: Seq<char>, at: int, scan: ScanView, cases: Seq<PluralCase>) -> ScanView
    decreases distance(at, text.len() as int),
{
    if at < 0 || at >= text.len() {
        scan
    } else {
        let step = stepped(text, at, scan, cases);
        scanned(text, at_least(step.next, at + 1), step.scan, cases)
    }
}

/// The attributes with that of the character who speaks, where the text
/// names one: where the text holds a colon behind at least one character
/// and no attribute is named `character`, the attribute `character` spans
/// the text up to the colon and the spaces behind it, and its property
/// `name` is the text before the colon.
pub open spec fn with_character(
    text: Seq<char>,
    attributes: Seq<MarkupAttributeView>,
) -> Seq<MarkupAttributeView> {
    let colon = found(text, 0, text.len() as int, Stop::Colon);
    if position_of(attribute_names(attributes), "character"@) is Some || colon <= 0 || colon
        >= text.len() {
        attributes
    } else {
        attributes.push(
            MarkupAttributeView {
                name: "character"@,
                position: 0,
                length: found(text, colon + 1, text.len() as int, Stop::Word),
                properties: seq![
                    MarkupPropertyView { name: "name"@, value: text.subrange(0, colon) },
                ],
            },
        )
    }
}

/// A text whose markup has been read.
pub struct MarkupView {
    /// The text without its tags.
    pub text: Seq<char>,
    pub attributes: Seq<MarkupAttributeView>,
    /// The markers that asked for a plural case, in their order.
    pub requests: Seq<PluralRequestView>,
}

/// The scan before anything is read.
pub open spec fn empty_scan() -> ScanView {
    ScanView {
        text: Seq::empty(),
        attributes: Seq::empty(),
        open: Seq::empty(),
        requests: Seq::empty(),
    }
}

/// What reading the markup of a text gives. `cases` are the plural cases
/// of the values of the markers `plural` and `ordinal`, in the order of
/// the markers. Attributes that are open at the end of the text are closed
/// there.
pub open spec fn parsed(text: Seq<char>, cases: Seq<PluralCase>) -> MarkupView {
    let end = scanned(text, 0, empty_scan(), cases).closed();
    MarkupView {
        text: end.text,
        attributes: with_character(end.text, end.attributes),
        requests: end.requests,
    }
}

/// The value of the first property of the given name.
pub fn value_of_property<'a>(properties: &'a Vec<MarkupProperty>, name: &str) -> (value: Option<
    &'a String,
>)
    ensures
        match value {
            Some(value) => Some(value@),
            None => None,
        } == property_of(properties.deep_view(), name@),
{
    let ghost names = property_names(properties.deep_view());
    let mut i: usize = 0;
    while i < properties.len()
        invariant
            i <= properties.len(),
            names == property_names(properties.deep_view()),
            forall|j: int| 0 <= j < i ==> names[j] != name@,
        decreases properties.len() - i,
    {
        if str_eq(properties[i].name.as_str(), name) {
            proof {
                assert(names[i as int] == properties[i as int]@.name);
                lemma_position_is_first(names, name@, i as int);
                assert(properties.deep_view()[i as int] == properties[i as int]@);
            }
            return Some(&properties[i].value);
        }
        proof {
            assert(names[i as int] == properties[i as int]@.name);
        }
        i = i + 1;
    }
    proof {
        lemma_position_absent(names, name@);
    }
    None
}

/// The text that takes the place of a marker.
pub fn text_of_marker(name: &str, properties: &Vec<MarkupProperty>, case: PluralCase) -> (text:
    String)
    ensures
        text@ == marker_text(name@, properties.deep_view(), case),
{
    let value = match value_of_property(properties, "value") {
        Some(value) => value.as_str(),
        None => "",
    };
    proof {
        reveal_strlit("");
        assert(""@ =~= Seq::<char>::empty());
    }
    let key = if str_eq(name, "select") {
        value
    } else {
        case.name()
    };
    match value_of_property(properties, key) {
        Some(text) => {
            proof {
                reveal_strlit("%");
            }
            replace(text.as_str(), "%", value)
        },
        None => String::new(),
    }
}

/// What has been read of a text with markup.
pub struct Scan {
    /// The text without its tags.
    pub text: Vec<char>,
    pub attributes: Vec<MarkupAttribute>,
    /// For each attribute, whether it is still open.
    pub open: Vec<bool>,
    /// The markers that asked for a plural case, in their order.
    pub requests: Vec<PluralRequest>,
}

impl View for Scan {
    type V = ScanView;

    open spec fn view(&self) -> ScanView {
        ScanView {
            text: self.text@,
            attributes: self.attributes.deep_view(),
            open: self.open@,
            requests: self.requests.deep_view(),
        }
    }
}

impl Scan {
    /// The invariant of a scan: every attribute is open or closed, and
    /// starts within the text.
    pub open spec fn wf(&self) -> bool {
        &&& self.open.len() == self.attributes.len()
        &&& forall|i: int|
            0 <= i < self.attributes.len() ==> (#[trigger] self.attributes[i]).position
                <= self.text.len()
    }

    /// The scan before anything is read.
    pub fn new() -> (scan: Scan)
        ensures
            scan@ == empty_scan(),
            scan.wf(),
    {
        let scan = Scan {
            text: Vec::new(),
            attributes: Vec::new(),
            open: Vec::new(),
            requests: Vec::new(),
        };
        proof {
            assert(scan@.attributes =~= Seq::empty());
            assert(scan@.requests =~= Seq::empty());
        }
        scan
    }

    /// Adds a character to the text.
    pub fn push_char(&mut self, c: char)
        requires
            old(self).wf(),
        ensures
            final(self)@ == old(self)@.with_char(c),
            final(self).wf(),
    {
        self.text.push(c);
    }

    /// Closes the attribute at an index.
    pub fn close_at(&mut self, index: usize)
        requires
            old(self).wf(),
            index < old(self).attributes.len(),
        ensures
            final(self)@ == old(self)@.closed_at(index as int),
            final(self).wf(),
            final(self).text == old(self).text,
            final(self).attributes.len() == old(self).attributes.len(),
    {
        let ghost before = self@;
        let ghost attributes = self.attributes@;
        let mut attribute = self.attributes.remove(index);
        attribute.length = self.text.len() - attribute.position;
        proof {
            assert(attribute@ == before.closed_attribute(index as int));
        }
        self.attributes.insert(index, attribute);
        proof {
            assert(forall|i: int|
                0 <= i < attributes.len() && i != index ==> self.attributes@[i] == attributes[i]);
        }
        self.open.set(index, false);
        proof {
            assert(self@.attributes =~= before.attributes.update(
                index as int,
                before.closed_attribute(index as int),
            ));
        }
    }

    /// The index of the attribute of the given name that was opened last
    /// and is still open.
    pub fn find_open(&self, name: &str) -> (index: Option<usize>)
        requires
            self.wf(),
        ensures
            match index {
                Some(index) => self@.last_open(name@, self.attributes.len() as int) == Some(
                    index as int,
                ) && index < self.attributes.len(),
                None => self@.last_open(name@, self.attributes.len() as int) is None,
            },
    {
        let mut upto = self.attributes.len();
        while upto > 0
            invariant
                upto <= self.attributes.len(),
                self.wf(),
                self@.last_open(name@, upto as int) == self@.last_open(
                    name@,
                    self.attributes.len() as int,
                ),
            decreases upto,
        {
            proof {
                assert(self@.attributes[upto - 1] == self.attributes[upto - 1]@);
            }
            if self.open[upto - 1] && str_eq(self.attributes[upto - 1].name.as_str(), name) {
                return Some(upto - 1);
            }
            upto = upto - 1;
        }
        None
    }

    /// Closes all attributes.
    pub fn close_all(&mut self)
        requires
            old(self).wf(),
        ensures
            final(self)@ == old(self)@.closed(),
            final(self).wf(),
            final(self).text == old(self).text,
    {
        let ghost start = self@;
        let mut i: usize = 0;
        while i < self.attributes.len()
            invariant
                i <= self.attributes.len(),
                self.wf(),
                self.text == old(self).text,
                self.attributes.len() == old(self).attributes.len(),
                start == old(self)@,
                self@ == start.closed_upto(i as int),
                forall|j: int| i <= j < self.open.len() ==> self.open[j] == start.open[j],
            decreases self.attributes.len() - i,
        {
            if self.open[i] {
                self.close_at(i);
            }
            i = i + 1;
        }
    }

    /// Takes up what a tag says.
    pub fn apply(&mut self, tag: Tag, cases: &Vec<PluralCase>)
        requires
            old(self).wf(),
        ensures
            final(self)@ == old(self)@.applied(tag@, cases@),
            final(self).wf(),
    {
        match tag {
            Tag::Close { name } => {
                proof {
                    reveal_strlit("");
                    assert(name@.len() == 0 <==> name@ =~= ""@);
                }
                if str_eq(name.as_str(), "") {
                    self.close_all();
                } else {
                    match self.find_open(name.as_str()) {
                        Some(index) => {
                            self.close_at(index);
                        },
                        None => {},
                    }
                }
            },
            Tag::Open { name, properties, self_closing } => {
                let select = str_eq(name.as_str(), "select");
                let ordinal = str_eq(name.as_str(), "ordinal");
                if select || ordinal || str_eq(name.as_str(), "plural") {
                    let asked = self.requests.len();
                    let case = if asked < cases.len() {
                        cases[asked]
                    } else {
                        PluralCase::Other
                    };
                    let text = text_of_marker(name.as_str(), &properties, case);
                    let mut chars = characters(text.as_str());
                    self.text.append(&mut chars);
                    if !select {
                        let value = match value_of_property(&properties, "value") {
                            Some(value) => value.clone(),
                            None => String::new(),
                        };
                        let ghost before = self.requests.deep_view();
                        let request = PluralRequest { ordinal, value };
                        self.requests.push(request);
                        proof {
                            assert(self.requests.deep_view() =~= before.push(request@));
                        }
                    }
                } else {
                    let ghost before = self.attributes.deep_view();
                    let attribute = MarkupAttribute {
                        name,
                        position: self.text.len(),
                        length: 0,
                        properties,
                    };
                    self.attributes.push(attribute);
                    self.open.push(!self_closing);
                    proof {
                        assert(self.attributes.deep_view() =~= before.push(attribute@));
                    }
                }
            },
        }
    }
}

/// Reads what stands at `at` and says where to go on.
pub fn step(text: &Vec<char>, at: usize, scan: &mut Scan, cases: &Vec<PluralCase>) -> (next: usize)
    requires
        at < text.len(),
        old(scan).wf(),
    ensures
        (Step { scan: final(scan)@, next: next as int }) == stepped(
            text@,
            at as int,
            old(scan)@,
            cases@,
        ),
        final(scan).wf(),
        at < next <= text.len(),
{
    let c = text[at];
    if c == '\\' && at + 1 < text.len() && (text[at + 1] == '[' || text[at + 1] == ']') {
        scan.push_char(text[at + 1]);
        at + 2
    } else if c == '[' {
        match read_tag(text, at) {
            Some((tag, next)) => {
                scan.apply(tag, cases);
                next
            },
            None => {
                scan.push_char('[');
                at + 1
            },
        }
    } else {
        scan.push_char(c);
        at + 1
    }
}

/// Whether an attribute has the given name.
fn has_attribute(attributes: &Vec<MarkupAttribute>, name: &str) -> (found: bool)
    ensures
        found == position_of(attribute_names(attributes.deep_view()), name@) is Some,
{
    let ghost names = attribute_names(attributes.deep_view());
    let mut i: usize = 0;
    while i < attributes.len()
        invariant
            i <= attributes.len(),
            names == attribute_names(attributes.deep_view()),
            forall|j: int| 0 <= j < i ==> names[j] != name@,
        decreases attributes.len() - i,
    {
        proof {
            assert(names[i as int] == attributes[i as int]@.name);
        }
        if str_eq(attributes[i].name.as_str(), name) {
            proof {
                lemma_position_is_first(names, name@, i as int);
            }
            return true;
        }
        i = i + 1;
    }
    proof {
        lemma_position_absent(names, name@);
    }
    false
}

/// Adds the attribute of the character who speaks, where the text names
/// one.
fn add_character(text: &Vec<char>, attributes: &mut Vec<MarkupAttribute>)
    ensures
        final(attributes).deep_view() == with_character(text@, old(attributes).deep_view()),
{
    let colon = find(text, 0, text.len(), Stop::Colon);
    if has_attribute(attributes, "character") || colon == 0 || colon >= text.len() {
        return ;
    }
    let ghost before = attributes.deep_view();
    let mut properties: Vec<MarkupProperty> = Vec::new();
    let property = MarkupProperty { name: "name".to_owned(), value: slice(text, 0, colon) };
    properties.push(property);
    let attribute = MarkupAttribute {
        name: "character".to_owned(),
        position: 0,
        length: find(text, colon + 1, text.len(), Stop::Word),
        properties,
    };
    attributes.push(attribute);
    proof {
        assert(attribute.properties.deep_view() =~= seq![property@]);
        assert(attributes.deep_view() =~= before.push(attribute@));
    }
}

/// A text whose markup has been read.
#[derive(Debug, Clone, PartialEq, Eq)]
pub struct Markup {
    /// The text without its tags.
    pub text: String,
    pub attributes: Vec<MarkupAttribute>,
    /// The markers that asked for a plural case, in their order.
    pub requests: Vec<PluralRequest>,
}

impl View for Markup {
    type V = MarkupView;

    open spec fn view(&self) -> MarkupView {
        MarkupView {
            text: self.text@,
            attributes: self.attributes.deep_view(),
            requests: self.requests.deep_view(),
        }
    }
}

/// Reads the markup of a text. `cases` are the plural cases of the values
/// of the markers `plural` and `ordinal`, in the order of the markers; a
/// marker for which there is none is read as of the case `Other`. The
/// result says for which values the markers asked.
pub fn parse_markup(text: &str, cases: &Vec<PluralCase>) -> (markup: Markup)
    ensures
        markup@ == parsed(text@, cases@),
{
    let chars = characters(text);
    let mut scan = Scan::new();
    let mut at: usize = 0;
    while at < chars.len()
        invariant
            at <= chars.len(),
            chars@ == text@,
            scan.wf(),
            scanned(chars@, at as int, scan@, cases@) == scanned(
                chars@,
                0,
                empty_scan(),
                cases@,
            ),
        decreases chars.len() - at,
    {
        at = step(&chars, at, &mut scan, cases);
    }
    scan.close_all();
    let Scan { text, mut attributes, open, requests } = scan;
    add_character(&text, &mut attributes);
    proof {
        assert(text@.subrange(0, text.len() as int) =~= text@);
    }
    Markup { text: slice(&text, 0, text.len()), attributes, requests }
}

/// Whether two scans differ in nothing but their text and in where their
/// attributes lie.
pub open spec fn are_alike(first: ScanView, second: ScanView) -> bool {
    &&& first.requests == second.requests
    &&& first.open == second.open
    &&& first.attributes.len() == second.attributes.len()
    &&& first.open.len() == first.attributes.len()
    &&& forall|i: int|
        0 <= i < first.attributes.len() ==> (#[trigger] first.attributes[i]).name
            == second.attributes[i].name
}

/// Scans that are alike have the same attribute of a name open last.
pub proof fn lemma_alike_last_open(first: ScanView, second: ScanView, name: Seq<char>, upto: int)
    requires
        are_alike(first, second),
        0 <= upto <= first.attributes.len(),
    ensures
        first.last_open(name, upto) == second.last_open(name, upto),
        first.last_open(name, upto) is Some ==> 0 <= first.last_open(name, upto).unwrap() < upto,
    decreases upto,
{
    if upto > 0 {
        lemma_alike_last_open(first, second, name, upto - 1);
    }
}

/// Scans that are alike are alike once their first attributes are closed.
pub proof fn lemma_alike_closed(first: ScanView, second: ScanView, upto: int)
    requires
        are_alike(first, second),
        0 <= upto <= first.attributes.len(),
    ensures
        are_alike(first.closed_upto(upto), second.closed_upto(upto)),
        first.closed_upto(upto).text == first.text,
        second.closed_upto(upto).text == second.text,
        first.closed_upto(upto).attributes.len() == first.attributes.len(),
    decreases upto,
{
    if upto > 0 {
        lemma_alike_closed(first, second, upto - 1);
        let one = first.closed_upto(upto - 1);
        let other = second.closed_upto(upto - 1);
        if first.open[upto - 1] {
            let after = one.closed_at(upto - 1);
            let beside = other.closed_at(upto - 1);
            assert forall|i: int| 0 <= i < after.attributes.len() implies (
            #[trigger] after.attributes[i]).name == beside.attributes[i].name by {
                assert(one.attributes[i].name == other.attributes[i].name);
            }
        }
    }
}

/// Scans that are alike are alike after the same tag, whatever the plural
/// cases are.
pub proof fn lemma_alike_applied(
    first: ScanView,
    second: ScanView,
    tag: TagView,
    cases: Seq<PluralCase>,
    others: Seq<PluralCase>,
)
    requires
        are_alike(first, second),
    ensures
        are_alike(first.applied(tag, cases), second.applied(tag, others)),
{
    match tag {
        TagView::Close { name } => {
            if name.len() == 0 {
                lemma_alike_closed(first, second, first.attributes.len() as int);
            } else {
                lemma_alike_last_open(first, second, name, first.attributes.len() as int);
            }
        },
        TagView::Open { name, properties, self_closing } => {},
    }
}

/// Scans that are alike are alike after the same text, whatever the
/// plural cases are.
pub proof fn lemma_alike_scanned(
    text: Seq<char>,
    at: int,
    first: ScanView,
    second: ScanView,
    cases: Seq<PluralCase>,
    others: Seq<PluralCase>,
)
    requires
        are_alike(first, second),
    ensures
        are_alike(scanned(text, at, first, cases), scanned(text, at, second, others)),
    decreases distance(at, text.len() as int),
{
    if 0 <= at < text.len() {
        let one = stepped(text, at, first, cases);
        let other = stepped(text, at, second, others);
        if text[at] == '[' && tag_at(text, at) is Some {
            lemma_alike_applied(first, second, tag_at(text, at).unwrap().tag, cases, others);
        }
        lemma_alike_scanned(text, at_least(one.next, at + 1), one.scan, other.scan, cases, others);
    }
}

/// The markers of a text ask for the plural cases of the same values
/// whatever cases they are given: what a text asks for can be found out
/// with no cases at all.
pub proof fn lemma_requests_need_no_cases(text: Seq<char>, cases: Seq<PluralCase>)
    ensures
        parsed(text, cases).requests == parsed(text, Seq::empty()).requests,
{
    let none = Seq::<PluralCase>::empty();
    lemma_alike_scanned(text, 0, empty_scan(), empty_scan(), cases, none);
    let first = scanned(text, 0, empty_scan(), cases);
    let second = scanned(text, 0, empty_scan(), none);
    lemma_alike_closed(first, second, first.attributes.len() as int);
}

/// Whether every attribute lies within the text.
pub open spec fn lie_within(attributes: Seq<MarkupAttributeView>, text: Seq<char>) -> bool {
    forall|i: int|
        0 <= i < attributes.len() ==> {
            &&& 0 <= (#[trigger] attributes[i]).position
            &&& 0 <= attributes[i].length
            &&& attributes[i].position + attributes[i].length <= text.len()
        }
}

/// Whether the attributes of a scan lie within its text, and each is open
/// or closed.
pub open spec fn is_in_order(scan: ScanView) -> bool {
    &&& scan.open.len() == scan.attributes.len()
    &&& lie_within(scan.attributes, scan.text)
}

/// Closing attributes keeps a scan in order.
pub proof fn lemma_closed_in_order(scan: ScanView, upto: int)
    requires
        is_in_order(scan),
        0 <= upto <= scan.attributes.len(),
    ensures
        is_in_order(scan.closed_upto(upto)),
        scan.closed_upto(upto).text == scan.text,
        scan.closed_upto(upto).requests == scan.requests,
        scan.closed_upto(upto).attributes.len() == scan.attributes.len(),
    decreases upto,
{
    if upto > 0 {
        lemma_closed_in_order(scan, upto - 1);
    }
}

/// The attribute that is open last is one of the attributes.
pub proof fn lemma_last_open(scan: ScanView, name: Seq<char>, upto: int)
    requires
        0 <= upto <= scan.attributes.len(),
    ensures
        scan.last_open(name, upto) is Some ==> 0 <= scan.last_open(name, upto).unwrap() < upto,
    decreases upto,
{
    if upto > 0 {
        lemma_last_open(scan, name, upto - 1);
    }
}

/// A tag keeps a scan in order.
pub proof fn lemma_applied_in_order(scan: ScanView, tag: TagView, cases: Seq<PluralCase>)
    requires
        is_in_order(scan),
    ensures
        is_in_order(scan.applied(tag, cases)),
{
    match tag {
        TagView::Close { name } => {
            if name.len() == 0 {
                lemma_closed_in_order(scan, scan.attributes.len() as int);
            } else {
                lemma_last_open(scan, name, scan.attributes.len() as int);
            }
        },
        TagView::Open { name, properties, self_closing } => {},
    }
}

/// Reading text keeps a scan in order.
pub proof fn lemma_scanned_in_order(
    text: Seq<char>,
    at: int,
    scan: ScanView,
    cases: Seq<PluralCase>,
)
    requires
        is_in_order(scan),
    ensures
        is_in_order(scanned(text, at, scan, cases)),
    decreases distance(at, text.len() as int),
{
    if 0 <= at < text.len() {
        let step = stepped(text, at, scan, cases);
        if text[at] == '[' && tag_at(text, at) is Some {
            lemma_applied_in_order(scan, tag_at(text, at).unwrap().tag, cases);
        }
        lemma_scanned_in_order(text, at_least(step.next, at + 1), step.scan, cases);
    }
}

/// Every attribute of a text whose markup has been read lies within the
/// text that is left.
pub proof fn lemma_attributes_lie_within(text: Seq<char>, cases: Seq<PluralCase>)
    ensures
        lie_within(parsed(text, cases).attributes, parsed(text, cases).text),
{
    lemma_scanned_in_order(text, 0, empty_scan(), cases);
    let scan = scanned(text, 0, empty_scan(), cases);
    lemma_closed_in_order(scan, scan.attributes.len() as int);
    let end = scan.closed();
    let colon = found(end.text, 0, end.text.len() as int, Stop::Colon);
    if 0 < colon < end.text.len() {
        lemma_found(end.text, colon + 1, end.text.len() as int, Stop::Word);
    }
}

/// Whether a text holds no bracket and no backslash from `at` on.
pub open spec fn is_plain_from(text: Seq<char>, at: int) -> bool {
    forall|i: int| at <= i < text.len() ==> (#[trigger] text[i]) != '[' && text[i] != '\\'
}

/// Reading text without brackets and backslashes adds the text to the
/// scan and nothing else.
pub proof fn lemma_plain_scanned(text: Seq<char>, at: int, scan: ScanView, cases: Seq<PluralCase>)
    requires
        0 <= at <= text.len(),
        is_plain_from(text, at),
    ensures
        scanned(text, at, scan, cases) == (ScanView {
            text: scan.text + text.subrange(at, text.len() as int),
            ..scan
        }),
    decreases text.len() - at,
{
    if at < text.len() {
        lemma_plain_scanned(text, at + 1, scan.with_char(text[at]), cases);
        assert(scan.text.push(text[at]) + text.subrange(at + 1, text.len() as int) =~= scan.text
            + text.subrange(at, text.len() as int));
    } else {
        assert(scan.text + text.subrange(at, text.len() as int) =~= scan.text);
    }
}

/// The text of a line without brackets and backslashes is the text that
/// is left when its markup has been read, and nothing asks for a plural
/// case.
pub proof fn lemma_plain_text_stays(text: Seq<char>, cases: Seq<PluralCase>)
    requires
        is_plain_from(text, 0),
    ensures
        parsed(text, cases).text == text,
        parsed(text, cases).requests == Seq::<PluralRequestView>::empty(),
{
    lemma_plain_scanned(text, 0, empty_scan(), cases);
    assert(Seq::<char>::empty() + text.subrange(0, text.len() as int) =~= text);
    let scan = scanned(text, 0, empty_scan(), cases);
    assert(scan.closed() == scan);
}

} // verus!
