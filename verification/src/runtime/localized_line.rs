//! A line as it is shown: the text of the line in the language of the
//! player, with its substitutions filled in and its markup read.

use crate::compiler::lexer::{characters, slice};
use crate::runtime::markup::{
    attribute_names, parse_markup, parsed, property_of, value_of_property, MarkupAttribute,
    MarkupAttributeView, PluralCase,
};
use crate::text::{lemma_position_absent, lemma_position_is_first, position_of, str_eq};
use vstd::prelude::*;

verus! {

/// A line as it is shown.
#[derive(Debug, Clone, PartialEq, Eq)]
pub struct LocalizedLine {
    /// The id of the line in the string table.
    pub id: String,
    /// The text of the line without its tags.
    pub text: String,
    /// The attributes of the text.
    pub attributes: Vec<MarkupAttribute>,
    /// The hashtags of the line.
    pub metadata: Vec<String>,
}

/// The mathematical value of a [`LocalizedLine`].
pub struct LocalizedLineView {
    pub id: Seq<char>,
    pub text: Seq<char>,
    pub attributes: Seq<MarkupAttributeView>,
    pub metadata: Seq<Seq<char>>,
}

impl View for LocalizedLine {
    type V = LocalizedLineView;

    open spec fn view(&self) -> LocalizedLineView {
        LocalizedLineView {
            id: self.id@,
            text: self.text@,
            attributes: self.attributes.deep_view(),
            metadata: self.metadata.deep_view(),
        }
    }
}

/// The first attribute of the given name.
pub open spec fn attribute_of(attributes: Seq<MarkupAttributeView>, name: Seq<char>) -> Option<
    MarkupAttributeView,
> {
    match position_of(attribute_names(attributes), name) {
        Some(i) => Some(attributes[i]),
        None => None,
    }
}

impl LocalizedLineView {
    /// The name of the character who speaks the line: the property `name`
    /// of the attribute `character`.
    pub open spec fn character_name(self) -> Option<Seq<char>> {
        match attribute_of(self.attributes, "character"@) {
            Some(attribute) => property_of(attribute.properties, "name"@),
            None => None,
        }
    }

    /// The text without the stretch that the attribute `character` spans.
    /// The whole text where there is no such attribute or where it does not
    /// lie within the text.
    pub open spec fn text_without_character_name(self) -> Seq<char> {
        match attribute_of(self.attributes, "character"@) {
            Some(attribute) => if attribute.position + attribute.length <= self.text.len() {
                self.text.subrange(0, attribute.position) + self.text.subrange(
                    attribute.position + attribute.length,
                    self.text.len() as int,
                )
            } else {
                self.text
            },
            None => self.text,
        }
    }

    /// Whether options follow the line: whether `lastline` is among its
    /// hashtags.
    pub open spec fn is_last_line_before_options(self) -> bool {
        position_of(self.metadata, "lastline"@) is Some
    }
}

/// The index of the first attribute of the given name.
fn find_attribute(attributes: &Vec<MarkupAttribute>, name: &str) -> (index: Option<usize>)
    ensures
        match index {
            Some(i) => i < attributes.len() && attribute_of(attributes.deep_view(), name@)
                == Some(attributes[i as int]@),
            None => attribute_of(attributes.deep_view(), name@) is None,
        },
{
    let ghost names = attribute_names(attributes.deep_view());
    let mut i: usize = 0;
    while i < attributes.len()
        invariant
            i <= attributes.len(),
            names == attribute_names(attributes.deep_view()),
            forall|j: int| 0 <= j < i ==> names[j] != name@,
        decreases attributes.len() - i,
    {
        proof {
            assert(names[i as int] == attributes[i as int]@.name);
        }
        if str_eq(attributes[i].name.as_str(), name) {
            proof {
                lemma_position_is_first(names, name@, i as int);
                assert(attributes.deep_view()[i as int] == attributes[i as int]@);
            }
            return Some(i);
        }
        i = i + 1;
    }
    proof {
        lemma_position_absent(names, name@);
    }
    None
}

impl LocalizedLine {
    /// The line of the given id whose text, with its markup, is `text`.
    /// `cases` are the plural cases that the markers of the text ask for,
    /// in the order of the markers.
    pub fn new(id: String, text: &str, metadata: Vec<String>, cases: &Vec<PluralCase>) -> (line:
        Self)
        ensures
            line@ == (LocalizedLineView {
                id: id@,
                text: parsed(text@, cases@).text,
                attributes: parsed(text@, cases@).attributes,
                metadata: metadata.deep_view(),
            }),
    {
        let markup = parse_markup(text, cases);
        LocalizedLine { id, text: markup.text, attributes: markup.attributes, metadata }
    }

    /// The name of the character who speaks the line, if the line names
    /// one.
    pub fn character_name(&self) -> (name: Option<&str>)
        ensures
            match name {
                Some(name) => Some(name@),
                None => None,
            } == self@.character_name(),
    {
        match find_attribute(&self.attributes, "character") {
            Some(i) => match value_of_property(&self.attributes[i].properties, "name") {
                Some(name) => Some(name.as_str()),
                None => None,
            },
            None => None,
        }
    }

    /// The text of the line without the name of the character.
    pub fn text_without_character_name(&self) -> (text: String)
        ensures
            text@ == self@.text_without_character_name(),
    {
        let chars = characters(self.text.as_str());
        match find_attribute(&self.attributes, "character") {
            Some(i) => {
                let position = self.attributes[i].position;
                let length = self.attributes[i].length;
                if position <= chars.len() && length <= chars.len() - position {
                    let mut text = slice(&chars, 0, position);
                    let mut at = position + length;
                    while at < chars.len()
                        invariant
                            position + length <= at <= chars.len(),
                            text@ == chars@.subrange(0, position as int) + chars@.subrange(
                                position + length,
                                at as int,
                            ),
                        decreases chars.len() - at,
                    {
                        text.push(chars[at]);
                        proof {
                            assert(text@ =~= chars@.subrange(0, position as int)
                                + chars@.subrange(position + length, at + 1));
                        }
                        at = at + 1;
                    }
                    text
                } else {
                    self.text.clone()
                }
            },
            None => self.text.clone(),
        }
    }

    /// Whether options follow the line.
    pub fn is_last_line_before_options(&self) -> (last: bool)
        ensures
            last == self@.is_last_line_before_options(),
    {
        let ghost tags = self.metadata.deep_view();
        let mut i: usize = 0;
        while i < self.metadata.len()
            invariant
                i <= self.metadata.len(),
                tags == self.metadata.deep_view(),
                forall|j: int| 0 <= j < i ==> tags[j] != "lastline"@,
            decreases self.metadata.len() - i,
        {
            proof {
                assert(tags[i as int] == self.metadata[i as int]@);
            }
            if str_eq(self.metadata[i].as_str(), "lastline") {
                proof {
                    lemma_position_is_first(tags, "lastline"@, i as int);
                }
                return true;
            }
            i = i + 1;
        }
        proof {
            lemma_position_absent(tags, "lastline"@);
        }
        false
    }
}

} // verus!
