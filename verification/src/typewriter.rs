//! A typewriter: it shows the text of a line piece by piece.
//!
//! A piece is a grapheme cluster, so that an accent never appears apart
//! from its letter. How many pieces are due at a given moment is for the
//! caller to say, who has the clock. The typewriter also decides what a
//! view of the dialogue is to do with the text; the view does it.

use crate::runtime::localized_line::LocalizedLine;
use crate::text::{joined, lemma_joined_split};
use unicode_segmentation::UnicodeSegmentation;
use vstd::prelude::*;
use vstd::string::StringExecFns;

verus! {

/// The extended grapheme clusters of a text, in their order, as the Unicode
/// standard's annex on text segmentation defines them.
pub uninterp spec fn grapheme_clusters(text: Seq<char>) -> Seq<Seq<char>>;

/// `UnicodeSegmentation::graphemes` with extended clusters: the grapheme
/// clusters of the text. The iterator cuts the text at the cluster
/// boundaries and hands out the pieces between them from the first to the
/// last, so no piece is empty and the pieces together are the text.
#[verifier::external_body]
fn graphemes(text: &str) -> (clusters: Vec<String>)
    ensures
        clusters.deep_view() == grapheme_clusters(text@),
        joined(clusters.deep_view()) == text@,
        forall|i: int| 0 <= i < clusters.len() ==> (#[trigger] clusters[i])@.len() > 0,
{
    text.graphemes(true).map(|cluster| cluster.to_string()).collect()
}

/// The state of the typewriter.
#[derive(Debug, Clone, PartialEq, Eq)]
pub struct Typewriter {
    /// The name of the character who speaks the line, if the line names one.
    pub character_name: Option<String>,
    /// The part of the line that is shown.
    pub current_text: String,
    /// The grapheme clusters of the line that are not shown yet.
    pub graphemes_left: Vec<String>,
    /// Whether options follow the line.
    pub last_before_options: bool,
    fast_typing: bool,
}

/// The mathematical value of a [`Typewriter`].
pub struct TypewriterView {
    pub character_name: Option<Seq<char>>,
    pub current_text: Seq<char>,
    pub graphemes_left: Seq<Seq<char>>,
    pub last_before_options: bool,
    pub fast_typing: bool,
}

impl TypewriterView {
    /// Whether the whole of a line has been shown.
    pub open spec fn is_finished(self) -> bool {
        self.graphemes_left.len() == 0 && self.current_text.len() > 0
    }

    /// The text of the line: what is shown and what is still to come.
    pub open spec fn text(self) -> Seq<char> {
        self.current_text + joined(self.graphemes_left)
    }

    /// The typewriter after `count` more grapheme clusters have been shown.
    pub open spec fn advanced(self, count: int) -> TypewriterView {
        TypewriterView {
            current_text: self.current_text + joined(self.graphemes_left.take(count)),
            graphemes_left: self.graphemes_left.skip(count),
            ..self
        }
    }
}

impl View for Typewriter {
    type V = TypewriterView;

    closed spec fn view(&self) -> TypewriterView {
        TypewriterView {
            character_name: self.character_name.deep_view(),
            current_text: self.current_text@,
            graphemes_left: self.graphemes_left.deep_view(),
            last_before_options: self.last_before_options,
            fast_typing: self.fast_typing,
        }
    }
}

/// The typewriter never loses text: what is shown and what is still to come
/// are together the same text before and after any number of clusters is
/// shown.
pub proof fn lemma_advancing_keeps_text(typewriter: TypewriterView, count: int)
    requires
        0 <= count <= typewriter.graphemes_left.len(),
    ensures
        typewriter.advanced(count).text() == typewriter.text(),
{
    lemma_joined_split(typewriter.graphemes_left, count);
    assert(typewriter.advanced(count).text() =~= typewriter.text());
}

impl Default for Typewriter {
    fn default() -> (typewriter: Self)
        ensures
            typewriter@ == (TypewriterView {
                character_name: None,
                current_text: Seq::empty(),
                graphemes_left: Seq::empty(),
                last_before_options: false,
                fast_typing: false,
            }),
    {
        let typewriter = Typewriter {
            character_name: None,
            current_text: String::new(),
            graphemes_left: Vec::new(),
            last_before_options: false,
            fast_typing: false,
        };
        proof {
            assert(typewriter@.graphemes_left =~= Seq::empty());
        }
        typewriter
    }
}

impl Typewriter {
    /// Takes up a new line: nothing of it is shown yet, and all the
    /// grapheme clusters of its text without the name of the character are
    /// still to come.
    pub fn set_line(&mut self, line: &LocalizedLine)
        ensures
            final(self)@ == (TypewriterView {
                character_name: line@.character_name(),
                current_text: Seq::empty(),
                graphemes_left: grapheme_clusters(line@.text_without_character_name()),
                last_before_options: line@.is_last_line_before_options(),
                fast_typing: false,
            }),
            final(self)@.text() == line@.text_without_character_name(),
    {
        let character_name = match line.character_name() {
            Some(name) => Some(name.to_owned()),
            None => None,
        };
        let text = line.text_without_character_name();
        *self = Typewriter {
            character_name,
            current_text: String::new(),
            graphemes_left: graphemes(text.as_str()),
            last_before_options: line.is_last_line_before_options(),
            fast_typing: false,
        };
        proof {
            assert(self@.text() =~= text@);
        }
    }

    /// Whether the whole of the line has been shown.
    pub fn is_finished(&self) -> (finished: bool)
        ensures
            finished == self@.is_finished(),
    {
        self.graphemes_left.len() == 0 && !self.current_text.as_str().is_empty()
    }

    /// From now on the typewriter types fast.
    pub fn fast_forward(&mut self)
        ensures
            final(self)@ == (TypewriterView { fast_typing: true, ..old(self)@ }),
    {
        self.fast_typing = true;
    }

    /// Shows the grapheme clusters that are due. `calculated_graphemes` is
    /// the number of clusters that the time passed allows for; no more are
    /// shown than are left. A typewriter that has finished shows nothing.
    /// The result is the number of clusters shown.
    pub fn update_current_text(&mut self, calculated_graphemes: usize) -> (taken: usize)
        ensures
            old(self)@.is_finished() ==> taken == 0,
            !old(self)@.is_finished() ==> taken == if calculated_graphemes <= old(
                self,
            )@.graphemes_left.len() {
                calculated_graphemes
            } else {
                old(self)@.graphemes_left.len() as usize
            },
            final(self)@ == old(self)@.advanced(taken as int),
    {
        if self.is_finished() {
            proof {
                assert(self@.graphemes_left.take(0) =~= Seq::empty());
                assert(self@.graphemes_left.skip(0) =~= self@.graphemes_left);
                assert(self@.current_text + joined(self@.graphemes_left.take(0))
                    =~= self@.current_text);
            }
            return 0;
        }
        let graphemes_left = self.graphemes_left.len();
        let grapheme_length_to_take = if calculated_graphemes <= graphemes_left {
            calculated_graphemes
        } else {
            graphemes_left
        };
        let mut graphemes_to_take = self.graphemes_left.split_off(grapheme_length_to_take);
        std::mem::swap(&mut self.graphemes_left, &mut graphemes_to_take);
        proof {
            assert(graphemes_to_take.deep_view() =~= old(self)@.graphemes_left.take(
                grapheme_length_to_take as int,
            ));
            assert(self@.graphemes_left =~= old(self)@.graphemes_left.skip(
                grapheme_length_to_take as int,
            ));
            assert(graphemes_to_take.deep_view().take(0) =~= Seq::empty());
            assert(self@.current_text + joined(graphemes_to_take.deep_view().take(0))
                =~= self@.current_text);
        }
        let mut i: usize = 0;
        while i < graphemes_to_take.len()
            invariant
                i <= graphemes_to_take.len(),
                self@ == (TypewriterView {
                    current_text: old(self)@.current_text + joined(
                        graphemes_to_take.deep_view().take(i as int),
                    ),
                    graphemes_left: old(self)@.graphemes_left.skip(
                        grapheme_length_to_take as int,
                    ),
                    ..old(self)@
                }),
            decreases graphemes_to_take.len() - i,
        {
            self.current_text.append(graphemes_to_take[i].as_str());
            proof {
                let parts = graphemes_to_take.deep_view();
                assert(parts.take(i + 1).drop_last() =~= parts.take(i as int));
                assert(self@.current_text =~= old(self)@.current_text + joined(
                    parts.take(i + 1),
                ));
            }
            i = i + 1;
        }
        proof {
            let parts = graphemes_to_take.deep_view();
            assert(parts.take(i as int) =~= parts);
        }
        grapheme_length_to_take
    }

    /// How many grapheme clusters the typewriter types in a second.
    pub fn graphemes_per_second(&self) -> (speed: u32)
        ensures
            speed == if self@.fast_typing {
                120u32
            } else {
                40u32
            },
    {
        if self.fast_typing {
            120
        } else {
            40
        }
    }
}

/// What a view is to do about the text of the line before the typewriter
/// types on.
#[derive(Debug, Clone, Copy, PartialEq, Eq, Structural)]
pub enum Writing {
    /// Options follow the line and are not ready to be shown: the text is
    /// taken away.
    Clear,
    /// The whole line has been shown: nothing is to be done.
    Rest,
    /// The typewriter types on. Unless options follow the line, the
    /// dialogue is made visible first.
    Type { show_dialogue: bool },
}

/// What a view is to show once the typewriter has typed.
#[derive(Debug, Clone, PartialEq, Eq)]
pub struct Written {
    /// The character who has stopped speaking, if the line names one and
    /// the whole line has been shown.
    pub silent_speaker: Option<String>,
    /// The part of the line that is shown.
    pub shown: String,
    /// The part of the line that is still to come.
    pub rest: String,
}

/// The mathematical value of a [`Written`].
pub struct WrittenView {
    pub silent_speaker: Option<Seq<char>>,
    pub shown: Seq<char>,
    pub rest: Seq<char>,
}

impl View for Written {
    type V = WrittenView;

    open spec fn view(&self) -> WrittenView {
        WrittenView {
            silent_speaker: self.silent_speaker.deep_view(),
            shown: self.shown@,
            rest: self.rest@,
        }
    }
}

impl TypewriterView {
    /// What a view is to do about the text before the typewriter types on.
    /// `options_are_ready` says whether the options that follow the line can
    /// be shown.
    pub open spec fn writing(self, options_are_ready: bool) -> Writing {
        if self.last_before_options && !options_are_ready {
            Writing::Clear
        } else if self.is_finished() {
            Writing::Rest
        } else {
            Writing::Type { show_dialogue: !self.last_before_options }
        }
    }

    /// What a view is to show once the typewriter has typed.
    pub open spec fn written(self) -> WrittenView {
        WrittenView {
            silent_speaker: if self.is_finished() {
                self.character_name
            } else {
                None
            },
            shown: self.current_text,
            rest: joined(self.graphemes_left),
        }
    }
}

/// The strings written one behind the other.
pub fn join(parts: &Vec<String>) -> (text: String)
    ensures
        text@ == joined(parts.deep_view()),
{
    let ghost views = parts.deep_view();
    let mut text = String::new();
    let mut i: usize = 0;
    proof {
        assert(views.take(0) =~= Seq::empty());
    }
    while i < parts.len()
        invariant
            i <= parts.len(),
            views == parts.deep_view(),
            text@ == joined(views.take(i as int)),
        decreases parts.len() - i,
    {
        text.append(parts[i].as_str());
        proof {
            assert(views.take(i + 1).drop_last() =~= views.take(i as int));
            assert(views.take(i + 1).last() == parts[i as int]@);
        }
        i = i + 1;
    }
    proof {
        assert(views.take(i as int) =~= views);
    }
    text
}

impl Typewriter {
    /// What a view is to do about the text before the typewriter types on.
    /// `options_are_ready` says whether the options that follow the line can
    /// be shown.
    pub fn writing(&self, options_are_ready: bool) -> (writing: Writing)
        ensures
            writing == self@.writing(options_are_ready),
    {
        if self.last_before_options && !options_are_ready {
            Writing::Clear
        } else if self.is_finished() {
            Writing::Rest
        } else {
            Writing::Type { show_dialogue: !self.last_before_options }
        }
    }

    /// What a view is to show once the typewriter has typed.
    pub fn written(&self) -> (written: Written)
        ensures
            written@ == self@.written(),
    {
        let silent_speaker = if self.is_finished() {
            self.character_name.clone()
        } else {
            None
        };
        Written {
            silent_speaker,
            shown: self.current_text.clone(),
            rest: join(&self.graphemes_left),
        }
    }

    /// Whether a view is to offer to go on once the line has been shown:
    /// it is, unless options follow the line.
    pub fn shows_continue(&self) -> (shown: bool)
        ensures
            shown == !self@.last_before_options,
    {
        !self.last_before_options
    }
}

/// Whether the typewriter has just finished, and is to say so: it has if
/// it has finished and had not when it was last asked. `was_finished` is
/// what it was then.
pub fn has_just_finished(is_finished: bool, was_finished: bool) -> (just: bool)
    ensures
        just == (is_finished && !was_finished),
{
    is_finished && !was_finished
}

} // verus!
