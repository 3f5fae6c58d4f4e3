//! What a running dialogue tells its host.

use crate::value::{YarnValue, YarnValueView};
use vstd::prelude::*;

verus! {

/// The number by which the host names the option that was selected: the
/// option's place among the options that were shown together.
#[derive(Debug, Clone, Copy, PartialEq, Eq, Hash, Structural)]
pub struct OptionId(pub usize);

/// A line of dialogue: the id under which the string table holds its text,
/// and the values that take the place of the substitution markers in the
/// text, in their order.
#[derive(Debug, PartialEq, Eq)]
pub struct Line {
    pub id: String,
    pub substitutions: Vec<YarnValue>,
}

/// The mathematical value of a [`Line`].
pub struct LineView {
    pub id: Seq<char>,
    pub substitutions: Seq<YarnValueView>,
}

impl View for Line {
    type V = LineView;

    open spec fn view(&self) -> LineView {
        LineView { id: self.id@, substitutions: self.substitutions.deep_view() }
    }
}

impl DeepView for Line {
    type V = LineView;

    open spec fn deep_view(&self) -> LineView {
        self@
    }
}

/// A copy of a list of values.
pub fn clone_values(values: &Vec<YarnValue>) -> (r: Vec<YarnValue>)
    ensures
        r.deep_view() == values.deep_view(),
{
    let mut copies: Vec<YarnValue> = Vec::new();
    let mut i: usize = 0;
    while i < values.len()
        invariant
            i <= values.len(),
            copies.len() == i,
            forall|j: int| 0 <= j < i ==> copies[j]@ == values[j]@,
        decreases values.len() - i,
    {
        copies.push(values[i].clone());
        i = i + 1;
    }
    proof {
        assert(copies.deep_view() =~= values.deep_view());
    }
    copies
}

impl Clone for Line {
    fn clone(&self) -> (r: Self)
        ensures
            r@ == self@,
    {
        Line { id: self.id.clone(), substitutions: clone_values(&self.substitutions) }
    }
}

/// An option that the player may choose.
#[derive(Debug, PartialEq, Eq)]
pub struct DialogueOption {
    /// The line that presents the option.
    pub line: Line,
    /// The number to select the option by.
    pub id: OptionId,
    /// The label at which the dialogue continues when the option is
    /// selected.
    pub destination: String,
    /// Whether the option's condition held. An option without a condition is
    /// available.
    pub is_available: bool,
}

/// The mathematical value of a [`DialogueOption`].
pub struct DialogueOptionView {
    pub line: LineView,
    pub id: OptionId,
    pub destination: Seq<char>,
    pub is_available: bool,
}

impl View for DialogueOption {
    type V = DialogueOptionView;

    open spec fn view(&self) -> DialogueOptionView {
        DialogueOptionView {
            line: self.line@,
            id: self.id,
            destination: self.destination@,
            is_available: self.is_available,
        }
    }
}

impl DeepView for DialogueOption {
    type V = DialogueOptionView;

    open spec fn deep_view(&self) -> DialogueOptionView {
        self@
    }
}

impl Clone for DialogueOption {
    fn clone(&self) -> (r: Self)
        ensures
            r@ == self@,
    {
        DialogueOption {
            line: self.line.clone(),
            id: self.id,
            destination: self.destination.clone(),
            is_available: self.is_available,
        }
    }
}

/// A copy of a list of options.
pub fn clone_options(options: &Vec<DialogueOption>) -> (r: Vec<DialogueOption>)
    ensures
        r.deep_view() == options.deep_view(),
{
    let mut copies: Vec<DialogueOption> = Vec::new();
    let mut i: usize = 0;
    while i < options.len()
        invariant
            i <= options.len(),
            copies.len() == i,
            forall|j: int| 0 <= j < i ==> copies[j]@ == options[j]@,
        decreases options.len() - i,
    {
        copies.push(options[i].clone());
        i = i + 1;
    }
    proof {
        assert(copies.deep_view() =~= options.deep_view());
    }
    copies
}

/// An error of the script's author that ends the dialogue.
#[derive(Debug, Clone, PartialEq, Eq)]
pub enum RuntimeError {
    /// The library has no function of this name.
    UnknownFunction(String),
    /// The host could not carry out the call of the function of this name.
    FunctionFailed(String),
    /// The node has no label of this name.
    UnknownLabel(String),
    /// The program has no node of this name.
    UnknownNode(String),
    /// A value has not the type that its use asks for.
    TypeMismatch,
    /// The stack holds fewer values than the instruction takes.
    StackUnderflow,
    /// The instruction is reserved and does nothing.
    ReservedInstruction,
    /// The script has run for as many instructions as a machine integer can
    /// count and has left nothing for the host to do.
    TooManyInstructions,
}

/// The mathematical value of a [`RuntimeError`].
pub enum RuntimeErrorView {
    UnknownFunction(Seq<char>),
    FunctionFailed(Seq<char>),
    UnknownLabel(Seq<char>),
    UnknownNode(Seq<char>),
    TypeMismatch,
    StackUnderflow,
    ReservedInstruction,
    TooManyInstructions,
}

impl View for RuntimeError {
    type V = RuntimeErrorView;

    open spec fn view(&self) -> RuntimeErrorView {
        match self {
            RuntimeError::UnknownFunction(name) => RuntimeErrorView::UnknownFunction(name@),
            RuntimeError::FunctionFailed(name) => RuntimeErrorView::FunctionFailed(name@),
            RuntimeError::UnknownLabel(name) => RuntimeErrorView::UnknownLabel(name@),
            RuntimeError::UnknownNode(name) => RuntimeErrorView::UnknownNode(name@),
            RuntimeError::TypeMismatch => RuntimeErrorView::TypeMismatch,
            RuntimeError::StackUnderflow => RuntimeErrorView::StackUnderflow,
            RuntimeError::ReservedInstruction => RuntimeErrorView::ReservedInstruction,
            RuntimeError::TooManyInstructions => RuntimeErrorView::TooManyInstructions,
        }
    }
}

/// What a dialogue tells its host while it runs.
#[derive(Debug, PartialEq, Eq)]
pub enum DialogueEvent {
    /// The lines that the node about to start may deliver.
    LineHints(Vec<String>),
    /// A line to show.
    Line(Line),
    /// Options to choose from.
    Options(Vec<DialogueOption>),
    /// A command for the host to carry out.
    Command { name: String, arguments: Vec<YarnValue> },
    /// The node of this name starts.
    NodeStart(String),
    /// The node of this name is over.
    NodeComplete(String),
    /// The dialogue is over.
    DialogueComplete,
    /// The dialogue cannot go on.
    NodeError(RuntimeError),
}

/// The mathematical value of a [`DialogueEvent`].
pub enum DialogueEventView {
    LineHints(Seq<Seq<char>>),
    Line(LineView),
    Options(Seq<DialogueOptionView>),
    Command { name: Seq<char>, arguments: Seq<YarnValueView> },
    NodeStart(Seq<char>),
    NodeComplete(Seq<char>),
    DialogueComplete,
    NodeError(RuntimeErrorView),
}

impl View for DialogueEvent {
    type V = DialogueEventView;

    open spec fn view(&self) -> DialogueEventView {
        match self {
            DialogueEvent::LineHints(line_ids) => DialogueEventView::LineHints(
                line_ids.deep_view(),
            ),
            DialogueEvent::Line(line) => DialogueEventView::Line(line@),
            DialogueEvent::Options(options) => DialogueEventView::Options(options.deep_view()),
            DialogueEvent::Command { name, arguments } => DialogueEventView::Command {
                name: name@,
                arguments: arguments.deep_view(),
            },
            DialogueEvent::NodeStart(name) => DialogueEventView::NodeStart(name@),
            DialogueEvent::NodeComplete(name) => DialogueEventView::NodeComplete(name@),
            DialogueEvent::DialogueComplete => DialogueEventView::DialogueComplete,
            DialogueEvent::NodeError(error) => DialogueEventView::NodeError(error@),
        }
    }
}

impl DeepView for DialogueEvent {
    type V = DialogueEventView;

    open spec fn deep_view(&self) -> DialogueEventView {
        self@
    }
}

/// The states of a virtual machine.
#[derive(Debug, Clone, Copy, PartialEq, Eq, Hash, Structural)]
pub enum ExecutionState {
    /// Nothing runs.
    Stopped,
    /// Options were shown, and none has been selected yet.
    WaitingOnOptionSelection,
    /// A command or the end of a node was delivered; the next step goes on.
    WaitingForContinue,
    /// A line was delivered; the next step goes on.
    DeliveringContent,
    /// Instructions are being run, or will be with the next step.
    Running,
}

} // verus!
