//! The dialogue: the host's handle on a running program.

use crate::collections::value_at;
use crate::program::{
    names_distinct, names_of, CombineError, Node, NodeView, Program, ProgramView,
};
use crate::runtime::events::{DialogueEvent, DialogueEventView, ExecutionState, OptionId};
use crate::runtime::library::{
    standard_functions, FunctionHost, FunctionSignatureView, Library,
};
use crate::runtime::markup::{parse_markup, parsed, Markup, PluralCase};
use crate::runtime::variable_storage::VariableStorage;
use crate::runtime::virtual_machine::{initial_machine, MachineView, VirtualMachine};
use crate::text::{decimal, push_decimal, replace, replaced, substitution_marker};
use crate::types::{Type, TypeView};
use crate::value::YarnValueView;
use vstd::prelude::*;
use vstd::string::StringExecFns;

verus! {

/// The functions of a new dialogue: the standard library, and `visited` and
/// `visited_count`, which take the name of a node.
pub open spec fn dialogue_functions() -> Map<Seq<char>, FunctionSignatureView> {
    standard_functions().insert(
        "visited"@,
        FunctionSignatureView { parameters: seq![TypeView::String], return_type: TypeView::Bool },
    ).insert(
        "visited_count"@,
        FunctionSignatureView {
            parameters: seq![TypeView::String],
            return_type: TypeView::Number,
        },
    )
}

/// `text` with the markers of the first `count` substitutions replaced, in
/// the order of the substitutions.
pub open spec fn expanded(text: Seq<char>, substitutions: Seq<Seq<char>>, count: nat) -> Seq<
    char,
>
    decreases count,
{
    if count == 0 {
        text
    } else {
        replaced(
            expanded(text, substitutions, (count - 1) as nat),
            substitution_marker((count - 1) as nat),
            substitutions[count - 1],
        )
    }
}

/// The id of the string that holds the source text of a node.
pub open spec fn string_id_for_node(node_name: Seq<char>) -> Seq<char> {
    "line:"@ + node_name
}

/// Why a node was not found.
#[derive(Debug, Clone, PartialEq, Eq)]
pub enum NodeLookupError {
    /// No program is loaded.
    NoProgramLoaded,
    /// The program that is loaded has no nodes.
    NoNodesLoaded,
    /// The program has no node of this name.
    NoNodeNamed(String),
}

/// The mathematical value of a [`NodeLookupError`].
pub enum NodeLookupErrorView {
    NoProgramLoaded,
    NoNodesLoaded,
    NoNodeNamed(Seq<char>),
}

impl View for NodeLookupError {
    type V = NodeLookupErrorView;

    open spec fn view(&self) -> NodeLookupErrorView {
        match self {
            NodeLookupError::NoProgramLoaded => NodeLookupErrorView::NoProgramLoaded,
            NodeLookupError::NoNodesLoaded => NodeLookupErrorView::NoNodesLoaded,
            NodeLookupError::NoNodeNamed(name) => NodeLookupErrorView::NoNodeNamed(name@),
        }
    }
}

/// What looking for a node of the given name in a program gives.
pub open spec fn node_lookup(program: Option<ProgramView>, node_name: Seq<char>) -> Result<
    NodeView,
    NodeLookupErrorView,
> {
    match program {
        None => Err(NodeLookupErrorView::NoProgramLoaded),
        Some(program) => if program.nodes.len() == 0 {
            Err(NodeLookupErrorView::NoNodesLoaded)
        } else {
            match program.node(node_name) {
                Some(node) => Ok(node),
                None => Err(NodeLookupErrorView::NoNodeNamed(node_name)),
            }
        },
    }
}

/// Co-ordinates the execution of programs.
pub struct Dialogue<S: VariableStorage> {
    vm: VirtualMachine<S>,
    language_code: Option<String>,
}

/// The mathematical value of a [`Dialogue`].
pub struct DialogueView {
    pub machine: MachineView,
    pub language_code: Option<Seq<char>>,
}

impl<S: VariableStorage> View for Dialogue<S> {
    type V = DialogueView;

    closed spec fn view(&self) -> DialogueView {
        DialogueView { machine: self.vm@, language_code: self.language_code.deep_view() }
    }
}

impl<S: VariableStorage> Dialogue<S> {
    /// The name of the node that a dialogue starts at unless told
    /// otherwise.
    pub const DEFAULT_START_NODE_NAME: &'static str = "Start";

    /// A dialogue over the given storage, with the standard library and the
    /// functions `visited` and `visited_count`. No program is loaded, and no
    /// language is set.
    pub fn new(variable_storage: S) -> (dialogue: Self)
        ensures
            dialogue@ == (DialogueView {
                machine: initial_machine(dialogue_functions(), variable_storage.variables()),
                language_code: None,
            }),
            dialogue@.machine.wf(),
    {
        let mut node_name: Vec<Type> = Vec::new();
        node_name.push(Type::String);
        let mut node_name_again: Vec<Type> = Vec::new();
        node_name_again.push(Type::String);
        proof {
            assert(node_name.deep_view() =~= seq![TypeView::String]);
            assert(node_name_again.deep_view() =~= seq![TypeView::String]);
        }
        let library = Library::standard_library().with_function(
            "visited",
            node_name,
            Type::Bool,
        ).with_function("visited_count", node_name_again, Type::Number);
        Dialogue { vm: VirtualMachine::new(library, variable_storage), language_code: None }
    }

    /// Starts or continues the dialogue; see [`VirtualMachine::next`].
    pub fn next<H: FunctionHost>(&mut self, host: &mut H) -> (events: Option<Vec<DialogueEvent>>)
        requires
            old(self)@.machine.wf(),
        ensures
            final(self)@.machine.wf(),
            final(self)@.machine.state != ExecutionState::Running,
            final(self)@.language_code == old(self)@.language_code,
            old(self)@.machine.state == ExecutionState::Stopped ==> events is None,
            old(self)@.machine.state == ExecutionState::Stopped ==> final(self)@ == old(self)@,
            old(self)@.machine.state != ExecutionState::Stopped ==> exists|
                call_results: Seq<Option<YarnValueView>>,
            | #[trigger]
                old(self)@.machine.next_result(
                    call_results,
                    events.deep_view(),
                    final(self)@.machine,
                ),
    {
        self.vm.next(host)
    }

    pub fn with_language_code(self, language_code: String) -> (dialogue: Self)
        ensures
            dialogue@ == (DialogueView { language_code: Some(language_code@), ..self@ }),
    {
        Dialogue { vm: self.vm, language_code: Some(language_code) }
    }

    /// The dialogue with the functions of another library beside its own.
    /// Where both have a function of one name, that of the other library
    /// stays.
    pub fn with_extended_library(self, library: Library) -> (dialogue: Self)
        ensures
            dialogue@ == (DialogueView {
                machine: MachineView {
                    library: self@.machine.library.union_prefer_right(library.functions()),
                    ..self@.machine
                },
                ..self@
            }),
    {
        let mut dialogue = self;
        dialogue.vm.extend_library(library);
        dialogue
    }

    pub fn with_node_at(self, node_name: &str) -> (dialogue: Self)
        requires
            self@.machine.wf(),
            self@.machine.program is Some,
            self@.machine.program.unwrap().node_index(node_name@) is Some,
        ensures
            dialogue@ == (DialogueView {
                machine: self@.machine.set_node(
                    self@.machine.program.unwrap().node_index(node_name@).unwrap(),
                ),
                ..self@
            }),
            dialogue@.machine.wf(),
    {
        let mut dialogue = self;
        dialogue.set_node(node_name);
        dialogue
    }

    pub fn with_node_at_start(self) -> (dialogue: Self)
        requires
            self@.machine.wf(),
            self@.machine.program is Some,
            self@.machine.program.unwrap().node_index("Start"@) is Some,
        ensures
            dialogue@ == (DialogueView {
                machine: self@.machine.set_node(
                    self@.machine.program.unwrap().node_index("Start"@).unwrap(),
                ),
                ..self@
            }),
            dialogue@.machine.wf(),
    {
        let mut dialogue = self;
        dialogue.set_node_to_start();
        dialogue
    }

    /// The dialogue that tells the host, with each node that starts, which
    /// lines the node may deliver.
    pub fn with_should_send_line_hints(self) -> (dialogue: Self)
        ensures
            dialogue@ == (DialogueView {
                machine: MachineView { should_send_line_hints: true, ..self@.machine },
                ..self@
            }),
    {
        let mut dialogue = self;
        dialogue.vm.set_should_send_line_hints(true);
        dialogue
    }

    /// The dialogue's locale, as an IETF BCP 47 code.
    pub fn language_code(&self) -> (language_code: Option<&str>)
        ensures
            language_code.deep_view() == self@.language_code,
    {
        match &self.language_code {
            Some(language_code) => Some(language_code.as_str()),
            None => None,
        }
    }

    /// The dialogue's locale, to be changed in place.
    pub fn language_code_mut(&mut self) -> (language_code: Option<&mut String>)
        ensures
            match language_code {
                Some(code) => old(self)@.language_code == Some(code@) && final(self)@ == (
                DialogueView { language_code: Some(final(code)@), ..old(self)@ }),
                None => old(self)@.language_code is None && final(self)@ == old(self)@,
            },
    {
        self.language_code.as_mut()
    }

    /// The library that the dialogue finds functions in.
    pub fn library(&self) -> (library: &Library)
        ensures
            library.functions() == self@.machine.library,
    {
        self.vm.library()
    }

    /// The library, to be changed in place.
    pub fn library_mut(&mut self) -> (library: &mut Library)
        ensures
            library.functions() == old(self)@.machine.library,
            final(self)@ == (DialogueView {
                machine: MachineView {
                    library: final(library).functions(),
                    ..old(self)@.machine
                },
                ..old(self)@
            }),
    {
        self.vm.library_mut()
    }

    /// Whether the dialogue tells the host which lines a node may deliver.
    pub fn should_send_line_hints(&self) -> (wanted: bool)
        ensures
            wanted == self@.machine.should_send_line_hints,
    {
        self.vm.should_send_line_hints()
    }

    /// The place that says whether the dialogue tells the host which lines
    /// a node may deliver.
    pub fn should_send_line_hints_mut(&mut self) -> (wanted: &mut bool)
        ensures
            *wanted == old(self)@.machine.should_send_line_hints,
            final(self)@ == (DialogueView {
                machine: MachineView {
                    should_send_line_hints: *final(wanted),
                    ..old(self)@.machine
                },
                ..old(self)@
            }),
    {
        self.vm.should_send_line_hints_mut()
    }

    /// Loads a program in place of the one that was loaded, and stops.
    pub fn replace_program(&mut self, program: Program)
        ensures
            final(self)@ == (DialogueView {
                machine: MachineView { program: Some(program@), ..old(self)@.machine.reset() },
                ..old(self)@
            }),
            final(self)@.machine.wf(),
    {
        self.vm.replace_program(program);
    }

    /// Loads a program beside the one that is loaded; where none is loaded,
    /// in its place. Where two nodes would then have one name, the dialogue
    /// stays as it is, and the error names the first node that repeats a
    /// name.
    pub fn add_program(&mut self, program: Program) -> (added: Result<(), CombineError>)
        requires
            old(self)@.machine.wf(),
        ensures
            final(self)@.machine.wf(),
            match added {
                Ok(_) => {
                    &&& old(self)@.machine.program is Some ==> names_distinct(
                        names_of(old(self)@.machine.program.unwrap().nodes + program@.nodes),
                    )
                    &&& final(self)@ == (DialogueView {
                        machine: old(self)@.machine.with_program(program@),
                        ..old(self)@
                    })
                },
                Err(CombineError::DuplicateNodeName(name)) => {
                    &&& old(self)@.machine.program is Some
                    &&& final(self)@ == old(self)@
                    &&& exists|index: int|
                        #![trigger names_of(old(self)@.machine.program.unwrap().nodes + program@.nodes)[index]]
                        {
                            &&& crate::program::is_first_repeat(
                                names_of(
                                    old(self)@.machine.program.unwrap().nodes + program@.nodes,
                                ),
                                index,
                            )
                            &&& names_of(
                                old(self)@.machine.program.unwrap().nodes + program@.nodes,
                            )[index] == name@
                        }
                },
            },
    {
        self.vm.add_program(program)
    }

    /// Prepares the dialogue to run the node of the given name, if a node
    /// of that name is loaded; else leaves the dialogue as it is. The result
    /// says whether there is such a node.
    pub fn try_set_node(&mut self, node_name: &str) -> (found: bool)
        requires
            old(self)@.machine.wf(),
        ensures
            found == (old(self)@.machine.program is Some && old(
                self,
            )@.machine.program.unwrap().node_index(node_name@) is Some),
            found ==> final(self)@ == (DialogueView {
                machine: old(self)@.machine.set_node(
                    old(self)@.machine.program.unwrap().node_index(node_name@).unwrap(),
                ),
                ..old(self)@
            }),
            !found ==> final(self)@ == old(self)@,
            final(self)@.machine.wf(),
    {
        self.vm.try_set_node(node_name)
    }

    /// Selects the option of the given number, if the dialogue waits for a
    /// selection and has shown an option of that number; else leaves the
    /// dialogue as it is. The result says whether the option was selected.
    pub fn try_set_selected_option(&mut self, selected_option_id: OptionId) -> (selected: bool)
        requires
            old(self)@.machine.wf(),
        ensures
            selected == (old(self)@.machine.state == ExecutionState::WaitingOnOptionSelection
                && selected_option_id.0 < old(self)@.machine.options.len()),
            selected ==> final(self)@ == (DialogueView {
                machine: old(self)@.machine.select_option(selected_option_id.0 as int),
                ..old(self)@
            }),
            !selected ==> final(self)@ == old(self)@,
            final(self)@.machine.wf(),
    {
        self.vm.try_set_selected_option(selected_option_id)
    }

    /// Prepares the dialogue to run the node of the given name: the next
    /// call of [`Dialogue::next`] starts it. A node of that name must be
    /// loaded.
    pub fn set_node(&mut self, node_name: &str)
        requires
            old(self)@.machine.wf(),
            old(self)@.machine.program is Some,
            old(self)@.machine.program.unwrap().node_index(node_name@) is Some,
        ensures
            final(self)@ == (DialogueView {
                machine: old(self)@.machine.set_node(
                    old(self)@.machine.program.unwrap().node_index(node_name@).unwrap(),
                ),
                ..old(self)@
            }),
            final(self)@.machine.wf(),
    {
        self.vm.set_node(node_name);
    }

    /// Prepares the dialogue to run the node named `Start`.
    pub fn set_node_to_start(&mut self)
        requires
            old(self)@.machine.wf(),
            old(self)@.machine.program is Some,
            old(self)@.machine.program.unwrap().node_index("Start"@) is Some,
        ensures
            final(self)@ == (DialogueView {
                machine: old(self)@.machine.set_node(
                    old(self)@.machine.program.unwrap().node_index("Start"@).unwrap(),
                ),
                ..old(self)@
            }),
            final(self)@.machine.wf(),
    {
        self.set_node("Start");
    }

    /// Stops the dialogue at once. The host is not told that the dialogue
    /// is over.
    pub fn stop(&mut self)
        ensures
            final(self)@ == (DialogueView {
                machine: MachineView { state: ExecutionState::Stopped, ..old(self)@.machine },
                ..old(self)@
            }),
    {
        self.vm.stop();
    }

    /// Unloads all nodes from the dialogue.
    pub fn unload_all(&mut self)
        ensures
            final(self)@ == (DialogueView {
                machine: MachineView { program: None, ..old(self)@.machine.reset() },
                ..old(self)@
            }),
            final(self)@.machine.wf(),
    {
        self.vm.unload_programs();
    }

    /// The names of the nodes of the program that is loaded, if one is.
    pub fn node_names(&self) -> (names: Option<Vec<String>>)
        ensures
            names.deep_view() == match self@.machine.program {
                Some(program) => Some(program.node_names()),
                None => None,
            },
    {
        match self.vm.program() {
            Some(program) => Some(program.node_names()),
            None => None,
        }
    }

    /// The node of the given name, or why there is none.
    pub fn get_node(&self, node_name: &str) -> (node: Result<Node, NodeLookupError>)
        ensures
            match node {
                Ok(found) => node_lookup(self@.machine.program, node_name@) == Ok::<
                    NodeView,
                    NodeLookupErrorView,
                >(found@),
                Err(error) => node_lookup(self@.machine.program, node_name@) == Err::<
                    NodeView,
                    NodeLookupErrorView,
                >(error@),
            },
    {
        match self.vm.program() {
            Some(program) => {
                if program.nodes.len() == 0 {
                    Err(NodeLookupError::NoNodesLoaded)
                } else {
                    match program.node_index(node_name) {
                        Some(index) => {
                            proof {
                                crate::text::lemma_position_of(
                                    program@.node_names(),
                                    node_name@,
                                );
                            }
                            Ok(program.nodes[index].clone())
                        },
                        None => Err(NodeLookupError::NoNodeNamed(node_name.to_owned())),
                    }
                }
            },
            None => Err(NodeLookupError::NoProgramLoaded),
        }
    }

    /// The id of the string that holds the source text of a node, if the
    /// node is loaded. Whether the string table holds a string of that id
    /// is not looked into.
    pub fn get_string_id_for_node(&self, node_name: &str) -> (id: Option<String>)
        ensures
            id.deep_view() == match node_lookup(self@.machine.program, node_name@) {
                Ok(_) => Some(string_id_for_node(node_name@)),
                Err(_) => None,
            },
    {
        match self.get_node(node_name) {
            Ok(_) => {
                let mut id = "line:".to_owned();
                id.append(node_name);
                Some(id)
            },
            Err(_) => None,
        }
    }

    /// The tags of the node of the given name, if the node is loaded.
    pub fn get_tags_for_node(&self, node_name: &str) -> (tags: Option<Vec<String>>)
        ensures
            tags.deep_view() == match node_lookup(self@.machine.program, node_name@) {
                Ok(node) => Some(node.tags),
                Err(_) => None,
            },
    {
        match self.get_node(node_name) {
            Ok(node) => Some(node.tags),
            Err(_) => None,
        }
    }

    /// Whether a node of the given name is loaded.
    pub fn node_exists(&self, node_name: &str) -> (exists: bool)
        ensures
            exists == match self@.machine.program {
                Some(program) => program.node_index(node_name@) is Some,
                None => false,
            },
    {
        match self.vm.program() {
            Some(program) => program.node_index(node_name).is_some(),
            None => false,
        }
    }

    /// Replaces the substitution markers in a text, such as `{0}`, with the
    /// substitutions of their index. A marker whose index no substitution
    /// has stays as it is.
    pub fn expand_substitutions(text: &str, substitutions: &Vec<String>) -> (result: String)
        ensures
            result@ == expanded(text@, substitutions.deep_view(), substitutions.len() as nat),
    {
        let mut result = text.to_owned();
        let mut i: usize = 0;
        while i < substitutions.len()
            invariant
                i <= substitutions.len(),
                result@ == expanded(text@, substitutions.deep_view(), i as nat),
            decreases substitutions.len() - i,
        {
            let mut marker = String::new();
            marker.push('{');
            push_decimal(&mut marker, i);
            marker.push('}');
            proof {
                assert(marker@ =~= substitution_marker(i as nat));
            }
            result = replace(result.as_str(), marker.as_str(), substitutions[i].as_str());
            i = i + 1;
        }
        result
    }

    /// The name of the node that the dialogue is at, if it is at one.
    pub fn current_node(&self) -> (name: Option<String>)
        requires
            self@.machine.wf(),
        ensures
            name.deep_view() == match self@.machine.current_node {
                Some(_) => Some(self@.machine.node().name),
                None => None,
            },
    {
        self.vm.current_node()
    }

    /// What the markup of the text of a line says: the text without its
    /// tags, and the attributes of its stretches. The dialogue knows no
    /// rules of plurals: a marker that asks for a plural case is read as of
    /// the case `Other`, and the result names the values asked for, with
    /// whose cases [`parse_markup`] reads the text again.
    pub fn parse_markup(&self, line: &str) -> (markup: Markup)
        ensures
            markup@ == parsed(line@, Seq::empty()),
    {
        let cases: Vec<PluralCase> = Vec::new();
        parse_markup(line, &cases)
    }

    /// Tells the dialogue which of the options that were shown was
    /// selected. The dialogue must be waiting for that, and the option must
    /// be one of those shown.
    pub fn set_selected_option(&mut self, selected_option_id: OptionId)
        requires
            old(self)@.machine.wf(),
            old(self)@.machine.state == ExecutionState::WaitingOnOptionSelection,
            selected_option_id.0 < old(self)@.machine.options.len(),
        ensures
            final(self)@ == (DialogueView {
                machine: old(self)@.machine.select_option(selected_option_id.0 as int),
                ..old(self)@
            }),
            final(self)@.machine.wf(),
    {
        self.vm.set_selected_option(selected_option_id);
    }

    /// Whether the dialogue is running: whether it has been started and has
    /// not come to its end.
    pub fn is_active(&self) -> (active: bool)
        ensures
            active == (self@.machine.state != ExecutionState::Stopped),
    {
        self.vm.is_active()
    }
}

} // verus!
