//! Where the variables of a dialogue live.

use crate::collections::{value_at, StringMap};
use crate::value::{YarnValue, YarnValueView};
use vstd::prelude::*;

verus! {

/// A store of variables. The virtual machine reads and writes the variables
/// of a dialogue through this interface and in no other way.
pub trait VariableStorage {
    /// The variables that the store holds, by name.
    spec fn variables(&self) -> Map<Seq<char>, YarnValueView>;

    /// The value of a variable, if the store holds it.
    fn get(&self, name: &str) -> (value: Option<YarnValue>)
        ensures
            value.deep_view() == value_at(self.variables(), name@),
    ;

    /// Stores a value under a name, in place of what the store held under
    /// that name.
    fn set(&mut self, name: String, value: YarnValue)
        ensures
            final(self).variables() == old(self).variables().insert(name@, value@),
    ;

    /// Whether the store holds a variable of the given name.
    fn contains(&self, name: &str) -> (held: bool)
        ensures
            held == self.variables().contains_key(name@),
    ;

    /// Removes every variable.
    fn clear(&mut self)
        ensures
            final(self).variables() == Map::<Seq<char>, YarnValueView>::empty(),
    ;
}

/// A store that keeps its variables in memory.
#[derive(Debug, PartialEq, Eq)]
pub struct MemoryVariableStore {
    entries: StringMap<YarnValue>,
}

impl MemoryVariableStore {
    /// An empty store.
    pub fn new() -> (store: MemoryVariableStore)
        ensures
            store.variables() == Map::<Seq<char>, YarnValueView>::empty(),
    {
        MemoryVariableStore { entries: StringMap::new() }
    }
}

impl VariableStorage for MemoryVariableStore {
    closed spec fn variables(&self) -> Map<Seq<char>, YarnValueView> {
        self.entries.map()
    }

    fn get(&self, name: &str) -> (value: Option<YarnValue>) {
        match self.entries.get(name) {
            Some(value) => Some(value.clone()),
            None => None,
        }
    }

    fn set(&mut self, name: String, value: YarnValue) {
        self.entries.insert(name, value);
    }

    fn contains(&self, name: &str) -> (held: bool) {
        self.entries.contains_key(name)
    }

    fn clear(&mut self) {
        self.entries.clear();
    }
}

} // verus!
