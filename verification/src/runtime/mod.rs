//! Running a compiled program: the virtual machine and what it talks to.

pub mod dialogue;
pub mod events;
pub mod library;
pub mod localized_line;
pub mod markup;
pub mod variable_storage;
pub mod virtual_machine;
