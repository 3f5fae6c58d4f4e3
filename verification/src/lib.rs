//! A compiler and a runtime for a narrative dialogue scripting language.
//!
//! The compiler turns source files into a program: it cuts the text into
//! tokens, with indents and dedents, parses them, gathers and infers the
//! types of the variables, checks the types, and generates the code of each
//! node together with the table of its lines. The runtime is a virtual
//! machine that runs the code step by step and tells its host of lines,
//! options and commands; the host hands the lines, with their markup read,
//! to whoever shows them.
//!
//! Beside the code stand the laws that it obeys: `soundness` ties the
//! types of expressions to the values that their code leaves behind,
//! `defaults` says what holds of the declarations of a compilation, and
//! `safety` that a program that was compiled without an error never runs
//! into one.

pub mod collections;
pub mod compiler;
pub mod defaults;
pub mod program;
pub mod runtime;
pub mod safety;
pub mod soundness;
pub mod text;
pub mod types;
pub mod typewriter;
pub mod value;
