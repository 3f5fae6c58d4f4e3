//! The compiler: from the text of source files, by way of tokens and a
//! syntax tree, to the code of a program and the tables that go with it.

pub mod ast;
pub mod code_generator;
pub mod compile;
pub mod declaration;
pub mod declaration_pass;
pub mod diagnostic;
pub mod file_parse_result;
pub mod indent_aware_lexer;
pub mod lexer;
pub mod numbers;
pub mod option_code;
pub mod parser;
pub mod stack_check;
pub mod string_table;
pub mod token;
pub mod type_checker;
