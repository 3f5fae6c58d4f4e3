//! The result of parsing a single file of source code.

use crate::compiler::ast::{DialogueTree, DialogueTreeView};
use crate::compiler::diagnostic::{Diagnostic, DiagnosticView};
use crate::compiler::indent_aware_lexer::{
    indent_aware_stream, model_upto, IndentAwareYarnSpinnerLexer,
};
use crate::compiler::lexer::lex_spec;
use crate::compiler::parser::{parse, parse_spec};
use crate::compiler::token::{Token, TokenView};
use vstd::prelude::*;

verus! {

/// What parsing a file has given: the syntax of the file and nothing of
/// its meaning. It holds the parse tree and the tokens that the tree was
/// made of.
#[derive(Debug, PartialEq, Eq)]
pub struct FileParseResult {
    /// The name of the file.
    pub name: String,
    /// The syntax tree of the file.
    pub tree: DialogueTree,
    /// The tokens of the file, indents and dedents included.
    pub tokens: Vec<Token>,
    /// What the lexer and the parser have to say about the file.
    pub diagnostics: Vec<Diagnostic>,
}

/// The mathematical value of a [`FileParseResult`].
pub struct FileParseResultView {
    pub name: Seq<char>,
    pub tree: DialogueTreeView,
    pub tokens: Seq<TokenView>,
    pub diagnostics: Seq<DiagnosticView>,
}

impl View for FileParseResult {
    type V = FileParseResultView;

    open spec fn view(&self) -> FileParseResultView {
        FileParseResultView {
            name: self.name@,
            tree: self.tree@,
            tokens: self.tokens.deep_view(),
            diagnostics: self.diagnostics.deep_view(),
        }
    }
}

/// What parsing a source text of the given name gives: its tokens with
/// indents and dedents, the tree that the parser makes of them, and the
/// diagnostics of the lexer followed by those of the parser.
pub open spec fn parsed_file(name: Seq<char>, source: Seq<char>) -> FileParseResultView {
    let base = lex_spec(source);
    let tokens = indent_aware_stream(base);
    FileParseResultView {
        name,
        tree: parse_spec(tokens).0,
        tokens,
        diagnostics: model_upto(base, base.len()).diagnostics + parse_spec(tokens).1,
    }
}

impl FileParseResult {
    /// Parses a source text.
    pub fn new(name: String, source: &str) -> (result: FileParseResult)
        ensures
            result@ == parsed_file(name@, source@),
    {
        let lexer = IndentAwareYarnSpinnerLexer::new(source);
        let (tokens, mut diagnostics) = lexer.into_tokens();
        let (tree, mut found) = parse(&tokens);
        let ghost of_lexer = diagnostics.deep_view();
        let ghost of_parser = found.deep_view();
        diagnostics.append(&mut found);
        proof {
            assert(diagnostics.deep_view() =~= of_lexer + of_parser);
        }
        FileParseResult { name, tree, tokens, diagnostics }
    }
}

} // verus!
