//! A lexer that turns significant leading whitespace into explicit tokens.
//!
//! The base lexer knows nothing of layout: it reports each line break as a
//! newline token that also holds the blanks in front of the next line. This
//! lexer holds the base lexer's tokens and hands them on unchanged, adding an
//! `Indent` token where the body of a shortcut option begins and a `Dedent`
//! token where one ends.

use crate::compiler::declaration::Position;
use crate::compiler::diagnostic::{Diagnostic, DiagnosticSeverity, DiagnosticView};
use crate::compiler::lexer::{
    lemma_lex_from_is_raw, lemma_lex_tiles, lex, lex_from, lex_spec, lexeme_at, position_behind,
    Mode,
};
use crate::compiler::token::{
    clamped_indentation_width, lemma_stream_text_push, stream_text, Channel, Token, TokenKind,
    TokenView,
};
use std::collections::VecDeque;
use std::ops::RangeInclusive;
use vstd::prelude::*;

verus! {

/// What the lexer has made of a prefix of the base tokens.
pub struct LexerModel {
    /// The widths of the indents that are open, the innermost last.
    pub unbalanced_indents: Seq<usize>,
    /// Whether the line being read holds a shortcut arrow.
    pub line_contains_shortcut: bool,
    /// The tokens produced, in order.
    pub output: Seq<TokenView>,
    /// The diagnostics produced, in order.
    pub diagnostics: Seq<DiagnosticView>,
}

/// The column that the open indents add up to.
pub open spec fn depth(indents: Seq<usize>) -> nat
    decreases indents.len(),
{
    if indents.len() == 0 {
        0
    } else {
        (depth(indents.drop_last()) + indents.last()) as nat
    }
}

/// How many of the open indents a line at column `target` closes: they are
/// closed innermost first for as long as the depth exceeds the column.
pub open spec fn dedent_count(indents: Seq<usize>, target: nat) -> nat
    decreases indents.len(),
{
    if indents.len() > 0 && depth(indents) > target {
        1 + dedent_count(indents.drop_last(), target)
    } else {
        0
    }
}

/// The indentation of the next line that is not blank, seen from the newline
/// token at index `i`; `None` where only blank lines follow.
pub open spec fn next_line_indent(base: Seq<TokenView>, i: int) -> Option<usize>
    decreases base.len() - i,
{
    if i < 0 || i + 1 >= base.len() {
        None
    } else if base[i + 1].kind == TokenKind::Newline {
        next_line_indent(base, i + 1)
    } else if base[i + 1].kind == TokenKind::EndOfFile {
        None
    } else {
        Some(clamped_indentation_width(base[i].text))
    }
}

/// The synthetic token of the given kind that `cause` gives rise to: it has
/// no text, and stands where its cause stands.
pub open spec fn synthetic_token(kind: TokenKind, cause: TokenView) -> TokenView {
    TokenView {
        kind,
        text: Seq::empty(),
        channel: Channel::Default,
        start: cause.start,
        stop: cause.stop,
    }
}

/// `count` synthetic tokens of one kind.
pub open spec fn synthetic_tokens(kind: TokenKind, cause: TokenView, count: nat) -> Seq<
    TokenView,
> {
    Seq::new(count, |i: int| synthetic_token(kind, cause))
}

/// The diagnostic for a line whose indentation closes an indent half-way.
pub open spec fn malformed_indentation(cause: TokenView) -> DiagnosticView {
    DiagnosticView {
        start: cause.start,
        stop: cause.stop,
        severity: DiagnosticSeverity::Warning,
        message: "Indentation does not match any enclosing level"@,
        context: None,
    }
}

/// Whether the base tokens are those of a source text without characters:
/// the end of the file and nothing before it.
pub open spec fn is_empty_input(base: Seq<TokenView>) -> bool {
    base.len() == 1 && base[0].kind == TokenKind::EndOfFile
}

/// The end-of-file token that the lexer hands out once its input is used up.
pub open spec fn end_of_file_token() -> TokenView {
    TokenView {
        kind: TokenKind::EndOfFile,
        text: "<EOF>"@,
        channel: Channel::Default,
        start: Position { line: 0, character: 0 },
        stop: Position { line: 0, character: 0 },
    }
}

pub open spec fn initial_model() -> LexerModel {
    LexerModel {
        unbalanced_indents: Seq::empty(),
        line_contains_shortcut: false,
        output: Seq::empty(),
        diagnostics: Seq::empty(),
    }
}

/// The model after a newline token, `base[i]`, has been read.
pub open spec fn after_newline(m: LexerModel, base: Seq<TokenView>, i: int) -> LexerModel {
    let token = base[i];
    let output = m.output.push(token);
    match next_line_indent(base, i) {
        None => LexerModel { line_contains_shortcut: false, output, ..m },
        Some(indent) => {
            if indent > depth(m.unbalanced_indents) && m.line_contains_shortcut {
                LexerModel {
                    unbalanced_indents: m.unbalanced_indents.push(
                        (indent - depth(m.unbalanced_indents)) as usize,
                    ),
                    line_contains_shortcut: false,
                    output: output.push(synthetic_token(TokenKind::Indent, token)),
                    diagnostics: m.diagnostics,
                }
            } else if indent < depth(m.unbalanced_indents) {
                let closed = dedent_count(m.unbalanced_indents, indent as nat);
                let left = m.unbalanced_indents.take(m.unbalanced_indents.len() - closed);
                LexerModel {
                    unbalanced_indents: left,
                    line_contains_shortcut: false,
                    output: output + synthetic_tokens(TokenKind::Dedent, token, closed),
                    diagnostics: if depth(left) != indent {
                        m.diagnostics.push(malformed_indentation(token))
                    } else {
                        m.diagnostics
                    },
                }
            } else {
                LexerModel { line_contains_shortcut: false, output, ..m }
            }
        },
    }
}

/// The model after the base token `base[i]` has been read.
pub open spec fn after_token(m: LexerModel, base: Seq<TokenView>, i: int) -> LexerModel {
    let token = base[i];
    match token.kind {
        TokenKind::Newline => after_newline(m, base, i),
        TokenKind::EndOfFile => LexerModel {
            unbalanced_indents: Seq::empty(),
            line_contains_shortcut: false,
            output: m.output + synthetic_tokens(
                TokenKind::Dedent,
                token,
                m.unbalanced_indents.len(),
            ).push(token),
            diagnostics: m.diagnostics,
        },
        TokenKind::ShortcutArrow => LexerModel {
            line_contains_shortcut: true,
            output: m.output.push(token),
            ..m
        },
        TokenKind::BodyEnd => LexerModel {
            unbalanced_indents: Seq::empty(),
            line_contains_shortcut: false,
            output: m.output.push(token),
            diagnostics: m.diagnostics,
        },
        _ => LexerModel { output: m.output.push(token), ..m },
    }
}

/// The model after the first `count` base tokens have been read.
pub open spec fn model_upto(base: Seq<TokenView>, count: nat) -> LexerModel
    decreases count,
{
    if count == 0 {
        initial_model()
    } else {
        after_token(model_upto(base, (count - 1) as nat), base, count - 1)
    }
}

/// The whole token stream that the lexer makes of the base tokens.
pub open spec fn indent_aware_stream(base: Seq<TokenView>) -> Seq<TokenView> {
    model_upto(base, base.len()).output
}

/// How many tokens of `kind` the stream holds.
pub open spec fn count_kind(tokens: Seq<TokenView>, kind: TokenKind) -> nat
    decreases tokens.len(),
{
    if tokens.len() == 0 {
        0
    } else {
        count_kind(tokens.drop_last(), kind) + if tokens.last().kind == kind {
            1nat
        } else {
            0nat
        }
    }
}


/// Reading one more base token leaves what was produced before in place.
pub proof fn lemma_output_grows(base: Seq<TokenView>, count: nat)
    requires
        count < base.len(),
    ensures
        model_upto(base, count).output.len() < model_upto(base, count + 1).output.len(),
        forall|i: int|
            0 <= i < model_upto(base, count).output.len() ==> model_upto(
                base,
                count + 1,
            ).output[i] == #[trigger] model_upto(base, count).output[i],
{
    reveal_with_fuel(model_upto, 2);
}

/// What has been produced after `count` base tokens is the beginning of the
/// whole stream.
pub proof fn lemma_output_is_prefix(base: Seq<TokenView>, count: nat)
    requires
        count <= base.len(),
    ensures
        model_upto(base, count).output.len() <= indent_aware_stream(base).len(),
        count < base.len() ==> model_upto(base, count).output.len() < indent_aware_stream(
            base,
        ).len(),
        forall|i: int|
            0 <= i < model_upto(base, count).output.len() ==> indent_aware_stream(base)[i]
                == #[trigger] model_upto(base, count).output[i],
    decreases base.len() - count,
{
    if count < base.len() {
        lemma_output_grows(base, count);
        lemma_output_is_prefix(base, count + 1);
    }
}

/// Adding one token adds one to the count of its kind and nothing to the
/// count of any other.
pub proof fn lemma_count_push(tokens: Seq<TokenView>, token: TokenView, kind: TokenKind)
    ensures
        count_kind(tokens.push(token), kind) == count_kind(tokens, kind) + if token.kind
            == kind {
            1nat
        } else {
            0nat
        },
{
    assert(tokens.push(token).drop_last() =~= tokens);
}

/// Adding `count` synthetic tokens adds `count` to the count of their kind
/// and nothing to the count of any other.
pub proof fn lemma_count_synthetic(
    tokens: Seq<TokenView>,
    made: TokenKind,
    cause: TokenView,
    count: nat,
    kind: TokenKind,
)
    ensures
        count_kind(tokens + synthetic_tokens(made, cause, count), kind) == count_kind(
            tokens,
            kind,
        ) + if made == kind {
            count
        } else {
            0nat
        },
    decreases count,
{
    if count == 0 {
        assert(tokens + synthetic_tokens(made, cause, count) =~= tokens);
    } else {
        let fewer = tokens + synthetic_tokens(made, cause, (count - 1) as nat);
        lemma_count_synthetic(tokens, made, cause, (count - 1) as nat, kind);
        lemma_count_push(fewer, synthetic_token(made, cause), kind);
        assert(tokens + synthetic_tokens(made, cause, count) =~= fewer.push(
            synthetic_token(made, cause),
        ));
    }
}

/// No line closes more indents than are open.
pub proof fn lemma_dedent_count_bound(indents: Seq<usize>, target: nat)
    ensures
        dedent_count(indents, target) <= indents.len(),
    decreases indents.len(),
{
    if indents.len() > 0 && depth(indents) > target {
        lemma_dedent_count_bound(indents.drop_last(), target);
    }
}

/// Base tokens are raw: a base lexer produces no indent or dedent token.
pub open spec fn is_raw(base: Seq<TokenView>) -> bool {
    forall|i: int|
        0 <= i < base.len() ==> (#[trigger] base[i]).kind != TokenKind::Indent && base[i].kind
            != TokenKind::Dedent
}

/// Every body among the first `count` base tokens ends with all its indents
/// closed: where `===` stands, no indent is open.
pub open spec fn bodies_end_closed(base: Seq<TokenView>, count: nat) -> bool {
    forall|i: int|
        0 <= i < count && (#[trigger] base[i]).kind == TokenKind::BodyEnd ==> model_upto(
            base,
            i as nat,
        ).unbalanced_indents.len() == 0
}

/// After any number of base tokens, the stream holds as many indents more
/// than dedents as there are indents open.
pub proof fn lemma_open_indents(base: Seq<TokenView>, count: nat)
    requires
        count <= base.len(),
        is_raw(base),
        bodies_end_closed(base, count),
    ensures
        count_kind(model_upto(base, count).output, TokenKind::Indent) == count_kind(
            model_upto(base, count).output,
            TokenKind::Dedent,
        ) + model_upto(base, count).unbalanced_indents.len(),
    decreases count,
{
    if count > 0 {
        let i = (count - 1) as nat;
        let m = model_upto(base, i);
        let token = base[i as int];
        lemma_open_indents(base, i);
        lemma_count_push(m.output, token, TokenKind::Indent);
        lemma_count_push(m.output, token, TokenKind::Dedent);
        match token.kind {
            TokenKind::Newline => {
                let output = m.output.push(token);
                match next_line_indent(base, i as int) {
                    None => {},
                    Some(indent) => {
                        if indent > depth(m.unbalanced_indents) && m.line_contains_shortcut {
                            let indent_token = synthetic_token(TokenKind::Indent, token);
                            lemma_count_push(output, indent_token, TokenKind::Indent);
                            lemma_count_push(output, indent_token, TokenKind::Dedent);
                        } else if indent < depth(m.unbalanced_indents) {
                            let closed = dedent_count(m.unbalanced_indents, indent as nat);
                            lemma_dedent_count_bound(m.unbalanced_indents, indent as nat);
                            lemma_count_synthetic(
                                output,
                                TokenKind::Dedent,
                                token,
                                closed,
                                TokenKind::Indent,
                            );
                            lemma_count_synthetic(
                                output,
                                TokenKind::Dedent,
                                token,
                                closed,
                                TokenKind::Dedent,
                            );
                        }
                    },
                }
            },
            TokenKind::EndOfFile => {
                let open = m.unbalanced_indents.len();
                let dedents = m.output + synthetic_tokens(TokenKind::Dedent, token, open);
                lemma_count_synthetic(
                    m.output,
                    TokenKind::Dedent,
                    token,
                    open,
                    TokenKind::Indent,
                );
                lemma_count_synthetic(
                    m.output,
                    TokenKind::Dedent,
                    token,
                    open,
                    TokenKind::Dedent,
                );
                lemma_count_push(dedents, token, TokenKind::Indent);
                lemma_count_push(dedents, token, TokenKind::Dedent);
                assert(model_upto(base, count).output =~= dedents.push(token));
            },
            _ => {},
        }
    }
}

/// Indent balance: where the base tokens end with the end of the file and
/// every body ends with its indents closed, the stream holds exactly as many
/// `Indent` tokens as `Dedent` tokens.
pub proof fn lemma_indents_balance(base: Seq<TokenView>)
    requires
        is_raw(base),
        base.len() > 0,
        base.last().kind == TokenKind::EndOfFile,
        bodies_end_closed(base, base.len()),
    ensures
        count_kind(indent_aware_stream(base), TokenKind::Indent) == count_kind(
            indent_aware_stream(base),
            TokenKind::Dedent,
        ),
{
    lemma_open_indents(base, base.len());
}

/// Synthetic tokens add nothing to the text of a stream.
pub proof fn lemma_synthetic_tokens_have_no_text(
    tokens: Seq<TokenView>,
    kind: TokenKind,
    cause: TokenView,
    count: nat,
)
    ensures
        stream_text(tokens + synthetic_tokens(kind, cause, count)) == stream_text(tokens),
    decreases count,
{
    if count == 0 {
        assert(tokens + synthetic_tokens(kind, cause, count) =~= tokens);
    } else {
        let fewer = tokens + synthetic_tokens(kind, cause, (count - 1) as nat);
        lemma_synthetic_tokens_have_no_text(tokens, kind, cause, (count - 1) as nat);
        lemma_stream_text_push(fewer, synthetic_token(kind, cause));
        assert(tokens + synthetic_tokens(kind, cause, count) =~= fewer.push(
            synthetic_token(kind, cause),
        ));
        assert(stream_text(fewer) + synthetic_token(kind, cause).text =~= stream_text(fewer));
    }
}

/// What the lexer has produced after `count` base tokens stands for the
/// same text as those base tokens.
pub proof fn lemma_output_keeps_text(base: Seq<TokenView>, count: nat)
    requires
        count <= base.len(),
    ensures
        stream_text(model_upto(base, count).output) == stream_text(base.take(count as int)),
    decreases count,
{
    if count == 0 {
        assert(base.take(0) =~= Seq::empty());
    } else {
        let i = (count - 1) as nat;
        let m = model_upto(base, i);
        let token = base[i as int];
        let output = m.output.push(token);
        lemma_output_keeps_text(base, i);
        lemma_stream_text_push(m.output, token);
        lemma_stream_text_push(base.take(i as int), token);
        assert(base.take(count as int) =~= base.take(i as int).push(token));
        lemma_stream_text_push(output, synthetic_token(TokenKind::Indent, token));
        assert(stream_text(output) + synthetic_token(TokenKind::Indent, token).text
            =~= stream_text(output));
        if token.kind == TokenKind::Newline {
            match next_line_indent(base, i as int) {
                Some(indent) => {
                    lemma_synthetic_tokens_have_no_text(
                        output,
                        TokenKind::Dedent,
                        token,
                        dedent_count(m.unbalanced_indents, indent as nat),
                    );
                },
                None => {},
            }
        } else if token.kind == TokenKind::EndOfFile {
            let open = m.unbalanced_indents.len();
            let dedents = m.output + synthetic_tokens(TokenKind::Dedent, token, open);
            lemma_synthetic_tokens_have_no_text(m.output, TokenKind::Dedent, token, open);
            lemma_stream_text_push(dedents, token);
            assert(model_upto(base, count).output =~= dedents.push(token));
        }
    }
}

/// The stream that the lexer makes of base tokens stands for the same text
/// as the base tokens.
pub proof fn lemma_indent_aware_keeps_text(base: Seq<TokenView>)
    ensures
        stream_text(indent_aware_stream(base)) == stream_text(base),
{
    lemma_output_keeps_text(base, base.len());
    assert(base.take(base.len() as int) =~= base);
}

/// The tokens of a source text, with indents and dedents.
pub open spec fn indent_aware_lex(input: Seq<char>) -> Seq<TokenView> {
    indent_aware_stream(lex_spec(input))
}

/// Lexer determinism: lexing the text that the tokens of a source text
/// stand for gives the same tokens again. Synthetic tokens have no text and
/// so do not count.
pub proof fn lemma_lexer_determinism(input: Seq<char>)
    ensures
        stream_text(indent_aware_lex(input)) == input,
        indent_aware_lex(stream_text(indent_aware_lex(input))) == indent_aware_lex(input),
{
    lemma_indent_aware_keeps_text(lex_spec(input));
    lemma_lex_tiles(input);
}

/// Indent balance for a source text: where every body ends with its
/// indents closed, the tokens of the text hold exactly as many `Indent`
/// tokens as `Dedent` tokens.
pub proof fn lemma_indents_balance_in_text(input: Seq<char>)
    requires
        bodies_end_closed(lex_spec(input), lex_spec(input).len()),
    ensures
        count_kind(indent_aware_lex(input), TokenKind::Indent) == count_kind(
            indent_aware_lex(input),
            TokenKind::Dedent,
        ),
{
    lemma_lex_from_is_raw(
        input,
        0,
        Mode::Header,
        crate::compiler::declaration::Position { line: 0, character: 0 },
    );
    lemma_indents_balance(lex_spec(input));
}

/// A synthetic token of the given kind, caused by `cause`.
fn make_synthetic_token(kind: TokenKind, cause: &Token) -> (token: Token)
    ensures
        token@ == synthetic_token(kind, cause@),
{
    Token {
        kind,
        text: String::new(),
        channel: Channel::Default,
        start: cause.start,
        stop: cause.stop,
    }
}

/// Closes open indents, innermost first, for as long as their depth exceeds
/// `target`, and queues one dedent token for each.
fn close_indents_down_to(
    indents: &mut Vec<usize>,
    last_indent: &mut usize,
    pending: &mut VecDeque<Token>,
    cause: &Token,
    target: usize,
)
    requires
        *old(last_indent) == depth(old(indents)@),
    ensures
        final(indents)@ == old(indents)@.take(
            old(indents)@.len() - dedent_count(old(indents)@, target as nat),
        ),
        *final(last_indent) == depth(final(indents)@),
        final(pending).deep_view() == old(pending).deep_view() + synthetic_tokens(
            TokenKind::Dedent,
            cause@,
            dedent_count(old(indents)@, target as nat),
        ),
{
    let ghost mut closed: nat = 0;
    while *last_indent > target && indents.len() > 0
        invariant
            *last_indent == depth(indents@),
            closed <= old(indents)@.len(),
            indents@ == old(indents)@.take(old(indents)@.len() - closed),
            dedent_count(old(indents)@, target as nat) == closed + dedent_count(
                indents@,
                target as nat,
            ),
            pending.deep_view() == old(pending).deep_view() + synthetic_tokens(
                TokenKind::Dedent,
                cause@,
                closed,
            ),
        decreases indents.len(),
    {
        let ghost before = indents@;
        let ghost queued = pending.deep_view();
        let width = indents.pop().unwrap();
        *last_indent = *last_indent - width;
        pending.push_back(make_synthetic_token(TokenKind::Dedent, cause));
        proof {
            assert(indents@ == before.drop_last());
            assert(pending.deep_view() =~= queued.push(
                synthetic_token(TokenKind::Dedent, cause@),
            ));
            assert(queued.push(synthetic_token(TokenKind::Dedent, cause@)) =~= old(
                pending,
            ).deep_view() + synthetic_tokens(TokenKind::Dedent, cause@, closed + 1));
            assert(indents@ =~= old(indents)@.take(old(indents)@.len() - (closed + 1)));
            closed = closed + 1;
        }
    }
    proof {
        assert(indents@ =~= old(indents)@.take(old(indents)@.len() - closed));
    }
}

/// Closes every open indent and queues one dedent token for each.
fn close_all_indents(
    indents: &mut Vec<usize>,
    pending: &mut VecDeque<Token>,
    cause: &Token,
)
    ensures
        final(indents)@ == Seq::<usize>::empty(),
        final(pending).deep_view() == old(pending).deep_view() + synthetic_tokens(
            TokenKind::Dedent,
            cause@,
            old(indents)@.len(),
        ),
{
    let ghost mut closed: nat = 0;
    while indents.len() > 0
        invariant
            closed + indents@.len() == old(indents)@.len(),
            pending.deep_view() == old(pending).deep_view() + synthetic_tokens(
                TokenKind::Dedent,
                cause@,
                closed,
            ),
        decreases indents.len(),
    {
        let ghost queued = pending.deep_view();
        indents.pop();
        pending.push_back(make_synthetic_token(TokenKind::Dedent, cause));
        proof {
            assert(pending.deep_view() =~= queued.push(
                synthetic_token(TokenKind::Dedent, cause@),
            ));
            assert(queued.push(synthetic_token(TokenKind::Dedent, cause@)) =~= old(
                pending,
            ).deep_view() + synthetic_tokens(TokenKind::Dedent, cause@, closed + 1));
            closed = closed + 1;
        }
    }
    proof {
        assert(indents@ =~= Seq::<usize>::empty());
    }
}

/// A lexer that wraps the tokens of a base lexer and adds the indent and
/// dedent tokens that the layout of the source calls for.
pub struct IndentAwareYarnSpinnerLexer {
    base: Vec<Token>,
    position: usize,
    last_token: Option<Token>,
    pending_tokens: VecDeque<Token>,
    line_contains_shortcut: bool,
    last_indent: usize,
    unbalanced_indents: Vec<usize>,
    diagnostics: Vec<Diagnostic>,
    returned: Ghost<nat>,
}

impl IndentAwareYarnSpinnerLexer {
    /// The base tokens that the lexer was made with.
    pub closed spec fn base_tokens(&self) -> Seq<TokenView> {
        self.base.deep_view()
    }

    /// How many base tokens have been read.
    pub closed spec fn consumed(&self) -> nat {
        self.position as nat
    }

    /// How many tokens have been handed out.
    pub closed spec fn returned(&self) -> nat {
        self.returned@
    }

    /// The lexer's invariant: its fields are what the model says of the base
    /// tokens read so far, and the pending queue holds what was produced and
    /// not yet handed out.
    pub closed spec fn wf(&self) -> bool {
        let m = model_upto(self.base_tokens(), self.position as nat);
        &&& self.position <= self.base.len()
        &&& self.unbalanced_indents@ == m.unbalanced_indents
        &&& self.last_indent == depth(m.unbalanced_indents)
        &&& self.line_contains_shortcut == m.line_contains_shortcut
        &&& self.diagnostics.deep_view() == m.diagnostics
        &&& self.returned@ + self.pending_tokens.len() == m.output.len()
        &&& self.pending_tokens.deep_view() == m.output.skip(self.returned@ as int)
        &&& self.last_token.deep_view() == if self.position == 0 {
            None
        } else {
            Some(self.base_tokens()[self.position - 1])
        }
    }

    /// A lexer for a source text.
    pub fn new(input: &str) -> (lexer: Self)
        ensures
            lexer.wf(),
            lexer.base_tokens() == lex_spec(input@),
            lexer.consumed() == 0,
            lexer.returned() == 0,
    {
        IndentAwareYarnSpinnerLexer::from_tokens(lex(input))
    }

    /// Wraps the tokens of a base lexer.
    pub fn from_tokens(base: Vec<Token>) -> (lexer: Self)
        ensures
            lexer.wf(),
            lexer.base_tokens() == base.deep_view(),
            lexer.consumed() == 0,
            lexer.returned() == 0,
    {
        let lexer = IndentAwareYarnSpinnerLexer {
            base,
            position: 0,
            last_token: None,
            pending_tokens: VecDeque::new(),
            line_contains_shortcut: false,
            last_indent: 0,
            unbalanced_indents: Vec::new(),
            diagnostics: Vec::new(),
            returned: Ghost(0),
        };
        proof {
            let m = model_upto(lexer.base_tokens(), 0);
            assert(lexer.unbalanced_indents@ =~= m.unbalanced_indents);
            assert(lexer.diagnostics.deep_view() =~= m.diagnostics);
            assert(lexer.pending_tokens.deep_view() =~= m.output.skip(0));
        }
        lexer
    }

    /// The indentation of the next line that is not blank, seen from the
    /// newline token at index `i` of the base tokens.
    fn next_line_indentation(&self, i: usize) -> (indent: Option<usize>)
        requires
            i < self.base.len(),
        ensures
            indent == next_line_indent(self.base_tokens(), i as int),
    {
        let mut at: usize = i;
        while at + 1 < self.base.len() && self.base[at + 1].kind == TokenKind::Newline
            invariant
                i <= at < self.base.len(),
                next_line_indent(self.base_tokens(), i as int) == next_line_indent(
                    self.base_tokens(),
                    at as int,
                ),
            decreases self.base.len() - at,
        {
            at = at + 1;
        }
        if at + 1 >= self.base.len() {
            None
        } else if self.base[at + 1].kind == TokenKind::EndOfFile {
            None
        } else {
            Some(self.base[at].indentation())
        }
    }

    /// Queues a newline token and, behind it, the indent or the dedents that
    /// the indentation of the next line calls for.
    fn handle_newline_token(&mut self, current: Token)
        requires
            old(self).wf(),
            old(self).position < old(self).base.len(),
            current@ == old(self).base_tokens()[old(self).position as int],
            current.kind == TokenKind::Newline,
        ensures
            final(self).wf(),
            final(self).base_tokens() == old(self).base_tokens(),
            final(self).consumed() == old(self).consumed() + 1,
            final(self).returned() == old(self).returned(),
    {
        let ghost base = self.base_tokens();
        let ghost m = model_upto(base, self.position as nat);
        let ghost queued = self.pending_tokens.deep_view();
        let indent = self.next_line_indentation(self.position);
        self.pending_tokens.push_back(current.clone());
        proof {
            assert(self.pending_tokens.deep_view() =~= queued.push(current@));
        }
        match indent {
            None => {},
            Some(indent) => {
                if indent > self.last_indent && self.line_contains_shortcut {
                    let ghost before = self.pending_tokens.deep_view();
                    self.unbalanced_indents.push(indent - self.last_indent);
                    self.last_indent = indent;
                    self.pending_tokens.push_back(
                        make_synthetic_token(TokenKind::Indent, &current),
                    );
                    proof {
                        assert(self.unbalanced_indents@.drop_last() == m.unbalanced_indents);
                        assert(self.pending_tokens.deep_view() =~= before.push(
                            synthetic_token(TokenKind::Indent, current@),
                        ));
                    }
                } else if indent < self.last_indent {
                    close_indents_down_to(
                        &mut self.unbalanced_indents,
                        &mut self.last_indent,
                        &mut self.pending_tokens,
                        &current,
                        indent,
                    );
                    if self.last_indent != indent {
                        let ghost before = self.diagnostics.deep_view();
                        let diagnostic = Diagnostic::from_message(
                            RangeInclusive::new(current.start, current.stop),
                            "Indentation does not match any enclosing level".to_owned(),
                        ).with_severity(DiagnosticSeverity::Warning);
                        self.diagnostics.push(diagnostic);
                        proof {
                            assert(self.diagnostics.deep_view() =~= before.push(
                                malformed_indentation(current@),
                            ));
                        }
                    }
                }
            },
        }
        self.line_contains_shortcut = false;
        self.last_token = Some(current);
        self.position = self.position + 1;
        proof {
            let after = model_upto(base, self.position as nat);
            assert(after == after_newline(m, base, self.position - 1));
            assert(self.pending_tokens.deep_view() =~= after.output.skip(self.returned@ as int));
        }
    }

    /// Queues one dedent for every indent that is still open, and behind
    /// them the end-of-file token.
    fn handle_eof_token(&mut self, current: Token)
        requires
            old(self).wf(),
            old(self).position < old(self).base.len(),
            current@ == old(self).base_tokens()[old(self).position as int],
            current.kind == TokenKind::EndOfFile,
        ensures
            final(self).wf(),
            final(self).base_tokens() == old(self).base_tokens(),
            final(self).consumed() == old(self).consumed() + 1,
            final(self).returned() == old(self).returned(),
    {
        let ghost base = self.base_tokens();
        let ghost m = model_upto(base, self.position as nat);
        close_all_indents(&mut self.unbalanced_indents, &mut self.pending_tokens, &current);
        let ghost before = self.pending_tokens.deep_view();
        self.pending_tokens.push_back(current.clone());
        self.last_indent = 0;
        self.line_contains_shortcut = false;
        self.last_token = Some(current);
        self.position = self.position + 1;
        proof {
            let after = model_upto(base, self.position as nat);
            assert(after == after_token(m, base, self.position - 1));
            assert(self.pending_tokens.deep_view() =~= before.push(current@));
            assert(self.pending_tokens.deep_view() =~= after.output.skip(self.returned@ as int));
        }
    }

    /// Reads the next base token and queues what the lexer makes of it: the
    /// token itself, and with a newline or the end of the file the synthetic
    /// tokens that go with it.
    fn check_next_token(&mut self)
        requires
            old(self).wf(),
            old(self).position < old(self).base.len(),
        ensures
            final(self).wf(),
            final(self).base_tokens() == old(self).base_tokens(),
            final(self).consumed() == old(self).consumed() + 1,
            final(self).returned() == old(self).returned(),
    {
        let ghost base = self.base_tokens();
        let ghost m = model_upto(base, self.position as nat);
        let ghost queued = self.pending_tokens.deep_view();
        let current = self.base[self.position].clone();
        match current.kind {
            TokenKind::Newline => self.handle_newline_token(current),
            TokenKind::EndOfFile => self.handle_eof_token(current),
            TokenKind::ShortcutArrow => {
                self.pending_tokens.push_back(current.clone());
                self.line_contains_shortcut = true;
                self.last_token = Some(current);
                self.position = self.position + 1;
                proof {
                    let after = model_upto(base, self.position as nat);
                    assert(after == after_token(m, base, self.position - 1));
                    assert(self.pending_tokens.deep_view() =~= queued.push(current@));
                    assert(self.pending_tokens.deep_view() =~= after.output.skip(
                        self.returned@ as int,
                    ));
                }
            },
            TokenKind::BodyEnd => {
                // At the end of a node depth no longer matters.
                self.line_contains_shortcut = false;
                self.last_indent = 0;
                self.unbalanced_indents.clear();
                self.pending_tokens.push_back(current.clone());
                self.last_token = Some(current);
                self.position = self.position + 1;
                proof {
                    let after = model_upto(base, self.position as nat);
                    assert(after == after_token(m, base, self.position - 1));
                    assert(self.unbalanced_indents@ =~= after.unbalanced_indents);
                    assert(self.pending_tokens.deep_view() =~= queued.push(current@));
                    assert(self.pending_tokens.deep_view() =~= after.output.skip(
                        self.returned@ as int,
                    ));
                }
            },
            _ => {
                self.pending_tokens.push_back(current.clone());
                self.last_token = Some(current);
                self.position = self.position + 1;
                proof {
                    let after = model_upto(base, self.position as nat);
                    assert(after == after_token(m, base, self.position - 1));
                    assert(self.pending_tokens.deep_view() =~= queued.push(current@));
                    assert(self.pending_tokens.deep_view() =~= after.output.skip(
                        self.returned@ as int,
                    ));
                }
            },
        }
    }

    /// Hands out the next token of the stream; once the stream is used up,
    /// the end-of-file token, again and again. Of a source text without
    /// characters nothing is handed out but that end-of-file token, from the
    /// first call on.
    pub fn next_token(&mut self) -> (token: Token)
        requires
            old(self).wf(),
        ensures
            final(self).wf(),
            final(self).base_tokens() == old(self).base_tokens(),
            is_empty_input(old(self).base_tokens()) ==> {
                &&& token@ == end_of_file_token()
                &&& final(self).returned() == old(self).returned()
            },
            !is_empty_input(old(self).base_tokens()) && old(self).returned()
                < indent_aware_stream(old(self).base_tokens()).len() ==> {
                &&& token@ == indent_aware_stream(old(self).base_tokens())[old(
                    self,
                ).returned() as int]
                &&& final(self).returned() == old(self).returned() + 1
            },
            !is_empty_input(old(self).base_tokens()) && old(self).returned()
                >= indent_aware_stream(old(self).base_tokens()).len() ==> {
                &&& token@ == end_of_file_token()
                &&& final(self).returned() == old(self).returned()
            },
    {
        if self.base.len() == 1 && self.base[0].kind == TokenKind::EndOfFile {
            proof {
                assert(self.base_tokens()[0] == self.base[0]@);
            }
            return Token {
                kind: TokenKind::EndOfFile,
                text: "<EOF>".to_owned(),
                channel: Channel::Default,
                start: Position { line: 0, character: 0 },
                stop: Position { line: 0, character: 0 },
            };
        }
        proof {
            if self.base.len() == 1 {
                assert(self.base_tokens()[0] == self.base[0]@);
            }
        }
        if self.pending_tokens.len() == 0 && self.position < self.base.len() {
            proof {
                lemma_output_grows(self.base_tokens(), self.position as nat);
            }
            self.check_next_token();
        }
        proof {
            lemma_output_is_prefix(self.base_tokens(), self.position as nat);
        }
        let ghost queued = self.pending_tokens.deep_view();
        match self.pending_tokens.pop_front() {
            Some(token) => {
                proof {
                    let m = model_upto(self.base_tokens(), self.position as nat);
                    assert(token@ == queued[0]);
                    assert(self.pending_tokens.deep_view() =~= queued.skip(1));
                    assert(queued.skip(1) =~= m.output.skip(self.returned@ as int + 1));
                    self.returned@ = self.returned@ + 1;
                    assert(self.pending_tokens.deep_view() =~= m.output.skip(
                        self.returned@ as int,
                    ));
                }
                token
            },
            None => {
                Token {
                    kind: TokenKind::EndOfFile,
                    text: "<EOF>".to_owned(),
                    channel: Channel::Default,
                    start: Position { line: 0, character: 0 },
                    stop: Position { line: 0, character: 0 },
                }
            },
        }
    }

    /// The base token that was read last, if any was.
    pub fn last_token(&self) -> (token: Option<&Token>)
        requires
            self.wf(),
        ensures
            token.deep_view() == if self.consumed() == 0 {
                None
            } else {
                Some(self.base_tokens()[self.consumed() - 1])
            },
    {
        self.last_token.as_ref()
    }

    /// Reads all the base tokens and hands over the whole stream, with the
    /// diagnostics that reading them has produced.
    pub fn into_tokens(self) -> (r: (Vec<Token>, Vec<Diagnostic>))
        requires
            self.wf(),
            self.returned() == 0,
        ensures
            r.0.deep_view() == indent_aware_stream(self.base_tokens()),
            r.1.deep_view() == model_upto(
                self.base_tokens(),
                self.base_tokens().len(),
            ).diagnostics,
    {
        let mut lexer = self;
        while lexer.position < lexer.base.len()
            invariant
                lexer.wf(),
                lexer.returned() == 0,
                lexer.base_tokens() == self.base_tokens(),
                lexer.base.len() == self.base.len(),
                lexer.position <= lexer.base.len(),
            decreases self.base.len() - lexer.position,
        {
            proof {
                assert(lexer.base_tokens().len() == lexer.base.len());
                assert(self.base_tokens().len() == self.base.len());
            }
            lexer.check_next_token();
            proof {
                assert(lexer.base_tokens().len() == lexer.base.len());
            }
        }
        let mut tokens: Vec<Token> = Vec::new();
        let ghost stream = indent_aware_stream(self.base_tokens());
        proof {
            assert(lexer.pending_tokens.deep_view() =~= stream);
            assert(tokens.deep_view() =~= stream.take(0));
        }
        let mut pending = lexer.pending_tokens;
        while pending.len() > 0
            invariant
                tokens.len() + pending.len() == stream.len(),
                tokens.deep_view() == stream.take(tokens.len() as int),
                pending.deep_view() == stream.skip(tokens.len() as int),
            decreases pending.len(),
        {
            let ghost before = tokens.deep_view();
            let ghost queued = pending.deep_view();
            let token = pending.pop_front().unwrap();
            let ghost made = token@;
            tokens.push(token);
            proof {
                assert(made == queued[0]);
                assert(pending.deep_view() =~= queued.skip(1));
                assert(tokens.deep_view() =~= before.push(made));
                assert(tokens.deep_view() =~= stream.take(tokens.len() as int));
                assert(pending.deep_view() =~= stream.skip(tokens.len() as int));
            }
        }
        proof {
            assert(stream.take(stream.len() as int) =~= stream);
        }
        (tokens, lexer.diagnostics)
    }

    /// The diagnostics that reading the base tokens has produced so far.
    pub fn diagnostics(&self) -> (diagnostics: &Vec<Diagnostic>)
        requires
            self.wf(),
        ensures
            diagnostics.deep_view() == model_upto(
                self.base_tokens(),
                self.consumed(),
            ).diagnostics,
    {
        &self.diagnostics
    }
}

/// The base lexer finds at least the end of the file.
pub proof fn lemma_lex_from_is_not_empty(
    input: Seq<char>,
    at: int,
    mode: Mode,
    position: Position,
)
    ensures
        lex_from(input, at, mode, position).len() >= 1,
    decreases input.len() - at,
{
    if 0 <= at < input.len() {
        let lexeme = lexeme_at(input, at, mode);
        let end = if at < lexeme.end <= input.len() {
            lexeme.end
        } else {
            at + 1
        };
        let text = input.subrange(at, end);
        lemma_lex_from_is_not_empty(
            input,
            end,
            lexeme.next,
            position_behind(position, text),
        );
    }
}

/// The base tokens of a source text are the end of the file and nothing
/// before it if and only if the text has no characters.
pub proof fn lemma_empty_input(input: Seq<char>)
    ensures
        is_empty_input(lex_spec(input)) <==> input.len() == 0,
{
    if input.len() > 0 {
        let origin = Position { line: 0, character: 0 };
        let lexeme = lexeme_at(input, 0, Mode::Header);
        let end = if 0 < lexeme.end <= input.len() {
            lexeme.end
        } else {
            1
        };
        let text = input.subrange(0, end);
        lemma_lex_from_is_not_empty(
            input,
            end,
            lexeme.next,
            position_behind(origin, text),
        );
    }
}

} // verus!
