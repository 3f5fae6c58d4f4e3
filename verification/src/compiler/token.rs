//! Tokens: the unit that the lexer hands to the parser.

use crate::compiler::declaration::Position;
use crate::text::joined;
use vstd::string::StringExecFns;
use vstd::prelude::*;

verus! {

/// What a token stands for.
#[derive(Debug, Clone, Copy, PartialEq, Eq, Hash, Structural)]
pub enum TokenKind {
    /// Synthetic: the following lines are nested one level deeper.
    Indent,
    /// Synthetic: one level of nesting ends here.
    Dedent,
    /// A line break together with the leading whitespace of the next line.
    Newline,
    /// Blanks within a line.
    Whitespace,
    /// A comment, from `//` to the end of the line.
    Comment,
    /// A name: the key of a header, a function, a node.
    Identifier,
    /// The `:` between a header's key and its value, with the blanks
    /// behind it.
    HeaderDelimiter,
    /// The value of a header: the rest of its line.
    RestOfLine,
    /// The `---` that ends a node's headers and starts its body.
    BodyStart,
    /// The `===` that ends a node's body.
    BodyEnd,
    /// The `->` that starts a shortcut option.
    ShortcutArrow,
    /// The `<<` that starts a command.
    CommandStart,
    /// The `>>` that ends a command.
    CommandEnd,
    /// The `{` that starts an expression within text.
    ExpressionStart,
    /// The `}` that ends an expression within text.
    ExpressionEnd,
    /// A hashtag: `#` and the text behind it.
    Hashtag,
    /// Text of a line.
    Text,
    /// Text of a command that the host carries out.
    CommandText,
    /// The keyword `if`.
    CommandIf,
    /// The keyword `elseif`.
    CommandElseIf,
    /// The keyword `else`.
    CommandElse,
    /// The keyword `endif`.
    CommandEndIf,
    /// The keyword `set`.
    CommandSet,
    /// The keyword `declare`.
    CommandDeclare,
    /// The keyword `jump`.
    CommandJump,
    /// The keyword `stop`.
    CommandStop,
    /// The keyword `call`.
    CommandCall,
    /// The keyword `to`.
    To,
    /// A number literal.
    Number,
    /// A string literal, quotes included.
    StringLiteral,
    True,
    False,
    /// A variable: `$` and its name.
    Variable,
    LeftParen,
    RightParen,
    Comma,
    Plus,
    Minus,
    Star,
    Slash,
    Percent,
    EqualTo,
    NotEqualTo,
    LessThan,
    LessThanOrEqualTo,
    GreaterThan,
    GreaterThanOrEqualTo,
    And,
    Or,
    Xor,
    Not,
    /// The `=` of an assignment.
    Assign,
    /// A character that fits nowhere.
    Unknown,
    /// The end of the input.
    EndOfFile,
}

/// The channel a token travels on. Only the default channel reaches the
/// parser's grammar rules.
#[derive(Debug, Clone, Copy, PartialEq, Eq, Hash, Structural)]
pub enum Channel {
    /// Syntax.
    Default,
    /// Line breaks and blanks.
    Whitespace,
    /// Comments.
    Comments,
}

/// A token: its kind, its lexeme, the range it spans and its channel.
#[derive(Debug, PartialEq, Eq)]
pub struct Token {
    pub kind: TokenKind,
    pub text: String,
    pub channel: Channel,
    /// Where the token starts.
    pub start: Position,
    /// Where the token ends, inclusive.
    pub stop: Position,
}

/// The mathematical value of a [`Token`].
pub struct TokenView {
    pub kind: TokenKind,
    pub text: Seq<char>,
    pub channel: Channel,
    pub start: Position,
    pub stop: Position,
}

impl View for Token {
    type V = TokenView;

    open spec fn view(&self) -> TokenView {
        TokenView {
            kind: self.kind,
            text: self.text@,
            channel: self.channel,
            start: self.start,
            stop: self.stop,
        }
    }
}

impl DeepView for Token {
    type V = TokenView;

    open spec fn deep_view(&self) -> TokenView {
        self@
    }
}

impl Clone for Token {
    fn clone(&self) -> (r: Self)
        ensures
            r@ == self@,
    {
        Token {
            kind: self.kind,
            text: self.text.clone(),
            channel: self.channel,
            start: self.start,
            stop: self.stop,
        }
    }
}

/// The width of a run of whitespace: a space counts one column, a tab eight,
/// and a line break none.
pub open spec fn indentation_width(text: Seq<char>) -> nat
    decreases text.len(),
{
    if text.len() == 0 {
        0
    } else {
        let rest = indentation_width(text.drop_last());
        if text.last() == ' ' {
            rest + 1
        } else if text.last() == '\t' {
            rest + 8
        } else {
            rest
        }
    }
}

/// [`indentation_width`], cut off at the largest machine integer.
pub open spec fn clamped_indentation_width(text: Seq<char>) -> usize {
    if indentation_width(text) > usize::MAX {
        usize::MAX
    } else {
        indentation_width(text) as usize
    }
}

impl Token {
    /// The indentation that a newline token announces for the line after it.
    pub fn indentation(&self) -> (width: usize)
        ensures
            width == clamped_indentation_width(self.text@),
    {
        let mut width: usize = 0;
        let ghost mut seen: Seq<char> = Seq::empty();
        for c in iter: self.text.as_str().chars()
            invariant
                iter.seq() == self.text@,
                seen == self.text@.take(iter.index()),
                width == clamped_indentation_width(seen),
        {
            proof {
                let next = self.text@.take(iter.index() + 1);
                assert(next.drop_last() == seen);
                assert(next.last() == c);
                seen = next;
            }
            if c == ' ' {
                width = width.saturating_add(1);
            } else if c == '\t' {
                width = width.saturating_add(8);
            }
        }
        proof {
            assert(seen == self.text@);
        }
        width
    }
}

/// The lexemes of the tokens, in their order.
pub open spec fn token_texts(tokens: Seq<TokenView>) -> Seq<Seq<char>> {
    Seq::new(tokens.len(), |i: int| tokens[i].text)
}

/// The text that a stream of tokens stands for: their lexemes, one behind
/// the other.
pub open spec fn stream_text(tokens: Seq<TokenView>) -> Seq<char> {
    joined(token_texts(tokens))
}

/// One more token adds its lexeme to the text of a stream.
pub proof fn lemma_stream_text_push(tokens: Seq<TokenView>, token: TokenView)
    ensures
        stream_text(tokens.push(token)) == stream_text(tokens) + token.text,
{
    assert(token_texts(tokens.push(token)).drop_last() =~= token_texts(tokens));
}

/// The text that a stream of tokens stands for.
pub fn lex_stream_to_text(tokens: &Vec<Token>) -> (text: String)
    ensures
        text@ == stream_text(tokens.deep_view()),
{
    let mut text = String::new();
    let mut i: usize = 0;
    proof {
        assert(token_texts(tokens.deep_view().take(0)) =~= Seq::empty());
    }
    while i < tokens.len()
        invariant
            i <= tokens.len(),
            text@ == stream_text(tokens.deep_view().take(i as int)),
        decreases tokens.len() - i,
    {
        text.append(tokens[i].text.as_str());
        proof {
            let views = tokens.deep_view();
            lemma_stream_text_push(views.take(i as int), views[i as int]);
            assert(views.take(i + 1) =~= views.take(i as int).push(views[i as int]));
        }
        i = i + 1;
    }
    proof {
        assert(tokens.deep_view().take(i as int) =~= tokens.deep_view());
    }
    text
}

} // verus!
