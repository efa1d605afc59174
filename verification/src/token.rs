//! Lexical tokens of an input line, and their mathematical model.

use vstd::prelude::*;

verus! {

/// Whitespace that separates tokens and is otherwise insignificant.
pub open spec fn is_space_char(c: char) -> bool {
    c == ' ' || c == '\t' || c == '\r' || c == '\n'
}

/// Characters a bare word is made of: ASCII letters and digits.
pub open spec fn is_word_char(c: char) -> bool {
    ('0' <= c && c <= '9') || ('a' <= c && c <= 'z') || ('A' <= c && c <= 'Z')
}

/// Characters a variable name is made of: word characters plus underscore.
pub open spec fn is_var_char(c: char) -> bool {
    is_word_char(c) || c == '_'
}

/// One lexical unit of an input line.
///
/// `Substitution` is reserved for nested command substitution; the current
/// grammar never produces it and no execution semantics exist for it.
#[derive(Debug, PartialEq, Eq)]
pub enum Token {
    /// A reference to an environment variable: `$name`.
    Var(String),
    /// Verbatim text that stood between double quotes, quotes stripped.
    Literal(String),
    /// Reserved for nested command substitution; never produced.
    Substitution(String, Vec<Token>),
    /// A bare unquoted word, escape sequences already resolved.
    Word(String),
    /// The `|` separator.
    Pipe,
}

/// The mathematical model of a token: the same shape over `Seq<char>`.
pub enum TokenV {
    Var(Seq<char>),
    Literal(Seq<char>),
    Substitution(Seq<char>, Seq<TokenV>),
    Word(Seq<char>),
    Pipe,
}

impl Token {
    /// The model of this token.
    pub open spec fn view(self) -> TokenV
        decreases self,
    {
        match self {
            Token::Var(n) => TokenV::Var(n@),
            Token::Literal(t) => TokenV::Literal(t@),
            Token::Substitution(n, ts) => TokenV::Substitution(n@, tokens_view(ts@)),
            Token::Word(t) => TokenV::Word(t@),
            Token::Pipe => TokenV::Pipe,
        }
    }
}

/// The model of a token sequence: each token replaced by its model.
pub open spec fn tokens_view(ts: Seq<Token>) -> Seq<TokenV>
    decreases ts,
{
    if ts.len() == 0 {
        Seq::empty()
    } else {
        seq![ts[0].view()] + tokens_view(ts.drop_first())
    }
}

/// `tokens_view` looked at elementwise.
pub proof fn lemma_tokens_view(ts: Seq<Token>)
    ensures
        tokens_view(ts).len() == ts.len(),
        forall|i: int| 0 <= i < ts.len() ==> tokens_view(ts)[i] == #[trigger] ts[i].view(),
    decreases ts.len(),
{
    if ts.len() > 0 {
        lemma_tokens_view(ts.drop_first());
        assert forall|i: int| 0 <= i < ts.len() implies tokens_view(ts)[i] == #[trigger] ts[i].view() by {
            if i > 0 {
                assert(tokens_view(ts)[i] == tokens_view(ts.drop_first())[i - 1]);
                assert(ts.drop_first()[i - 1] == ts[i]);
            }
        }
    }
}

/// Appending one token to a sequence appends its model to the model.
pub proof fn lemma_tokens_view_push(ts: Seq<Token>, t: Token)
    ensures
        tokens_view(ts.push(t)) == tokens_view(ts) + seq![t.view()],
    decreases ts.len(),
{
    if ts.len() == 0 {
        assert(ts.push(t).drop_first() =~= Seq::<Token>::empty());
        assert(tokens_view(Seq::<Token>::empty()) == Seq::<TokenV>::empty());
        assert(ts.push(t)[0] == t);
        assert(tokens_view(ts.push(t)) =~= tokens_view(ts) + seq![t.view()]);
    } else {
        lemma_tokens_view_push(ts.drop_first(), t);
        assert(ts.push(t).drop_first() =~= ts.drop_first().push(t));
        assert(ts.push(t)[0] == ts[0]);
        assert(tokens_view(ts.push(t)) == seq![ts[0].view()] + tokens_view(
            ts.drop_first().push(t),
        ));
        assert(tokens_view(ts.push(t)) =~= tokens_view(ts) + seq![t.view()]);
    }
}

/// The distinct failure signals of the tokenizer.
#[derive(Debug, PartialEq, Eq, Clone, Copy, Structural)]
pub enum ScanError {
    /// A backslash followed by anything but space, `t` or backslash.
    MalformedEscape,
    /// A double quote whose closing quote never comes.
    UnterminatedLiteral,
    /// A `$` with no valid variable-name character after it.
    InvalidVariable,
    /// A character that can start no token.
    UnexpectedCharacter,
}

} // verus!
