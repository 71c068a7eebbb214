//! Token trees as a procedural macro receives them, and their mathematical model.

use vstd::prelude::*;

verus! {

/// How the contents of a group are enclosed.
#[derive(Clone, Copy, PartialEq, Eq, Debug, Structural)]
pub enum Delimiter {
    Parenthesis,
    Brace,
    Bracket,
    Invisible,
}

/// One token tree. Spacing is kept only where it decides the grammar: two `:`
/// in a row stand for a joined `::`, and a `:` that is not joined to the `:`
/// after it is followed by `Space`.
#[derive(Debug)]
pub enum Token {
    Ident(String),
    Punct(char),
    Literal(String),
    Group(Delimiter, Vec<Token>),
    /// The break between a `:` and a following `:` that are not joined.
    Space,
}

/// The mathematical model of a token tree.
pub enum TokenModel {
    Ident(Seq<char>),
    Punct(char),
    Literal(Seq<char>),
    Group(Delimiter, Seq<TokenModel>),
    Space,
}

impl Token {
    pub open spec fn model(&self) -> TokenModel
        decreases self,
    {
        match self {
            Token::Ident(s) => TokenModel::Ident(s@),
            Token::Punct(c) => TokenModel::Punct(*c),
            Token::Literal(s) => TokenModel::Literal(s@),
            Token::Group(d, ts) => TokenModel::Group(*d, models(ts@)),
            Token::Space => TokenModel::Space,
        }
    }
}

/// The models of a sequence of token trees, element by element.
pub open spec fn models(ts: Seq<Token>) -> Seq<TokenModel>
    decreases ts,
{
    if ts.len() == 0 {
        Seq::empty()
    } else {
        models(ts.subrange(0, ts.len() - 1)).push(ts[ts.len() - 1].model())
    }
}

impl View for Token {
    type V = TokenModel;

    open spec fn view(&self) -> TokenModel {
        self.model()
    }
}

pub proof fn lemma_models(ts: Seq<Token>)
    ensures
        models(ts).len() == ts.len(),
        forall|i: int| 0 <= i < ts.len() ==> #[trigger] models(ts)[i] == ts[i].model(),
    decreases ts.len(),
{
    if ts.len() > 0 {
        lemma_models(ts.subrange(0, ts.len() - 1));
    }
}

/// A copy of a token tree.
pub fn clone_token(t: &Token) -> (r: Token)
    ensures
        r@ == t@,
    decreases t,
{
    match t {
        Token::Ident(s) => Token::Ident(s.clone()),
        Token::Punct(c) => Token::Punct(*c),
        Token::Literal(s) => Token::Literal(s.clone()),
        Token::Group(d, ts) => {
            let inner = clone_tokens(ts);
            Token::Group(*d, inner)
        },
        Token::Space => Token::Space,
    }
}

/// A copy of a sequence of token trees.
pub fn clone_tokens(ts: &Vec<Token>) -> (r: Vec<Token>)
    ensures
        models(r@) == models(ts@),
    decreases ts,
{
    let mut r: Vec<Token> = Vec::new();
    let mut i: usize = 0;
    while i < ts.len()
        invariant
            i <= ts.len(),
            r@.len() == i,
            forall|j: int| 0 <= j < i ==> #[trigger] r@[j].model() == ts@[j].model(),
        decreases ts.len() - i,
    {
        let t = clone_token(&ts[i]);
        r.push(t);
        i = i + 1;
    }
    proof {
        lemma_models(r@);
        lemma_models(ts@);
        assert(models(r@) =~= models(ts@));
    }
    r
}

} // verus!
