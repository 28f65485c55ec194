use vstd::prelude::*;

verus! {

broadcast use {vstd::seq::group_seq_axioms, vstd::std_specs::vec::group_vec_axioms};

/// The delimiter of a token group.
#[derive(Debug, Clone, Copy, PartialEq, Eq, Structural)]
pub enum Delimiter {
    Parenthesis,
    Brace,
    Bracket,
    Invisible,
}

/// Whether a punctuation character is glued to the token that follows it.
#[derive(Debug, Clone, Copy, PartialEq, Eq, Structural)]
pub enum Spacing {
    Alone,
    Joint,
}

/// One token tree of the host's token stream.
#[derive(Debug, PartialEq, Eq)]
pub enum Token {
    Ident(String),
    Punct(char, Spacing),
    Literal(String),
    Group(Delimiter, Vec<Token>),
}

/// The mathematical value of a [`Token`].
pub enum TokenTree {
    Ident(Seq<char>),
    Punct(char, Spacing),
    Literal(Seq<char>),
    Group(Delimiter, Seq<TokenTree>),
}

impl Token {
    /// The value of the token.
    pub open spec fn tree(&self) -> TokenTree
        decreases self,
    {
        match self {
            Token::Ident(s) => TokenTree::Ident(s@),
            Token::Punct(c, sp) => TokenTree::Punct(*c, *sp),
            Token::Literal(s) => TokenTree::Literal(s@),
            Token::Group(d, v) => TokenTree::Group(*d, trees(v@)),
        }
    }
}

/// The values of a sequence of tokens.
pub open spec fn trees(s: Seq<Token>) -> Seq<TokenTree>
    decreases s,
{
    if s.len() == 0 {
        Seq::empty()
    } else {
        trees(s.drop_last()).push(s.last().tree())
    }
}


/// `trees` keeps the length and maps each token to its value.
pub proof fn lemma_trees(s: Seq<Token>)
    ensures
        trees(s).len() == s.len(),
        forall|i: int| 0 <= i < s.len() ==> #[trigger] trees(s)[i] == s[i].tree(),
    decreases s.len(),
{
    if s.len() > 0 {
        lemma_trees(s.drop_last());
    }
}

/// Two token sequences whose tokens have equal values have equal values.
pub proof fn lemma_trees_ext(a: Seq<Token>, b: Seq<Token>)
    requires
        a.len() == b.len(),
        forall|i: int| 0 <= i < a.len() ==> #[trigger] a[i].tree() == b[i].tree(),
    ensures
        trees(a) == trees(b),
{
    lemma_trees(a);
    lemma_trees(b);
    assert(trees(a) =~= trees(b));
}

/// The values of a subrange are the subrange of the values.
pub proof fn lemma_trees_subrange(s: Seq<Token>, lo: int, hi: int)
    requires
        0 <= lo <= hi <= s.len(),
    ensures
        trees(s.subrange(lo, hi)) == trees(s).subrange(lo, hi),
{
    lemma_trees(s);
    lemma_trees(s.subrange(lo, hi));
    assert(trees(s.subrange(lo, hi)) =~= trees(s).subrange(lo, hi));
}

impl Token {
    /// A deep copy of the token.
    pub fn duplicate(&self) -> (r: Token)
        ensures
            r.tree() == self.tree(),
        decreases self,
    {
        match self {
            Token::Ident(s) => Token::Ident(s.clone()),
            Token::Punct(c, sp) => Token::Punct(*c, *sp),
            Token::Literal(s) => Token::Literal(s.clone()),
            Token::Group(d, v) => {
                let inner = copy_range(v, 0, v.len());
                proof {
                    assert(v@.subrange(0, v@.len() as int) =~= v@);
                }
                Token::Group(*d, inner)
            },
        }
    }
}

/// A deep copy of the tokens from `lo` up to `hi`.
pub fn copy_range(v: &Vec<Token>, lo: usize, hi: usize) -> (r: Vec<Token>)
    requires
        lo <= hi <= v.len(),
    ensures
        trees(r@) == trees(v@.subrange(lo as int, hi as int)),
    decreases v,
{
    let mut r: Vec<Token> = Vec::new();
    let mut i: usize = lo;
    while i < hi
        invariant
            lo <= i <= hi <= v.len(),
            r.len() == i - lo,
            forall|j: int| 0 <= j < r.len() ==> #[trigger] r[j].tree() == v[lo + j].tree(),
        decreases hi - i,
    {
        proof {
            assert(decreases_to!(v => v[i as int]));
        }
        let t = v[i].duplicate();
        r.push(t);
        i = i + 1;
    }
    proof {
        lemma_trees_ext(r@, v@.subrange(lo as int, hi as int));
    }
    r
}

} // verus!
