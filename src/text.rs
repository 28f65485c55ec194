use vstd::prelude::*;
use vstd::string::StringExecFns;

use crate::token::{lemma_trees, trees, Delimiter, Spacing, Token, TokenTree};

verus! {

broadcast use {vstd::seq::group_seq_axioms, vstd::std_specs::vec::group_vec_axioms};

/// The text that opens a group.
pub open spec fn open_text(d: Delimiter) -> Seq<char> {
    match d {
        Delimiter::Parenthesis => seq!['('],
        Delimiter::Brace => seq!['{', ' '],
        Delimiter::Bracket => seq!['['],
        Delimiter::Invisible => Seq::empty(),
    }
}

/// The text that closes a group.
pub open spec fn close_text(d: Delimiter) -> Seq<char> {
    match d {
        Delimiter::Parenthesis => seq![')'],
        Delimiter::Brace => seq!['}'],
        Delimiter::Bracket => seq![']'],
        Delimiter::Invisible => Seq::empty(),
    }
}

/// The source text of one token tree.
pub open spec fn tree_text(t: TokenTree) -> Seq<char>
    decreases t,
{
    match t {
        TokenTree::Ident(s) => s,
        TokenTree::Punct(c, _) => seq![c],
        TokenTree::Literal(s) => s,
        TokenTree::Group(d, inner) => open_text(d) + text(inner) + inner_gap(d, inner) + close_text(d),
    }
}

/// What stands between a group's contents and its close: one space inside
/// non-empty braces, nothing otherwise.
pub open spec fn inner_gap(d: Delimiter, inner: Seq<TokenTree>) -> Seq<char> {
    if d == Delimiter::Brace && inner.len() > 0 {
        seq![' ']
    } else {
        Seq::empty()
    }
}

/// What separates token `i` from the one before it: nothing after a joint
/// punctuation character or at the start, one space otherwise.
pub open spec fn gap(s: Seq<TokenTree>, i: int) -> Seq<char> {
    if i == 0 {
        Seq::empty()
    } else {
        match s[i - 1] {
            TokenTree::Punct(_, Spacing::Joint) => Seq::empty(),
            _ => seq![' '],
        }
    }
}

/// The source text of a token sequence.
pub open spec fn text(s: Seq<TokenTree>) -> Seq<char>
    decreases s,
{
    if s.len() == 0 {
        Seq::empty()
    } else {
        text(s.drop_last()) + gap(s, s.len() - 1) + tree_text(s.last())
    }
}

/// Relies on `String::push`: the character is appended.
#[verifier::external_body]
fn push_char(out: &mut String, c: char)
    ensures
        final(out)@ == old(out)@.push(c),
{
    out.push(c);
}

fn push_open(out: &mut String, d: Delimiter)
    ensures
        final(out)@ == old(out)@ + open_text(d),
{
    match d {
        Delimiter::Parenthesis => push_char(out, '('),
        Delimiter::Brace => {
            push_char(out, '{');
            push_char(out, ' ');
        },
        Delimiter::Bracket => push_char(out, '['),
        Delimiter::Invisible => {
            assert(old(out)@ + open_text(d) =~= old(out)@);
        },
    }
}

fn push_close(out: &mut String, d: Delimiter)
    ensures
        final(out)@ == old(out)@ + close_text(d),
{
    match d {
        Delimiter::Parenthesis => push_char(out, ')'),
        Delimiter::Brace => push_char(out, '}'),
        Delimiter::Bracket => push_char(out, ']'),
        Delimiter::Invisible => {
            assert(old(out)@ + close_text(d) =~= old(out)@);
        },
    }
}

fn push_token(out: &mut String, t: &Token)
    ensures
        final(out)@ == old(out)@ + tree_text(t.tree()),
    decreases t,
{
    match t {
        Token::Ident(s) => out.append(s.as_str()),
        Token::Punct(c, _) => push_char(out, *c),
        Token::Literal(s) => out.append(s.as_str()),
        Token::Group(d, v) => {
            push_open(out, *d);
            push_tokens(out, v);
            proof {
                lemma_trees(v@);
            }
            if *d == Delimiter::Brace && v.len() > 0 {
                push_char(out, ' ');
            }
            push_close(out, *d);
            assert(final(out)@ =~= old(out)@ + tree_text(t.tree()));
        },
    }
}

fn push_tokens(out: &mut String, v: &Vec<Token>)
    ensures
        final(out)@ == old(out)@ + text(trees(v@)),
    decreases v,
{
    let ghost start = out@;
    let mut i: usize = 0;
    proof {
        assert(v@.subrange(0, 0) =~= Seq::<Token>::empty());
        assert(start + text(trees(v@.subrange(0, 0))) =~= start);
    }
    while i < v.len()
        invariant
            i <= v.len(),
            out@ == start + text(trees(v@.subrange(0, i as int))),
        decreases v.len() - i,
    {
        let ghost before = out@;
        let ghost pre = v@.subrange(0, i as int);
        let ghost cur = v@.subrange(0, i + 1);
        proof {
            assert(cur.drop_last() =~= pre);
            lemma_trees(cur);
            lemma_trees(v@);
        }
        if i > 0 {
            match &v[i - 1] {
                Token::Punct(_, Spacing::Joint) => {},
                _ => push_char(out, ' '),
            }
        }
        proof {
            assert(decreases_to!(v => v[i as int]));
        }
        push_token(out, &v[i]);
        proof {
            assert(trees(cur).drop_last() =~= trees(pre));
            assert(out@ =~= start + text(trees(cur)));
        }
        i = i + 1;
    }
    proof {
        assert(v@.subrange(0, v@.len() as int) =~= v@);
    }
}

/// The source text of a token sequence, as it is shown in diagnostics:
/// tokens apart by one space unless glued, braces padded inside.
pub fn render(v: &Vec<Token>) -> (r: String)
    ensures
        r@ == text(trees(v@)),
{
    let mut out = String::new();
    push_tokens(&mut out, v);
    assert(out@ =~= text(trees(v@)));
    out
}

} // verus!
