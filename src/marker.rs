use vstd::prelude::*;
use vstd::string::StringExecFns;

use crate::error::{Fault, ParseError};
use crate::parse::LookaheadToken;
use crate::text::{render, text};
use crate::token::{copy_range, lemma_trees, lemma_trees_subrange, trees, Token, TokenTree};

verus! {

broadcast use vstd::seq::group_seq_axioms;

/// How two rewrites are composed.
#[derive(Debug, Clone, Copy, PartialEq, Eq, Structural)]
pub enum OperatorToken {
    /// `<|`: the right-hand side runs first and feeds the left-hand side.
    After,
    /// `|>`: the left-hand side runs first and feeds the right-hand side.
    Before,
}

/// The `->>` marker between the input expression and the operation.
#[derive(Debug, Clone, Copy, PartialEq, Eq, Structural)]
pub struct InsertToken;

/// Whether a token tree is the punctuation character `c`, whatever its spacing.
pub open spec fn punct_is(t: TokenTree, c: char) -> bool {
    match t {
        TokenTree::Punct(p, _) => p == c,
        _ => false,
    }
}

/// Whether `s` starts with the punctuation characters `a`, `b`.
pub open spec fn starts_with2(s: Seq<TokenTree>, a: char, b: char) -> bool {
    s.len() >= 2 && punct_is(s[0], a) && punct_is(s[1], b)
}

/// Whether `s` starts with the punctuation characters `a`, `b`, `c`.
pub open spec fn starts_with3(s: Seq<TokenTree>, a: char, b: char, c: char) -> bool {
    s.len() >= 3 && punct_is(s[0], a) && punct_is(s[1], b) && punct_is(s[2], c)
}

/// What an operator error says was expected.
pub open spec fn operator_expected() -> Seq<char> {
    "`Operator (<| or |>)`"@
}

/// What an insert marker error says was expected.
pub open spec fn insert_expected() -> Seq<char> {
    "`Insert (->>)`"@
}

/// Whether the token is the punctuation character `c`.
pub fn is_punct(t: &Token, c: char) -> (r: bool)
    ensures
        r == punct_is(t.tree(), c),
{
    match t {
        Token::Punct(p, _) => *p == c,
        _ => false,
    }
}

/// The text of the tokens from `cursor` to the end.
pub(crate) fn rest_text(tokens: &Vec<Token>, cursor: usize) -> (r: String)
    requires
        cursor <= tokens.len(),
    ensures
        r@ == text(trees(tokens@).skip(cursor as int)),
{
    let rest = copy_range(tokens, cursor, tokens.len());
    proof {
        lemma_trees_subrange(tokens@, cursor as int, tokens@.len() as int);
        lemma_trees(tokens@);
        assert(trees(tokens@).skip(cursor as int) =~= trees(tokens@).subrange(
            cursor as int,
            tokens@.len() as int,
        ));
    }
    render(&rest)
}

/// Whether the tokens at `cursor` start with the punctuation characters `a`, `b`.
fn at2(tokens: &Vec<Token>, cursor: usize, a: char, b: char) -> (r: bool)
    requires
        cursor <= tokens.len(),
    ensures
        r == starts_with2(trees(tokens@).skip(cursor as int), a, b),
{
    proof {
        lemma_trees(tokens@);
    }
    tokens.len() - cursor >= 2 && is_punct(&tokens[cursor], a) && is_punct(&tokens[cursor + 1], b)
}

impl LookaheadToken for OperatorToken {
    open spec fn width() -> nat {
        2
    }

    open spec fn recognize(s: Seq<TokenTree>) -> Result<OperatorToken, Fault> {
        if starts_with2(s, '<', '|') {
            Ok(OperatorToken::After)
        } else if starts_with2(s, '|', '>') {
            Ok(OperatorToken::Before)
        } else {
            Err(Fault::Token { expected: operator_expected(), got: text(s), at: 0 })
        }
    }

    fn size() -> (r: usize) {
        2
    }

    fn parse(tokens: &Vec<Token>, cursor: usize) -> (r: Result<(OperatorToken, usize), ParseError>) {
        proof {
            lemma_trees(tokens@);
        }
        if at2(tokens, cursor, '<', '|') {
            Ok((OperatorToken::After, cursor + 2))
        } else if at2(tokens, cursor, '|', '>') {
            Ok((OperatorToken::Before, cursor + 2))
        } else {
            Err(
                ParseError::UnexpectedToken {
                    expected: String::from_str("`Operator (<| or |>)`"),
                    got: rest_text(tokens, cursor),
                    at: cursor,
                },
            )
        }
    }
}

impl LookaheadToken for InsertToken {
    open spec fn width() -> nat {
        3
    }

    open spec fn recognize(s: Seq<TokenTree>) -> Result<InsertToken, Fault> {
        if starts_with3(s, '-', '>', '>') {
            Ok(InsertToken)
        } else {
            Err(Fault::Token { expected: insert_expected(), got: text(s), at: 0 })
        }
    }

    fn size() -> (r: usize) {
        3
    }

    fn parse(tokens: &Vec<Token>, cursor: usize) -> (r: Result<(InsertToken, usize), ParseError>) {
        proof {
            lemma_trees(tokens@);
        }
        if tokens.len() - cursor >= 3 && is_punct(&tokens[cursor], '-') && is_punct(
            &tokens[cursor + 1],
            '>',
        ) && is_punct(&tokens[cursor + 2], '>') {
            Ok((InsertToken, cursor + 3))
        } else {
            Err(
                ParseError::UnexpectedToken {
                    expected: String::from_str("`Insert (->>)`"),
                    got: rest_text(tokens, cursor),
                    at: cursor,
                },
            )
        }
    }
}

} // verus!
