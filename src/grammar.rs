use vstd::prelude::*;

use crate::error::{Fault, ParseError};
use crate::expr::{check_expression, expression_check, host_form, tree_form};
use crate::marker::{InsertToken, OperatorToken};
use crate::parse::{accumulate_while, lookahead, lookahead_outcome, LookaheadToken};
use crate::token::{copy_range, lemma_trees, lemma_trees_subrange, trees, Delimiter, Token, TokenTree};

verus! {

broadcast use {vstd::seq::group_seq_axioms, vstd::std_specs::vec::group_vec_axioms};

/// The mathematical value of an operand: a callable given by its tokens, a
/// binary operation, or a parenthesized operand.
pub enum Term {
    Function(Seq<TokenTree>),
    Operation(Box<Term>, OperatorToken, Box<Term>),
    Parenthesized(Box<Term>),
}

/// Whether `s` is one parenthesized group and nothing else.
pub open spec fn sole_paren(s: Seq<TokenTree>) -> bool {
    s.len() == 1 && s[0] matches TokenTree::Group(Delimiter::Parenthesis, _)
}

/// The tokens inside a group.
pub open spec fn inner(t: TokenTree) -> Seq<TokenTree> {
    match t {
        TokenTree::Group(_, s) => s,
        _ => Seq::empty(),
    }
}

/// Whether an operator starts at position `i` of `s`.
pub open spec fn operator_at(s: Seq<TokenTree>, i: int) -> bool {
    lookahead_outcome::<OperatorToken>(s, i) is Ok
}

/// Whether an insert marker starts at position `i` of `s`.
pub open spec fn insert_at(s: Seq<TokenTree>, i: int) -> bool {
    lookahead_outcome::<InsertToken>(s, i) is Ok
}

/// Whether an operator starts anywhere at the top level of `s`.
pub open spec fn has_operator(s: Seq<TokenTree>) -> bool {
    exists|i: int| 0 <= i < s.len() && #[trigger] operator_at(s, i)
}

/// The first position from `i` on where an operator starts.
pub open spec fn first_operator(s: Seq<TokenTree>, i: int) -> Option<int>
    decreases s.len() - i,
{
    if i < 0 || i >= s.len() {
        None
    } else if operator_at(s, i) {
        Some(i)
    } else {
        first_operator(s, i + 1)
    }
}

/// The first position from `i` on where an insert marker starts.
pub open spec fn first_insert(s: Seq<TokenTree>, i: int) -> Option<int>
    decreases s.len() - i,
{
    if i < 0 || i >= s.len() {
        None
    } else if insert_at(s, i) {
        Some(i)
    } else {
        first_insert(s, i + 1)
    }
}

/// The operator that starts at position `k` of `s`.
pub open spec fn operator_of(s: Seq<TokenTree>, k: int) -> OperatorToken {
    match lookahead_outcome::<OperatorToken>(s, k) {
        Ok((op, _)) => op,
        Err(_) => OperatorToken::Before,
    }
}

/// What parsing `s` as an operand yields: a sole parenthesized group whose
/// contents parse is a parenthesized operand; any other group is an opaque
/// part of the text around it.
pub open spec fn parse_operand(s: Seq<TokenTree>) -> Result<Term, Fault>
    decreases s, 1int,
{
    if sole_paren(s) && parse_operand(inner(s[0])) is Ok {
        Ok(Term::Parenthesized(Box::new(parse_operand(inner(s[0]))->Ok_0)))
    } else if has_operator(s) {
        parse_operation(s)
    } else {
        match expression_check(s) {
            Ok(()) => Ok(Term::Function(s)),
            Err(e) => Err(e),
        }
    }
}

/// What parsing `s` as an operation yields: a sole parenthesized group whose
/// contents parse is looked through, else `s` splits at its first top-level
/// operator.
pub open spec fn parse_operation(s: Seq<TokenTree>) -> Result<Term, Fault>
    decreases s, 0int,
{
    if sole_paren(s) && parse_operation(inner(s[0])) is Ok {
        parse_operation(inner(s[0]))
    } else {
        match first_operator(s, 0) {
            None => Err(Fault::EndOfStream { at: s.len() as int }),
            Some(k) => if 0 <= k && k + 2 <= s.len() {
                match parse_operand(s.subrange(0, k)) {
                    Err(e) => Err(e),
                    Ok(l) => match parse_operand(s.subrange(k + 2, s.len() as int)) {
                        Err(e) => Err(e.shift(k + 2)),
                        Ok(r) => Ok(Term::Operation(Box::new(l), operator_of(s, k), Box::new(r))),
                    },
                }
            } else {
                Err(Fault::EndOfStream { at: s.len() as int })
            },
        }
    }
}


/// The host can build a sequence exactly when it can build each of its trees.
pub proof fn lemma_host_form(s: Seq<TokenTree>)
    ensures
        host_form(s) <==> forall|i: int| 0 <= i < s.len() ==> tree_form(#[trigger] s[i]),
    decreases s.len(),
{
    if s.len() > 0 {
        lemma_host_form(s.drop_last());
        if host_form(s) {
            assert forall|i: int| 0 <= i < s.len() implies tree_form(#[trigger] s[i]) by {
                if i < s.len() - 1 {
                    assert(s.drop_last()[i] == s[i]);
                }
            }
        }
        if forall|i: int| 0 <= i < s.len() ==> tree_form(#[trigger] s[i]) {
            assert forall|i: int| 0 <= i < s.drop_last().len() implies tree_form(
                #[trigger] s.drop_last()[i],
            ) by {
                assert(s.drop_last()[i] == s[i]);
            }
        }
    }
}

/// Every part of a sequence the host can build can be built too.
pub proof fn lemma_host_form_subrange(s: Seq<TokenTree>, lo: int, hi: int)
    requires
        0 <= lo <= hi <= s.len(),
        host_form(s),
    ensures
        host_form(s.subrange(lo, hi)),
{
    lemma_host_form(s);
    lemma_host_form(s.subrange(lo, hi));
    assert forall|i: int| 0 <= i < hi - lo implies tree_form(#[trigger] s.subrange(lo, hi)[i]) by {
        assert(s.subrange(lo, hi)[i] == s[lo + i]);
    }
}

/// The contents of a sole group the host can build can be built too.
pub proof fn lemma_host_form_inner(s: Seq<TokenTree>)
    requires
        s.len() == 1,
        host_form(s),
    ensures
        host_form(inner(s[0])),
{
    lemma_host_form(s);
    assert(tree_form(s[0]));
    match s[0] {
        TokenTree::Group(_, c) => {},
        _ => {
            assert(inner(s[0]) =~= Seq::<TokenTree>::empty());
        },
    }
}

/// The number of token trees in `t`, nested ones included.
pub open spec fn tree_size(t: TokenTree) -> nat
    decreases t,
{
    match t {
        TokenTree::Group(_, s) => 1 + seq_size(s),
        _ => 1,
    }
}

/// The number of token trees in `s`, nested ones included.
pub open spec fn seq_size(s: Seq<TokenTree>) -> nat
    decreases s,
{
    if s.len() == 0 {
        0
    } else {
        seq_size(s.drop_last()) + tree_size(s.last())
    }
}

proof fn lemma_size_concat(a: Seq<TokenTree>, b: Seq<TokenTree>)
    ensures
        seq_size(a + b) == seq_size(a) + seq_size(b),
    decreases b.len(),
{
    if b.len() > 0 {
        lemma_size_concat(a, b.drop_last());
        assert((a + b).drop_last() =~= a + b.drop_last());
    } else {
        assert(a + b =~= a);
    }
}

proof fn lemma_size_len(s: Seq<TokenTree>)
    ensures
        seq_size(s) >= s.len(),
    decreases s.len(),
{
    if s.len() > 0 {
        lemma_size_len(s.drop_last());
        lemma_tree_size_positive(s.last());
    }
}

proof fn lemma_tree_size_positive(t: TokenTree)
    ensures
        tree_size(t) >= 1,
{
    match t {
        TokenTree::Group(_, s) => {},
        _ => {},
    }
}

/// A proper part of a sequence is smaller than the sequence.
proof fn lemma_size_subrange(s: Seq<TokenTree>, lo: int, hi: int)
    requires
        0 <= lo <= hi <= s.len(),
        hi - lo < s.len(),
    ensures
        seq_size(s.subrange(lo, hi)) < seq_size(s),
{
    let a = s.subrange(0, lo);
    let b = s.subrange(lo, hi);
    let c = s.subrange(hi, s.len() as int);
    assert(s =~= a + b + c);
    lemma_size_concat(a + b, c);
    lemma_size_concat(a, b);
    lemma_size_concat(a, c);
    lemma_size_len(a + c);
}

/// The contents of a sole group are smaller than the group.
proof fn lemma_size_inner(s: Seq<TokenTree>)
    requires
        s.len() == 1,
    ensures
        seq_size(inner(s[0])) < seq_size(s),
{
    assert(s.drop_last() =~= Seq::<TokenTree>::empty());
    assert(seq_size(s.drop_last()) == 0);
    assert(s.last() == s[0]);
    assert(seq_size(s) == seq_size(s.drop_last()) + tree_size(s.last()));
    match s[0] {
        TokenTree::Group(_, c) => {
            assert(tree_size(s[0]) == 1 + seq_size(c));
        },
        _ => {
            assert(tree_size(s[0]) == 1);
            assert(seq_size(inner(s[0])) == 0);
        },
    }
}

pub(crate) proof fn lemma_first_operator_found(s: Seq<TokenTree>, j: int, k: int)
    requires
        0 <= j <= k < s.len(),
        forall|i: int| j <= i < k ==> !#[trigger] operator_at(s, i),
        operator_at(s, k),
    ensures
        first_operator(s, j) == Some(k),
    decreases k - j,
{
    if j < k {
        lemma_first_operator_found(s, j + 1, k);
    }
}

pub(crate) proof fn lemma_first_operator_none(s: Seq<TokenTree>, j: int)
    requires
        0 <= j,
        forall|i: int| j <= i < s.len() ==> !#[trigger] operator_at(s, i),
    ensures
        first_operator(s, j) is None,
    decreases s.len() - j,
{
    if j < s.len() {
        lemma_first_operator_none(s, j + 1);
    }
}

pub(crate) proof fn lemma_first_insert_found(s: Seq<TokenTree>, j: int, k: int)
    requires
        0 <= j <= k < s.len(),
        forall|i: int| j <= i < k ==> !#[trigger] insert_at(s, i),
        insert_at(s, k),
    ensures
        first_insert(s, j) == Some(k),
    decreases k - j,
{
    if j < k {
        lemma_first_insert_found(s, j + 1, k);
    }
}

pub(crate) proof fn lemma_first_insert_none(s: Seq<TokenTree>, j: int)
    requires
        0 <= j,
        forall|i: int| j <= i < s.len() ==> !#[trigger] insert_at(s, i),
    ensures
        first_insert(s, j) is None,
    decreases s.len() - j,
{
    if j < s.len() {
        lemma_first_insert_none(s, j + 1);
    }
}


/// A callable expression, kept as its tokens.
#[derive(Debug, PartialEq, Eq)]
pub struct FunctionToken {
    pub value: Vec<Token>,
}

/// An operand of an operation.
#[derive(Debug, PartialEq, Eq)]
pub enum OperandToken {
    Function(FunctionToken),
    Operation(OperationToken),
    Parenthesized(Box<OperandToken>),
}

/// Two operands joined by an operator.
#[derive(Debug, PartialEq, Eq)]
pub struct OperationToken {
    pub lhs: Box<OperandToken>,
    pub operator: OperatorToken,
    pub rhs: Box<OperandToken>,
}

impl OperandToken {
    /// The value of the operand.
    pub open spec fn term(&self) -> Term
        decreases self,
    {
        match self {
            OperandToken::Function(f) => Term::Function(trees(f.value@)),
            OperandToken::Operation(op) => op.term(),
            OperandToken::Parenthesized(b) => Term::Parenthesized(Box::new(b.term())),
        }
    }
}

impl OperationToken {
    /// The value of the operation.
    pub open spec fn term(&self) -> Term
        decreases self,
    {
        Term::Operation(Box::new(self.lhs.term()), self.operator, Box::new(self.rhs.term()))
    }
}

impl FunctionToken {
    /// Parses the whole of `tokens` as one callable expression.
    pub fn parse(tokens: &Vec<Token>) -> (r: Result<FunctionToken, ParseError>)
        requires
            host_form(trees(tokens@)),
        ensures
            match r {
                Ok(f) => {
                    &&& expression_check(trees(tokens@)) is Ok
                    &&& trees(f.value@) == trees(tokens@)
                },
                Err(e) => {
                    &&& expression_check(trees(tokens@)) == Err::<(), Fault>(e@)
                    &&& e@.at() == 0
                },
            },
    {
        match check_expression(tokens) {
            Ok(()) => {
                let value = copy_range(tokens, 0, tokens.len());
                assert(tokens@.subrange(0, tokens@.len() as int) =~= tokens@);
                Ok(FunctionToken { value })
            },
            Err(e) => Err(e),
        }
    }
}

/// Whether an operator starts anywhere at the top level of `tokens`.
fn contains_operator(tokens: &Vec<Token>) -> (r: bool)
    ensures
        r == has_operator(trees(tokens@)),
{
    proof {
        lemma_trees(tokens@);
    }
    let mut i: usize = 0;
    while i < tokens.len()
        invariant
            i <= tokens.len(),
            trees(tokens@).len() == tokens.len(),
            forall|j: int| 0 <= j < i ==> !#[trigger] operator_at(trees(tokens@), j),
        decreases tokens.len() - i,
    {
        match lookahead::<OperatorToken>(tokens, i) {
            Ok(_) => {
                assert(operator_at(trees(tokens@), i as int));
                return true;
            },
            Err(_) => {},
        }
        i = i + 1;
    }
    false
}

/// A copy of the tokens from `cursor` to the end, read with the scanner.
fn rest(tokens: &Vec<Token>, cursor: usize) -> (r: Vec<Token>)
    requires
        cursor <= tokens.len(),
    ensures
        trees(r@) == trees(tokens@).subrange(cursor as int, tokens@.len() as int),
{
    let n = tokens.len();
    let until_end = |i: usize| -> (b: bool)
        ensures
            b == (i < n),
        { i < n };
    proof {
        lemma_trees_subrange(tokens@, cursor as int, n as int);
    }
    match accumulate_while(tokens, cursor, until_end) {
        Ok((out, next)) => {
            if next < n {
                assert(until_end.ensures((next,), true));
            }
            out
        },
        Err(_) => {
            assert(until_end.ensures((n,), true));
            copy_range(tokens, cursor, n)
        },
    }
}

impl OperandToken {
    /// Parses the whole of `tokens` as an operand.
    pub fn parse(tokens: &Vec<Token>) -> (r: Result<OperandToken, ParseError>)
        requires
            host_form(trees(tokens@)),
        ensures
            match r {
                Ok(t) => parse_operand(trees(tokens@)) == Ok::<Term, Fault>(t.term()),
                Err(e) => {
                    &&& parse_operand(trees(tokens@)) == Err::<Term, Fault>(e@)
                    &&& e@.at() <= tokens.len()
                },
            },
        decreases seq_size(trees(tokens@)), 1int,
    {
        proof {
            lemma_trees(tokens@);
        }
        if tokens.len() == 1 {
            match &tokens[0] {
                Token::Group(Delimiter::Parenthesis, content) => {
                    proof {
                        lemma_size_inner(trees(tokens@));
                        lemma_host_form_inner(trees(tokens@));
                    }
                    match OperandToken::parse(content) {
                        Ok(t) => {
                            return Ok(OperandToken::Parenthesized(Box::new(t)));
                        },
                        Err(_) => {},
                    }
                },
                _ => {},
            }
        }
        let stream = rest(tokens, 0);
        proof {
            lemma_trees(stream@);
            assert(trees(tokens@).subrange(0, tokens@.len() as int) =~= trees(tokens@));
        }
        if contains_operator(tokens) {
            match OperationToken::parse(&stream) {
                Ok(op) => Ok(OperandToken::Operation(op)),
                Err(e) => Err(e),
            }
        } else {
            match FunctionToken::parse(&stream) {
                Ok(f) => Ok(OperandToken::Function(f)),
                Err(e) => Err(e),
            }
        }
    }
}

impl OperationToken {
    /// Parses the whole of `tokens` as an operation.
    pub fn parse(tokens: &Vec<Token>) -> (r: Result<OperationToken, ParseError>)
        requires
            host_form(trees(tokens@)),
        ensures
            match r {
                Ok(t) => parse_operation(trees(tokens@)) == Ok::<Term, Fault>(t.term()),
                Err(e) => {
                    &&& parse_operation(trees(tokens@)) == Err::<Term, Fault>(e@)
                    &&& e@.at() <= tokens.len()
                },
            },
        decreases seq_size(trees(tokens@)), 0int,
    {
        proof {
            lemma_trees(tokens@);
        }
        let ghost s = trees(tokens@);
        if tokens.len() == 1 {
            match &tokens[0] {
                Token::Group(Delimiter::Parenthesis, content) => {
                    proof {
                        lemma_size_inner(s);
                        lemma_host_form_inner(s);
                    }
                    match OperationToken::parse(content) {
                        Ok(t) => {
                            return Ok(t);
                        },
                        Err(_) => {},
                    }
                },
                _ => {},
            }
        }
        let probe = |i: usize| -> (b: bool)
            requires
                i <= tokens.len(),
            ensures
                b == !operator_at(trees(tokens@), i as int),
            {
                match lookahead::<OperatorToken>(tokens, i) {
                    Ok(_) => false,
                    Err(_) => true,
                }
            };
        let (lhs, operator_cursor) = match accumulate_while(tokens, 0, probe) {
            Ok(p) => p,
            Err(e) => {
                proof {
                    assert forall|i: int| 0 <= i < s.len() implies !#[trigger] operator_at(s, i) by {
                        assert(probe.ensures((i as usize,), true));
                    }
                    lemma_first_operator_none(s, 0);
                }
                return Err(e);
            },
        };
        proof {
            assert(probe.ensures((operator_cursor,), false));
            assert forall|i: int| 0 <= i < operator_cursor implies !#[trigger] operator_at(s, i) by {
                assert(probe.ensures((i as usize,), true));
            }
        }
        let (operator, rhs_cursor) = match lookahead::<OperatorToken>(tokens, operator_cursor) {
            Ok(p) => p,
            Err(e) => {
                return Err(e);
            },
        };
        proof {
            lemma_first_operator_found(s, 0, operator_cursor as int);
            lemma_trees_subrange(tokens@, 0, operator_cursor as int);
            lemma_size_subrange(s, 0, operator_cursor as int);
            lemma_size_subrange(s, rhs_cursor as int, s.len() as int);
            lemma_host_form_subrange(s, 0, operator_cursor as int);
            lemma_host_form_subrange(s, rhs_cursor as int, s.len() as int);
        }
        let rhs = rest(tokens, rhs_cursor);
        proof {
            lemma_trees(rhs@);
            lemma_trees(lhs@);
        }
        let l = match OperandToken::parse(&lhs) {
            Ok(t) => t,
            Err(e) => {
                return Err(e);
            },
        };
        let r = match OperandToken::parse(&rhs) {
            Ok(t) => t,
            Err(e) => {
                return Err(e.shift(rhs_cursor));
            },
        };
        Ok(OperationToken { lhs: Box::new(l), operator, rhs: Box::new(r) })
    }
}

} // verus!
