use vstd::prelude::*;

use crate::error::{Fault, ParseError};
use vstd::string::StringExecFns;

use crate::expr::{check_expression, expression_check, host_form, is_host_form};
use crate::grammar::{
    first_insert, insert_at, lemma_host_form_subrange, parse_operand, FunctionToken, OperandToken,
    OperationToken, Term,
};
use crate::marker::{insert_expected, rest_text, InsertToken, OperatorToken};
use crate::text::text;
use crate::parse::{accumulate_while, lookahead, LookaheadToken};
use crate::token::{copy_range, lemma_trees, lemma_trees_subrange, trees, Delimiter, Token, TokenTree};

verus! {

broadcast use {vstd::seq::group_seq_axioms, vstd::std_specs::vec::group_vec_axioms};

/// The tokens `(f)(x)`: the callable `f` applied to the expression `x`.
pub open spec fn call(f: Seq<TokenTree>, x: Seq<TokenTree>) -> Seq<TokenTree> {
    seq![
        TokenTree::Group(Delimiter::Parenthesis, f),
        TokenTree::Group(Delimiter::Parenthesis, x),
    ]
}

/// The expression that the rewrite of `t` makes of the expression `x`.
pub open spec fn resolve(t: Term, x: Seq<TokenTree>) -> Seq<TokenTree>
    decreases t,
{
    match t {
        Term::Function(f) => call(f, x),
        Term::Operation(lhs, op, rhs) => match op {
            OperatorToken::After => resolve(*lhs, resolve(*rhs, x)),
            OperatorToken::Before => resolve(*rhs, resolve(*lhs, x)),
        },
        Term::Parenthesized(t) => resolve(*t, x),
    }
}

impl FunctionToken {
    /// Applies the callable to `input`.
    pub fn resolve(parsed: FunctionToken, input: Vec<Token>) -> (r: Vec<Token>)
        ensures
            trees(r@) == call(trees(parsed.value@), trees(input@)),
    {
        let mut r: Vec<Token> = Vec::new();
        r.push(Token::Group(Delimiter::Parenthesis, parsed.value));
        r.push(Token::Group(Delimiter::Parenthesis, input));
        proof {
            lemma_trees(r@);
            assert(trees(r@) =~= call(trees(parsed.value@), trees(input@)));
        }
        r
    }
}

impl OperandToken {
    /// Rewrites `input` as the operand says.
    pub fn resolve(parsed: OperandToken, input: Vec<Token>) -> (r: Vec<Token>)
        ensures
            trees(r@) == resolve(parsed.term(), trees(input@)),
        decreases parsed,
    {
        match parsed {
            OperandToken::Function(f) => FunctionToken::resolve(f, input),
            OperandToken::Operation(op) => OperationToken::resolve(op, input),
            OperandToken::Parenthesized(inner) => OperandToken::resolve(*inner, input),
        }
    }
}

impl OperatorToken {
    /// Composes two rewrites of `input` in the order the operator gives:
    /// `After` runs `rhs` first and feeds its output to `lhs`, `Before` the
    /// other way round.
    pub fn resolve<F: FnOnce(Vec<Token>) -> Vec<Token>, G: FnOnce(Vec<Token>) -> Vec<Token>>(
        parsed: OperatorToken,
        lhs: F,
        rhs: G,
        input: Vec<Token>,
    ) -> (r: Vec<Token>)
        requires
            forall|x: Vec<Token>| #[trigger] lhs.requires((x,)),
            forall|x: Vec<Token>| #[trigger] rhs.requires((x,)),
        ensures
            exists|m: Vec<Token>|
                match parsed {
                    OperatorToken::After => rhs.ensures((input,), m) && lhs.ensures((m,), r),
                    OperatorToken::Before => lhs.ensures((input,), m) && rhs.ensures((m,), r),
                },
    {
        match parsed {
            OperatorToken::After => {
                let m = rhs(input);
                lhs(m)
            },
            OperatorToken::Before => {
                let m = lhs(input);
                rhs(m)
            },
        }
    }
}

impl OperationToken {
    /// Rewrites `input` with both operands, composed by the operator.
    pub fn resolve(parsed: OperationToken, input: Vec<Token>) -> (r: Vec<Token>)
        ensures
            trees(r@) == resolve(parsed.term(), trees(input@)),
        decreases parsed,
    {
        let ghost lt = parsed.lhs.term();
        let ghost rt = parsed.rhs.term();
        let OperationToken { lhs, operator, rhs } = parsed;
        let lhs_rewrite = move |x: Vec<Token>| -> (y: Vec<Token>)
            ensures
                trees(y@) == resolve(lt, trees(x@)),
            { OperandToken::resolve(*lhs, x) };
        let rhs_rewrite = move |x: Vec<Token>| -> (y: Vec<Token>)
            ensures
                trees(y@) == resolve(rt, trees(x@)),
            { OperandToken::resolve(*rhs, x) };
        OperatorToken::resolve(operator, lhs_rewrite, rhs_rewrite, input)
    }
}

/// The input expression of a pipe, kept as its tokens.
#[derive(Debug, PartialEq, Eq)]
pub struct InputToken {
    pub value: Vec<Token>,
}

/// A parsed pipe: the input expression and the operation applied to it.
#[derive(Debug, PartialEq, Eq)]
pub struct PipeToken {
    pub input: InputToken,
    pub operation: OperandToken,
}

/// The end of the longest prefix of `s`, no longer than `k`, that is one
/// expression; 0 when none is.
pub open spec fn expression_end(s: Seq<TokenTree>, k: int) -> int
    decreases k,
{
    if k <= 0 || k > s.len() {
        0
    } else if expression_check(s.subrange(0, k)) is Ok {
        k
    } else {
        expression_end(s, k - 1)
    }
}

/// The fault for a sequence without an insert marker, which lies where the
/// marker was expected: after the longest prefix that is one expression.
/// There the stream has ended, or holds an unexpected token.
pub open spec fn missing_insert_fault(s: Seq<TokenTree>) -> Fault {
    let k = expression_end(s, s.len() as int);
    if k == s.len() {
        Fault::EndOfStream { at: k }
    } else {
        Fault::Token { expected: insert_expected(), got: text(s.skip(k)), at: k }
    }
}

/// What reading the input expression of `s` yields: the tokens before the
/// first insert marker, and the marker's position. Without a marker, the
/// fault lies where the marker was expected: after the longest prefix that
/// is one expression.
pub open spec fn parse_input(s: Seq<TokenTree>) -> Result<(Seq<TokenTree>, int), Fault> {
    match first_insert(s, 0) {
        None => Err(missing_insert_fault(s)),
        Some(k) => match expression_check(s.subrange(0, k)) {
            Ok(()) => Ok((s.subrange(0, k), k)),
            Err(e) => Err(e),
        },
    }
}

/// What parsing `s` as `input ->> operand` yields.
pub open spec fn parse_pipe(s: Seq<TokenTree>) -> Result<(Seq<TokenTree>, Term), Fault> {
    match parse_input(s) {
        Err(e) => Err(e),
        Ok((x, k)) => match parse_operand(s.subrange(k + 3, s.len() as int)) {
            Ok(t) => Ok((x, t)),
            Err(e) => Err(e.shift(k + 3)),
        },
    }
}

/// The expression that `s`, read as `input ->> operand`, is rewritten to.
pub open spec fn pipe_output(s: Seq<TokenTree>) -> Result<Seq<TokenTree>, Fault> {
    match parse_pipe(s) {
        Ok((x, t)) => Ok(resolve(t, x)),
        Err(e) => Err(e),
    }
}

/// An insert marker found by a scan fits in the sequence.
proof fn lemma_expression_end(s: Seq<TokenTree>, k: int)
    ensures
        0 <= expression_end(s, k),
        k >= 0 ==> expression_end(s, k) <= k,
    decreases k,
{
    if k > 0 && k <= s.len() && !(expression_check(s.subrange(0, k)) is Ok) {
        lemma_expression_end(s, k - 1);
    }
}

proof fn lemma_first_insert_fits(s: Seq<TokenTree>, j: int)
    requires
        0 <= j,
    ensures
        match first_insert(s, j) {
            Some(k) => j <= k && k + 3 <= s.len() && insert_at(s, k),
            None => true,
        },
    decreases s.len() - j,
{
    if j < s.len() && !insert_at(s, j) {
        lemma_first_insert_fits(s, j + 1);
    }
}

/// The fault for a sequence without an insert marker.
fn missing_insert(tokens: &Vec<Token>) -> (r: ParseError)
    requires
        host_form(trees(tokens@)),
    ensures
        r@ == missing_insert_fault(trees(tokens@)),
        r@.at() <= tokens.len(),
{
    proof {
        lemma_trees(tokens@);
    }
    let ghost s = trees(tokens@);
    let mut k: usize = tokens.len();
    loop
        invariant
            k <= tokens.len(),
            s == trees(tokens@),
            s.len() == tokens.len(),
            host_form(s),
            expression_end(s, s.len() as int) == expression_end(s, k as int),
        ensures
            k <= tokens.len(),
            expression_end(s, s.len() as int) == k,
        decreases k,
    {
        if k == 0 {
            break;
        }
        let prefix = copy_range(tokens, 0, k);
        proof {
            lemma_trees_subrange(tokens@, 0, k as int);
            lemma_host_form_subrange(s, 0, k as int);
        }
        match check_expression(&prefix) {
            Ok(()) => {
                break;
            },
            Err(_) => {},
        }
        k = k - 1;
    }
    if k == tokens.len() {
        ParseError::UnexpectedEndOfStream { at: k }
    } else {
        ParseError::UnexpectedToken {
            expected: String::from_str("`Insert (->>)`"),
            got: rest_text(tokens, k),
            at: k,
        }
    }
}

impl InputToken {
    /// Reads the tokens before the first insert marker as one expression;
    /// returns it with the marker's position.
    pub fn parse(tokens: &Vec<Token>) -> (r: Result<(InputToken, usize), ParseError>)
        requires
            host_form(trees(tokens@)),
        ensures
            match r {
                Ok((t, next)) => parse_input(trees(tokens@)) == Ok::<(Seq<TokenTree>, int), Fault>(
                    (trees(t.value@), next as int),
                ),
                Err(e) => {
                    &&& parse_input(trees(tokens@)) == Err::<(Seq<TokenTree>, int), Fault>(e@)
                    &&& e@.at() <= tokens.len()
                },
            },
    {
        proof {
            lemma_trees(tokens@);
        }
        let ghost s = trees(tokens@);
        let probe = |i: usize| -> (b: bool)
            requires
                i <= tokens.len(),
            ensures
                b == !insert_at(trees(tokens@), i as int),
            {
                match lookahead::<InsertToken>(tokens, i) {
                    Ok(_) => false,
                    Err(_) => true,
                }
            };
        let (stream, next) = match accumulate_while(tokens, 0, probe) {
            Ok(p) => p,
            Err(e) => {
                proof {
                    assert forall|i: int| 0 <= i < s.len() implies !#[trigger] insert_at(s, i) by {
                        assert(probe.ensures((i as usize,), true));
                    }
                    crate::grammar::lemma_first_insert_none(s, 0);
                }
                return Err(missing_insert(tokens));
            },
        };
        proof {
            assert(probe.ensures((next,), false));
            assert forall|i: int| 0 <= i < next implies !#[trigger] insert_at(s, i) by {
                assert(probe.ensures((i as usize,), true));
            }
            crate::grammar::lemma_first_insert_found(s, 0, next as int);
            lemma_trees_subrange(tokens@, 0, next as int);
            lemma_host_form_subrange(s, 0, next as int);
        }
        match check_expression(&stream) {
            Ok(()) => Ok((InputToken { value: stream }, next)),
            Err(e) => Err(e),
        }
    }
}

impl PipeToken {
    /// Parses `tokens` as `input ->> operand`.
    pub fn parse(tokens: &Vec<Token>) -> (r: Result<PipeToken, ParseError>)
        requires
            host_form(trees(tokens@)),
        ensures
            match r {
                Ok(p) => parse_pipe(trees(tokens@)) == Ok::<(Seq<TokenTree>, Term), Fault>(
                    (trees(p.input.value@), p.operation.term()),
                ),
                Err(e) => parse_pipe(trees(tokens@)) == Err::<(Seq<TokenTree>, Term), Fault>(e@),
            },
    {
        proof {
            lemma_trees(tokens@);
        }
        let ghost s = trees(tokens@);
        let (input, cursor) = match InputToken::parse(tokens) {
            Ok(p) => p,
            Err(e) => {
                return Err(e);
            },
        };
        proof {
            lemma_first_insert_fits(s, 0);
            assert(s.skip(cursor as int).subrange(0, 3) =~= s.subrange(cursor as int, cursor + 3));
        }
        let after = match InsertToken::parse(tokens, cursor) {
            Ok((_, after)) => after,
            Err(e) => {
                return Err(e);
            },
        };
        let rest = copy_range(tokens, after, tokens.len());
        proof {
            lemma_trees_subrange(tokens@, after as int, tokens@.len() as int);
            lemma_host_form_subrange(s, after as int, s.len() as int);
            lemma_trees(rest@);
        }
        match OperandToken::parse(&rest) {
            Ok(operation) => Ok(PipeToken { input, operation }),
            Err(e) => Err(e.shift(after)),
        }
    }
}

/// Rewrites `input ->> operand` into one nested-call expression, or reports
/// why the tokens do not have that form and at which token.
pub fn pipe(tokens: &Vec<Token>) -> (r: Result<Vec<Token>, ParseError>)
    requires
        host_form(trees(tokens@)),
    ensures
        match r {
            Ok(out) => pipe_output(trees(tokens@)) == Ok::<Seq<TokenTree>, Fault>(trees(out@)),
            Err(e) => pipe_output(trees(tokens@)) == Err::<Seq<TokenTree>, Fault>(e@),
        },
{
    match PipeToken::parse(tokens) {
        Ok(p) => {
            let PipeToken { input, operation } = p;
            Ok(OperandToken::resolve(operation, input.value))
        },
        Err(e) => Err(e),
    }
}

/// Rewrites `input ->> operand` as [`pipe`] does when the host can build
/// every token (see [`is_host_form`]); `None` when it cannot.
pub fn rewrite(tokens: &Vec<Token>) -> (r: Option<Result<Vec<Token>, ParseError>>)
    ensures
        r is None <==> !host_form(trees(tokens@)),
        match r {
            Some(Ok(out)) => pipe_output(trees(tokens@)) == Ok::<Seq<TokenTree>, Fault>(trees(out@)),
            Some(Err(e)) => pipe_output(trees(tokens@)) == Err::<Seq<TokenTree>, Fault>(e@),
            None => true,
        },
{
    if is_host_form(tokens) {
        Some(pipe(tokens))
    } else {
        None
    }
}

} // verus!
