use vstd::prelude::*;

use crate::error::Fault;
use crate::expr::expression_check;
use crate::grammar::{
    first_insert, first_operator, has_operator, inner, insert_at, lemma_first_insert_found,
    lemma_first_insert_none,
    lemma_first_operator_found, operator_at, operator_of, parse_operand, parse_operation,
    sole_paren, Term,
};
use crate::marker::{insert_expected, operator_expected, punct_is, starts_with2, OperatorToken};
use crate::parse::LookaheadToken;
use crate::text::text;
use crate::pipe::{call, expression_end, missing_insert_fault, parse_input, parse_pipe, pipe_output, resolve};
use crate::token::{Delimiter, TokenTree};

verus! {

broadcast use vstd::seq::group_seq_axioms;

/// Whether `m` spells the insert marker `->>`, with any spacing.
pub open spec fn is_insert_marker(m: Seq<TokenTree>) -> bool {
    m.len() == 3 && punct_is(m[0], '-') && punct_is(m[1], '>') && punct_is(m[2], '>')
}

/// Whether `m` spells the operator `op`, with any spacing.
pub open spec fn is_operator_marker(m: Seq<TokenTree>, op: OperatorToken) -> bool {
    m.len() == 2 && match op {
        OperatorToken::After => punct_is(m[0], '<') && punct_is(m[1], '|'),
        OperatorToken::Before => punct_is(m[0], '|') && punct_is(m[1], '>'),
    }
}

/// The tokens `( s )`.
pub open spec fn paren(s: Seq<TokenTree>) -> Seq<TokenTree> {
    seq![TokenTree::Group(Delimiter::Parenthesis, s)]
}

/// `s` wrapped in `n` pairs of parentheses.
pub open spec fn parens(s: Seq<TokenTree>, n: nat) -> Seq<TokenTree>
    decreases n,
{
    if n == 0 {
        s
    } else {
        paren(parens(s, (n - 1) as nat))
    }
}

/// Whether an insert marker starts anywhere at the top level of `s`.
pub open spec fn has_insert(s: Seq<TokenTree>) -> bool {
    exists|i: int| 0 <= i < s.len() && #[trigger] insert_at(s, i)
}

/// A callable operand: one expression with no top-level operator, and not a
/// sole parenthesized group.
pub open spec fn function_like(f: Seq<TokenTree>) -> bool {
    &&& !has_operator(f)
    &&& !sole_paren(f)
    &&& expression_check(f) is Ok
}

/// Whether `f` followed by the operator `op` keeps the operator where it
/// starts: a `<` at the end of `f` would read `< |>` as `<|`.
pub open spec fn joins(f: Seq<TokenTree>, op: OperatorToken) -> bool {
    op == OperatorToken::Before ==> !(f.len() > 0 && punct_is(f.last(), '<'))
}

/// A pipe input: one expression with no insert marker in it.
pub open spec fn pipe_input(x: Seq<TokenTree>) -> bool {
    !has_insert(x) && expression_check(x) is Ok
}

/// Two parse outcomes that rewrite every expression alike, or fail alike.
pub open spec fn rewrites_alike(a: Result<Term, Fault>, b: Result<Term, Fault>) -> bool {
    match (a, b) {
        (Ok(ta), Ok(tb)) => forall|x: Seq<TokenTree>| resolve(ta, x) == resolve(tb, x),
        (Err(ea), Err(eb)) => ea == eb,
        _ => false,
    }
}

/// An operand with no top-level operator, followed by an operator, splits
/// where the operator starts.
proof fn lemma_split(h: Seq<TokenTree>, op: OperatorToken, m: Seq<TokenTree>, r: Seq<TokenTree>)
    requires
        is_operator_marker(m, op),
        !has_operator(h),
        joins(h, op),
    ensures
        ({
            let s = h + m + r;
            &&& first_operator(s, 0) == Some(h.len() as int)
            &&& operator_of(s, h.len() as int) == op
            &&& has_operator(s)
            &&& !sole_paren(s)
            &&& s.subrange(0, h.len() as int) == h
            &&& s.subrange(h.len() as int + 2, s.len() as int) == r
        }),
{
    let s = h + m + r;
    assert forall|i: int| 0 <= i < h.len() implies !#[trigger] operator_at(s, i) by {
        if i + 2 <= h.len() {
            assert(s.subrange(i, i + 2) =~= h.subrange(i, i + 2));
            assert(!operator_at(h, i));
        } else {
            assert(s.subrange(i, i + 2)[0] == h.last());
            assert(s.subrange(i, i + 2)[1] == m[0]);
        }
    }
    assert(s.subrange(h.len() as int, h.len() as int + 2) =~= m);
    assert(operator_at(s, h.len() as int));
    lemma_first_operator_found(s, 0, h.len() as int);
    assert(s.subrange(0, h.len() as int) =~= h);
    assert(s.subrange(h.len() as int + 2, s.len() as int) =~= r);
}

/// A callable operand parses as itself.
pub proof fn law_function_operand(f: Seq<TokenTree>)
    requires
        function_like(f),
    ensures
        parse_operand(f) == Ok::<Term, Fault>(Term::Function(f)),
{
}

/// An operation made of a callable, an operator and a rest parses as the
/// callable, the operator, and the rest read as an operand.
pub proof fn law_operation_split(
    h: Seq<TokenTree>,
    op: OperatorToken,
    m: Seq<TokenTree>,
    r: Seq<TokenTree>,
)
    requires
        is_operator_marker(m, op),
        function_like(h),
        joins(h, op),
    ensures
        parse_operation(h + m + r) == match parse_operand(r) {
            Ok(t) => Ok::<Term, Fault>(
                Term::Operation(Box::new(Term::Function(h)), op, Box::new(t)),
            ),
            Err(e) => Err(e.shift(h.len() as int + 2)),
        },
        parse_operand(h + m + r) == parse_operation(h + m + r),
{
    lemma_split(h, op, m, r);
    law_function_operand(h);
    let s = h + m + r;
    assert(s.len() == h.len() + 2 + r.len());
    assert(parse_operation(s) == match parse_operand(s.subrange(0, h.len() as int)) {
        Err(e) => Err(e),
        Ok(l) => match parse_operand(s.subrange(h.len() as int + 2, s.len() as int)) {
            Err(e) => Err(e.shift(h.len() as int + 2)),
            Ok(t) => Ok::<Term, Fault>(Term::Operation(Box::new(l), operator_of(s, h.len() as int), Box::new(t))),
        },
    });
}


/// An input with no insert marker, followed by the marker, splits where the
/// marker starts, and the rest is read as the operand; its faults lie after
/// the marker.
pub proof fn law_pipe_split(x: Seq<TokenTree>, m: Seq<TokenTree>, ops: Seq<TokenTree>)
    requires
        is_insert_marker(m),
        pipe_input(x),
    ensures
        parse_pipe(x + m + ops) == match parse_operand(ops) {
            Ok(t) => Ok::<(Seq<TokenTree>, Term), Fault>((x, t)),
            Err(e) => Err(e.shift(x.len() as int + 3)),
        },
{
    let s = x + m + ops;
    assert forall|i: int| 0 <= i < x.len() implies !#[trigger] insert_at(s, i) by {
        if i + 3 <= x.len() {
            assert(s.subrange(i, i + 3) =~= x.subrange(i, i + 3));
            assert(!insert_at(x, i));
        } else if i + 2 == x.len() {
            assert(s.subrange(i, i + 3)[2] == m[0]);
        } else {
            assert(s.subrange(i, i + 3)[1] == m[0]);
        }
    }
    assert(s.subrange(x.len() as int, x.len() as int + 3) =~= m);
    assert(insert_at(s, x.len() as int));
    lemma_first_insert_found(s, 0, x.len() as int);
    assert(s.subrange(0, x.len() as int) =~= x);
    assert(s.subrange(x.len() as int + 3, s.len() as int) =~= ops);
}

/// A single callable rewrites an expression `x` to `(f)(x)`.
pub proof fn law_single_function(x: Seq<TokenTree>, f: Seq<TokenTree>)
    requires
        function_like(f),
    ensures
        parse_operand(f) == Ok::<Term, Fault>(Term::Function(f)),
        resolve(Term::Function(f), x) == call(f, x),
{
}

/// `x ->> f` with a single callable rewrites to `(f)(x)`.
pub proof fn law_single_function_pipe(x: Seq<TokenTree>, m: Seq<TokenTree>, f: Seq<TokenTree>)
    requires
        is_insert_marker(m),
        pipe_input(x),
        function_like(f),
    ensures
        pipe_output(x + m + f) == Ok::<Seq<TokenTree>, Fault>(call(f, x)),
{
    law_pipe_split(x, m, f);
    law_function_operand(f);
}

/// `x ->> h <| g <| f` rewrites to `(h)((g)((f)(x)))`.
pub proof fn law_after_chain(
    x: Seq<TokenTree>,
    i: Seq<TokenTree>,
    a: Seq<TokenTree>,
    h: Seq<TokenTree>,
    g: Seq<TokenTree>,
    f: Seq<TokenTree>,
)
    requires
        pipe_input(x),
        is_insert_marker(i),
        is_operator_marker(a, OperatorToken::After),
        function_like(h),
        function_like(g),
        function_like(f),
    ensures
        pipe_output(x + i + h + a + g + a + f) == Ok::<Seq<TokenTree>, Fault>(
            call(h, call(g, call(f, x))),
        ),
{
    let rest = g + a + f;
    let ops = h + a + rest;
    assert(x + i + h + a + g + a + f =~= x + i + ops);
    law_pipe_split(x, i, ops);
    law_operation_split(h, OperatorToken::After, a, rest);
    law_operation_split(g, OperatorToken::After, a, f);
    law_function_operand(f);
    let inner_t = Term::Operation(
        Box::new(Term::Function(g)),
        OperatorToken::After,
        Box::new(Term::Function(f)),
    );
    let t = Term::Operation(Box::new(Term::Function(h)), OperatorToken::After, Box::new(inner_t));
    assert(parse_operand(rest) == Ok::<Term, Fault>(inner_t));
    assert(parse_operand(ops) == Ok::<Term, Fault>(t));
    assert(resolve(Term::Function(f), x) == call(f, x));
    assert(resolve(Term::Function(g), call(f, x)) == call(g, call(f, x)));
    assert(resolve(Term::Function(h), call(g, call(f, x))) == call(h, call(g, call(f, x))));
    assert(resolve(inner_t, x) == call(g, call(f, x)));
    assert(resolve(t, x) == call(h, call(g, call(f, x))));
}

/// `x ->> f |> g |> h` rewrites to `(h)((g)((f)(x)))`.
pub proof fn law_before_chain(
    x: Seq<TokenTree>,
    i: Seq<TokenTree>,
    b: Seq<TokenTree>,
    f: Seq<TokenTree>,
    g: Seq<TokenTree>,
    h: Seq<TokenTree>,
)
    requires
        pipe_input(x),
        is_insert_marker(i),
        is_operator_marker(b, OperatorToken::Before),
        function_like(f),
        function_like(g),
        function_like(h),
        joins(f, OperatorToken::Before),
        joins(g, OperatorToken::Before),
    ensures
        pipe_output(x + i + f + b + g + b + h) == Ok::<Seq<TokenTree>, Fault>(
            call(h, call(g, call(f, x))),
        ),
{
    let rest = g + b + h;
    let ops = f + b + rest;
    assert(x + i + f + b + g + b + h =~= x + i + ops);
    law_pipe_split(x, i, ops);
    law_operation_split(f, OperatorToken::Before, b, rest);
    law_operation_split(g, OperatorToken::Before, b, h);
    law_function_operand(h);
    let inner_t = Term::Operation(
        Box::new(Term::Function(g)),
        OperatorToken::Before,
        Box::new(Term::Function(h)),
    );
    let t = Term::Operation(Box::new(Term::Function(f)), OperatorToken::Before, Box::new(inner_t));
    assert(parse_operand(rest) == Ok::<Term, Fault>(inner_t));
    assert(parse_operand(ops) == Ok::<Term, Fault>(t));
    assert(resolve(Term::Function(f), x) == call(f, x));
    assert(resolve(Term::Function(g), call(f, x)) == call(g, call(f, x)));
    assert(resolve(Term::Function(h), call(g, call(f, x))) == call(h, call(g, call(f, x))));
    assert(resolve(t, x) == resolve(inner_t, call(f, x)));
    assert(resolve(inner_t, call(f, x)) == call(h, call(g, call(f, x))));
}

/// The callables `fs` joined by the operator tokens `m`.
pub open spec fn chain(fs: Seq<Seq<TokenTree>>, m: Seq<TokenTree>) -> Seq<TokenTree>
    decreases fs.len(),
{
    if fs.len() <= 1 {
        if fs.len() == 1 {
            fs[0]
        } else {
            Seq::empty()
        }
    } else {
        fs[0] + m + chain(fs.drop_first(), m)
    }
}

/// `(f1)((f2)(...(fn)(x)))`: the callables applied from the last to the first.
pub open spec fn apply_last_first(fs: Seq<Seq<TokenTree>>, x: Seq<TokenTree>) -> Seq<TokenTree>
    decreases fs.len(),
{
    if fs.len() == 0 {
        x
    } else {
        call(fs[0], apply_last_first(fs.drop_first(), x))
    }
}

/// `(fn)(...(f2)((f1)(x)))`: the callables applied from the first to the last.
pub open spec fn apply_first_last(fs: Seq<Seq<TokenTree>>, x: Seq<TokenTree>) -> Seq<TokenTree>
    decreases fs.len(),
{
    if fs.len() == 0 {
        x
    } else {
        apply_first_last(fs.drop_first(), call(fs[0], x))
    }
}

/// What a chain of callables rewrites `x` to, by operator.
pub open spec fn chain_output(fs: Seq<Seq<TokenTree>>, op: OperatorToken, x: Seq<TokenTree>) -> Seq<
    TokenTree,
> {
    match op {
        OperatorToken::After => apply_last_first(fs, x),
        OperatorToken::Before => apply_first_last(fs, x),
    }
}

/// A chain of callables parses as an operand that rewrites every expression
/// as the chain's operator orders the callables.
pub proof fn law_chain_operand(fs: Seq<Seq<TokenTree>>, op: OperatorToken, m: Seq<TokenTree>)
    requires
        is_operator_marker(m, op),
        fs.len() >= 1,
        forall|i: int| 0 <= i < fs.len() ==> function_like(#[trigger] fs[i]) && joins(fs[i], op),
    ensures
        parse_operand(chain(fs, m)) is Ok,
        forall|x: Seq<TokenTree>|
            resolve(parse_operand(chain(fs, m))->Ok_0, x) == #[trigger] chain_output(fs, op, x),
    decreases fs.len(),
{
    if fs.len() == 1 {
        law_function_operand(fs[0]);
        assert forall|x: Seq<TokenTree>|
            resolve(parse_operand(chain(fs, m))->Ok_0, x) == #[trigger] chain_output(fs, op, x) by {
            assert(fs.drop_first().len() == 0);
            assert(apply_last_first(fs.drop_first(), x) == x);
            assert(apply_first_last(fs.drop_first(), call(fs[0], x)) == call(fs[0], x));
        }
    } else {
        let rest = fs.drop_first();
        assert forall|i: int| 0 <= i < rest.len() implies function_like(#[trigger] rest[i]) && joins(
            rest[i],
            op,
        ) by {
            assert(rest[i] == fs[i + 1]);
        }
        law_chain_operand(rest, op, m);
        law_operation_split(fs[0], op, m, chain(rest, m));
        let tr = parse_operand(chain(rest, m))->Ok_0;
        let t = Term::Operation(Box::new(Term::Function(fs[0])), op, Box::new(tr));
        assert(parse_operand(chain(fs, m)) == Ok::<Term, Fault>(t));
        assert forall|x: Seq<TokenTree>| resolve(t, x) == #[trigger] chain_output(fs, op, x) by {
            assert(resolve(tr, x) == chain_output(rest, op, x));
            assert(resolve(tr, call(fs[0], x)) == chain_output(rest, op, call(fs[0], x)));
            assert(resolve(Term::Function(fs[0]), x) == call(fs[0], x));
            assert(resolve(Term::Function(fs[0]), resolve(tr, x)) == call(fs[0], resolve(tr, x)));
        }
    }
}

/// `x ->> f1 <| ... <| fn` rewrites to `(f1)(...(fn)(x))`, and
/// `x ->> f1 |> ... |> fn` to `(fn)(...(f1)(x))`, for chains of any length.
pub proof fn law_chain_pipe(
    x: Seq<TokenTree>,
    i: Seq<TokenTree>,
    fs: Seq<Seq<TokenTree>>,
    op: OperatorToken,
    m: Seq<TokenTree>,
)
    requires
        pipe_input(x),
        is_insert_marker(i),
        is_operator_marker(m, op),
        fs.len() >= 1,
        forall|i: int| 0 <= i < fs.len() ==> function_like(#[trigger] fs[i]) && joins(fs[i], op),
    ensures
        pipe_output(x + i + chain(fs, m)) == Ok::<Seq<TokenTree>, Fault>(
            chain_output(fs, op, x),
        ),
{
    law_chain_operand(fs, op, m);
    law_pipe_split(x, i, chain(fs, m));
}

/// Text at a marker position other than `<|` or `|>` is reported as an
/// unexpected token, with the text that stood there.
pub proof fn law_malformed_operator(s: Seq<TokenTree>)
    requires
        !starts_with2(s, '<', '|'),
        !starts_with2(s, '|', '>'),
    ensures
        OperatorToken::recognize(s) == Err::<OperatorToken, Fault>(
            Fault::Token { expected: operator_expected(), got: text(s), at: 0 },
        ),
{
}

/// Without an insert marker the pipe is refused where the marker was
/// expected: after the longest prefix that is one expression. When a token
/// stands there it is reported with the text found there; otherwise the
/// stream has ended there.
pub proof fn law_missing_insert(s: Seq<TokenTree>)
    requires
        !has_insert(s),
    ensures
        ({
            let k = expression_end(s, s.len() as int);
            &&& missing_insert_fault(s).at() == k
            &&& k < s.len() ==> missing_insert_fault(s) == Fault::Token {
                expected: insert_expected(),
                got: text(s.skip(k)),
                at: k,
            }
            &&& parse_input(s) == Err::<(Seq<TokenTree>, int), Fault>(missing_insert_fault(s))
            &&& pipe_output(s) == Err::<Seq<TokenTree>, Fault>(missing_insert_fault(s))
        }),
{
    assert forall|i: int| 0 <= i < s.len() implies !#[trigger] insert_at(s, i) by {}
    lemma_first_insert_none(s, 0);
}

/// Parentheses around a whole operand that parses change no rewrite.
pub proof fn law_parenthesized_operand(s: Seq<TokenTree>)
    requires
        parse_operand(s) is Ok,
    ensures
        rewrites_alike(parse_operand(paren(s)), parse_operand(s)),
        parse_operand(paren(s)) == Ok::<Term, Fault>(
            Term::Parenthesized(Box::new(parse_operand(s)->Ok_0)),
        ),
{
    let p = paren(s);
    assert(sole_paren(p));
    assert(inner(p[0]) == s);
    let t = parse_operand(s)->Ok_0;
    assert forall|x: Seq<TokenTree>|
        resolve(Term::Parenthesized(Box::new(t)), x) == #[trigger] resolve(t, x) by {}
}

/// Parentheses around a whole operation that parses change nothing.
pub proof fn law_parenthesized_operation(s: Seq<TokenTree>)
    requires
        parse_operation(s) is Ok,
    ensures
        parse_operation(paren(s)) == parse_operation(s),
{
    let p = paren(s);
    assert(sole_paren(p));
    assert(inner(p[0]) == s);
}

/// Parentheses around the whole operand of a pipe that parses change no
/// output.
pub proof fn law_parenthesized_pipe(x: Seq<TokenTree>, m: Seq<TokenTree>, ops: Seq<TokenTree>)
    requires
        is_insert_marker(m),
        pipe_input(x),
        parse_operand(ops) is Ok,
    ensures
        pipe_output(x + m + paren(ops)) == pipe_output(x + m + ops),
{
    law_pipe_split(x, m, ops);
    law_pipe_split(x, m, paren(ops));
    law_parenthesized_operand(ops);
    assert(resolve(parse_operand(paren(ops))->Ok_0, x) == resolve(parse_operand(ops)->Ok_0, x));
}

/// Any number of parentheses around the whole operand of a pipe that parses
/// change no output.
pub proof fn law_nested_parens_pipe(x: Seq<TokenTree>, m: Seq<TokenTree>, ops: Seq<TokenTree>, n: nat)
    requires
        is_insert_marker(m),
        pipe_input(x),
        parse_operand(ops) is Ok,
    ensures
        pipe_output(x + m + parens(ops, n)) == pipe_output(x + m + ops),
{
    law_pipe_split(x, m, ops);
    law_pipe_split(x, m, parens(ops, n));
    law_nested_parens(ops, n);
    assert(resolve(parse_operand(parens(ops, n))->Ok_0, x) == resolve(parse_operand(ops)->Ok_0, x));
}

/// Parentheses around the left-hand operand of an operation whose operands
/// parse change no rewrite.
pub proof fn law_parenthesized_lhs(
    l: Seq<TokenTree>,
    op: OperatorToken,
    m: Seq<TokenTree>,
    r: Seq<TokenTree>,
)
    requires
        is_operator_marker(m, op),
        parse_operand(l) is Ok,
        parse_operand(r) is Ok,
        !has_operator(l),
        joins(l, op),
    ensures
        rewrites_alike(
            parse_operation(paren(l) + m + r),
            parse_operation(l + m + r),
        ),
{
    let p = paren(l);
    assert forall|i: int| 0 <= i < p.len() implies !#[trigger] operator_at(p, i) by {}
    assert(joins(p, op));
    lemma_split(l, op, m, r);
    lemma_split(p, op, m, r);
    law_parenthesized_operand(l);
    let a = p + m + r;
    let b = l + m + r;
    assert(a.len() == p.len() + 2 + r.len());
    assert(b.len() == l.len() + 2 + r.len());
    match (parse_operand(p), parse_operand(l), parse_operand(r)) {
        (Ok(tp), Ok(tl), Ok(tr)) => {
            let ta = Term::Operation(Box::new(tp), op, Box::new(tr));
            let tb = Term::Operation(Box::new(tl), op, Box::new(tr));
            assert(parse_operation(a) == Ok::<Term, Fault>(ta));
            assert(parse_operation(b) == Ok::<Term, Fault>(tb));
            assert forall|x: Seq<TokenTree>| #[trigger] resolve(ta, x) == resolve(tb, x) by {
                assert(resolve(tp, resolve(tr, x)) == resolve(tl, resolve(tr, x)));
                assert(resolve(tp, x) == resolve(tl, x));
            }
        },
        _ => {},
    }
}

/// Parentheses around the right-hand operand of an operation whose operands
/// parse change no rewrite.
pub proof fn law_parenthesized_rhs(
    l: Seq<TokenTree>,
    op: OperatorToken,
    m: Seq<TokenTree>,
    r: Seq<TokenTree>,
)
    requires
        is_operator_marker(m, op),
        parse_operand(l) is Ok,
        parse_operand(r) is Ok,
        !has_operator(l),
        joins(l, op),
    ensures
        rewrites_alike(
            parse_operation(l + m + paren(r)),
            parse_operation(l + m + r),
        ),
{
    let p = paren(r);
    lemma_split(l, op, m, r);
    lemma_split(l, op, m, p);
    law_parenthesized_operand(r);
    let a = l + m + p;
    let b = l + m + r;
    assert(a.len() == l.len() + 2 + p.len());
    assert(b.len() == l.len() + 2 + r.len());
    match (parse_operand(l), parse_operand(p), parse_operand(r)) {
        (Ok(tl), Ok(tp), Ok(tr)) => {
            let ta = Term::Operation(Box::new(tl), op, Box::new(tp));
            let tb = Term::Operation(Box::new(tl), op, Box::new(tr));
            assert(parse_operation(a) == Ok::<Term, Fault>(ta));
            assert(parse_operation(b) == Ok::<Term, Fault>(tb));
            assert forall|x: Seq<TokenTree>| #[trigger] resolve(ta, x) == resolve(tb, x) by {
                assert(resolve(tp, resolve(tl, x)) == resolve(tr, resolve(tl, x)));
                assert(resolve(tp, x) == resolve(tr, x));
            }
        },
        _ => {},
    }
}

/// Any number of parentheses around a whole operand that parses change no
/// rewrite.
pub proof fn law_nested_parens(s: Seq<TokenTree>, n: nat)
    requires
        parse_operand(s) is Ok,
    ensures
        parse_operand(parens(s, n)) is Ok,
        rewrites_alike(parse_operand(parens(s, n)), parse_operand(s)),
    decreases n,
{
    if n == 0 {
        let t = parse_operand(s)->Ok_0;
        assert forall|x: Seq<TokenTree>| resolve(t, x) == #[trigger] resolve(t, x) by {}
    } else {
        let below = parens(s, (n - 1) as nat);
        law_nested_parens(s, (n - 1) as nat);
        law_parenthesized_operand(below);
        let a = parse_operand(parens(s, n))->Ok_0;
        let b = parse_operand(below)->Ok_0;
        let c = parse_operand(s)->Ok_0;
        assert forall|x: Seq<TokenTree>| #[trigger] resolve(a, x) == resolve(c, x) by {
            assert(resolve(a, x) == resolve(b, x));
            assert(resolve(b, x) == resolve(c, x));
        }
    }
}

/// `t` with the subterm reached by `path` wrapped in parentheses; each step
/// goes to the right-hand operand when true, to the left-hand one or the
/// inner operand otherwise.
pub open spec fn wrap_at(t: Term, path: Seq<bool>) -> Term
    decreases path.len(),
{
    if path.len() == 0 {
        Term::Parenthesized(Box::new(t))
    } else {
        match t {
            Term::Operation(l, op, r) => if path[0] {
                Term::Operation(l, op, Box::new(wrap_at(*r, path.drop_first())))
            } else {
                Term::Operation(Box::new(wrap_at(*l, path.drop_first())), op, r)
            },
            Term::Parenthesized(i) => Term::Parenthesized(Box::new(wrap_at(*i, path.drop_first()))),
            Term::Function(_) => t,
        }
    }
}

/// Parentheses around any subterm, at any depth of an operation, change no
/// rewrite.
pub proof fn law_wrap_anywhere(t: Term, path: Seq<bool>, x: Seq<TokenTree>)
    ensures
        resolve(wrap_at(t, path), x) == resolve(t, x),
    decreases path.len(),
{
    if path.len() > 0 {
        match t {
            Term::Operation(l, op, r) => {
                law_wrap_anywhere(*l, path.drop_first(), x);
                law_wrap_anywhere(*r, path.drop_first(), x);
                law_wrap_anywhere(*l, path.drop_first(), resolve(*r, x));
                law_wrap_anywhere(*r, path.drop_first(), resolve(*l, x));
                if path[0] {
                    assert(resolve(wrap_at(t, path), x) == match op {
                        OperatorToken::After => resolve(*l, resolve(wrap_at(*r, path.drop_first()), x)),
                        OperatorToken::Before => resolve(wrap_at(*r, path.drop_first()), resolve(*l, x)),
                    });
                } else {
                    assert(resolve(wrap_at(t, path), x) == match op {
                        OperatorToken::After => resolve(wrap_at(*l, path.drop_first()), resolve(*r, x)),
                        OperatorToken::Before => resolve(*r, resolve(wrap_at(*l, path.drop_first()), x)),
                    });
                }
            },
            Term::Parenthesized(i) => {
                law_wrap_anywhere(*i, path.drop_first(), x);
            },
            Term::Function(_) => {},
        }
    }
}

/// The first operator found by a scan starts where no earlier one does, and
/// fits in the sequence.
proof fn lemma_first_operator_fits(s: Seq<TokenTree>, j: int)
    requires
        0 <= j,
    ensures
        match first_operator(s, j) {
            Some(k) => {
                &&& j <= k
                &&& k + 2 <= s.len()
                &&& operator_at(s, k)
                &&& forall|i: int| j <= i < k ==> !#[trigger] operator_at(s, i)
            },
            None => forall|i: int| j <= i < s.len() ==> !#[trigger] operator_at(s, i),
        },
    decreases s.len() - j,
{
    if j < s.len() && !operator_at(s, j) {
        lemma_first_operator_fits(s, j + 1);
    }
}

/// `s` with the operand reached by `path` wrapped in `n` pairs of
/// parentheses. Each step enters a parenthesized operand, or goes to the
/// right-hand operand of an operation when true and to its left-hand one
/// otherwise; a step that finds neither leaves `s` as it is.
pub open spec fn wrap_operand(s: Seq<TokenTree>, path: Seq<bool>, n: nat) -> Seq<TokenTree>
    decreases path.len(),
{
    if path.len() == 0 {
        parens(s, n)
    } else if sole_paren(s) && parse_operand(inner(s[0])) is Ok {
        paren(wrap_operand(inner(s[0]), path.drop_first(), n))
    } else if has_operator(s) && first_operator(s, 0) is Some {
        let k = first_operator(s, 0)->Some_0;
        if 0 <= k && k + 2 <= s.len() {
            if path[0] {
                s.subrange(0, k + 2) + wrap_operand(
                    s.subrange(k + 2, s.len() as int),
                    path.drop_first(),
                    n,
                )
            } else {
                wrap_operand(s.subrange(0, k), path.drop_first(), n) + s.subrange(k, s.len() as int)
            }
        } else {
            s
        }
    } else {
        s
    }
}

/// Wrapping an operand with no top-level operator leaves it as it is or
/// makes it one parenthesized group.
proof fn lemma_wrap_plain(l: Seq<TokenTree>, path: Seq<bool>, n: nat)
    requires
        !has_operator(l),
    ensures
        wrap_operand(l, path, n) == l || (wrap_operand(l, path, n).len() == 1 && wrap_operand(
            l,
            path,
            n,
        )[0] is Group),
{
    if path.len() == 0 && n > 0 {
        assert(parens(l, n) == paren(parens(l, (n - 1) as nat)));
    }
}

/// Parentheses, any number of pairs, around any operand of an operand that
/// parses change no rewrite.
pub proof fn law_wrap_operand(s: Seq<TokenTree>, path: Seq<bool>, n: nat)
    requires
        parse_operand(s) is Ok,
    ensures
        parse_operand(wrap_operand(s, path, n)) is Ok,
        rewrites_alike(parse_operand(wrap_operand(s, path, n)), parse_operand(s)),
    decreases path.len(),
{
    let w = wrap_operand(s, path, n);
    let t = parse_operand(s)->Ok_0;
    if path.len() == 0 {
        law_nested_parens(s, n);
    } else if sole_paren(s) && parse_operand(inner(s[0])) is Ok {
        let c = inner(s[0]);
        let wc = wrap_operand(c, path.drop_first(), n);
        law_wrap_operand(c, path.drop_first(), n);
        law_parenthesized_operand(wc);
        assert(inner(paren(wc)[0]) == wc);
        let tc = parse_operand(c)->Ok_0;
        let twc = parse_operand(wc)->Ok_0;
        assert(t == Term::Parenthesized(Box::new(tc)));
        assert(parse_operand(w) == Ok::<Term, Fault>(Term::Parenthesized(Box::new(twc))));
        assert forall|x: Seq<TokenTree>|
            #[trigger] resolve(parse_operand(w)->Ok_0, x) == resolve(t, x) by {
            assert(resolve(twc, x) == resolve(tc, x));
        }
    } else if has_operator(s) && first_operator(s, 0) is Some {
        lemma_first_operator_fits(s, 0);
        let k = first_operator(s, 0)->Some_0;
        let l = s.subrange(0, k);
        let m = s.subrange(k, k + 2);
        let r = s.subrange(k + 2, s.len() as int);
        assert(s.len() >= 2);
        assert(!sole_paren(s));
        assert(parse_operand(s) == parse_operation(s));
        let tl = parse_operand(l)->Ok_0;
        let tr = parse_operand(r)->Ok_0;
        let op = operator_of(s, k);
        assert(parse_operand(l) is Ok);
        assert(parse_operand(r) is Ok);
        assert(t == Term::Operation(Box::new(tl), op, Box::new(tr)));
        if path[0] {
            let wr = wrap_operand(r, path.drop_first(), n);
            law_wrap_operand(r, path.drop_first(), n);
            assert(w == s.subrange(0, k + 2) + wr);
            assert forall|i: int| 0 <= i < k implies !#[trigger] operator_at(w, i) by {
                assert(!operator_at(s, i));
                assert(w.subrange(i, i + 2) =~= s.subrange(i, i + 2));
            }
            assert(w.subrange(k, k + 2) =~= s.subrange(k, k + 2));
            assert(operator_at(w, k));
            lemma_first_operator_found(w, 0, k);
            assert(w.subrange(0, k) =~= l);
            assert(w.subrange(k + 2, w.len() as int) =~= wr);
            assert(has_operator(w));
            assert(operator_of(w, k) == op);
            let twr = parse_operand(wr)->Ok_0;
            assert(w.len() >= k + 2);
            assert(!sole_paren(w));
            assert(parse_operand(w) == parse_operation(w));
            assert(parse_operand(w.subrange(0, k)) == Ok::<Term, Fault>(tl));
            assert(parse_operand(w.subrange(k + 2, w.len() as int)) == Ok::<Term, Fault>(twr));
            assert(parse_operand(w) == Ok::<Term, Fault>(
                Term::Operation(Box::new(tl), op, Box::new(twr)),
            ));
            assert forall|x: Seq<TokenTree>|
                #[trigger] resolve(parse_operand(w)->Ok_0, x) == resolve(t, x) by {
                assert(resolve(twr, x) == resolve(tr, x));
                assert(resolve(twr, resolve(tl, x)) == resolve(tr, resolve(tl, x)));
            }
        } else {
            let wl = wrap_operand(l, path.drop_first(), n);
            assert forall|i: int| 0 <= i < l.len() implies !#[trigger] operator_at(l, i) by {
                if i + 2 <= l.len() {
                    assert(l.subrange(i, i + 2) =~= s.subrange(i, i + 2));
                    assert(!operator_at(s, i));
                }
            }
            lemma_wrap_plain(l, path.drop_first(), n);
            law_wrap_operand(l, path.drop_first(), n);
            assert(w == wl + s.subrange(k, s.len() as int));
            if wl == l {
                assert(w =~= s);
                assert forall|x: Seq<TokenTree>|
                    #[trigger] resolve(parse_operand(w)->Ok_0, x) == resolve(t, x) by {}
            } else {
                let rest = s.subrange(k, s.len() as int);
                assert(!operator_at(w, 0));
                assert(w.subrange(1, 3) =~= s.subrange(k, k + 2));
                assert(operator_at(w, 1));
                lemma_first_operator_found(w, 0, 1);
                assert(w.subrange(0, 1) =~= wl);
                assert(w.subrange(3, w.len() as int) =~= r);
                assert(has_operator(w));
                assert(!sole_paren(w));
                assert(operator_of(w, 1) == op);
                let twl = parse_operand(wl)->Ok_0;
                assert(w.len() >= 3);
                assert(parse_operand(w) == parse_operation(w));
                assert(parse_operand(w.subrange(0, 1)) == Ok::<Term, Fault>(twl));
                assert(parse_operand(w.subrange(3, w.len() as int)) == Ok::<Term, Fault>(tr));
                assert(parse_operand(w) == Ok::<Term, Fault>(
                    Term::Operation(Box::new(twl), op, Box::new(tr)),
                ));
                assert forall|x: Seq<TokenTree>|
                    #[trigger] resolve(parse_operand(w)->Ok_0, x) == resolve(t, x) by {
                    assert(resolve(twl, x) == resolve(tl, x));
                    assert(resolve(twl, resolve(tr, x)) == resolve(tl, resolve(tr, x)));
                }
            }
        }
    } else {
        assert forall|x: Seq<TokenTree>|
            #[trigger] resolve(parse_operand(w)->Ok_0, x) == resolve(t, x) by {}
    }
}

/// Parentheses, any number of pairs, around any operand of a pipe whose
/// operand parses change no output.
pub proof fn law_wrap_operand_pipe(
    x: Seq<TokenTree>,
    m: Seq<TokenTree>,
    ops: Seq<TokenTree>,
    path: Seq<bool>,
    n: nat,
)
    requires
        pipe_input(x),
        is_insert_marker(m),
        parse_operand(ops) is Ok,
    ensures
        pipe_output(x + m + wrap_operand(ops, path, n)) == pipe_output(x + m + ops),
{
    law_pipe_split(x, m, ops);
    law_pipe_split(x, m, wrap_operand(ops, path, n));
    law_wrap_operand(ops, path, n);
    assert(resolve(parse_operand(wrap_operand(ops, path, n))->Ok_0, x) == resolve(
        parse_operand(ops)->Ok_0,
        x,
    ));
}

} // verus!
