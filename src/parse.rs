use vstd::prelude::*;

use crate::error::{Fault, ParseError};
use crate::token::{copy_range, trees, Token, TokenTree};

verus! {

/// Reads tokens from `cursor` on while `predicate` holds at the current
/// position, and returns them with the position where it stopped. Fails when
/// the sequence runs out while the predicate still holds.
pub fn accumulate_while<F: Fn(usize) -> bool>(tokens: &Vec<Token>, cursor: usize, predicate: F) -> (r:
    Result<(Vec<Token>, usize), ParseError>)
    requires
        cursor <= tokens.len(),
        forall|i: usize| cursor <= i <= tokens.len() ==> #[trigger] predicate.requires((i,)),
    ensures
        match r {
            Ok((out, next)) => {
                &&& cursor <= next <= tokens.len()
                &&& trees(out@) == trees(tokens@.subrange(cursor as int, next as int))
                &&& predicate.ensures((next,), false)
                &&& forall|i: usize|
                    cursor <= i < next ==> #[trigger] predicate.ensures((i,), true)
            },
            Err(e) => {
                &&& e@ == Fault::EndOfStream { at: tokens.len() as int }
                &&& forall|i: usize|
                    cursor <= i <= tokens.len() ==> #[trigger] predicate.ensures((i,), true)
            },
        },
{
    let mut current: usize = cursor;
    loop
        invariant
            cursor <= current <= tokens.len(),
            forall|i: usize| cursor <= i <= tokens.len() ==> #[trigger] predicate.requires((i,)),
            forall|i: usize| cursor <= i < current ==> #[trigger] predicate.ensures((i,), true),
        ensures
            cursor <= current <= tokens.len(),
            predicate.ensures((current,), false),
            forall|i: usize| cursor <= i < current ==> #[trigger] predicate.ensures((i,), true),
        decreases tokens.len() - current,
    {
        let more = predicate(current);
        if !more {
            break;
        }
        if current == tokens.len() {
            return Err(ParseError::UnexpectedEndOfStream { at: current });
        }
        current = current + 1;
    }
    let out = copy_range(tokens, cursor, current);
    Ok((out, current))
}

/// What a scan for marker `T` at `cursor` yields: the marker and the
/// position after its span, when its span fits and parses as `T`.
pub open spec fn lookahead_outcome<T: LookaheadToken>(s: Seq<TokenTree>, cursor: int) -> Result<
    (T, int),
    Fault,
> {
    if cursor + T::width() > s.len() {
        Err(Fault::EndOfStream { at: s.len() as int })
    } else {
        match T::recognize(s.subrange(cursor, cursor + T::width())) {
            Ok(v) => Ok((v, cursor + T::width())),
            Err(e) => Err(e.shift(cursor)),
        }
    }
}

/// A marker of a fixed number of tokens that can be probed for without
/// committing the scan.
pub trait LookaheadToken: Sized {
    /// The number of tokens the marker spans.
    spec fn width() -> nat;

    /// What parsing the marker at the start of `s` yields; a fault lies at
    /// the start.
    spec fn recognize(s: Seq<TokenTree>) -> Result<Self, Fault>;

    /// The number of tokens the marker spans.
    fn size() -> (r: usize)
        ensures
            r == Self::width(),
    ;

    /// Parses the marker at `cursor`, returning the position after it.
    fn parse(tokens: &Vec<Token>, cursor: usize) -> (r: Result<(Self, usize), ParseError>)
        requires
            cursor <= tokens.len(),
        ensures
            match r {
                Ok((v, next)) => {
                    &&& Self::recognize(trees(tokens@).skip(cursor as int)) == Ok::<Self, Fault>(v)
                    &&& next == cursor + Self::width()
                    &&& next <= tokens.len()
                },
                Err(e) => {
                    &&& Self::recognize(trees(tokens@).skip(cursor as int)) is Err
                    &&& e@ == Self::recognize(trees(tokens@).skip(cursor as int))->Err_0.shift(
                        cursor as int,
                    )
                    &&& e@.at() == cursor
                },
            },
    ;
}

/// Parses exactly the next `T::size()` tokens as the marker, leaving the
/// caller's position untouched; on success returns the position after it.
pub fn lookahead<T: LookaheadToken>(tokens: &Vec<Token>, cursor: usize) -> (r: Result<(T, usize), ParseError>)
    requires
        cursor <= tokens.len(),
    ensures
        ({
            let expected = lookahead_outcome::<T>(trees(tokens@), cursor as int);
            match r {
                Ok((v, next)) => expected == Ok::<(T, int), Fault>((v, next as int)),
                Err(e) => expected == Err::<(T, int), Fault>(e@),
            }
        }),
{
    proof {
        crate::token::lemma_trees(tokens@);
    }
    let size = T::size();
    let taken = |i: usize| -> (b: bool)
        requires
            cursor <= i,
        ensures
            b == (i - cursor < size),
        { i - cursor < size };
    let (span, next) = match accumulate_while(tokens, cursor, taken) {
        Ok(p) => p,
        Err(e) => {
            assert(taken.ensures((tokens.len(),), true));
            return Err(e);
        },
    };
    if next > cursor + size {
        assert(taken.ensures(((cursor + size) as usize,), true));
    }
    assert(next == cursor + size);
    proof {
        crate::token::lemma_trees_subrange(tokens@, cursor as int, next as int);
        assert(trees(span@).skip(0) =~= trees(span@));
    }
    match T::parse(&span, 0) {
        Ok((v, _)) => Ok((v, next)),
        Err(e) => {
            proof {
                crate::error::lemma_shift(
                    T::recognize(trees(span@).skip(0))->Err_0,
                    0,
                    cursor as int,
                );
            }
            Err(e.shift(cursor))
        },
    }
}

} // verus!
