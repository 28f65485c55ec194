use vstd::prelude::*;

verus! {

/// An algebraic structure: a set with a closed binary operation.
pub trait Magma: Sized {
    /// A binary operation of form S * S -> S.
    fn op(a: Self, b: Self) -> Self;
}

/// An algebraic structure: a set with a closed associative binary operation.
pub trait Semigroup: Magma {

}

/// An algebraic structure: a set with an identity element.
pub trait ID {
    /// The identity element.
    const ID: Self;
}

/// An algebraic structure: a semigroup with an identity element.
pub trait Monoid: Semigroup + ID {

}

/// An algebraic structure: a monoid in which every element has an inverse.
pub trait Group: Monoid {
    /// The element that, combined with `a` by the monoid's operation, gives
    /// the identity.
    fn inverse(a: Self) -> Self;
}

} // verus!
