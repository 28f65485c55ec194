use vstd::prelude::*;

use crate::hkt::{With1, HKT1, With2, HKT2, With3, HKT3, With4, HKT4, With5, HKT5};

verus! {

/// The operations of an applicative functor of arity 1.
pub trait Apply1<A>: HKT1 + Sized {
    /// Applies a lifted function to the values inside the functor context.
    fn apply<X, F>(f: <Self as With1<F>>::With, fa: <Self as With1<A>>::With) -> <Self as With1<X>>::With where
        Self: With1<F> + With1<A> + With1<X>,
        F: Fn(A) -> X,
    ;

    /// Lifts a value into the functor context.
    fn pure<X>(value: X) -> <Self as With1<X>>::With where Self: With1<X>;
}

/// The operations of an applicative functor of arity 2.
pub trait Apply2<A, B>: HKT2 + Sized {
    /// Applies a lifted function to the values at the first position inside the functor context.
    fn apply1<X, F>(f: <Self as With2<F, B>>::With, fa: <Self as With2<A, B>>::With) -> <Self as With2<X, B>>::With where
        Self: With2<F, B> + With2<A, B> + With2<X, B>,
        F: Fn(A) -> X,
    ;

    /// Applies a lifted function to the values at the second position inside the functor context.
    fn apply2<X, F>(f: <Self as With2<A, F>>::With, fa: <Self as With2<A, B>>::With) -> <Self as With2<A, X>>::With where
        Self: With2<A, F> + With2<A, B> + With2<A, X>,
        F: Fn(B) -> X,
    ;

    /// Lifts a value at the first position into the functor context.
    fn pure1<X>(value: X) -> <Self as With2<X, B>>::With where Self: With2<X, B>;

    /// Lifts a value at the second position into the functor context.
    fn pure2<X>(value: X) -> <Self as With2<A, X>>::With where Self: With2<A, X>;
}

/// The operations of an applicative functor of arity 3.
pub trait Apply3<A, B, C>: HKT3 + Sized {
    /// Applies a lifted function to the values at the first position inside the functor context.
    fn apply1<X, F>(f: <Self as With3<F, B, C>>::With, fa: <Self as With3<A, B, C>>::With) -> <Self as With3<X, B, C>>::With where
        Self: With3<F, B, C> + With3<A, B, C> + With3<X, B, C>,
        F: Fn(A) -> X,
    ;

    /// Applies a lifted function to the values at the second position inside the functor context.
    fn apply2<X, F>(f: <Self as With3<A, F, C>>::With, fa: <Self as With3<A, B, C>>::With) -> <Self as With3<A, X, C>>::With where
        Self: With3<A, F, C> + With3<A, B, C> + With3<A, X, C>,
        F: Fn(B) -> X,
    ;

    /// Applies a lifted function to the values at the third position inside the functor context.
    fn apply3<X, F>(f: <Self as With3<A, B, F>>::With, fa: <Self as With3<A, B, C>>::With) -> <Self as With3<A, B, X>>::With where
        Self: With3<A, B, F> + With3<A, B, C> + With3<A, B, X>,
        F: Fn(C) -> X,
    ;

    /// Lifts a value at the first position into the functor context.
    fn pure1<X>(value: X) -> <Self as With3<X, B, C>>::With where Self: With3<X, B, C>;

    /// Lifts a value at the second position into the functor context.
    fn pure2<X>(value: X) -> <Self as With3<A, X, C>>::With where Self: With3<A, X, C>;

    /// Lifts a value at the third position into the functor context.
    fn pure3<X>(value: X) -> <Self as With3<A, B, X>>::With where Self: With3<A, B, X>;
}

/// The operations of an applicative functor of arity 4.
pub trait Apply4<A, B, C, D>: HKT4 + Sized {
    /// Applies a lifted function to the values at the first position inside the functor context.
    fn apply1<X, F>(f: <Self as With4<F, B, C, D>>::With, fa: <Self as With4<A, B, C, D>>::With) -> <Self as With4<X, B, C, D>>::With where
        Self: With4<F, B, C, D> + With4<A, B, C, D> + With4<X, B, C, D>,
        F: Fn(A) -> X,
    ;

    /// Applies a lifted function to the values at the second position inside the functor context.
    fn apply2<X, F>(f: <Self as With4<A, F, C, D>>::With, fa: <Self as With4<A, B, C, D>>::With) -> <Self as With4<A, X, C, D>>::With where
        Self: With4<A, F, C, D> + With4<A, B, C, D> + With4<A, X, C, D>,
        F: Fn(B) -> X,
    ;

    /// Applies a lifted function to the values at the third position inside the functor context.
    fn apply3<X, F>(f: <Self as With4<A, B, F, D>>::With, fa: <Self as With4<A, B, C, D>>::With) -> <Self as With4<A, B, X, D>>::With where
        Self: With4<A, B, F, D> + With4<A, B, C, D> + With4<A, B, X, D>,
        F: Fn(C) -> X,
    ;

    /// Applies a lifted function to the values at the fourth position inside the functor context.
    fn apply4<X, F>(f: <Self as With4<A, B, C, F>>::With, fa: <Self as With4<A, B, C, D>>::With) -> <Self as With4<A, B, C, X>>::With where
        Self: With4<A, B, C, F> + With4<A, B, C, D> + With4<A, B, C, X>,
        F: Fn(D) -> X,
    ;

    /// Lifts a value at the first position into the functor context.
    fn pure1<X>(value: X) -> <Self as With4<X, B, C, D>>::With where Self: With4<X, B, C, D>;

    /// Lifts a value at the second position into the functor context.
    fn pure2<X>(value: X) -> <Self as With4<A, X, C, D>>::With where Self: With4<A, X, C, D>;

    /// Lifts a value at the third position into the functor context.
    fn pure3<X>(value: X) -> <Self as With4<A, B, X, D>>::With where Self: With4<A, B, X, D>;

    /// Lifts a value at the fourth position into the functor context.
    fn pure4<X>(value: X) -> <Self as With4<A, B, C, X>>::With where Self: With4<A, B, C, X>;
}

/// The operations of an applicative functor of arity 5.
pub trait Apply5<A, B, C, D, E>: HKT5 + Sized {
    /// Applies a lifted function to the values at the first position inside the functor context.
    fn apply1<X, F>(f: <Self as With5<F, B, C, D, E>>::With, fa: <Self as With5<A, B, C, D, E>>::With) -> <Self as With5<X, B, C, D, E>>::With where
        Self: With5<F, B, C, D, E> + With5<A, B, C, D, E> + With5<X, B, C, D, E>,
        F: Fn(A) -> X,
    ;

    /// Applies a lifted function to the values at the second position inside the functor context.
    fn apply2<X, F>(f: <Self as With5<A, F, C, D, E>>::With, fa: <Self as With5<A, B, C, D, E>>::With) -> <Self as With5<A, X, C, D, E>>::With where
        Self: With5<A, F, C, D, E> + With5<A, B, C, D, E> + With5<A, X, C, D, E>,
        F: Fn(B) -> X,
    ;

    /// Applies a lifted function to the values at the third position inside the functor context.
    fn apply3<X, F>(f: <Self as With5<A, B, F, D, E>>::With, fa: <Self as With5<A, B, C, D, E>>::With) -> <Self as With5<A, B, X, D, E>>::With where
        Self: With5<A, B, F, D, E> + With5<A, B, C, D, E> + With5<A, B, X, D, E>,
        F: Fn(C) -> X,
    ;

    /// Applies a lifted function to the values at the fourth position inside the functor context.
    fn apply4<X, F>(f: <Self as With5<A, B, C, F, E>>::With, fa: <Self as With5<A, B, C, D, E>>::With) -> <Self as With5<A, B, C, X, E>>::With where
        Self: With5<A, B, C, F, E> + With5<A, B, C, D, E> + With5<A, B, C, X, E>,
        F: Fn(D) -> X,
    ;

    /// Applies a lifted function to the values at the fifth position inside the functor context.
    fn apply5<X, F>(f: <Self as With5<A, B, C, D, F>>::With, fa: <Self as With5<A, B, C, D, E>>::With) -> <Self as With5<A, B, C, D, X>>::With where
        Self: With5<A, B, C, D, F> + With5<A, B, C, D, E> + With5<A, B, C, D, X>,
        F: Fn(E) -> X,
    ;

    /// Lifts a value at the first position into the functor context.
    fn pure1<X>(value: X) -> <Self as With5<X, B, C, D, E>>::With where Self: With5<X, B, C, D, E>;

    /// Lifts a value at the second position into the functor context.
    fn pure2<X>(value: X) -> <Self as With5<A, X, C, D, E>>::With where Self: With5<A, X, C, D, E>;

    /// Lifts a value at the third position into the functor context.
    fn pure3<X>(value: X) -> <Self as With5<A, B, X, D, E>>::With where Self: With5<A, B, X, D, E>;

    /// Lifts a value at the fourth position into the functor context.
    fn pure4<X>(value: X) -> <Self as With5<A, B, C, X, E>>::With where Self: With5<A, B, C, X, E>;

    /// Lifts a value at the fifth position into the functor context.
    fn pure5<X>(value: X) -> <Self as With5<A, B, C, D, X>>::With where Self: With5<A, B, C, D, X>;
}

} // verus!
