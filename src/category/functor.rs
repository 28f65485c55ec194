use vstd::prelude::*;

use crate::hkt::{With1, HKT1, With2, HKT2, With3, HKT3, With4, HKT4, With5, HKT5};

verus! {

/// A functor of arity 1.
pub trait Functor1<A>: HKT1 + Sized {
    /// Applies a function to the values inside the functor context.
    fn map<X, F>(f: F, fa: <Self as With1<A>>::With) -> <Self as With1<X>>::With where
        Self: With1<A> + With1<X>,
        F: Fn(A) -> X,
    ;
}

/// A functor of arity 2.
pub trait Functor2<A, B>: HKT2 + Sized {
    /// Applies a function to the values at the first position inside the functor context.
    fn map1<X, F>(f: F, fa: <Self as With2<A, B>>::With) -> <Self as With2<X, B>>::With where
        Self: With2<A, B> + With2<X, B>,
        F: Fn(A) -> X,
    ;

    /// Applies a function to the values at the second position inside the functor context.
    fn map2<X, F>(f: F, fa: <Self as With2<A, B>>::With) -> <Self as With2<A, X>>::With where
        Self: With2<A, B> + With2<A, X>,
        F: Fn(B) -> X,
    ;
}

/// A functor of arity 3.
pub trait Functor3<A, B, C>: HKT3 + Sized {
    /// Applies a function to the values at the first position inside the functor context.
    fn map1<X, F>(f: F, fa: <Self as With3<A, B, C>>::With) -> <Self as With3<X, B, C>>::With where
        Self: With3<A, B, C> + With3<X, B, C>,
        F: Fn(A) -> X,
    ;

    /// Applies a function to the values at the second position inside the functor context.
    fn map2<X, F>(f: F, fa: <Self as With3<A, B, C>>::With) -> <Self as With3<A, X, C>>::With where
        Self: With3<A, B, C> + With3<A, X, C>,
        F: Fn(B) -> X,
    ;

    /// Applies a function to the values at the third position inside the functor context.
    fn map3<X, F>(f: F, fa: <Self as With3<A, B, C>>::With) -> <Self as With3<A, B, X>>::With where
        Self: With3<A, B, C> + With3<A, B, X>,
        F: Fn(C) -> X,
    ;
}

/// A functor of arity 4.
pub trait Functor4<A, B, C, D>: HKT4 + Sized {
    /// Applies a function to the values at the first position inside the functor context.
    fn map1<X, F>(f: F, fa: <Self as With4<A, B, C, D>>::With) -> <Self as With4<X, B, C, D>>::With where
        Self: With4<A, B, C, D> + With4<X, B, C, D>,
        F: Fn(A) -> X,
    ;

    /// Applies a function to the values at the second position inside the functor context.
    fn map2<X, F>(f: F, fa: <Self as With4<A, B, C, D>>::With) -> <Self as With4<A, X, C, D>>::With where
        Self: With4<A, B, C, D> + With4<A, X, C, D>,
        F: Fn(B) -> X,
    ;

    /// Applies a function to the values at the third position inside the functor context.
    fn map3<X, F>(f: F, fa: <Self as With4<A, B, C, D>>::With) -> <Self as With4<A, B, X, D>>::With where
        Self: With4<A, B, C, D> + With4<A, B, X, D>,
        F: Fn(C) -> X,
    ;

    /// Applies a function to the values at the fourth position inside the functor context.
    fn map4<X, F>(f: F, fa: <Self as With4<A, B, C, D>>::With) -> <Self as With4<A, B, C, X>>::With where
        Self: With4<A, B, C, D> + With4<A, B, C, X>,
        F: Fn(D) -> X,
    ;
}

/// A functor of arity 5.
pub trait Functor5<A, B, C, D, E>: HKT5 + Sized {
    /// Applies a function to the values at the first position inside the functor context.
    fn map1<X, F>(f: F, fa: <Self as With5<A, B, C, D, E>>::With) -> <Self as With5<X, B, C, D, E>>::With where
        Self: With5<A, B, C, D, E> + With5<X, B, C, D, E>,
        F: Fn(A) -> X,
    ;

    /// Applies a function to the values at the second position inside the functor context.
    fn map2<X, F>(f: F, fa: <Self as With5<A, B, C, D, E>>::With) -> <Self as With5<A, X, C, D, E>>::With where
        Self: With5<A, B, C, D, E> + With5<A, X, C, D, E>,
        F: Fn(B) -> X,
    ;

    /// Applies a function to the values at the third position inside the functor context.
    fn map3<X, F>(f: F, fa: <Self as With5<A, B, C, D, E>>::With) -> <Self as With5<A, B, X, D, E>>::With where
        Self: With5<A, B, C, D, E> + With5<A, B, X, D, E>,
        F: Fn(C) -> X,
    ;

    /// Applies a function to the values at the fourth position inside the functor context.
    fn map4<X, F>(f: F, fa: <Self as With5<A, B, C, D, E>>::With) -> <Self as With5<A, B, C, X, E>>::With where
        Self: With5<A, B, C, D, E> + With5<A, B, C, X, E>,
        F: Fn(D) -> X,
    ;

    /// Applies a function to the values at the fifth position inside the functor context.
    fn map5<X, F>(f: F, fa: <Self as With5<A, B, C, D, E>>::With) -> <Self as With5<A, B, C, D, X>>::With where
        Self: With5<A, B, C, D, E> + With5<A, B, C, D, X>,
        F: Fn(E) -> X,
    ;
}

} // verus!
