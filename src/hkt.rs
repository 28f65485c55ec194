use vstd::prelude::*;

verus! {

/// Emulates a Higher-Kinded Type of arity 1: `Self` is a type constructor
/// applied to `A`.
pub trait HKT1 {
    type A;
}

/// The type constructor of `Self`, applied to `T1` instead.
pub trait With1<T1>: HKT1 {
    type With: HKT1<A = T1>;
}

/// Emulates a Higher-Kinded Type of arity 2: `Self` is a type constructor
/// applied to `A`, `B`.
pub trait HKT2 {
    type A;
    type B;
}

/// The type constructor of `Self`, applied to `T1`, `T2` instead.
pub trait With2<T1, T2>: HKT2 {
    type With: HKT2<A = T1, B = T2>;
}

/// Emulates a Higher-Kinded Type of arity 3: `Self` is a type constructor
/// applied to `A`, `B`, `C`.
pub trait HKT3 {
    type A;
    type B;
    type C;
}

/// The type constructor of `Self`, applied to `T1`, `T2`, `T3` instead.
pub trait With3<T1, T2, T3>: HKT3 {
    type With: HKT3<A = T1, B = T2, C = T3>;
}

/// Emulates a Higher-Kinded Type of arity 4: `Self` is a type constructor
/// applied to `A`, `B`, `C`, `D`.
pub trait HKT4 {
    type A;
    type B;
    type C;
    type D;
}

/// The type constructor of `Self`, applied to `T1`, `T2`, `T3`, `T4` instead.
pub trait With4<T1, T2, T3, T4>: HKT4 {
    type With: HKT4<A = T1, B = T2, C = T3, D = T4>;
}

/// Emulates a Higher-Kinded Type of arity 5: `Self` is a type constructor
/// applied to `A`, `B`, `C`, `D`, `E`.
pub trait HKT5 {
    type A;
    type B;
    type C;
    type D;
    type E;
}

/// The type constructor of `Self`, applied to `T1`, `T2`, `T3`, `T4`, `T5` instead.
pub trait With5<T1, T2, T3, T4, T5>: HKT5 {
    type With: HKT5<A = T1, B = T2, C = T3, D = T4, E = T5>;
}

} // verus!
